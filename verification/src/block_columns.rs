//! Blocks: their columns and the rows that fill them.
use vstd::prelude::*;
use crate::columns::{
    add_bytes, add_opt_bytes, add_opt_u32, add_opt_u64, add_repeated, add_repeated_u64, add_u32,
    as_long, grown, laid_out, lemma_laid_out_fits, lemma_lay_out, lemma_lay_out_bytes, opt_array,
    opt_as_u32, opt_as_u64, opt_fits_u64, opt_to_vec, opt_to_vec_u8, opt_u32, opt_u64, push_bytes,
    push_opt_bytes, repeated, wants_data, with_bytes, with_values,
};
use crate::errors::CollectError;
use crate::frame::{
    arranged, can_arrange, columns_of, fits, frame_columns, height, make_frame, named, present,
    Column, Values,
};
use crate::numbers::{opt_big_endian, u64_as_u32, U256};
use crate::records::Block;
use crate::schema::Table;
use crate::text::{byte_strings, mark, opt_byte_strings};

verus! {

/// Columns of block data, one entry per row in each column that is wanted.
#[derive(Debug)]
pub struct BlockColumns {
    /// Column `hash`.
    pub hash: Vec<Vec<u8>>,
    /// Column `parent_hash`.
    pub parent_hash: Vec<Vec<u8>>,
    /// Column `author`.
    pub author: Vec<Vec<u8>>,
    /// Column `state_root`.
    pub state_root: Vec<Vec<u8>>,
    /// Column `transactions_root`.
    pub transactions_root: Vec<Vec<u8>>,
    /// Column `receipts_root`.
    pub receipts_root: Vec<Vec<u8>>,
    /// Column `number`.
    pub number: Vec<u32>,
    /// Column `gas_used`.
    pub gas_used: Vec<u32>,
    /// Column `extra_data`.
    pub extra_data: Vec<Vec<u8>>,
    /// Column `logs_bloom`.
    pub logs_bloom: Vec<Option<Vec<u8>>>,
    /// Column `timestamp`.
    pub timestamp: Vec<u32>,
    /// Column `total_difficulty`.
    pub total_difficulty: Vec<Option<Vec<u8>>>,
    /// Column `size`.
    pub size: Vec<Option<u32>>,
    /// Column `base_fee_per_gas`.
    pub base_fee_per_gas: Vec<Option<u64>>,
}

/// What block columns hold.
#[verifier::ext_equal]
pub struct BlockRows {
    /// Column `hash`.
    pub hash: Seq<Seq<u8>>,
    /// Column `parent_hash`.
    pub parent_hash: Seq<Seq<u8>>,
    /// Column `author`.
    pub author: Seq<Seq<u8>>,
    /// Column `state_root`.
    pub state_root: Seq<Seq<u8>>,
    /// Column `transactions_root`.
    pub transactions_root: Seq<Seq<u8>>,
    /// Column `receipts_root`.
    pub receipts_root: Seq<Seq<u8>>,
    /// Column `number`.
    pub number: Seq<u32>,
    /// Column `gas_used`.
    pub gas_used: Seq<u32>,
    /// Column `extra_data`.
    pub extra_data: Seq<Seq<u8>>,
    /// Column `logs_bloom`.
    pub logs_bloom: Seq<Option<Seq<u8>>>,
    /// Column `timestamp`.
    pub timestamp: Seq<u32>,
    /// Column `total_difficulty`.
    pub total_difficulty: Seq<Option<Seq<u8>>>,
    /// Column `size`.
    pub size: Seq<Option<u32>>,
    /// Column `base_fee_per_gas`.
    pub base_fee_per_gas: Seq<Option<u64>>,
}

impl View for BlockColumns {
    type V = BlockRows;

    open spec fn view(&self) -> BlockRows {
        BlockRows {
            hash: byte_strings(self.hash@),
            parent_hash: byte_strings(self.parent_hash@),
            author: byte_strings(self.author@),
            state_root: byte_strings(self.state_root@),
            transactions_root: byte_strings(self.transactions_root@),
            receipts_root: byte_strings(self.receipts_root@),
            number: self.number@,
            gas_used: self.gas_used@,
            extra_data: byte_strings(self.extra_data@),
            logs_bloom: opt_byte_strings(self.logs_bloom@),
            timestamp: self.timestamp@,
            total_difficulty: opt_byte_strings(self.total_difficulty@),
            size: self.size@,
            base_fee_per_gas: self.base_fee_per_gas@,
        }
    }
}

impl BlockRows {
    /// No rows at all.
    pub open spec fn none() -> BlockRows {
        BlockRows {
            hash: seq![],
            parent_hash: seq![],
            author: seq![],
            state_root: seq![],
            transactions_root: seq![],
            receipts_root: seq![],
            number: seq![],
            gas_used: seq![],
            extra_data: seq![],
            logs_bloom: seq![],
            timestamp: seq![],
            total_difficulty: seq![],
            size: seq![],
            base_fee_per_gas: seq![],
        }
    }
}

/// The block has what the wanted columns need: it is not pending, as far as that matters.
pub open spec fn complete<TX>(block: Block<TX>, schema: Table) -> bool {
    &&& schema.has("hash"@) ==> block.hash is Some
    &&& schema.has("author"@) ==> block.author is Some
    &&& schema.has("number"@) ==> block.number is Some
}

/// The block has what the wanted columns need, in numbers that the columns can hold.
pub open spec fn block_fits<TX>(block: Block<TX>, schema: Table) -> bool {
    &&& complete(block, schema)
    &&& schema.has("number"@) ==> block.number->0 <= u32::MAX
    &&& schema.has("gas_used"@) ==> block.gas_used.value() <= u32::MAX
    &&& schema.has("timestamp"@) ==> block.timestamp.value() <= u32::MAX
    &&& schema.has("size"@) ==> (block.size matches Some(n) ==> n.value() <= u32::MAX)
    &&& schema.has("base_fee_per_gas"@) ==> (block.base_fee_per_gas matches Some(n) ==> n.value()
        <= u64::MAX)
}

/// The rows with that of one more block, in the columns that the schema has.
pub open spec fn block_row<TX>(rows: BlockRows, block: Block<TX>, schema: Table) -> BlockRows {
    BlockRows {
        hash: grown(rows.hash, schema.has("hash"@), block.hash->0@),
        parent_hash: grown(rows.parent_hash, schema.has("parent_hash"@), block.parent_hash@),
        author: grown(rows.author, schema.has("author"@), block.author->0@),
        state_root: grown(rows.state_root, schema.has("state_root"@), block.state_root@),
        transactions_root: grown(
            rows.transactions_root,
            schema.has("transactions_root"@),
            block.transactions_root@,
        ),
        receipts_root: grown(
            rows.receipts_root,
            schema.has("receipts_root"@),
            block.receipts_root@,
        ),
        number: grown(rows.number, schema.has("number"@), block.number->0 as u32),
        gas_used: grown(rows.gas_used, schema.has("gas_used"@), block.gas_used.value() as u32),
        extra_data: grown(rows.extra_data, schema.has("extra_data"@), block.extra_data@),
        logs_bloom: grown(rows.logs_bloom, schema.has("logs_bloom"@), opt_array(block.logs_bloom)),
        timestamp: grown(rows.timestamp, schema.has("timestamp"@), block.timestamp.value() as u32),
        total_difficulty: grown(
            rows.total_difficulty,
            schema.has("total_difficulty"@),
            opt_big_endian(block.total_difficulty),
        ),
        size: grown(rows.size, schema.has("size"@), opt_u32(block.size)),
        base_fee_per_gas: grown(
            rows.base_fee_per_gas,
            schema.has("base_fee_per_gas"@),
            opt_u64(block.base_fee_per_gas),
        ),
    }
}

/// Row `i` of the wanted columns is that of the block.
pub open spec fn block_row_at<TX>(
    rows: BlockRows,
    i: int,
    block: Block<TX>,
    schema: Table,
) -> bool {
    &&& schema.has("hash"@) ==> rows.hash[i] == block.hash->0@
    &&& schema.has("parent_hash"@) ==> rows.parent_hash[i] == block.parent_hash@
    &&& schema.has("author"@) ==> rows.author[i] == block.author->0@
    &&& schema.has("state_root"@) ==> rows.state_root[i] == block.state_root@
    &&& schema.has("transactions_root"@) ==> rows.transactions_root[i] == block.transactions_root@
    &&& schema.has("receipts_root"@) ==> rows.receipts_root[i] == block.receipts_root@
    &&& schema.has("number"@) ==> rows.number[i] == block.number->0 as u32
    &&& schema.has("gas_used"@) ==> rows.gas_used[i] == block.gas_used.value() as u32
    &&& schema.has("extra_data"@) ==> rows.extra_data[i] == block.extra_data@
    &&& schema.has("logs_bloom"@) ==> rows.logs_bloom[i] == opt_array(block.logs_bloom)
    &&& schema.has("timestamp"@) ==> rows.timestamp[i] == block.timestamp.value() as u32
    &&& schema.has("total_difficulty"@)
        ==> rows.total_difficulty[i] == opt_big_endian(block.total_difficulty)
    &&& schema.has("size"@) ==> rows.size[i] == opt_u32(block.size)
    &&& schema.has("base_fee_per_gas"@)
        ==> rows.base_fee_per_gas[i] == opt_u64(block.base_fee_per_gas)
}

/// The columns of a block table, in order: those that the schema has.
pub open spec fn block_table(
    rows: BlockRows,
    schema: Table,
    chain_id: u64,
    n_rows: nat,
) -> Seq<Column> {
    let t = with_values(
        seq![],
        schema,
        "_stream_type"@,
        Values::Text(present(repeated("block"@, rows.hash.len()))),
    );
    let t = with_bytes(t, schema, "hash"@, present(rows.hash));
    let t = with_bytes(t, schema, "parent_hash"@, present(rows.parent_hash));
    let t = with_bytes(t, schema, "author"@, present(rows.author));
    let t = with_bytes(t, schema, "state_root"@, present(rows.state_root));
    let t = with_bytes(t, schema, "transactions_root"@, present(rows.transactions_root));
    let t = with_bytes(t, schema, "receipts_root"@, present(rows.receipts_root));
    let t = with_values(t, schema, "number"@, Values::UInt32(present(rows.number)));
    let t = with_values(t, schema, "gas_used"@, Values::UInt32(present(rows.gas_used)));
    let t = with_bytes(t, schema, "extra_data"@, present(rows.extra_data));
    let t = with_bytes(t, schema, "logs_bloom"@, rows.logs_bloom);
    let t = with_values(t, schema, "timestamp"@, Values::UInt32(present(rows.timestamp)));
    let t = with_bytes(t, schema, "total_difficulty"@, rows.total_difficulty);
    let t = with_values(t, schema, "size"@, Values::UInt32(rows.size));
    let t = with_values(t, schema, "base_fee_per_gas"@, Values::UInt64(rows.base_fee_per_gas));
    with_values(t, schema, "chain_id"@, Values::UInt64(present(repeated(chain_id, n_rows))))
}

/// Each wanted column is short enough for its rows to be counted.
pub open spec fn block_table_countable(rows: BlockRows, schema: Table, n_rows: nat) -> bool {
    &&& schema.has("_stream_type"@) ==> rows.hash.len() < u32::MAX
    &&& schema.has("hash"@) ==> rows.hash.len() < u32::MAX
    &&& schema.has("parent_hash"@) ==> rows.parent_hash.len() < u32::MAX
    &&& schema.has("author"@) ==> rows.author.len() < u32::MAX
    &&& schema.has("state_root"@) ==> rows.state_root.len() < u32::MAX
    &&& schema.has("transactions_root"@) ==> rows.transactions_root.len() < u32::MAX
    &&& schema.has("receipts_root"@) ==> rows.receipts_root.len() < u32::MAX
    &&& schema.has("number"@) ==> rows.number.len() < u32::MAX
    &&& schema.has("gas_used"@) ==> rows.gas_used.len() < u32::MAX
    &&& schema.has("extra_data"@) ==> rows.extra_data.len() < u32::MAX
    &&& schema.has("logs_bloom"@) ==> rows.logs_bloom.len() < u32::MAX
    &&& schema.has("timestamp"@) ==> rows.timestamp.len() < u32::MAX
    &&& schema.has("total_difficulty"@) ==> rows.total_difficulty.len() < u32::MAX
    &&& schema.has("size"@) ==> rows.size.len() < u32::MAX
    &&& schema.has("base_fee_per_gas"@) ==> rows.base_fee_per_gas.len() < u32::MAX
    &&& schema.has("chain_id"@) ==> n_rows < u32::MAX
}

impl BlockColumns {
    /// Makes empty columns with room for `n` rows, as far as there can be that much room: an entry
    /// takes up to 24 bytes.
    pub fn new(n: usize) -> (r: Self)
        requires
            24 * n <= isize::MAX,
        ensures
            r@ == BlockRows::none(),
    {
        let columns = Self {
            hash: Vec::with_capacity(n),
            parent_hash: Vec::with_capacity(n),
            author: Vec::with_capacity(n),
            state_root: Vec::with_capacity(n),
            transactions_root: Vec::with_capacity(n),
            receipts_root: Vec::with_capacity(n),
            number: Vec::with_capacity(n),
            gas_used: Vec::with_capacity(n),
            extra_data: Vec::with_capacity(n),
            logs_bloom: Vec::with_capacity(n),
            timestamp: Vec::with_capacity(n),
            total_difficulty: Vec::with_capacity(n),
            size: Vec::with_capacity(n),
            base_fee_per_gas: Vec::with_capacity(n),
        };
        assert(columns@ =~= BlockRows::none());
        columns
    }

    /// Makes the table of the columns that the schema asks for, sorted as the schema asks.
    pub fn create_df(self, schema: &Table, chain_id: u64, n_rows: u64) -> (r: Result<
        polars::prelude::DataFrame,
        CollectError,
    >)
        requires
            block_table_countable(self@, *schema, n_rows as nat),
            schema.sort_columns matches Some(names) ==> names@.len() > 0,
        ensures
            r is Ok <==> can_arrange(
                block_table(self@, *schema, chain_id, n_rows as nat),
                schema.sort_key(),
            ),
            match r {
                Ok(frame) => arranged(
                    block_table(self@, *schema, chain_id, n_rows as nat),
                    schema.sort_key(),
                    frame_columns(frame),
                ),
                Err(e) => e is PolarsError,
            },
    {
        let mut cols: Vec<polars::prelude::Series> = Vec::new();
        assert(columns_of(cols@) =~= seq![]);
        add_repeated(&mut cols, "_stream_type", "block", self.hash.len(), schema);
        add_bytes(&mut cols, "hash", self.hash, schema);
        add_bytes(&mut cols, "parent_hash", self.parent_hash, schema);
        add_bytes(&mut cols, "author", self.author, schema);
        add_bytes(&mut cols, "state_root", self.state_root, schema);
        add_bytes(&mut cols, "transactions_root", self.transactions_root, schema);
        add_bytes(&mut cols, "receipts_root", self.receipts_root, schema);
        add_u32(&mut cols, "number", self.number, schema);
        add_u32(&mut cols, "gas_used", self.gas_used, schema);
        add_bytes(&mut cols, "extra_data", self.extra_data, schema);
        add_opt_bytes(&mut cols, "logs_bloom", self.logs_bloom, schema);
        add_u32(&mut cols, "timestamp", self.timestamp, schema);
        add_opt_bytes(&mut cols, "total_difficulty", self.total_difficulty, schema);
        add_opt_u32(&mut cols, "size", self.size, schema);
        add_opt_u64(&mut cols, "base_fee_per_gas", self.base_fee_per_gas, schema);
        add_repeated_u64(&mut cols, "chain_id", chain_id, n_rows, schema);
        assert(columns_of(cols@) == block_table(self@, *schema, chain_id, n_rows as nat));
        make_frame(cols, &schema.sort_columns)
    }
}

/// Tells whether an optional number fits in 32 bits, or is missing.
fn opt_fits_u32(number: &Option<U256>) -> (r: bool)
    ensures
        r == (number matches Some(n) ==> n.value() <= u32::MAX),
{
    match number {
        Some(n) => n.fits_u32(),
        None => true,
    }
}

/// Tells whether the block has what the wanted columns need.
pub fn is_complete<TX>(block: &Block<TX>, schema: &Table) -> (r: bool)
    ensures
        r == complete(*block, *schema),
{
    (!schema.has_column("hash") || block.hash.is_some()) && (!schema.has_column("author")
        || block.author.is_some()) && (!schema.has_column("number") || block.number.is_some())
}

/// Tells whether the block has what the wanted columns need, in numbers that they can hold.
pub fn block_in_range<TX>(block: &Block<TX>, schema: &Table) -> (r: bool)
    ensures
        r == block_fits(*block, *schema),
{
    let number_fits = match block.number {
        Some(n) => n <= u32::MAX as u64,
        None => false,
    };
    is_complete(block, schema) && (!schema.has_column("number") || number_fits) && (
    !schema.has_column("gas_used") || block.gas_used.fits_u32()) && (!schema.has_column("timestamp")
        || block.timestamp.fits_u32()) && (!schema.has_column("size") || opt_fits_u32(&block.size))
        && (!schema.has_column("base_fee_per_gas") || opt_fits_u64(&block.base_fee_per_gas))
}

/// Appends the row of a block to the columns that the schema has.
pub fn process_block<TX>(block: &Block<TX>, schema: &Table, columns: &mut BlockColumns)
    requires
        block_fits(*block, *schema),
    ensures
        final(columns)@ == block_row(old(columns)@, *block, *schema),
{
    if schema.has_column("hash") {
        if let Some(hash) = &block.hash {
            push_bytes(&mut columns.hash, hash.as_slice());
        }
    }
    if schema.has_column("parent_hash") {
        push_bytes(&mut columns.parent_hash, block.parent_hash.as_slice());
    }
    if schema.has_column("author") {
        if let Some(author) = &block.author {
            push_bytes(&mut columns.author, author.as_slice());
        }
    }
    if schema.has_column("state_root") {
        push_bytes(&mut columns.state_root, block.state_root.as_slice());
    }
    if schema.has_column("transactions_root") {
        push_bytes(&mut columns.transactions_root, block.transactions_root.as_slice());
    }
    if schema.has_column("receipts_root") {
        push_bytes(&mut columns.receipts_root, block.receipts_root.as_slice());
    }
    if schema.has_column("number") {
        if let Some(number) = &block.number {
            columns.number.push(u64_as_u32(*number));
        }
    }
    if schema.has_column("gas_used") {
        columns.gas_used.push(block.gas_used.as_u32());
    }
    if schema.has_column("extra_data") {
        push_bytes(&mut columns.extra_data, block.extra_data.as_slice());
    }
    if schema.has_column("logs_bloom") {
        push_opt_bytes(&mut columns.logs_bloom, opt_to_vec(&block.logs_bloom));
    }
    if schema.has_column("timestamp") {
        columns.timestamp.push(block.timestamp.as_u32());
    }
    if schema.has_column("total_difficulty") {
        push_opt_bytes(&mut columns.total_difficulty, opt_to_vec_u8(&block.total_difficulty));
    }
    if schema.has_column("size") {
        columns.size.push(opt_as_u32(&block.size));
    }
    if schema.has_column("base_fee_per_gas") {
        columns.base_fee_per_gas.push(opt_as_u64(&block.base_fee_per_gas));
    }
}

/// The names of the columns that a block table can have, in order.
pub open spec fn block_names() -> Seq<Seq<char>> {
    seq![
        "_stream_type"@,
        "hash"@,
        "parent_hash"@,
        "author"@,
        "state_root"@,
        "transactions_root"@,
        "receipts_root"@,
        "number"@,
        "gas_used"@,
        "extra_data"@,
        "logs_bloom"@,
        "timestamp"@,
        "total_difficulty"@,
        "size"@,
        "base_fee_per_gas"@,
        "chain_id"@,
    ]
}

/// The lengths of the columns that a block table can have, in order.
pub open spec fn block_lengths(rows: BlockRows, n_rows: nat) -> Seq<nat> {
    seq![
        rows.hash.len(),
        rows.hash.len(),
        rows.parent_hash.len(),
        rows.author.len(),
        rows.state_root.len(),
        rows.transactions_root.len(),
        rows.receipts_root.len(),
        rows.number.len(),
        rows.gas_used.len(),
        rows.extra_data.len(),
        rows.logs_bloom.len(),
        rows.timestamp.len(),
        rows.total_difficulty.len(),
        rows.size.len(),
        rows.base_fee_per_gas.len(),
        n_rows,
    ]
}

/// The names differ.
pub(crate) proof fn lemma_block_names_differ()
    ensures
        block_names().no_duplicates(),
{
    let names = block_names();
    reveal_strlit("_stream_type");
    reveal_strlit("hash");
    reveal_strlit("parent_hash");
    reveal_strlit("author");
    reveal_strlit("state_root");
    reveal_strlit("transactions_root");
    reveal_strlit("receipts_root");
    reveal_strlit("number");
    reveal_strlit("gas_used");
    reveal_strlit("extra_data");
    reveal_strlit("logs_bloom");
    reveal_strlit("timestamp");
    reveal_strlit("total_difficulty");
    reveal_strlit("size");
    reveal_strlit("base_fee_per_gas");
    reveal_strlit("chain_id");
    assert(mark(names[0]) == (12nat, '_', 'e'));
    assert(mark(names[1]) == (4nat, 'h', 'h'));
    assert(mark(names[2]) == (11nat, 'p', 'h'));
    assert(mark(names[3]) == (6nat, 'a', 'r'));
    assert(mark(names[4]) == (10nat, 's', 't'));
    assert(mark(names[5]) == (17nat, 't', 't'));
    assert(mark(names[6]) == (13nat, 'r', 't'));
    assert(mark(names[7]) == (6nat, 'n', 'r'));
    assert(mark(names[8]) == (8nat, 'g', 'd'));
    assert(mark(names[9]) == (10nat, 'e', 'a'));
    assert(mark(names[10]) == (10nat, 'l', 'm'));
    assert(mark(names[11]) == (9nat, 't', 'p'));
    assert(mark(names[12]) == (16nat, 't', 'y'));
    assert(mark(names[13]) == (4nat, 's', 'e'));
    assert(mark(names[14]) == (16nat, 'b', 's'));
    assert(mark(names[15]) == (8nat, 'c', 'd'));
}

/// A block table has the wanted columns, each of the length that was gathered for it.
proof fn lemma_block_table(rows: BlockRows, schema: Table, chain_id: u64, n_rows: nat)
    ensures
        block_names().no_duplicates(),
        laid_out(
            block_table(rows, schema, chain_id, n_rows),
            block_names(),
            block_lengths(rows, n_rows),
            16,
            schema,
        ),
{
    lemma_block_names_differ();
    let names = block_names();
    let lengths = block_lengths(rows, n_rows);
    let v = Values::Text(present(repeated("block"@, rows.hash.len())));
    lemma_lay_out(seq![], names, lengths, 0, schema, v);
    let t = with_values(seq![], schema, "_stream_type"@, v);
    lemma_lay_out_bytes(t, names, lengths, 1, schema, present(rows.hash));
    let t = with_bytes(t, schema, "hash"@, present(rows.hash));
    lemma_lay_out_bytes(t, names, lengths, 2, schema, present(rows.parent_hash));
    let t = with_bytes(t, schema, "parent_hash"@, present(rows.parent_hash));
    lemma_lay_out_bytes(t, names, lengths, 3, schema, present(rows.author));
    let t = with_bytes(t, schema, "author"@, present(rows.author));
    lemma_lay_out_bytes(t, names, lengths, 4, schema, present(rows.state_root));
    let t = with_bytes(t, schema, "state_root"@, present(rows.state_root));
    lemma_lay_out_bytes(t, names, lengths, 5, schema, present(rows.transactions_root));
    let t = with_bytes(t, schema, "transactions_root"@, present(rows.transactions_root));
    lemma_lay_out_bytes(t, names, lengths, 6, schema, present(rows.receipts_root));
    let t = with_bytes(t, schema, "receipts_root"@, present(rows.receipts_root));
    lemma_lay_out(t, names, lengths, 7, schema, Values::UInt32(present(rows.number)));
    let t = with_values(t, schema, "number"@, Values::UInt32(present(rows.number)));
    lemma_lay_out(t, names, lengths, 8, schema, Values::UInt32(present(rows.gas_used)));
    let t = with_values(t, schema, "gas_used"@, Values::UInt32(present(rows.gas_used)));
    lemma_lay_out_bytes(t, names, lengths, 9, schema, present(rows.extra_data));
    let t = with_bytes(t, schema, "extra_data"@, present(rows.extra_data));
    lemma_lay_out_bytes(t, names, lengths, 10, schema, rows.logs_bloom);
    let t = with_bytes(t, schema, "logs_bloom"@, rows.logs_bloom);
    lemma_lay_out(t, names, lengths, 11, schema, Values::UInt32(present(rows.timestamp)));
    let t = with_values(t, schema, "timestamp"@, Values::UInt32(present(rows.timestamp)));
    lemma_lay_out_bytes(t, names, lengths, 12, schema, rows.total_difficulty);
    let t = with_bytes(t, schema, "total_difficulty"@, rows.total_difficulty);
    lemma_lay_out(t, names, lengths, 13, schema, Values::UInt32(rows.size));
    let t = with_values(t, schema, "size"@, Values::UInt32(rows.size));
    lemma_lay_out(t, names, lengths, 14, schema, Values::UInt64(rows.base_fee_per_gas));
    let t = with_values(t, schema, "base_fee_per_gas"@, Values::UInt64(rows.base_fee_per_gas));
    let v = Values::UInt64(present(repeated(chain_id, n_rows)));
    lemma_lay_out(t, names, lengths, 15, schema, v);
}

/// Each wanted column has `n` entries, and the others have none.
pub open spec fn block_rows_aligned(rows: BlockRows, schema: Table, n: nat) -> bool {
    &&& as_long(rows.hash, schema.has("hash"@), n)
    &&& as_long(rows.parent_hash, schema.has("parent_hash"@), n)
    &&& as_long(rows.author, schema.has("author"@), n)
    &&& as_long(rows.state_root, schema.has("state_root"@), n)
    &&& as_long(rows.transactions_root, schema.has("transactions_root"@), n)
    &&& as_long(rows.receipts_root, schema.has("receipts_root"@), n)
    &&& as_long(rows.number, schema.has("number"@), n)
    &&& as_long(rows.gas_used, schema.has("gas_used"@), n)
    &&& as_long(rows.extra_data, schema.has("extra_data"@), n)
    &&& as_long(rows.logs_bloom, schema.has("logs_bloom"@), n)
    &&& as_long(rows.timestamp, schema.has("timestamp"@), n)
    &&& as_long(rows.total_difficulty, schema.has("total_difficulty"@), n)
    &&& as_long(rows.size, schema.has("size"@), n)
    &&& as_long(rows.base_fee_per_gas, schema.has("base_fee_per_gas"@), n)
}

/// Without rows the columns are aligned, and a block adds one entry to each wanted column and
/// none to the others.
pub proof fn law_block_row_keeps_alignment<TX>(
    rows: BlockRows,
    block: Block<TX>,
    schema: Table,
    n: nat,
)
    requires
        block_rows_aligned(rows, schema, n),
    ensures
        block_rows_aligned(BlockRows::none(), schema, 0),
        block_rows_aligned(block_row(rows, block, schema), schema, n + 1),
{
}

/// The stream type is as long as column `hash`: where that is not wanted, it stays empty
/// beside the rows of the other columns.
pub open spec fn block_stream_type_misfits(schema: Table, n: nat) -> bool {
    &&& schema.has("_stream_type"@)
    &&& !schema.has("hash"@)
    &&& n > 0
    &&& wants_data(block_names(), schema)
}

/// The table has the wanted columns that there are and no others. Its columns fit side by side
/// unless the stream type misfits, and then each of them has a row for each of the `n` rows that
/// were filled.
pub proof fn law_block_table_fits(rows: BlockRows, schema: Table, chain_id: u64, n: nat)
    requires
        block_rows_aligned(rows, schema, n),
    ensures
        fits(block_table(rows, schema, chain_id, n)) <==> !block_stream_type_misfits(schema, n),
        forall|name: Seq<char>| #[trigger]
            named(block_table(rows, schema, chain_id, n), name) <==> schema.has(name)
                && block_names().contains(name),
        wants_data(block_names(), schema) && fits(block_table(rows, schema, chain_id, n))
            ==> height(block_table(rows, schema, chain_id, n)) == n,
{
    lemma_block_table(rows, schema, chain_id, n);
    let names = block_names();
    let lengths = block_lengths(rows, n);
    assert(names.len() == 16 && lengths.len() == 16);
    assert(names[0] == "_stream_type"@ && names[1] == "hash"@);
    assert(forall|i: int| 1 <= i < 16 && schema.has(#[trigger] names[i]) ==> lengths[i] == n);
    lemma_laid_out_fits(block_table(rows, schema, chain_id, n), names, lengths, schema, n);
}

} // verus!
