//! Transactions: their columns and the rows that fill them.
use vstd::prelude::*;
use crate::columns::{
    add_bytes, add_opt_bytes, add_opt_u32, add_opt_u64, add_repeated, add_repeated_u64, add_text,
    add_u32, add_u64, as_long, grown, laid_out, lemma_laid_out_fits, lemma_lay_out,
    lemma_lay_out_bytes, opt_array, opt_as_u64, opt_fits_u64, opt_to_vec, opt_u64, opt_word_as_u32,
    opt_word_u32, push_bytes, push_opt_bytes, push_text, repeated, wants_data, with_bytes,
    with_values,
};
use crate::errors::CollectError;
use crate::frame::{
    arranged, can_arrange, columns_of, fits, frame_columns, height, make_frame, named, present,
    Column, Values,
};
use crate::records::{Transaction, TxHash};
use crate::schema::Table;
use crate::text::{byte_strings, decimal, mark, opt_byte_strings, texts};

verus! {

/// Columns of transaction data, one entry per row in each column that is wanted.
#[derive(Debug)]
pub struct TransactionColumns {
    /// Column `block_number`.
    pub block_number: Vec<Option<u64>>,
    /// Column `transaction_index`.
    pub transaction_index: Vec<Option<u64>>,
    /// Column `transaction_hash`.
    pub transaction_hash: Vec<Vec<u8>>,
    /// Column `nonce`.
    pub nonce: Vec<u64>,
    /// Column `from_address`.
    pub from_address: Vec<Vec<u8>>,
    /// Column `to_address`.
    pub to_address: Vec<Option<Vec<u8>>>,
    /// Column `value`.
    pub value: Vec<String>,
    /// Column `input`.
    pub input: Vec<Vec<u8>>,
    /// Column `gas_limit`.
    pub gas_limit: Vec<u32>,
    /// Column `gas_used`.
    pub gas_used: Vec<u32>,
    /// Column `gas_price`.
    pub gas_price: Vec<Option<u64>>,
    /// Column `transaction_type`.
    pub transaction_type: Vec<Option<u32>>,
    /// Column `max_priority_fee_per_gas`.
    pub max_priority_fee_per_gas: Vec<Option<u64>>,
    /// Column `max_fee_per_gas`.
    pub max_fee_per_gas: Vec<Option<u64>>,
}

/// What transaction columns hold.
#[verifier::ext_equal]
pub struct TransactionRows {
    /// Column `block_number`.
    pub block_number: Seq<Option<u64>>,
    /// Column `transaction_index`.
    pub transaction_index: Seq<Option<u64>>,
    /// Column `transaction_hash`.
    pub transaction_hash: Seq<Seq<u8>>,
    /// Column `nonce`.
    pub nonce: Seq<u64>,
    /// Column `from_address`.
    pub from_address: Seq<Seq<u8>>,
    /// Column `to_address`.
    pub to_address: Seq<Option<Seq<u8>>>,
    /// Column `value`.
    pub value: Seq<Seq<char>>,
    /// Column `input`.
    pub input: Seq<Seq<u8>>,
    /// Column `gas_limit`.
    pub gas_limit: Seq<u32>,
    /// Column `gas_used`.
    pub gas_used: Seq<u32>,
    /// Column `gas_price`.
    pub gas_price: Seq<Option<u64>>,
    /// Column `transaction_type`.
    pub transaction_type: Seq<Option<u32>>,
    /// Column `max_priority_fee_per_gas`.
    pub max_priority_fee_per_gas: Seq<Option<u64>>,
    /// Column `max_fee_per_gas`.
    pub max_fee_per_gas: Seq<Option<u64>>,
}

impl View for TransactionColumns {
    type V = TransactionRows;

    open spec fn view(&self) -> TransactionRows {
        TransactionRows {
            block_number: self.block_number@,
            transaction_index: self.transaction_index@,
            transaction_hash: byte_strings(self.transaction_hash@),
            nonce: self.nonce@,
            from_address: byte_strings(self.from_address@),
            to_address: opt_byte_strings(self.to_address@),
            value: texts(self.value@),
            input: byte_strings(self.input@),
            gas_limit: self.gas_limit@,
            gas_used: self.gas_used@,
            gas_price: self.gas_price@,
            transaction_type: self.transaction_type@,
            max_priority_fee_per_gas: self.max_priority_fee_per_gas@,
            max_fee_per_gas: self.max_fee_per_gas@,
        }
    }
}

impl TransactionRows {
    /// No rows at all.
    pub open spec fn none() -> TransactionRows {
        TransactionRows {
            block_number: seq![],
            transaction_index: seq![],
            transaction_hash: seq![],
            nonce: seq![],
            from_address: seq![],
            to_address: seq![],
            value: seq![],
            input: seq![],
            gas_limit: seq![],
            gas_used: seq![],
            gas_price: seq![],
            transaction_type: seq![],
            max_priority_fee_per_gas: seq![],
            max_fee_per_gas: seq![],
        }
    }
}

/// The transaction has what the wanted columns need, in numbers that the columns can hold, and
/// the gas that it used is known where it is wanted.
pub open spec fn transaction_fits(tx: Transaction, schema: Table, gas_used: Option<u32>) -> bool {
    &&& schema.has("nonce"@) ==> tx.nonce.value() <= u64::MAX
    &&& schema.has("gas_limit"@) ==> tx.gas.value() <= u32::MAX
    &&& schema.has("gas_used"@) ==> gas_used is Some
    &&& schema.has("gas_price"@) ==> (tx.gas_price matches Some(n) ==> n.value() <= u64::MAX)
    &&& schema.has("transaction_type"@) ==> (tx.transaction_type matches Some(n) ==> n <= u32::MAX)
    &&& schema.has("max_priority_fee_per_gas"@) ==> (
        tx.max_priority_fee_per_gas matches Some(n) ==> n.value() <= u64::MAX)
    &&& schema.has("max_fee_per_gas"@) ==> (tx.max_fee_per_gas matches Some(n) ==> n.value()
        <= u64::MAX)
}

/// The rows with that of one more transaction, in the columns that the schema has.
pub open spec fn transaction_row(
    rows: TransactionRows,
    tx: Transaction,
    schema: Table,
    gas_used: Option<u32>,
) -> TransactionRows {
    TransactionRows {
        block_number: grown(rows.block_number, schema.has("block_number"@), tx.block_number),
        transaction_index: grown(
            rows.transaction_index,
            schema.has("transaction_index"@),
            tx.transaction_index,
        ),
        transaction_hash: grown(rows.transaction_hash, schema.has("transaction_hash"@), tx.hash@),
        nonce: grown(rows.nonce, schema.has("nonce"@), tx.nonce.value() as u64),
        from_address: grown(rows.from_address, schema.has("from_address"@), tx.from@),
        to_address: grown(rows.to_address, schema.has("to_address"@), opt_array(tx.to)),
        value: grown(rows.value, schema.has("value"@), decimal(tx.value.value())),
        input: grown(rows.input, schema.has("input"@), tx.input@),
        gas_limit: grown(rows.gas_limit, schema.has("gas_limit"@), tx.gas.value() as u32),
        gas_used: grown(rows.gas_used, schema.has("gas_used"@), gas_used->0),
        gas_price: grown(rows.gas_price, schema.has("gas_price"@), opt_u64(tx.gas_price)),
        transaction_type: grown(
            rows.transaction_type,
            schema.has("transaction_type"@),
            opt_word_u32(tx.transaction_type),
        ),
        max_priority_fee_per_gas: grown(
            rows.max_priority_fee_per_gas,
            schema.has("max_priority_fee_per_gas"@),
            opt_u64(tx.max_priority_fee_per_gas),
        ),
        max_fee_per_gas: grown(
            rows.max_fee_per_gas,
            schema.has("max_fee_per_gas"@),
            opt_u64(tx.max_fee_per_gas),
        ),
    }
}

/// Row `i` of the wanted columns is that of the transaction.
pub open spec fn transaction_row_at(
    rows: TransactionRows,
    i: int,
    tx: Transaction,
    schema: Table,
    gas_used: Option<u32>,
) -> bool {
    &&& schema.has("block_number"@) ==> rows.block_number[i] == tx.block_number
    &&& schema.has("transaction_index"@) ==> rows.transaction_index[i] == tx.transaction_index
    &&& schema.has("transaction_hash"@) ==> rows.transaction_hash[i] == tx.hash@
    &&& schema.has("nonce"@) ==> rows.nonce[i] == tx.nonce.value() as u64
    &&& schema.has("from_address"@) ==> rows.from_address[i] == tx.from@
    &&& schema.has("to_address"@) ==> rows.to_address[i] == opt_array(tx.to)
    &&& schema.has("value"@) ==> rows.value[i] == decimal(tx.value.value())
    &&& schema.has("input"@) ==> rows.input[i] == tx.input@
    &&& schema.has("gas_limit"@) ==> rows.gas_limit[i] == tx.gas.value() as u32
    &&& schema.has("gas_used"@) ==> rows.gas_used[i] == gas_used->0
    &&& schema.has("gas_price"@) ==> rows.gas_price[i] == opt_u64(tx.gas_price)
    &&& schema.has("transaction_type"@)
        ==> rows.transaction_type[i] == opt_word_u32(tx.transaction_type)
    &&& schema.has("max_priority_fee_per_gas"@)
        ==> rows.max_priority_fee_per_gas[i] == opt_u64(tx.max_priority_fee_per_gas)
    &&& schema.has("max_fee_per_gas"@) ==> rows.max_fee_per_gas[i] == opt_u64(tx.max_fee_per_gas)
}

/// The columns of a transaction table, in order: those that the schema has.
pub open spec fn transaction_table(
    rows: TransactionRows,
    schema: Table,
    chain_id: u64,
    n_rows: nat,
) -> Seq<Column> {
    let t = with_values(
        seq![],
        schema,
        "_stream_type"@,
        Values::Text(present(repeated("tx"@, rows.block_number.len()))),
    );
    let t = with_values(t, schema, "block_number"@, Values::UInt64(rows.block_number));
    let t = with_values(t, schema, "transaction_index"@, Values::UInt64(rows.transaction_index));
    let t = with_bytes(t, schema, "transaction_hash"@, present(rows.transaction_hash));
    let t = with_values(t, schema, "nonce"@, Values::UInt64(present(rows.nonce)));
    let t = with_bytes(t, schema, "from_address"@, present(rows.from_address));
    let t = with_bytes(t, schema, "to_address"@, rows.to_address);
    let t = with_values(t, schema, "value"@, Values::Text(present(rows.value)));
    let t = with_bytes(t, schema, "input"@, present(rows.input));
    let t = with_values(t, schema, "gas_limit"@, Values::UInt32(present(rows.gas_limit)));
    let t = with_values(t, schema, "gas_used"@, Values::UInt32(present(rows.gas_used)));
    let t = with_values(t, schema, "gas_price"@, Values::UInt64(rows.gas_price));
    let t = with_values(t, schema, "transaction_type"@, Values::UInt32(rows.transaction_type));
    let t = with_values(
        t,
        schema,
        "max_priority_fee_per_gas"@,
        Values::UInt64(rows.max_priority_fee_per_gas),
    );
    let t = with_values(t, schema, "max_fee_per_gas"@, Values::UInt64(rows.max_fee_per_gas));
    with_values(t, schema, "chain_id"@, Values::UInt64(present(repeated(chain_id, n_rows))))
}

/// Each wanted column is short enough for its rows to be counted.
pub open spec fn transaction_table_countable(
    rows: TransactionRows,
    schema: Table,
    n_rows: nat,
) -> bool {
    &&& schema.has("_stream_type"@) ==> rows.block_number.len() < u32::MAX
    &&& schema.has("block_number"@) ==> rows.block_number.len() < u32::MAX
    &&& schema.has("transaction_index"@) ==> rows.transaction_index.len() < u32::MAX
    &&& schema.has("transaction_hash"@) ==> rows.transaction_hash.len() < u32::MAX
    &&& schema.has("nonce"@) ==> rows.nonce.len() < u32::MAX
    &&& schema.has("from_address"@) ==> rows.from_address.len() < u32::MAX
    &&& schema.has("to_address"@) ==> rows.to_address.len() < u32::MAX
    &&& schema.has("value"@) ==> rows.value.len() < u32::MAX
    &&& schema.has("input"@) ==> rows.input.len() < u32::MAX
    &&& schema.has("gas_limit"@) ==> rows.gas_limit.len() < u32::MAX
    &&& schema.has("gas_used"@) ==> rows.gas_used.len() < u32::MAX
    &&& schema.has("gas_price"@) ==> rows.gas_price.len() < u32::MAX
    &&& schema.has("transaction_type"@) ==> rows.transaction_type.len() < u32::MAX
    &&& schema.has("max_priority_fee_per_gas"@) ==> rows.max_priority_fee_per_gas.len() < u32::MAX
    &&& schema.has("max_fee_per_gas"@) ==> rows.max_fee_per_gas.len() < u32::MAX
    &&& schema.has("chain_id"@) ==> n_rows < u32::MAX
}

impl TransactionColumns {
    /// Makes empty columns with room for `n` rows, as far as there can be that much room: an entry
    /// takes up to 24 bytes.
    pub fn new(n: usize) -> (r: Self)
        requires
            24 * n <= isize::MAX,
        ensures
            r@ == TransactionRows::none(),
    {
        let columns = Self {
            block_number: Vec::with_capacity(n),
            transaction_index: Vec::with_capacity(n),
            transaction_hash: Vec::with_capacity(n),
            nonce: Vec::with_capacity(n),
            from_address: Vec::with_capacity(n),
            to_address: Vec::with_capacity(n),
            value: Vec::with_capacity(n),
            input: Vec::with_capacity(n),
            gas_limit: Vec::with_capacity(n),
            gas_used: Vec::with_capacity(n),
            gas_price: Vec::with_capacity(n),
            transaction_type: Vec::with_capacity(n),
            max_priority_fee_per_gas: Vec::with_capacity(n),
            max_fee_per_gas: Vec::with_capacity(n),
        };
        assert(columns@ =~= TransactionRows::none());
        columns
    }

    /// Makes the table of the columns that the schema asks for, sorted as the schema asks.
    pub fn create_df(self, schema: &Table, chain_id: u64, n_rows: usize) -> (r: Result<
        polars::prelude::DataFrame,
        CollectError,
    >)
        requires
            transaction_table_countable(self@, *schema, n_rows as nat),
            schema.sort_columns matches Some(names) ==> names@.len() > 0,
        ensures
            r is Ok <==> can_arrange(
                transaction_table(self@, *schema, chain_id, n_rows as nat),
                schema.sort_key(),
            ),
            match r {
                Ok(frame) => arranged(
                    transaction_table(self@, *schema, chain_id, n_rows as nat),
                    schema.sort_key(),
                    frame_columns(frame),
                ),
                Err(e) => e is PolarsError,
            },
    {
        let mut cols: Vec<polars::prelude::Series> = Vec::new();
        assert(columns_of(cols@) =~= seq![]);
        add_repeated(&mut cols, "_stream_type", "tx", self.block_number.len(), schema);
        add_opt_u64(&mut cols, "block_number", self.block_number, schema);
        add_opt_u64(&mut cols, "transaction_index", self.transaction_index, schema);
        add_bytes(&mut cols, "transaction_hash", self.transaction_hash, schema);
        add_u64(&mut cols, "nonce", self.nonce, schema);
        add_bytes(&mut cols, "from_address", self.from_address, schema);
        add_opt_bytes(&mut cols, "to_address", self.to_address, schema);
        add_text(&mut cols, "value", self.value, schema);
        add_bytes(&mut cols, "input", self.input, schema);
        add_u32(&mut cols, "gas_limit", self.gas_limit, schema);
        add_u32(&mut cols, "gas_used", self.gas_used, schema);
        add_opt_u64(&mut cols, "gas_price", self.gas_price, schema);
        add_opt_u32(&mut cols, "transaction_type", self.transaction_type, schema);
        add_opt_u64(&mut cols, "max_priority_fee_per_gas", self.max_priority_fee_per_gas, schema);
        add_opt_u64(&mut cols, "max_fee_per_gas", self.max_fee_per_gas, schema);
        add_repeated_u64(&mut cols, "chain_id", chain_id, n_rows as u64, schema);
        assert(columns_of(cols@) == transaction_table(self@, *schema, chain_id, n_rows as nat));
        make_frame(cols, &schema.sort_columns)
    }
}

/// Tells whether the transaction has what the wanted columns need, in numbers that they can hold.
pub fn transaction_in_range(tx: &Transaction, schema: &Table, gas_used: Option<u32>) -> (r: bool)
    ensures
        r == transaction_fits(*tx, *schema, gas_used),
{
    let type_fits = match tx.transaction_type {
        Some(n) => n <= u32::MAX as u64,
        None => true,
    };
    (!schema.has_column("nonce") || tx.nonce.fits_u64()) && (!schema.has_column("gas_limit")
        || tx.gas.fits_u32()) && (!schema.has_column("gas_used") || gas_used.is_some()) && (
    !schema.has_column("gas_price") || opt_fits_u64(&tx.gas_price)) && (!schema.has_column(
        "transaction_type",
    ) || type_fits) && (!schema.has_column("max_priority_fee_per_gas") || opt_fits_u64(
        &tx.max_priority_fee_per_gas,
    )) && (!schema.has_column("max_fee_per_gas") || opt_fits_u64(&tx.max_fee_per_gas))
}

/// Appends the row of a transaction to the columns that the schema has.
pub fn process_transaction(
    tx: &Transaction,
    schema: &Table,
    columns: &mut TransactionColumns,
    gas_used: Option<u32>,
)
    requires
        transaction_fits(*tx, *schema, gas_used),
    ensures
        final(columns)@ == transaction_row(old(columns)@, *tx, *schema, gas_used),
{
    if schema.has_column("block_number") {
        columns.block_number.push(tx.block_number);
    }
    if schema.has_column("transaction_index") {
        columns.transaction_index.push(tx.transaction_index);
    }
    if schema.has_column("transaction_hash") {
        push_bytes(&mut columns.transaction_hash, tx.hash.as_slice());
    }
    if schema.has_column("from_address") {
        push_bytes(&mut columns.from_address, tx.from.as_slice());
    }
    if schema.has_column("to_address") {
        push_opt_bytes(&mut columns.to_address, opt_to_vec(&tx.to));
    }
    if schema.has_column("nonce") {
        columns.nonce.push(tx.nonce.as_u64());
    }
    if schema.has_column("value") {
        push_text(&mut columns.value, tx.value.to_decimal());
    }
    if schema.has_column("input") {
        push_bytes(&mut columns.input, tx.input.as_slice());
    }
    if schema.has_column("gas_limit") {
        columns.gas_limit.push(tx.gas.as_u32());
    }
    if schema.has_column("gas_used") {
        columns.gas_used.push(gas_used.unwrap());
    }
    if schema.has_column("gas_price") {
        columns.gas_price.push(opt_as_u64(&tx.gas_price));
    }
    if schema.has_column("transaction_type") {
        columns.transaction_type.push(opt_word_as_u32(&tx.transaction_type));
    }
    if schema.has_column("max_priority_fee_per_gas") {
        columns.max_priority_fee_per_gas.push(opt_as_u64(&tx.max_priority_fee_per_gas));
    }
    if schema.has_column("max_fee_per_gas") {
        columns.max_fee_per_gas.push(opt_as_u64(&tx.max_fee_per_gas));
    }
}

/// What a block lists as its transactions, and how one of them fills a row.
pub trait ProcessTransactions {
    /// A row can be made of the transaction.
    spec fn processable(&self, schema: Table, gas_used: Option<u32>) -> bool;

    /// The rows with that of this transaction.
    spec fn processed(
        &self,
        rows: TransactionRows,
        schema: Table,
        gas_used: Option<u32>,
    ) -> TransactionRows;

    /// Tells whether a row can be made of the transaction.
    fn can_process(&self, schema: &Table, gas_used: Option<u32>) -> (r: bool)
        ensures
            r == self.processable(*schema, gas_used),
    ;

    /// Appends the row of the transaction to the columns that the schema has.
    fn process(&self, schema: &Table, columns: &mut TransactionColumns, gas_used: Option<u32>)
        requires
            self.processable(*schema, gas_used),
        ensures
            final(columns)@ == self.processed(old(columns)@, *schema, gas_used),
    ;
}

impl ProcessTransactions for TxHash {
    /// Of a transaction that was not fetched no row can be made.
    open spec fn processable(&self, schema: Table, gas_used: Option<u32>) -> bool {
        false
    }

    open spec fn processed(
        &self,
        rows: TransactionRows,
        schema: Table,
        gas_used: Option<u32>,
    ) -> TransactionRows {
        rows
    }

    fn can_process(&self, schema: &Table, gas_used: Option<u32>) -> (r: bool) {
        false
    }

    /// Is never called: there is no transaction data to process.
    fn process(&self, schema: &Table, columns: &mut TransactionColumns, gas_used: Option<u32>) {
    }
}

impl ProcessTransactions for Transaction {
    open spec fn processable(&self, schema: Table, gas_used: Option<u32>) -> bool {
        transaction_fits(*self, schema, gas_used)
    }

    open spec fn processed(
        &self,
        rows: TransactionRows,
        schema: Table,
        gas_used: Option<u32>,
    ) -> TransactionRows {
        transaction_row(rows, *self, schema, gas_used)
    }

    fn can_process(&self, schema: &Table, gas_used: Option<u32>) -> (r: bool) {
        transaction_in_range(self, schema, gas_used)
    }

    fn process(&self, schema: &Table, columns: &mut TransactionColumns, gas_used: Option<u32>) {
        process_transaction(self, schema, columns, gas_used)
    }
}

/// The names of the columns that a transaction table can have, in order.
pub open spec fn transaction_names() -> Seq<Seq<char>> {
    seq![
        "_stream_type"@,
        "block_number"@,
        "transaction_index"@,
        "transaction_hash"@,
        "nonce"@,
        "from_address"@,
        "to_address"@,
        "value"@,
        "input"@,
        "gas_limit"@,
        "gas_used"@,
        "gas_price"@,
        "transaction_type"@,
        "max_priority_fee_per_gas"@,
        "max_fee_per_gas"@,
        "chain_id"@,
    ]
}

/// The lengths of the columns that a transaction table can have, in order.
pub open spec fn transaction_lengths(rows: TransactionRows, n_rows: nat) -> Seq<nat> {
    seq![
        rows.block_number.len(),
        rows.block_number.len(),
        rows.transaction_index.len(),
        rows.transaction_hash.len(),
        rows.nonce.len(),
        rows.from_address.len(),
        rows.to_address.len(),
        rows.value.len(),
        rows.input.len(),
        rows.gas_limit.len(),
        rows.gas_used.len(),
        rows.gas_price.len(),
        rows.transaction_type.len(),
        rows.max_priority_fee_per_gas.len(),
        rows.max_fee_per_gas.len(),
        n_rows,
    ]
}

/// The names differ.
proof fn lemma_transaction_names_differ()
    ensures
        transaction_names().no_duplicates(),
{
    let names = transaction_names();
    reveal_strlit("_stream_type");
    reveal_strlit("block_number");
    reveal_strlit("transaction_index");
    reveal_strlit("transaction_hash");
    reveal_strlit("nonce");
    reveal_strlit("from_address");
    reveal_strlit("to_address");
    reveal_strlit("value");
    reveal_strlit("input");
    reveal_strlit("gas_limit");
    reveal_strlit("gas_used");
    reveal_strlit("gas_price");
    reveal_strlit("transaction_type");
    reveal_strlit("max_priority_fee_per_gas");
    reveal_strlit("max_fee_per_gas");
    reveal_strlit("chain_id");
    assert(mark(names[0]) == (12nat, '_', 'e'));
    assert(mark(names[1]) == (12nat, 'b', 'r'));
    assert(mark(names[2]) == (17nat, 't', 'x'));
    assert(mark(names[3]) == (16nat, 't', 'h'));
    assert(mark(names[4]) == (5nat, 'n', 'e'));
    assert(mark(names[5]) == (12nat, 'f', 's'));
    assert(mark(names[6]) == (10nat, 't', 's'));
    assert(mark(names[7]) == (5nat, 'v', 'e'));
    assert(mark(names[8]) == (5nat, 'i', 't'));
    assert(mark(names[9]) == (9nat, 'g', 't'));
    assert(mark(names[10]) == (8nat, 'g', 'd'));
    assert(mark(names[11]) == (9nat, 'g', 'e'));
    assert(mark(names[12]) == (16nat, 't', 'e'));
    assert(mark(names[13]) == (24nat, 'm', 's'));
    assert(mark(names[14]) == (15nat, 'm', 's'));
    assert(mark(names[15]) == (8nat, 'c', 'd'));
}

/// A transaction table has the wanted columns, each of the length that was gathered for it.
proof fn lemma_transaction_table(
    rows: TransactionRows,
    schema: Table,
    chain_id: u64,
    n_rows: nat,
)
    ensures
        transaction_names().no_duplicates(),
        laid_out(
            transaction_table(rows, schema, chain_id, n_rows),
            transaction_names(),
            transaction_lengths(rows, n_rows),
            16,
            schema,
        ),
{
    lemma_transaction_names_differ();
    let names = transaction_names();
    let lengths = transaction_lengths(rows, n_rows);
    let v = Values::Text(present(repeated("tx"@, rows.block_number.len())));
    lemma_lay_out(seq![], names, lengths, 0, schema, v);
    let t = with_values(seq![], schema, "_stream_type"@, v);
    lemma_lay_out(t, names, lengths, 1, schema, Values::UInt64(rows.block_number));
    let t = with_values(t, schema, "block_number"@, Values::UInt64(rows.block_number));
    lemma_lay_out(t, names, lengths, 2, schema, Values::UInt64(rows.transaction_index));
    let t = with_values(t, schema, "transaction_index"@, Values::UInt64(rows.transaction_index));
    lemma_lay_out_bytes(t, names, lengths, 3, schema, present(rows.transaction_hash));
    let t = with_bytes(t, schema, "transaction_hash"@, present(rows.transaction_hash));
    lemma_lay_out(t, names, lengths, 4, schema, Values::UInt64(present(rows.nonce)));
    let t = with_values(t, schema, "nonce"@, Values::UInt64(present(rows.nonce)));
    lemma_lay_out_bytes(t, names, lengths, 5, schema, present(rows.from_address));
    let t = with_bytes(t, schema, "from_address"@, present(rows.from_address));
    lemma_lay_out_bytes(t, names, lengths, 6, schema, rows.to_address);
    let t = with_bytes(t, schema, "to_address"@, rows.to_address);
    lemma_lay_out(t, names, lengths, 7, schema, Values::Text(present(rows.value)));
    let t = with_values(t, schema, "value"@, Values::Text(present(rows.value)));
    lemma_lay_out_bytes(t, names, lengths, 8, schema, present(rows.input));
    let t = with_bytes(t, schema, "input"@, present(rows.input));
    lemma_lay_out(t, names, lengths, 9, schema, Values::UInt32(present(rows.gas_limit)));
    let t = with_values(t, schema, "gas_limit"@, Values::UInt32(present(rows.gas_limit)));
    lemma_lay_out(t, names, lengths, 10, schema, Values::UInt32(present(rows.gas_used)));
    let t = with_values(t, schema, "gas_used"@, Values::UInt32(present(rows.gas_used)));
    lemma_lay_out(t, names, lengths, 11, schema, Values::UInt64(rows.gas_price));
    let t = with_values(t, schema, "gas_price"@, Values::UInt64(rows.gas_price));
    lemma_lay_out(t, names, lengths, 12, schema, Values::UInt32(rows.transaction_type));
    let t = with_values(t, schema, "transaction_type"@, Values::UInt32(rows.transaction_type));
    lemma_lay_out(t, names, lengths, 13, schema, Values::UInt64(rows.max_priority_fee_per_gas));
    let t = with_values(
        t,
        schema,
        "max_priority_fee_per_gas"@,
        Values::UInt64(rows.max_priority_fee_per_gas),
    );
    lemma_lay_out(t, names, lengths, 14, schema, Values::UInt64(rows.max_fee_per_gas));
    let t = with_values(t, schema, "max_fee_per_gas"@, Values::UInt64(rows.max_fee_per_gas));
    let v = Values::UInt64(present(repeated(chain_id, n_rows)));
    lemma_lay_out(t, names, lengths, 15, schema, v);
}

/// Each wanted column has `n` entries, and the others have none.
pub open spec fn transaction_rows_aligned(rows: TransactionRows, schema: Table, n: nat) -> bool {
    &&& as_long(rows.block_number, schema.has("block_number"@), n)
    &&& as_long(rows.transaction_index, schema.has("transaction_index"@), n)
    &&& as_long(rows.transaction_hash, schema.has("transaction_hash"@), n)
    &&& as_long(rows.nonce, schema.has("nonce"@), n)
    &&& as_long(rows.from_address, schema.has("from_address"@), n)
    &&& as_long(rows.to_address, schema.has("to_address"@), n)
    &&& as_long(rows.value, schema.has("value"@), n)
    &&& as_long(rows.input, schema.has("input"@), n)
    &&& as_long(rows.gas_limit, schema.has("gas_limit"@), n)
    &&& as_long(rows.gas_used, schema.has("gas_used"@), n)
    &&& as_long(rows.gas_price, schema.has("gas_price"@), n)
    &&& as_long(rows.transaction_type, schema.has("transaction_type"@), n)
    &&& as_long(rows.max_priority_fee_per_gas, schema.has("max_priority_fee_per_gas"@), n)
    &&& as_long(rows.max_fee_per_gas, schema.has("max_fee_per_gas"@), n)
}

/// Without rows the columns are aligned, and a transaction adds one entry to each wanted column and
/// none to the others.
pub proof fn law_transaction_row_keeps_alignment(
    rows: TransactionRows,
    tx: Transaction,
    schema: Table,
    gas_used: Option<u32>,
    n: nat,
)
    requires
        transaction_rows_aligned(rows, schema, n),
    ensures
        transaction_rows_aligned(TransactionRows::none(), schema, 0),
        transaction_rows_aligned(transaction_row(rows, tx, schema, gas_used), schema, n + 1),
{
}

/// The stream type is as long as column `block_number`: where that is not wanted, it stays empty
/// beside the rows of the other columns.
pub open spec fn transaction_stream_type_misfits(schema: Table, n: nat) -> bool {
    &&& schema.has("_stream_type"@)
    &&& !schema.has("block_number"@)
    &&& n > 0
    &&& wants_data(transaction_names(), schema)
}

/// The table has the wanted columns that there are and no others. Its columns fit side by side
/// unless the stream type misfits, and then each of them has a row for each of the `n` rows that
/// were filled.
pub proof fn law_transaction_table_fits(rows: TransactionRows, schema: Table, chain_id: u64, n: nat)
    requires
        transaction_rows_aligned(rows, schema, n),
    ensures
        fits(transaction_table(rows, schema, chain_id, n))
            <==> !transaction_stream_type_misfits(schema, n),
        forall|name: Seq<char>| #[trigger]
            named(transaction_table(rows, schema, chain_id, n), name) <==> schema.has(name)
                && transaction_names().contains(name),
        wants_data(transaction_names(), schema) && fits(
            transaction_table(rows, schema, chain_id, n),
        ) ==> height(transaction_table(rows, schema, chain_id, n)) == n,
{
    lemma_transaction_table(rows, schema, chain_id, n);
    let names = transaction_names();
    let lengths = transaction_lengths(rows, n);
    assert(names.len() == 16 && lengths.len() == 16);
    assert(names[0] == "_stream_type"@ && names[1] == "block_number"@);
    assert(forall|i: int| 1 <= i < 16 && schema.has(#[trigger] names[i]) ==> lengths[i] == n);
    lemma_laid_out_fits(transaction_table(rows, schema, chain_id, n), names, lengths, schema, n);
}

} // verus!
