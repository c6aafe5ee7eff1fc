//! The dataset of blocks: its columns, what is asked of the node for it, and how the replies are
//! judged.
use vstd::prelude::*;
use crate::block_columns::{block_names, block_table, lemma_block_names_differ};
use crate::errors::CollectError;
use crate::frame::{arranged, can_arrange, frame_columns};
use crate::gather::{
    all_blocks, blocks_to_dfs, gathered, law_table_of_blocks_can_be_made, lemma_counts_blocks,
    messages_fit, tables_countable, BlockTxGasTuple,
};
use crate::records::{Block, BlockChunk, Transaction, TransactionChunk, TxHash};
use crate::schema::{ColumnType, Datatype, Table};
use crate::text::texts;

verus! {

/// The dataset of blocks.
#[derive(Clone, Copy, Debug)]
pub struct Blocks;

/// The columns of blocks, each with its type.
pub open spec fn block_column_types() -> Seq<(Seq<char>, ColumnType)> {
    seq![
        ("_stream_type"@, ColumnType::String),
        ("hash"@, ColumnType::Binary),
        ("parent_hash"@, ColumnType::Binary),
        ("author"@, ColumnType::Binary),
        ("state_root"@, ColumnType::Binary),
        ("transactions_root"@, ColumnType::Binary),
        ("receipts_root"@, ColumnType::Binary),
        ("number"@, ColumnType::UInt32),
        ("gas_used"@, ColumnType::UInt32),
        ("extra_data"@, ColumnType::Binary),
        ("logs_bloom"@, ColumnType::Binary),
        ("timestamp"@, ColumnType::UInt32),
        ("total_difficulty"@, ColumnType::String),
        ("size"@, ColumnType::UInt32),
        ("base_fee_per_gas"@, ColumnType::UInt64),
        ("chain_id"@, ColumnType::UInt64),
    ]
}

/// The columns that are collected where nothing else is said.
pub open spec fn default_block_columns() -> Seq<Seq<char>> {
    seq![
        "number"@,
        "hash"@,
        "timestamp"@,
        "author"@,
        "gas_used"@,
        "extra_data"@,
        "base_fee_per_gas"@,
    ]
}

impl Blocks {
    /// Kind of data in the dataset.
    pub fn datatype(&self) -> (r: Datatype)
        ensures
            r == Datatype::Blocks,
    {
        Datatype::Blocks
    }

    /// Name of the dataset.
    pub fn name(&self) -> (r: &'static str)
        ensures
            r@ == "blocks"@,
    {
        "blocks"
    }

    /// Columns of the dataset, each with its type. Transactions, seal fields, epoch snark data and
    /// randomness are left out.
    pub fn column_types(&self) -> (r: Vec<(&'static str, ColumnType)>)
        ensures
            r@.map_values(|c: (&'static str, ColumnType)| (c.0@, c.1)) == block_column_types(),
    {
        let columns: Vec<(&'static str, ColumnType)> = vec![
            ("_stream_type", ColumnType::String),
            ("hash", ColumnType::Binary),
            ("parent_hash", ColumnType::Binary),
            ("author", ColumnType::Binary),
            ("state_root", ColumnType::Binary),
            ("transactions_root", ColumnType::Binary),
            ("receipts_root", ColumnType::Binary),
            ("number", ColumnType::UInt32),
            ("gas_used", ColumnType::UInt32),
            ("extra_data", ColumnType::Binary),
            ("logs_bloom", ColumnType::Binary),
            ("timestamp", ColumnType::UInt32),
            ("total_difficulty", ColumnType::String),
            ("size", ColumnType::UInt32),
            ("base_fee_per_gas", ColumnType::UInt64),
            ("chain_id", ColumnType::UInt64),
        ];
        assert(columns@.map_values(|c: (&'static str, ColumnType)| (c.0@, c.1))
            =~= block_column_types());
        columns
    }

    /// Columns that are collected where nothing else is said.
    pub fn default_columns(&self) -> (r: Vec<&'static str>)
        ensures
            r@.map_values(|c: &'static str| c@) == default_block_columns(),
    {
        let columns: Vec<&'static str> = vec![
            "number",
            "hash",
            "timestamp",
            "author",
            "gas_used",
            "extra_data",
            "base_fee_per_gas",
        ];
        assert(columns@.map_values(|c: &'static str| c@) =~= default_block_columns());
        columns
    }

    /// Columns that the rows are sorted by where nothing else is said.
    pub fn default_sort(&self) -> (r: Vec<String>)
        ensures
            texts(r@) == seq!["number"@],
    {
        let columns: Vec<String> = vec!["number".to_owned()];
        assert(texts(columns@) =~= seq!["number"@]);
        columns
    }
}

/// The outcome of looking up one transaction: the task may fail, the node may fail, and the node
/// may not know the transaction.
pub type TxLookup = Result<
    Result<Option<Transaction>, ethers::providers::ProviderError>,
    tokio::task::JoinError,
>;

/// What is wrong with a lookup, where it gives no block number.
pub open spec fn lookup_fault(lookup: TxLookup) -> Option<Seq<char>> {
    match lookup {
        Err(_) => Some("Task join error"@),
        Ok(Err(_)) => Some("Provider error"@),
        Ok(Ok(None)) => Some("Transaction not found"@),
        Ok(Ok(Some(tx))) => match tx.block_number {
            Some(_) => None,
            None => Some("No block number for tx"@),
        },
    }
}

/// The block number that a lookup gives.
pub open spec fn looked_up(lookup: TxLookup) -> Option<u64> {
    match lookup {
        Ok(Ok(Some(tx))) => tx.block_number,
        _ => None,
    }
}

/// Some lookup gives this block number.
pub open spec fn found(lookups: Seq<TxLookup>, number: u64) -> bool {
    exists|i: int| 0 <= i < lookups.len() && looked_up(#[trigger] lookups[i]) == Some(number)
}

/// The numbers ascend, without repetition.
pub open spec fn ascending(numbers: Seq<u64>) -> bool {
    forall|i: int, j: int| 0 <= i < j < numbers.len() ==> numbers[i] < numbers[j]
}

/// Lookup `i` is the first that gives no block number.
pub open spec fn first_fault(lookups: Seq<TxLookup>, i: int) -> bool {
    &&& 0 <= i < lookups.len()
    &&& lookup_fault(lookups[i]) is Some
    &&& forall|j: int| 0 <= j < i ==> lookup_fault(#[trigger] lookups[j]) is None
}

/// `ethers::types::H256::from_slice`: the hash that consists of the given bytes. On any number of
/// bytes but 32 the call does not return.
#[verifier::external_body]
fn hash_from_slice(bytes: &[u8]) -> (r: [u8; 32])
    requires
        bytes@.len() == 32,
    ensures
        r@ == bytes@,
{
    ethers::types::H256::from_slice(bytes).0
}

/// `<[u64]>::sort`: puts the numbers in ascending order, each as often as before.
#[verifier::external_body]
fn sort(numbers: &mut Vec<u64>)
    ensures
        forall|i: int, j: int|
            0 <= i <= j < final(numbers)@.len() ==> final(numbers)@[i] <= final(numbers)@[j],
        final(numbers)@.to_multiset() == old(numbers)@.to_multiset(),
{
    numbers.sort()
}

/// Drops each number that equals the one before it.
fn dedup(numbers: &Vec<u64>) -> (r: Vec<u64>)
    requires
        forall|i: int, j: int| 0 <= i <= j < numbers@.len() ==> numbers@[i] <= numbers@[j],
    ensures
        ascending(r@),
        forall|n: u64| r@.contains(n) <==> numbers@.contains(n),
{
    let mut kept: Vec<u64> = Vec::new();
    for i in 0..numbers.len()
        invariant
            forall|i: int, j: int| 0 <= i <= j < numbers@.len() ==> numbers@[i] <= numbers@[j],
            ascending(kept@),
            kept@.len() == 0 <==> i == 0,
            i > 0 ==> kept@.last() == numbers@[i - 1],
            forall|k: int| 0 <= k < kept@.len() ==> numbers@.contains(#[trigger] kept@[k]),
            forall|j: int| 0 <= j < i ==> kept@.contains(#[trigger] numbers@[j]),
    {
        let ghost before = kept@;
        let number: u64 = numbers[i];
        if i == 0 || numbers[i - 1] != number {
            kept.push(number);
            proof {
                assert(numbers@.contains(numbers@[i as int]));
                assert forall|a: int, b: int| 0 <= a < b < kept@.len() implies kept@[a]
                    < kept@[b] by {
                    if b == before.len() {
                        assert(kept@[a] <= before.last());
                        assert(before.last() < number);
                    }
                }
                assert(kept@[before.len() as int] == number);
            }
        }
        assert forall|j: int| 0 <= j < i + 1 implies kept@.contains(#[trigger] numbers@[j]) by {
            if j < i {
                assert(before.contains(numbers@[j]));
                let k = choose|k: int| 0 <= k < before.len() && before[k] == numbers@[j];
                assert(kept@[k] == numbers@[j]);
            } else {
                assert(kept@[kept@.len() - 1] == number);
            }
        }
    }
    kept
}

/// The hash to ask the node for, where the bytes make one.
pub fn tx_request(tx_hash: &Vec<u8>) -> (r: Option<[u8; 32]>)
    ensures
        r is Some <==> tx_hash@.len() == 32,
        r matches Some(hash) ==> hash@ == tx_hash@,
{
    if tx_hash.len() == 32 {
        Some(hash_from_slice(tx_hash.as_slice()))
    } else {
        None
    }
}

/// Lists the blocks of the transactions that were looked up, each block once and in ascending
/// order. The first lookup that gives no block number makes the whole fail.
pub fn tx_block_numbers(lookups: &Vec<TxLookup>) -> (r: Result<Vec<u64>, CollectError>)
    ensures
        match r {
            Ok(numbers) => {
                &&& forall|i: int|
                    0 <= i < lookups@.len() ==> lookup_fault(#[trigger] lookups@[i]) is None
                &&& ascending(numbers@)
                &&& forall|n: u64| numbers@.contains(n) <==> #[trigger] found(lookups@, n)
            },
            Err(e) => exists|i: int|
                {
                    &&& #[trigger] first_fault(lookups@, i)
                    &&& e.says(lookup_fault(lookups@[i])->0)
                },
        },
{
    let mut numbers: Vec<u64> = Vec::new();
    for i in 0..lookups.len()
        invariant
            forall|j: int| 0 <= j < i ==> lookup_fault(#[trigger] lookups@[j]) is None,
            numbers@.len() == i,
            forall|j: int| 0 <= j < i ==> looked_up(#[trigger] lookups@[j]) == Some(numbers@[j]),
    {
        let ghost fault = lookup_fault(lookups@[i as int]);
        assert(fault is Some ==> first_fault(lookups@, i as int));
        let task_result = match &lookups[i] {
            Ok(task_result) => task_result,
            Err(_) => return Err(CollectError::CollectError("Task join error".to_owned())),
        };
        let tx = match task_result {
            Ok(tx) => tx,
            Err(_) => return Err(CollectError::CollectError("Provider error".to_owned())),
        };
        match tx {
            Some(transaction) => match transaction.block_number {
                Some(block_number) => numbers.push(block_number),
                None => {
                    return Err(CollectError::CollectError("No block number for tx".to_owned()));
                },
            },
            None => return Err(CollectError::CollectError("Transaction not found".to_owned())),
        }
    }
    let ghost listed = numbers@;
    sort(&mut numbers);
    let kept = dedup(&numbers);
    proof {
        assert forall|n: u64| kept@.contains(n) <==> #[trigger] found(lookups@, n) by {
            listed.to_multiset_ensures();
            numbers@.to_multiset_ensures();
            assert(numbers@.contains(n) <==> numbers@.to_multiset().count(n) > 0);
            assert(listed.contains(n) <==> listed.to_multiset().count(n) > 0);
            if listed.contains(n) {
                let i = choose|i: int| 0 <= i < listed.len() && listed[i] == n;
                assert(looked_up(lookups@[i]) == Some(n));
            }
            if found(lookups@, n) {
                let i = choose|i: int|
                    0 <= i < lookups@.len() && looked_up(#[trigger] lookups@[i]) == Some(n);
                assert(listed[i] == n);
            }
        }
    }
    Ok(kept)
}

/// Judges the node's reply to the request for a block.
pub fn block_reply(
    reply: Result<Option<Block<TxHash>>, ethers::providers::ProviderError>,
) -> (r: BlockTxGasTuple<TxHash>)
    ensures
        match reply {
            Ok(Some(block)) => r == Ok::<(Block<TxHash>, Option<Vec<u32>>), CollectError>(
                (block, None),
            ),
            Ok(None) => r matches Err(e) && e.says("block not in node"@),
            Err(cause) => r == Err::<(Block<TxHash>, Option<Vec<u32>>), CollectError>(
                CollectError::ProviderError(cause),
            ),
        },
{
    match reply {
        Ok(Some(block)) => Ok((block, None)),
        Ok(None) => Err(CollectError::CollectError("block not in node".to_owned())),
        Err(e) => Err(CollectError::ProviderError(e)),
    }
}

impl Blocks {
    /// Makes the table of the blocks that were fetched.
    pub fn collect_block_chunk(
        &self,
        blocks: &Vec<BlockTxGasTuple<TxHash>>,
        schema: &Table,
        chain_id: u64,
    ) -> (r: Result<polars::prelude::DataFrame, CollectError>)
        requires
            messages_fit(blocks@, Some(schema), None),
            all_blocks(blocks@) ==> tables_countable(
                gathered(blocks@, Some(schema), None),
                Some(schema),
                None,
            ),
        ensures
            match r {
                Ok(frame) => {
                    &&& all_blocks(blocks@)
                    &&& can_arrange(
                        block_table(
                            gathered(blocks@, Some(schema), None).blocks,
                            *schema,
                            chain_id,
                            blocks@.len(),
                        ),
                        schema.sort_key(),
                    )
                    &&& arranged(
                        block_table(
                            gathered(blocks@, Some(schema), None).blocks,
                            *schema,
                            chain_id,
                            blocks@.len(),
                        ),
                        schema.sort_key(),
                        frame_columns(frame),
                    )
                },
                Err(CollectError::TooManyRequestsError) => !all_blocks(blocks@),
                Err(e) => {
                    &&& all_blocks(blocks@)
                    &&& e is PolarsError
                    &&& !can_arrange(
                        block_table(
                            gathered(blocks@, Some(schema), None).blocks,
                            *schema,
                            chain_id,
                            blocks@.len(),
                        ),
                        schema.sort_key(),
                    )
                },
            },
    {
        proof {
            lemma_counts_blocks(blocks@, Some(schema), None);
        }
        match blocks_to_dfs(blocks, &Some(schema), &None, chain_id) {
            Ok((Some(blocks_df), _)) => Ok(blocks_df),
            Ok((None, _)) => Err(CollectError::BadSchemaError),
            Err(e) => Err(e),
        }
    }

    /// The transactions whose blocks make up a chunk of transactions. Only single transactions
    /// can be looked up.
    pub fn transaction_hashes<'a>(&self, chunk: &'a TransactionChunk) -> (r: Result<
        &'a Vec<Vec<u8>>,
        CollectError,
    >)
        ensures
            match *chunk {
                TransactionChunk::Values(tx_hashes) => r == Ok::<&Vec<Vec<u8>>, CollectError>(
                    &tx_hashes,
                ),
                _ => r matches Err(e) && e.says(""@),
            },
    {
        match chunk {
            TransactionChunk::Values(tx_hashes) => Ok(tx_hashes),
            _ => Err(CollectError::CollectError("".to_owned())),
        }
    }

    /// The chunk of blocks that holds the transactions that were looked up.
    pub fn transaction_blocks(&self, lookups: &Vec<TxLookup>) -> (r: Result<
        BlockChunk,
        CollectError,
    >)
        ensures
            match r {
                Ok(chunk) => {
                    &&& forall|i: int|
                        0 <= i < lookups@.len() ==> lookup_fault(#[trigger] lookups@[i]) is None
                    &&& chunk is Numbers
                    &&& ascending(chunk.block_numbers())
                    &&& forall|n: u64|
                        chunk.block_numbers().contains(n) <==> #[trigger] found(lookups@, n)
                },
                Err(e) => exists|i: int|
                    {
                        &&& #[trigger] first_fault(lookups@, i)
                        &&& e.says(lookup_fault(lookups@[i])->0)
                    },
            },
    {
        match tx_block_numbers(lookups) {
            Ok(block_numbers) => Ok(BlockChunk::Numbers(block_numbers)),
            Err(e) => Err(e),
        }
    }
}

/// The columns of the dataset are those that a table of blocks can have, each once.
pub proof fn law_column_types_name_the_table()
    ensures
        block_column_types().map_values(|c: (Seq<char>, ColumnType)| c.0) == block_names(),
        block_names().no_duplicates(),
{
    lemma_block_names_differ();
    assert(block_column_types().map_values(|c: (Seq<char>, ColumnType)| c.0) =~= block_names());
}

/// The columns that are collected where nothing else is said, and the one that the rows are sorted
/// by, are columns of the dataset.
pub proof fn law_default_columns_are_columns()
    ensures
        forall|i: int|
            0 <= i < default_block_columns().len() ==> block_names().contains(
                #[trigger] default_block_columns()[i],
            ),
        default_block_columns().contains("number"@),
{
    let names = block_names();
    let defaults = default_block_columns();
    assert(defaults[0] == names[7]);
    assert(defaults[1] == names[1]);
    assert(defaults[2] == names[11]);
    assert(defaults[3] == names[3]);
    assert(defaults[4] == names[8]);
    assert(defaults[5] == names[9]);
    assert(defaults[6] == names[14]);
    assert(defaults.contains(defaults[0]));
}

/// With the default columns, sorted as by default, a table can be made of any blocks.
pub proof fn law_default_table_can_be_made(
    blocks: Seq<BlockTxGasTuple<TxHash>>,
    schema: &Table,
    chain_id: u64,
)
    requires
        forall|name: Seq<char>| #[trigger]
            schema.has(name) <==> default_block_columns().contains(name),
        schema.sort_key() == Some(seq!["number"@]),
        all_blocks(blocks),
    ensures
        can_arrange(
            block_table(
                gathered(blocks, Some(schema), None).blocks,
                *schema,
                chain_id,
                blocks.len(),
            ),
            schema.sort_key(),
        ),
{
    lemma_counts_blocks(blocks, Some(schema), None);
    law_table_of_blocks_can_be_made(blocks, schema, None, chain_id);
    law_default_columns_are_columns();
    let defaults = default_block_columns();
    assert(schema.has("hash"@)) by {
        assert(defaults[1] == "hash"@);
    }
    assert(block_names().contains("number"@)) by {
        assert(defaults[0] == "number"@);
    }
}

/// The list of blocks rests on nothing but the blocks that were found: not on the order of the
/// lookups, nor on how often each block was found.
pub proof fn law_block_numbers_do_not_depend_on_order(
    lookups: Seq<TxLookup>,
    others: Seq<TxLookup>,
    numbers: Seq<u64>,
    other_numbers: Seq<u64>,
)
    requires
        ascending(numbers),
        ascending(other_numbers),
        forall|n: u64| numbers.contains(n) <==> #[trigger] found(lookups, n),
        forall|n: u64| other_numbers.contains(n) <==> #[trigger] found(others, n),
        forall|n: u64| #[trigger] found(lookups, n) <==> #[trigger] found(others, n),
    ensures
        numbers == other_numbers,
{
    assert forall|n: u64| numbers.contains(n) <==> other_numbers.contains(n) by {
        assert(found(lookups, n) <==> found(others, n));
    }
    lemma_ascending_lists_agree(numbers, other_numbers);
}

/// Two ascending lists of the same numbers are equal.
proof fn lemma_ascending_lists_agree(a: Seq<u64>, b: Seq<u64>)
    requires
        ascending(a),
        ascending(b),
        forall|n: u64| a.contains(n) <==> b.contains(n),
    ensures
        a == b,
    decreases a.len(),
{
    if a.len() == 0 {
        if b.len() > 0 {
            assert(b.contains(b[0]));
        }
        assert(a =~= b);
    } else {
        assert(a.contains(a.last()));
        let k = choose|k: int| 0 <= k < b.len() && b[k] == a.last();
        assert(b.contains(b.last()));
        let j = choose|j: int| 0 <= j < a.len() && a[j] == b.last();
        assert(a.last() == b.last());
        let short_a = a.drop_last();
        let short_b = b.drop_last();
        assert forall|n: u64| short_a.contains(n) <==> short_b.contains(n) by {
            if short_a.contains(n) {
                let i = choose|i: int| 0 <= i < short_a.len() && short_a[i] == n;
                assert(a[i] == n && a.contains(n));
                let i = choose|i: int| 0 <= i < b.len() && b[i] == n;
                assert(short_b[i] == n);
            }
            if short_b.contains(n) {
                let i = choose|i: int| 0 <= i < short_b.len() && short_b[i] == n;
                assert(b[i] == n && b.contains(n));
                let i = choose|i: int| 0 <= i < a.len() && a[i] == n;
                assert(short_a[i] == n);
            }
        }
        lemma_ascending_lists_agree(short_a, short_b);
        assert(a =~= short_a.push(a.last()));
        assert(b =~= short_b.push(b.last()));
    }
}

/// The transaction was found, and it is in the block of this number.
pub open spec fn in_block(lookup: TxLookup, number: u64) -> bool {
    &&& lookup is Ok
    &&& lookup->Ok_0 is Ok
    &&& lookup->Ok_0->Ok_0 is Some
    &&& lookup->Ok_0->Ok_0->0.block_number == Some(number)
}

/// The transaction was found, and the number of its block is listed.
pub open spec fn block_listed(lookup: TxLookup, numbers: Seq<u64>) -> bool {
    exists|k: int| 0 <= k < numbers.len() && in_block(lookup, #[trigger] numbers[k])
}

/// Some transaction is in the block of this number.
pub open spec fn block_used(lookups: Seq<TxLookup>, number: u64) -> bool {
    exists|i: int| 0 <= i < lookups.len() && in_block(#[trigger] lookups[i], number)
}

/// The transaction was found, and it is in some block.
pub open spec fn in_some_block(lookup: TxLookup) -> bool {
    exists|number: u64| in_block(lookup, number)
}

/// A lookup is without fault exactly where it found a transaction that is in a block; then it gives
/// the number of that block as it is. Each fault has a text of its own.
pub proof fn law_lookup_gives_the_block_of_its_transaction(lookup: TxLookup)
    ensures
        forall|number: u64| #[trigger]
            in_block(lookup, number) <==> looked_up(lookup) == Some(number),
        lookup_fault(lookup) is None <==> looked_up(lookup) is Some,
        lookup is Err ==> lookup_fault(lookup) == Some("Task join error"@),
        lookup is Ok && lookup->Ok_0 is Err ==> lookup_fault(lookup) == Some("Provider error"@),
        lookup is Ok && lookup->Ok_0 is Ok && lookup->Ok_0->Ok_0 is None ==> lookup_fault(lookup)
            == Some("Transaction not found"@),
        lookup is Ok && lookup->Ok_0 is Ok && lookup->Ok_0->Ok_0 is Some
            && lookup->Ok_0->Ok_0->0.block_number is None ==> lookup_fault(lookup) == Some(
            "No block number for tx"@,
        ),
{
}

/// The listed numbers are exactly those of the blocks that the transactions are in: each number is
/// that of some transaction's block, each transaction's block is listed, and the numbers ascend,
/// each once.
pub proof fn law_listed_blocks_are_those_of_the_transactions(
    lookups: Seq<TxLookup>,
    numbers: Seq<u64>,
)
    requires
        forall|i: int| 0 <= i < lookups.len() ==> lookup_fault(#[trigger] lookups[i]) is None,
        ascending(numbers),
        forall|n: u64| numbers.contains(n) <==> #[trigger] found(lookups, n),
    ensures
        forall|i: int| 0 <= i < lookups.len() ==> block_listed(#[trigger] lookups[i], numbers),
        forall|k: int| 0 <= k < numbers.len() ==> block_used(lookups, #[trigger] numbers[k]),
        forall|j: int, k: int| 0 <= j < k < numbers.len() ==> numbers[j] < numbers[k],
{
    assert forall|i: int| 0 <= i < lookups.len() implies block_listed(
        #[trigger] lookups[i],
        numbers,
    ) by {
        law_lookup_gives_the_block_of_its_transaction(lookups[i]);
        let number = looked_up(lookups[i])->0;
        assert(found(lookups, number));
        let k = choose|k: int| 0 <= k < numbers.len() && numbers[k] == number;
        assert(in_block(lookups[i], numbers[k]));
    }
    assert forall|k: int| 0 <= k < numbers.len() implies block_used(
        lookups,
        #[trigger] numbers[k],
    ) by {
        assert(numbers.contains(numbers[k]));
        assert(found(lookups, numbers[k]));
        let i = choose|i: int|
            0 <= i < lookups.len() && looked_up(#[trigger] lookups[i]) == Some(numbers[k]);
        law_lookup_gives_the_block_of_its_transaction(lookups[i]);
        assert(in_block(lookups[i], numbers[k]));
    }
}

/// The lookup that makes the whole fail has a fault, and every one before it gave a block.
pub proof fn law_first_fault_decides(lookups: Seq<TxLookup>, i: int)
    requires
        first_fault(lookups, i),
    ensures
        0 <= i < lookups.len(),
        !in_some_block(lookups[i]),
        forall|j: int| 0 <= j < i ==> in_some_block(#[trigger] lookups[j]),
{
    law_lookup_gives_the_block_of_its_transaction(lookups[i]);
    assert forall|j: int| 0 <= j < i implies in_some_block(#[trigger] lookups[j]) by {
        assert(lookup_fault(lookups[j]) is None);
        law_lookup_gives_the_block_of_its_transaction(lookups[j]);
        assert(in_block(lookups[j], looked_up(lookups[j])->0));
    }
}

} // verus!
