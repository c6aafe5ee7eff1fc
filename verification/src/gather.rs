//! Gathering a stream of blocks into tables.
use vstd::prelude::*;
use crate::block_columns::{
    block_fits, block_in_range, block_names, block_row, block_row_at, block_rows_aligned,
    block_stream_type_misfits, block_table, block_table_countable, law_block_table_fits,
    process_block, BlockColumns, BlockRows,
};
use crate::errors::CollectError;
use crate::frame::{arranged, can_arrange, fits, frame_columns, named, Column};
use crate::records::{Block, Transaction};
use crate::schema::Table;
use crate::transaction_columns::{
    law_transaction_row_keeps_alignment, law_transaction_table_fits, transaction_names,
    transaction_row, transaction_row_at, transaction_rows_aligned, transaction_stream_type_misfits,
    transaction_table, transaction_table_countable, ProcessTransactions, TransactionColumns,
    TransactionRows,
};

verus! {

/// A fetched block, with the gas that each of its transactions used where that was fetched too.
pub type BlockTxGasTuple<TX> = Result<(Block<TX>, Option<Vec<u32>>), CollectError>;

/// What has been gathered so far.
#[verifier::ext_equal]
pub struct Gathered {
    /// Rows of blocks.
    pub blocks: BlockRows,
    /// Rows of transactions.
    pub transactions: TransactionRows,
    /// Number of blocks.
    pub n_blocks: nat,
    /// Number of transactions.
    pub n_txs: nat,
}

/// The gas that transaction `i` used, where that is known.
pub open spec fn gas_at(gas_used: Option<Vec<u32>>, i: int) -> Option<u32> {
    match gas_used {
        Some(amounts) => Some(amounts@[i]),
        None => None,
    }
}

/// Number of rows that a block's transactions make: one for each, as far as there are amounts of
/// gas where these were fetched.
pub open spec fn row_count<TX>(transactions: Seq<TX>, gas_used: Option<Vec<u32>>) -> nat {
    match gas_used {
        Some(amounts) => if amounts@.len() < transactions.len() {
            amounts@.len()
        } else {
            transactions.len()
        },
        None => transactions.len(),
    }
}

/// The rows with those of the first `n` transactions.
pub open spec fn transaction_rows<TX: ProcessTransactions>(
    rows: TransactionRows,
    transactions: Seq<TX>,
    gas_used: Option<Vec<u32>>,
    schema: Table,
    n: nat,
) -> TransactionRows
    decreases n,
{
    if n == 0 {
        rows
    } else {
        transactions[n - 1].processed(
            transaction_rows(rows, transactions, gas_used, schema, (n - 1) as nat),
            schema,
            gas_at(gas_used, n - 1),
        )
    }
}

impl Gathered {
    /// Nothing gathered.
    pub open spec fn nothing() -> Gathered {
        Gathered {
            blocks: BlockRows::none(),
            transactions: TransactionRows::none(),
            n_blocks: 0,
            n_txs: 0,
        }
    }

    /// What has been gathered after one more block.
    pub open spec fn with_block<TX: ProcessTransactions>(
        self,
        block: Block<TX>,
        gas_used: Option<Vec<u32>>,
        blocks_schema: Option<&Table>,
        transactions_schema: Option<&Table>,
    ) -> Gathered {
        Gathered {
            blocks: match blocks_schema {
                Some(schema) => block_row(self.blocks, block, *schema),
                None => self.blocks,
            },
            transactions: match transactions_schema {
                Some(schema) => transaction_rows(
                    self.transactions,
                    block.transactions@,
                    gas_used,
                    *schema,
                    row_count(block.transactions@, gas_used),
                ),
                None => self.transactions,
            },
            n_blocks: self.n_blocks + 1,
            n_txs: match transactions_schema {
                Some(_) => self.n_txs + row_count(block.transactions@, gas_used),
                None => self.n_txs,
            },
        }
    }
}

/// What the blocks among the messages amount to.
pub open spec fn gathered<TX: ProcessTransactions>(
    messages: Seq<BlockTxGasTuple<TX>>,
    blocks_schema: Option<&Table>,
    transactions_schema: Option<&Table>,
) -> Gathered
    decreases messages.len(),
{
    if messages.len() == 0 {
        Gathered::nothing()
    } else {
        let before = gathered(messages.drop_last(), blocks_schema, transactions_schema);
        match messages.last() {
            Ok((block, gas_used)) => before.with_block(
                block,
                gas_used,
                blocks_schema,
                transactions_schema,
            ),
            Err(_) => before,
        }
    }
}

/// Rows can be made of the block and of its transactions, as far as they are wanted.
pub open spec fn message_fits<TX: ProcessTransactions>(
    message: BlockTxGasTuple<TX>,
    blocks_schema: Option<&Table>,
    transactions_schema: Option<&Table>,
) -> bool {
    message matches Ok((block, gas_used)) ==> {
        &&& blocks_schema matches Some(schema) ==> block_fits(block, *schema)
        &&& transactions_schema matches Some(schema) ==> forall|i: int|
            0 <= i < row_count(block.transactions@, gas_used)
                ==> #[trigger] block.transactions@[i].processable(*schema, gas_at(gas_used, i))
    }
}

/// Every message is a block.
pub open spec fn all_blocks<TX>(messages: Seq<BlockTxGasTuple<TX>>) -> bool {
    forall|i: int| 0 <= i < messages.len() ==> (#[trigger] messages[i]) is Ok
}

/// Rows can be made of each message up to the first that is no block.
pub open spec fn messages_fit<TX: ProcessTransactions>(
    messages: Seq<BlockTxGasTuple<TX>>,
    blocks_schema: Option<&Table>,
    transactions_schema: Option<&Table>,
) -> bool {
    forall|i: int|
        0 <= i < messages.len() && all_blocks(messages.take(i)) ==> message_fits(
            #[trigger] messages[i],
            blocks_schema,
            transactions_schema,
        )
}

/// The wanted tables are short enough for their rows to be counted, and sorted by something
/// where they are sorted.
pub open spec fn tables_countable(
    gathered: Gathered,
    blocks_schema: Option<&Table>,
    transactions_schema: Option<&Table>,
) -> bool {
    &&& blocks_schema matches Some(schema) ==> {
        &&& block_table_countable(gathered.blocks, *schema, gathered.n_blocks)
        &&& schema.sort_columns matches Some(names) ==> names@.len() > 0
    }
    &&& transactions_schema matches Some(schema) ==> {
        &&& transaction_table_countable(gathered.transactions, *schema, gathered.n_txs)
        &&& schema.sort_columns matches Some(names) ==> names@.len() > 0
    }
}

/// The wanted tables can be made.
pub open spec fn tables_fit(
    gathered: Gathered,
    blocks_schema: Option<&Table>,
    transactions_schema: Option<&Table>,
    chain_id: u64,
) -> bool {
    &&& blocks_schema matches Some(schema) ==> can_arrange(
        block_table(gathered.blocks, *schema, chain_id, gathered.n_blocks),
        schema.sort_key(),
    )
    &&& transactions_schema matches Some(schema) ==> can_arrange(
        transaction_table(gathered.transactions, *schema, chain_id, gathered.n_txs),
        schema.sort_key(),
    )
}

/// The tables are the wanted ones, and hold what was gathered.
pub open spec fn tables_hold(
    gathered: Gathered,
    blocks_schema: Option<&Table>,
    transactions_schema: Option<&Table>,
    chain_id: u64,
    blocks_df: Option<polars::prelude::DataFrame>,
    transactions_df: Option<polars::prelude::DataFrame>,
) -> bool {
    &&& match (blocks_schema, blocks_df) {
        (Some(schema), Some(frame)) => arranged(
            block_table(gathered.blocks, *schema, chain_id, gathered.n_blocks),
            schema.sort_key(),
            frame_columns(frame),
        ),
        (None, None) => true,
        _ => false,
    }
    &&& match (transactions_schema, transactions_df) {
        (Some(schema), Some(frame)) => arranged(
            transaction_table(gathered.transactions, *schema, chain_id, gathered.n_txs),
            schema.sort_key(),
            frame_columns(frame),
        ),
        (None, None) => true,
        _ => false,
    }
}

/// Counts the rows that a block's transactions make.
fn count_rows<TX>(transactions: &Vec<TX>, gas_used: &Option<Vec<u32>>) -> (r: usize)
    ensures
        r == row_count(transactions@, *gas_used),
{
    match gas_used {
        Some(amounts) => if amounts.len() < transactions.len() {
            amounts.len()
        } else {
            transactions.len()
        },
        None => transactions.len(),
    }
}

/// The gas that a transaction used, where that is known.
fn gas_used_by(gas_used: &Option<Vec<u32>>, i: usize) -> (r: Option<u32>)
    requires
        gas_used matches Some(amounts) ==> i < amounts@.len(),
    ensures
        r == gas_at(*gas_used, i as int),
{
    match gas_used {
        Some(amounts) => Some(amounts[i]),
        None => None,
    }
}

/// Tells whether rows can be made of a message.
pub fn message_in_range<TX: ProcessTransactions>(
    message: &BlockTxGasTuple<TX>,
    blocks_schema: &Option<&Table>,
    transactions_schema: &Option<&Table>,
) -> (r: bool)
    ensures
        r == message_fits(*message, *blocks_schema, *transactions_schema),
{
    match message {
        Ok((block, gas_used)) => {
            if let Some(schema) = blocks_schema {
                if !block_in_range(block, schema) {
                    return false;
                }
            }
            if let Some(schema) = transactions_schema {
                let n: usize = count_rows(&block.transactions, gas_used);
                for i in 0..n
                    invariant
                        n == row_count(block.transactions@, *gas_used),
                        *message == Ok::<(Block<TX>, Option<Vec<u32>>), CollectError>(
                            (*block, *gas_used),
                        ),
                        *transactions_schema == Some(*schema),
                        forall|j: int|
                            0 <= j < i ==> #[trigger] block.transactions@[j].processable(
                                **schema,
                                gas_at(*gas_used, j),
                            ),
                {
                    if !block.transactions[i].can_process(schema, gas_used_by(gas_used, i)) {
                        assert(!block.transactions@[i as int].processable(
                            **schema,
                            gas_at(*gas_used, i as int),
                        ));
                        return false;
                    }
                }
            }
            true
        },
        Err(_) => true,
    }
}

/// Tells whether rows can be made of each message up to the first that is no block.
pub fn messages_in_range<TX: ProcessTransactions>(
    messages: &Vec<BlockTxGasTuple<TX>>,
    blocks_schema: &Option<&Table>,
    transactions_schema: &Option<&Table>,
) -> (r: bool)
    ensures
        r == messages_fit(messages@, *blocks_schema, *transactions_schema),
{
    for i in 0..messages.len()
        invariant
            all_blocks(messages@.take(i as int)),
            forall|j: int|
                0 <= j < i ==> message_fits(
                    #[trigger] messages@[j],
                    *blocks_schema,
                    *transactions_schema,
                ),
    {
        if !message_in_range(&messages[i], blocks_schema, transactions_schema) {
            return false;
        }
        if messages[i].is_err() {
            proof {
                assert forall|j: int|
                    0 <= j < messages@.len() && all_blocks(messages@.take(j)) implies message_fits(
                    #[trigger] messages@[j],
                    *blocks_schema,
                    *transactions_schema,
                ) by {
                    if j > i {
                        assert(messages@.take(j)[i as int] is Ok);
                    }
                }
            }
            return true;
        }
        let ghost next = messages@.take(i + 1);
        assert forall|j: int| 0 <= j < next.len() implies (#[trigger] next[j]) is Ok by {
            if j < i {
                assert(messages@.take(i as int)[j] is Ok);
            }
        }
    }
    true
}

/// There are few enough messages, and transactions in them, for the rows of any wanted table to be
/// counted, and each wanted table is sorted by something where it is sorted.
pub open spec fn rows_fit<TX: ProcessTransactions>(
    messages: Seq<BlockTxGasTuple<TX>>,
    blocks_schema: Option<&Table>,
    transactions_schema: Option<&Table>,
) -> bool {
    &&& blocks_schema matches Some(schema) ==> {
        &&& messages.len() < u32::MAX
        &&& schema.sort_columns matches Some(names) ==> names@.len() > 0
    }
    &&& transactions_schema matches Some(schema) ==> {
        &&& gathered(messages, blocks_schema, transactions_schema).n_txs < u32::MAX
        &&& schema.sort_columns matches Some(names) ==> names@.len() > 0
    }
}

/// Tells whether a schema says by what to sort, where it says to sort.
fn sorts_by_something(schema: &Table) -> (r: bool)
    ensures
        r == (schema.sort_columns matches Some(names) ==> names@.len() > 0),
{
    match &schema.sort_columns {
        Some(names) => names.len() > 0,
        None => true,
    }
}

/// Tells whether there are few enough rows to be counted, and each table can be sorted as asked.
pub fn rows_in_range<TX: ProcessTransactions>(
    messages: &Vec<BlockTxGasTuple<TX>>,
    blocks_schema: &Option<&Table>,
    transactions_schema: &Option<&Table>,
) -> (r: bool)
    ensures
        r == rows_fit(messages@, *blocks_schema, *transactions_schema),
{
    if let Some(schema) = blocks_schema {
        if messages.len() >= u32::MAX as usize || !sorts_by_something(schema) {
            return false;
        }
    }
    if let Some(schema) = transactions_schema {
        if !sorts_by_something(schema) {
            return false;
        }
        let most: usize = u32::MAX as usize;
        let mut n_txs: usize = 0;
        assert(messages@.take(0) =~= seq![]);
        for i in 0..messages.len()
            invariant
                most == u32::MAX,
                *transactions_schema == Some(*schema),
                n_txs < most,
                n_txs == gathered(
                    messages@.take(i as int),
                    *blocks_schema,
                    *transactions_schema,
                ).n_txs,
        {
            proof {
                let next = messages@.take(i + 1);
                assert(next.drop_last() =~= messages@.take(i as int));
                assert(next.last() == messages@[i as int]);
                lemma_gathers_more(messages@, i + 1, *blocks_schema, *transactions_schema);
            }
            if let Ok((block, gas_used)) = &messages[i] {
                let more: usize = count_rows(&block.transactions, gas_used);
                if more >= most - n_txs {
                    return false;
                }
                n_txs = n_txs + more;
            }
        }
        assert(messages@.take(messages@.len() as int) =~= messages@);
    }
    true
}

/// Blocks and transactions on their way into tables.
#[derive(Debug)]
pub struct BlockGatherer {
    /// Columns of blocks.
    pub block_columns: BlockColumns,
    /// Columns of transactions.
    pub transaction_columns: TransactionColumns,
    /// Number of blocks.
    pub n_blocks: u64,
    /// Number of transactions.
    pub n_txs: usize,
}

impl View for BlockGatherer {
    type V = Gathered;

    open spec fn view(&self) -> Gathered {
        Gathered {
            blocks: self.block_columns@,
            transactions: self.transaction_columns@,
            n_blocks: self.n_blocks as nat,
            n_txs: self.n_txs as nat,
        }
    }
}

impl BlockGatherer {
    /// Starts with nothing.
    pub fn new(blocks_schema: &Option<&Table>, transactions_schema: &Option<&Table>) -> (r: Self)
        ensures
            r@ == Gathered::nothing(),
    {
        BlockGatherer {
            block_columns: if blocks_schema.is_none() {
                BlockColumns::new(0)
            } else {
                BlockColumns::new(100)
            },
            transaction_columns: if transactions_schema.is_none() {
                TransactionColumns::new(0)
            } else {
                TransactionColumns::new(100)
            },
            n_blocks: 0,
            n_txs: 0,
        }
    }

    /// Takes the next message of the stream. A message that is no block ends the gathering.
    pub fn gather<TX: ProcessTransactions>(
        &mut self,
        message: &BlockTxGasTuple<TX>,
        blocks_schema: &Option<&Table>,
        transactions_schema: &Option<&Table>,
    ) -> (r: Result<(), CollectError>)
        requires
            message_fits(*message, *blocks_schema, *transactions_schema),
            old(self).n_blocks < u64::MAX,
            transactions_schema is Some ==> (message matches Ok((block, gas_used)) ==> {
                old(self).n_txs + row_count(block.transactions@, *gas_used) <= usize::MAX
            }),
        ensures
            match *message {
                Ok((block, gas_used)) => {
                    &&& r is Ok
                    &&& final(self)@ == old(self)@.with_block(
                        block,
                        gas_used,
                        *blocks_schema,
                        *transactions_schema,
                    )
                },
                Err(_) => {
                    &&& r == Err::<(), CollectError>(CollectError::TooManyRequestsError)
                    &&& *final(self) == *old(self)
                },
            },
    {
        match message {
            Ok((block, gas_used)) => {
                self.n_blocks = self.n_blocks + 1;
                if let Some(schema) = blocks_schema {
                    process_block(block, schema, &mut self.block_columns);
                }
                if let Some(schema) = transactions_schema {
                    let n: usize = count_rows(&block.transactions, gas_used);
                    for i in 0..n
                        invariant
                            n == row_count(block.transactions@, *gas_used),
                            message_fits(*message, *blocks_schema, *transactions_schema),
                            *message == Ok::<(Block<TX>, Option<Vec<u32>>), CollectError>(
                                (*block, *gas_used),
                            ),
                            *transactions_schema == Some(*schema),
                            old(self).n_txs + n <= usize::MAX,
                            self.n_txs == old(self).n_txs + i,
                            self.n_blocks == old(self).n_blocks + 1,
                            self.block_columns@ == (match *blocks_schema {
                                Some(schema) => block_row(
                                    old(self).block_columns@,
                                    *block,
                                    *schema,
                                ),
                                None => old(self).block_columns@,
                            }),
                            self.transaction_columns@ == transaction_rows(
                                old(self).transaction_columns@,
                                block.transactions@,
                                *gas_used,
                                **schema,
                                i as nat,
                            ),
                    {
                        self.n_txs = self.n_txs + 1;
                        let amount = gas_used_by(gas_used, i);
                        let tx = &block.transactions[i];
                        assert(block.transactions@[i as int].processable(
                            **schema,
                            gas_at(*gas_used, i as int),
                        ));
                        tx.process(schema, &mut self.transaction_columns, amount);
                    }
                }
                Ok(())
            },
            Err(_) => Err(CollectError::TooManyRequestsError),
        }
    }

    /// Ends the gathering: makes the wanted tables.
    pub fn into_frames(
        self,
        blocks_schema: &Option<&Table>,
        transactions_schema: &Option<&Table>,
        chain_id: u64,
    ) -> (r: Result<
        (Option<polars::prelude::DataFrame>, Option<polars::prelude::DataFrame>),
        CollectError,
    >)
        requires
            tables_countable(self@, *blocks_schema, *transactions_schema),
        ensures
            r is Ok <==> tables_fit(self@, *blocks_schema, *transactions_schema, chain_id),
            match r {
                Ok((blocks_df, transactions_df)) => tables_hold(
                    self@,
                    *blocks_schema,
                    *transactions_schema,
                    chain_id,
                    blocks_df,
                    transactions_df,
                ),
                Err(e) => e is PolarsError,
            },
    {
        let blocks_df = match blocks_schema {
            Some(schema) => match self.block_columns.create_df(schema, chain_id, self.n_blocks) {
                Ok(frame) => Some(frame),
                Err(e) => return Err(e),
            },
            None => None,
        };
        let transactions_df = match transactions_schema {
            Some(schema) => match self.transaction_columns.create_df(
                schema,
                chain_id,
                self.n_txs,
            ) {
                Ok(frame) => Some(frame),
                Err(e) => return Err(e),
            },
            None => None,
        };
        Ok((blocks_df, transactions_df))
    }
}

/// Turns a stream of fetched blocks into a table of blocks and a table of their transactions,
/// each where its schema is given. The first message that is no block ends the stream, and makes
/// the whole of it fail.
pub fn blocks_to_dfs<TX: ProcessTransactions>(
    blocks: &Vec<BlockTxGasTuple<TX>>,
    blocks_schema: &Option<&Table>,
    transactions_schema: &Option<&Table>,
    chain_id: u64,
) -> (r: Result<
    (Option<polars::prelude::DataFrame>, Option<polars::prelude::DataFrame>),
    CollectError,
>)
    requires
        messages_fit(blocks@, *blocks_schema, *transactions_schema),
        gathered(blocks@, *blocks_schema, *transactions_schema).n_txs <= usize::MAX,
        all_blocks(blocks@) ==> tables_countable(
            gathered(blocks@, *blocks_schema, *transactions_schema),
            *blocks_schema,
            *transactions_schema,
        ),
    ensures
        r == Err::<
            (Option<polars::prelude::DataFrame>, Option<polars::prelude::DataFrame>),
            CollectError,
        >(CollectError::TooManyRequestsError) <==> exists|i: int|
            0 <= i < blocks@.len() && (#[trigger] blocks@[i]) is Err,
        r matches Ok((blocks_df, transactions_df)) ==> {
            &&& blocks_df is Some <==> *blocks_schema is Some
            &&& transactions_df is Some <==> *transactions_schema is Some
        },
        match r {
            Ok((blocks_df, transactions_df)) => {
                &&& all_blocks(blocks@)
                &&& tables_fit(
                    gathered(blocks@, *blocks_schema, *transactions_schema),
                    *blocks_schema,
                    *transactions_schema,
                    chain_id,
                )
                &&& tables_hold(
                    gathered(blocks@, *blocks_schema, *transactions_schema),
                    *blocks_schema,
                    *transactions_schema,
                    chain_id,
                    blocks_df,
                    transactions_df,
                )
            },
            Err(CollectError::TooManyRequestsError) => !all_blocks(blocks@),
            Err(e) => {
                &&& all_blocks(blocks@)
                &&& e is PolarsError
                &&& !tables_fit(
                    gathered(blocks@, *blocks_schema, *transactions_schema),
                    *blocks_schema,
                    *transactions_schema,
                    chain_id,
                )
            },
        },
{
    let mut gatherer = BlockGatherer::new(blocks_schema, transactions_schema);
    for i in 0..blocks.len()
        invariant
            messages_fit(blocks@, *blocks_schema, *transactions_schema),
            gathered(blocks@, *blocks_schema, *transactions_schema).n_txs <= usize::MAX,
            all_blocks(blocks@.take(i as int)),
            gatherer@ == gathered(blocks@.take(i as int), *blocks_schema, *transactions_schema),
            gatherer@.n_blocks == i,
    {
        let ghost next = blocks@.take(i + 1);
        proof {
            assert(next.drop_last() =~= blocks@.take(i as int));
            assert(next.last() == blocks@[i as int]);
            lemma_gathers_more(blocks@, i + 1, *blocks_schema, *transactions_schema);
        }
        match gatherer.gather(&blocks[i], blocks_schema, transactions_schema) {
            Ok(()) => {},
            Err(e) => {
                return Err(e);
            },
        }
        assert forall|j: int| 0 <= j < next.len() implies (#[trigger] next[j]) is Ok by {
            if j < i {
                assert(next[j] == blocks@.take(i as int)[j]);
            }
        }
    }
    assert(blocks@.take(blocks@.len() as int) =~= blocks@);
    gatherer.into_frames(blocks_schema, transactions_schema, chain_id)
}

/// More messages never make fewer transactions.
proof fn lemma_gathers_more<TX: ProcessTransactions>(
    messages: Seq<BlockTxGasTuple<TX>>,
    n: int,
    blocks_schema: Option<&Table>,
    transactions_schema: Option<&Table>,
)
    requires
        0 <= n <= messages.len(),
    ensures
        gathered(messages.take(n), blocks_schema, transactions_schema).n_txs <= gathered(
            messages,
            blocks_schema,
            transactions_schema,
        ).n_txs,
    decreases messages.len(),
{
    if n == messages.len() {
        assert(messages.take(n) =~= messages);
    } else {
        lemma_gathers_more(messages.drop_last(), n, blocks_schema, transactions_schema);
        assert(messages.drop_last().take(n) =~= messages.take(n));
    }
}

/// Each message that is a block is counted, and its transactions are where they are wanted.
pub proof fn lemma_counts_blocks<TX: ProcessTransactions>(
    messages: Seq<BlockTxGasTuple<TX>>,
    blocks_schema: Option<&Table>,
    transactions_schema: Option<&Table>,
)
    ensures
        all_blocks(messages) ==> gathered(messages, blocks_schema, transactions_schema).n_blocks
            == messages.len(),
        transactions_schema is None ==> gathered(
            messages,
            blocks_schema,
            transactions_schema,
        ).n_txs == 0,
    decreases messages.len(),
{
    if messages.len() > 0 {
        lemma_counts_blocks(messages.drop_last(), blocks_schema, transactions_schema);
        if all_blocks(messages) {
            assert forall|i: int| 0 <= i < messages.drop_last().len() implies (
            #[trigger] messages.drop_last()[i]) is Ok by {
                assert(messages[i] is Ok);
            }
            assert(messages[messages.len() - 1] is Ok);
        }
    }
}

/// Whatever the messages are, each wanted block column has one entry for each block, and the
/// others have none.
pub proof fn law_block_columns_stay_aligned<TX: ProcessTransactions>(
    messages: Seq<BlockTxGasTuple<TX>>,
    schema: &Table,
    transactions_schema: Option<&Table>,
)
    ensures
        block_rows_aligned(
            gathered(messages, Some(schema), transactions_schema).blocks,
            *schema,
            gathered(messages, Some(schema), transactions_schema).n_blocks,
        ),
    decreases messages.len(),
{
    if messages.len() > 0 {
        law_block_columns_stay_aligned(messages.drop_last(), schema, transactions_schema);
    }
}

/// The first `n` transactions of a block add `n` entries to each wanted column.
proof fn lemma_transaction_rows_aligned(
    rows: TransactionRows,
    transactions: Seq<Transaction>,
    gas_used: Option<Vec<u32>>,
    schema: Table,
    n: nat,
    before: nat,
)
    requires
        transaction_rows_aligned(rows, schema, before),
    ensures
        transaction_rows_aligned(
            transaction_rows(rows, transactions, gas_used, schema, n),
            schema,
            before + n,
        ),
    decreases n,
{
    if n > 0 {
        lemma_transaction_rows_aligned(
            rows,
            transactions,
            gas_used,
            schema,
            (n - 1) as nat,
            before,
        );
        law_transaction_row_keeps_alignment(
            transaction_rows(rows, transactions, gas_used, schema, (n - 1) as nat),
            transactions[n - 1],
            schema,
            gas_at(gas_used, n - 1),
            (before + n - 1) as nat,
        );
    }
}

/// Whatever the messages are, each wanted transaction column has one entry for each transaction,
/// and the others have none.
pub proof fn law_transaction_columns_stay_aligned(
    messages: Seq<BlockTxGasTuple<Transaction>>,
    blocks_schema: Option<&Table>,
    schema: &Table,
)
    ensures
        transaction_rows_aligned(
            gathered(messages, blocks_schema, Some(schema)).transactions,
            *schema,
            gathered(messages, blocks_schema, Some(schema)).n_txs,
        ),
    decreases messages.len(),
{
    if messages.len() > 0 {
        law_transaction_columns_stay_aligned(messages.drop_last(), blocks_schema, schema);
        let before = gathered(messages.drop_last(), blocks_schema, Some(schema));
        if let Ok((block, gas_used)) = messages.last() {
            lemma_transaction_rows_aligned(
                before.transactions,
                block.transactions@,
                gas_used,
                *schema,
                row_count(block.transactions@, gas_used),
                before.n_txs,
            );
        }
    }
}

/// Each fetched block has its row, in the order of the messages.
pub proof fn law_each_block_has_its_row<TX: ProcessTransactions>(
    messages: Seq<BlockTxGasTuple<TX>>,
    schema: &Table,
    transactions_schema: Option<&Table>,
    i: int,
)
    requires
        all_blocks(messages),
        0 <= i < messages.len(),
    ensures
        block_row_at(
            gathered(messages, Some(schema), transactions_schema).blocks,
            i,
            messages[i]->Ok_0.0,
            *schema,
        ),
    decreases messages.len(),
{
    let earlier = messages.drop_last();
    assert(all_blocks(earlier)) by {
        assert forall|j: int| 0 <= j < earlier.len() implies (#[trigger] earlier[j]) is Ok by {
            assert(messages[j] is Ok);
        }
    }
    law_block_columns_stay_aligned(earlier, schema, transactions_schema);
    lemma_counts_blocks(earlier, Some(schema), transactions_schema);
    assert(messages[messages.len() - 1] is Ok);
    if i < earlier.len() {
        law_each_block_has_its_row(earlier, schema, transactions_schema, i);
        assert(earlier[i] == messages[i]);
    }
}

/// Rows that were there stay, and transaction `k` of a block has the row after them.
proof fn lemma_transaction_rows_at(
    rows: TransactionRows,
    transactions: Seq<Transaction>,
    gas_used: Option<Vec<u32>>,
    schema: Table,
    n: nat,
    before: nat,
)
    requires
        transaction_rows_aligned(rows, schema, before),
    ensures
        forall|k: int|
            0 <= k < n ==> #[trigger] transaction_row_at(
                transaction_rows(rows, transactions, gas_used, schema, n),
                before + k,
                transactions[k],
                schema,
                gas_at(gas_used, k),
            ),
        forall|k: int, tx: Transaction, gas: Option<u32>|
            0 <= k < before && #[trigger] transaction_row_at(rows, k, tx, schema, gas)
                ==> transaction_row_at(
                transaction_rows(rows, transactions, gas_used, schema, n),
                k,
                tx,
                schema,
                gas,
            ),
    decreases n,
{
    if n > 0 {
        let m = (n - 1) as nat;
        lemma_transaction_rows_at(rows, transactions, gas_used, schema, m, before);
        lemma_transaction_rows_aligned(rows, transactions, gas_used, schema, m, before);
        let earlier = transaction_rows(rows, transactions, gas_used, schema, m);
        let all = transaction_rows(rows, transactions, gas_used, schema, n);
        assert(all == transaction_row(
            earlier,
            transactions[n - 1],
            schema,
            gas_at(gas_used, n - 1),
        ));
        assert forall|k: int| 0 <= k < n implies #[trigger] transaction_row_at(
            all,
            before + k,
            transactions[k],
            schema,
            gas_at(gas_used, k),
        ) by {
            if k < m {
                assert(transaction_row_at(
                    earlier,
                    before + k,
                    transactions[k],
                    schema,
                    gas_at(gas_used, k),
                ));
            }
        }
        assert forall|k: int, tx: Transaction, gas: Option<u32>|
            0 <= k < before && #[trigger] transaction_row_at(
                rows,
                k,
                tx,
                schema,
                gas,
            ) implies transaction_row_at(all, k, tx, schema, gas) by {
            assert(transaction_row_at(earlier, k, tx, schema, gas));
        }
    }
}

/// Each transaction of each fetched block has its row, as far as amounts of gas were fetched with
/// the block where they were: after the rows of the earlier blocks, in the order of the block.
pub proof fn law_each_transaction_has_its_row(
    messages: Seq<BlockTxGasTuple<Transaction>>,
    blocks_schema: Option<&Table>,
    schema: &Table,
    i: int,
    k: int,
)
    requires
        0 <= i < messages.len(),
        messages[i] is Ok,
        0 <= k < row_count(messages[i]->Ok_0.0.transactions@, messages[i]->Ok_0.1),
    ensures
        transaction_row_at(
            gathered(messages, blocks_schema, Some(schema)).transactions,
            gathered(messages.take(i), blocks_schema, Some(schema)).n_txs + k,
            messages[i]->Ok_0.0.transactions@[k],
            *schema,
            gas_at(messages[i]->Ok_0.1, k),
        ),
    decreases messages.len(),
{
    let earlier = messages.drop_last();
    let before = gathered(earlier, blocks_schema, Some(schema));
    law_transaction_columns_stay_aligned(earlier, blocks_schema, schema);
    if let Ok((block, gas_used)) = messages.last() {
        lemma_transaction_rows_at(
            before.transactions,
            block.transactions@,
            gas_used,
            *schema,
            row_count(block.transactions@, gas_used),
            before.n_txs,
        );
    }
    if i == earlier.len() {
        assert(messages.take(i) =~= earlier);
        assert(transaction_row_at(
            gathered(messages, blocks_schema, Some(schema)).transactions,
            before.n_txs + k,
            messages.last()->Ok_0.0.transactions@[k],
            *schema,
            gas_at(messages.last()->Ok_0.1, k),
        ));
    } else {
        law_each_transaction_has_its_row(earlier, blocks_schema, schema, i, k);
        assert(earlier.take(i) =~= messages.take(i));
        assert(earlier[i] == messages[i]);
        let row = gathered(messages.take(i), blocks_schema, Some(schema)).n_txs + k;
        assert(row < before.n_txs) by {
            lemma_gathers_more(earlier, i + 1, blocks_schema, Some(schema));
            assert(earlier.take(i + 1).drop_last() =~= earlier.take(i));
        }
        assert(transaction_row_at(
            before.transactions,
            row,
            messages[i]->Ok_0.0.transactions@[k],
            *schema,
            gas_at(messages[i]->Ok_0.1, k),
        ));
    }
}

/// Where there are few enough blocks, their table is short enough.
pub proof fn law_few_blocks_can_be_counted<TX: ProcessTransactions>(
    messages: Seq<BlockTxGasTuple<TX>>,
    blocks_schema: Option<&Table>,
)
    requires
        rows_fit(messages, blocks_schema, None),
    ensures
        gathered(messages, blocks_schema, None).n_txs == 0,
        tables_countable(gathered(messages, blocks_schema, None), blocks_schema, None),
{
    lemma_no_transactions(messages, blocks_schema);
    lemma_at_most_blocks(messages, blocks_schema, None);
    if let Some(schema) = blocks_schema {
        law_block_columns_stay_aligned(messages, schema, None);
    }
}

/// Where there are few enough blocks and transactions, both tables are short enough.
pub proof fn law_few_rows_can_be_counted(
    messages: Seq<BlockTxGasTuple<Transaction>>,
    blocks_schema: Option<&Table>,
    transactions_schema: Option<&Table>,
)
    requires
        rows_fit(messages, blocks_schema, transactions_schema),
    ensures
        gathered(messages, blocks_schema, transactions_schema).n_txs <= usize::MAX,
        tables_countable(
            gathered(messages, blocks_schema, transactions_schema),
            blocks_schema,
            transactions_schema,
        ),
{
    lemma_at_most_blocks(messages, blocks_schema, transactions_schema);
    if let Some(schema) = blocks_schema {
        law_block_columns_stay_aligned(messages, schema, transactions_schema);
    }
    match transactions_schema {
        Some(schema) => law_transaction_columns_stay_aligned(messages, blocks_schema, schema),
        None => lemma_no_transactions(messages, blocks_schema),
    }
}

/// Where no transactions are wanted, none are gathered.
proof fn lemma_no_transactions<TX: ProcessTransactions>(
    messages: Seq<BlockTxGasTuple<TX>>,
    blocks_schema: Option<&Table>,
)
    ensures
        gathered(messages, blocks_schema, None).n_txs == 0,
    decreases messages.len(),
{
    if messages.len() > 0 {
        lemma_no_transactions(messages.drop_last(), blocks_schema);
    }
}

/// There are no more blocks than messages.
proof fn lemma_at_most_blocks<TX: ProcessTransactions>(
    messages: Seq<BlockTxGasTuple<TX>>,
    blocks_schema: Option<&Table>,
    transactions_schema: Option<&Table>,
)
    ensures
        gathered(messages, blocks_schema, transactions_schema).n_blocks <= messages.len(),
    decreases messages.len(),
{
    if messages.len() > 0 {
        lemma_at_most_blocks(messages.drop_last(), blocks_schema, transactions_schema);
    }
}

/// The table can be sorted as the schema asks: by columns that it wants and that there are.
pub open spec fn sortable(schema: Table, names: Seq<Seq<char>>) -> bool {
    schema.sort_key() matches Some(key) ==> forall|k: int|
        0 <= k < key.len() ==> schema.has(#[trigger] key[k]) && names.contains(key[k])
}

/// A table whose columns are the wanted ones among `names` has those that it is to be sorted by
/// exactly where the schema can be sorted.
proof fn lemma_sortable(columns: Seq<Column>, schema: Table, names: Seq<Seq<char>>)
    requires
        forall|name: Seq<char>| #[trigger]
            named(columns, name) <==> schema.has(name) && names.contains(name),
    ensures
        can_arrange(columns, schema.sort_key()) <==> fits(columns) && sortable(schema, names),
{
    if let Some(key) = schema.sort_key() {
        if can_arrange(columns, schema.sort_key()) {
            assert forall|k: int| 0 <= k < key.len() implies schema.has(#[trigger] key[k])
                && names.contains(key[k]) by {
                assert(named(columns, key[k]));
            }
        }
    }
}

/// Whatever was gathered, the table of blocks can be made, unless it wants the stream type without
/// the column that this is measured by, or is to be sorted by what it does not hold.
pub proof fn law_table_of_blocks_can_be_made<TX: ProcessTransactions>(
    messages: Seq<BlockTxGasTuple<TX>>,
    schema: &Table,
    transactions_schema: Option<&Table>,
    chain_id: u64,
)
    ensures
        ({
            let all = gathered(messages, Some(schema), transactions_schema);
            can_arrange(
                block_table(all.blocks, *schema, chain_id, all.n_blocks),
                schema.sort_key(),
            ) <==> {
                &&& !block_stream_type_misfits(*schema, all.n_blocks)
                &&& sortable(*schema, block_names())
            }
        }),
{
    let all = gathered(messages, Some(schema), transactions_schema);
    let table = block_table(all.blocks, *schema, chain_id, all.n_blocks);
    law_block_columns_stay_aligned(messages, schema, transactions_schema);
    law_block_table_fits(all.blocks, *schema, chain_id, all.n_blocks);
    lemma_sortable(table, *schema, block_names());
}

/// Whatever was gathered, the table of transactions can be made, unless it wants the stream type
/// without the column that this is measured by, or is to be sorted by what it does not hold.
pub proof fn law_table_of_transactions_can_be_made(
    messages: Seq<BlockTxGasTuple<Transaction>>,
    blocks_schema: Option<&Table>,
    schema: &Table,
    chain_id: u64,
)
    ensures
        ({
            let all = gathered(messages, blocks_schema, Some(schema));
            can_arrange(
                transaction_table(all.transactions, *schema, chain_id, all.n_txs),
                schema.sort_key(),
            ) <==> {
                &&& !transaction_stream_type_misfits(*schema, all.n_txs)
                &&& sortable(*schema, transaction_names())
            }
        }),
{
    let all = gathered(messages, blocks_schema, Some(schema));
    let table = transaction_table(all.transactions, *schema, chain_id, all.n_txs);
    law_transaction_columns_stay_aligned(messages, blocks_schema, schema);
    law_transaction_table_fits(all.transactions, *schema, chain_id, all.n_txs);
    lemma_sortable(table, *schema, transaction_names());
}

} // verus!
