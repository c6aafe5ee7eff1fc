//! What the finished tables tell of a stream of fetched blocks.
use vstd::prelude::*;
use crate::block_columns::{block_fits, block_names, block_table, law_block_table_fits};
use crate::columns::wants_data;
use crate::frame::{fits, frame_columns, height};
use crate::gather::{
    all_blocks, gas_at, gathered, law_block_columns_stay_aligned, law_each_block_has_its_row,
    law_each_transaction_has_its_row, law_few_rows_can_be_counted,
    law_transaction_columns_stay_aligned, lemma_counts_blocks, message_fits, messages_fit,
    row_count, rows_fit, tables_countable, tables_fit, tables_hold, BlockTxGasTuple,
};
use crate::records::{Block, Transaction};
use crate::rows::{
    lemma_block_row_shows, lemma_block_table_holds, lemma_transaction_row_shows,
    lemma_transaction_table_holds, tells_block, tells_transaction,
};
use crate::schema::Table;
use crate::sorting::{
    law_moved_row_tells_the_block, law_moved_row_tells_the_transaction,
    law_sorting_moves_whole_rows, row_kept, same_row,
};
use crate::transaction_columns::{
    law_transaction_table_fits, transaction_fits, transaction_names, transaction_table,
    ProcessTransactions,
};

verus! {

/// Number of transactions in the blocks among the messages.
pub open spec fn transactions_in<TX>(messages: Seq<BlockTxGasTuple<TX>>) -> nat
    decreases messages.len(),
{
    if messages.len() == 0 {
        0
    } else {
        transactions_in(messages.drop_last()) + match messages.last() {
            Ok((block, _)) => block.transactions@.len(),
            Err(_) => 0,
        }
    }
}

/// Where amounts of gas came with a block, there is one for each of its transactions.
pub open spec fn amounts_complete<TX>(messages: Seq<BlockTxGasTuple<TX>>) -> bool {
    forall|i: int|
        0 <= i < messages.len() ==> (#[trigger] messages[i] matches Ok((block, Some(amounts)))
            ==> amounts@.len() == block.transactions@.len())
}

/// A block adds as many transaction rows as it has transactions, where no amounts of gas came with
/// it. Where some came, neither a transaction nor an amount without the other makes a row, and no
/// pair of them is without one.
pub proof fn law_rows_of_a_block<TX>(transactions: Seq<TX>, gas_used: Option<Vec<u32>>)
    ensures
        gas_used is None ==> row_count(transactions, gas_used) == transactions.len(),
        gas_used matches Some(amounts) ==> {
            &&& row_count(transactions, gas_used) <= transactions.len()
            &&& row_count(transactions, gas_used) <= amounts@.len()
            &&& row_count(transactions, gas_used) == transactions.len() || row_count(
                transactions,
                gas_used,
            ) == amounts@.len()
        },
{
}

/// There is one row for each transaction of each block, and so the table of transactions is as
/// high as the blocks have transactions, whatever their number.
pub proof fn law_every_transaction_makes_a_row(
    messages: Seq<BlockTxGasTuple<Transaction>>,
    blocks_schema: Option<&Table>,
    schema: &Table,
    chain_id: u64,
)
    requires
        amounts_complete(messages),
    ensures
        gathered(messages, blocks_schema, Some(schema)).n_txs == transactions_in(messages),
        ({
            let all = gathered(messages, blocks_schema, Some(schema));
            let table = transaction_table(all.transactions, *schema, chain_id, all.n_txs);
            wants_data(transaction_names(), *schema) && fits(table) ==> height(table)
                == transactions_in(messages)
        }),
    decreases messages.len(),
{
    let all = gathered(messages, blocks_schema, Some(schema));
    if messages.len() > 0 {
        let earlier = messages.drop_last();
        assert forall|i: int| 0 <= i < earlier.len() implies (
        #[trigger] earlier[i] matches Ok((block, Some(amounts))) ==> amounts@.len()
            == block.transactions@.len()) by {
            assert(earlier[i] == messages[i]);
        }
        law_every_transaction_makes_a_row(earlier, blocks_schema, schema, chain_id);
        assert(messages.last() == messages[messages.len() - 1]);
        if let Ok((block, gas_used)) = messages.last() {
            law_rows_of_a_block(block.transactions@, gas_used);
        }
    }
    law_transaction_columns_stay_aligned(messages, blocks_schema, schema);
    law_transaction_table_fits(all.transactions, *schema, chain_id, all.n_txs);
}

/// There is one row for each block, and so the table of blocks is as high as there are blocks.
pub proof fn law_every_block_makes_a_row<TX: ProcessTransactions>(
    messages: Seq<BlockTxGasTuple<TX>>,
    schema: &Table,
    transactions_schema: Option<&Table>,
    chain_id: u64,
)
    requires
        forall|i: int| 0 <= i < messages.len() ==> (#[trigger] messages[i]) is Ok,
    ensures
        gathered(messages, Some(schema), transactions_schema).n_blocks == messages.len(),
        ({
            let all = gathered(messages, Some(schema), transactions_schema);
            let table = block_table(all.blocks, *schema, chain_id, all.n_blocks);
            wants_data(block_names(), *schema) && fits(table) ==> height(table) == messages.len()
        }),
{
    let all = gathered(messages, Some(schema), transactions_schema);
    lemma_counts_blocks(messages, Some(schema), transactions_schema);
    law_block_columns_stay_aligned(messages, schema, transactions_schema);
    law_block_table_fits(all.blocks, *schema, chain_id, all.n_blocks);
}

/// Row `i` of the table of blocks tells block `i`: each wanted column shows the block's own value
/// there.
pub proof fn law_block_table_tells_every_block<TX: ProcessTransactions>(
    messages: Seq<BlockTxGasTuple<TX>>,
    schema: &Table,
    transactions_schema: Option<&Table>,
    chain_id: u64,
    i: int,
)
    requires
        forall|j: int| 0 <= j < messages.len() ==> (#[trigger] messages[j]) is Ok,
        messages_fit(messages, Some(schema), transactions_schema),
        0 <= i < messages.len(),
    ensures
        tells_block(
            block_table(
                gathered(messages, Some(schema), transactions_schema).blocks,
                *schema,
                chain_id,
                messages.len(),
            ),
            *schema,
            chain_id,
            i,
            messages[i]->Ok_0.0,
        ),
{
    let rows = gathered(messages, Some(schema), transactions_schema).blocks;
    let n = messages.len();
    lemma_counts_blocks(messages, Some(schema), transactions_schema);
    law_block_columns_stay_aligned(messages, schema, transactions_schema);
    law_each_block_has_its_row(messages, schema, transactions_schema, i);
    lemma_message_fits(messages, Some(schema), transactions_schema, i);
    lemma_block_table_holds(rows, *schema, chain_id, n);
    let block = messages[i]->Ok_0.0;
    let t = block_table(rows, *schema, chain_id, n);
    lemma_block_row_shows(t, rows, *schema, chain_id, n, i, block);
}

/// Where every message is a block, each of them fits.
proof fn lemma_message_fits<TX: ProcessTransactions>(
    messages: Seq<BlockTxGasTuple<TX>>,
    blocks_schema: Option<&Table>,
    transactions_schema: Option<&Table>,
    i: int,
)
    requires
        all_blocks(messages),
        messages_fit(messages, blocks_schema, transactions_schema),
        0 <= i < messages.len(),
    ensures
        message_fits(messages[i], blocks_schema, transactions_schema),
{
    assert forall|j: int| 0 <= j < messages.take(i).len() implies (
    #[trigger] messages.take(i)[j]) is Ok by {
        assert(messages[j] is Ok);
    }
}

/// Transaction `k` of block `i` has the row after those of the earlier blocks and of the earlier
/// transactions of its block, and that row tells it: each wanted column shows the transaction's own
/// value there, and the gas that its own receipt told.
pub proof fn law_transaction_table_tells_every_transaction(
    messages: Seq<BlockTxGasTuple<Transaction>>,
    blocks_schema: Option<&Table>,
    schema: &Table,
    chain_id: u64,
    i: int,
    k: int,
)
    requires
        forall|j: int| 0 <= j < messages.len() ==> (#[trigger] messages[j]) is Ok,
        messages_fit(messages, blocks_schema, Some(schema)),
        amounts_complete(messages),
        0 <= i < messages.len(),
        0 <= k < messages[i]->Ok_0.0.transactions@.len(),
    ensures
        tells_transaction(
            transaction_table(
                gathered(messages, blocks_schema, Some(schema)).transactions,
                *schema,
                chain_id,
                transactions_in(messages),
            ),
            *schema,
            chain_id,
            transactions_in(messages.take(i)) + k,
            messages[i]->Ok_0.0.transactions@[k],
            match messages[i]->Ok_0.1 {
                Some(amounts) => Some(amounts@[k]),
                None => None,
            },
        ),
{
    let rows = gathered(messages, blocks_schema, Some(schema)).transactions;
    let n = transactions_in(messages);
    let block = messages[i]->Ok_0.0;
    let gas_used = messages[i]->Ok_0.1;
    let tx = block.transactions@[k];
    let gas = gas_at(gas_used, k);
    let row = transactions_in(messages.take(i)) + k;
    law_every_transaction_makes_a_row(messages, blocks_schema, schema, chain_id);
    assert forall|j: int| 0 <= j < messages.take(i).len() implies (
    #[trigger] messages.take(i)[j] matches Ok((block, Some(amounts))) ==> amounts@.len()
        == block.transactions@.len()) by {
        assert(messages.take(i)[j] == messages[j]);
    }
    law_every_transaction_makes_a_row(messages.take(i), blocks_schema, schema, chain_id);
    law_rows_of_a_block(block.transactions@, gas_used);
    assert(messages[i] is Ok);
    assert(row_count(block.transactions@, gas_used) == block.transactions@.len());
    law_each_transaction_has_its_row(messages, blocks_schema, schema, i, k);
    law_transaction_columns_stay_aligned(messages, blocks_schema, schema);
    lemma_message_fits(messages, blocks_schema, Some(schema), i);
    assert(tx.processable(*schema, gas));
    lemma_transactions_before(messages, i);
    lemma_transaction_table_holds(rows, *schema, chain_id, n);
    let t = transaction_table(rows, *schema, chain_id, n);
    lemma_transaction_row_shows(t, rows, *schema, chain_id, n, row, tx, gas);
}

/// The transactions of a block come after those of the earlier blocks and within all.
proof fn lemma_transactions_before<TX>(messages: Seq<BlockTxGasTuple<TX>>, i: int)
    requires
        0 <= i < messages.len(),
        messages[i] is Ok,
    ensures
        transactions_in(messages.take(i)) + messages[i]->Ok_0.0.transactions@.len()
            <= transactions_in(messages),
    decreases messages.len(),
{
    if i == messages.len() - 1 {
        assert(messages.take(i) =~= messages.drop_last());
    } else {
        assert(messages.drop_last().take(i) =~= messages.take(i));
        lemma_transactions_before(messages.drop_last(), i);
    }
}

/// The table that is made of fetched blocks, sorted or not, tells every one of them in some row,
/// and has no other rows.
pub proof fn law_frame_tells_every_block<TX: ProcessTransactions>(
    messages: Seq<BlockTxGasTuple<TX>>,
    schema: &Table,
    transactions_schema: Option<&Table>,
    chain_id: u64,
    blocks_df: polars::prelude::DataFrame,
    transactions_df: Option<polars::prelude::DataFrame>,
    i: int,
)
    requires
        forall|j: int| 0 <= j < messages.len() ==> (#[trigger] messages[j]) is Ok,
        messages_fit(messages, Some(schema), transactions_schema),
        ({
            let all = gathered(messages, Some(schema), transactions_schema);
            &&& tables_fit(all, Some(schema), transactions_schema, chain_id)
            &&& tables_hold(
                all,
                Some(schema),
                transactions_schema,
                chain_id,
                Some(blocks_df),
                transactions_df,
            )
        }),
        wants_data(block_names(), *schema),
        0 <= i < messages.len(),
    ensures
        height(frame_columns(blocks_df)) == messages.len(),
        exists|r: int|
            0 <= r < messages.len() && #[trigger] tells_block(
                frame_columns(blocks_df),
                *schema,
                chain_id,
                r,
                messages[i]->Ok_0.0,
            ),
{
    let all = gathered(messages, Some(schema), transactions_schema);
    let n = messages.len();
    let columns = block_table(all.blocks, *schema, chain_id, n);
    let table = frame_columns(blocks_df);
    let block = messages[i]->Ok_0.0;
    law_every_block_makes_a_row(messages, schema, transactions_schema, chain_id);
    law_block_table_tells_every_block(messages, schema, transactions_schema, chain_id, i);
    law_sorting_moves_whole_rows(columns, schema.sort_key(), table);
    assert(row_kept(columns, i, table));
    let r = choose|r: int| 0 <= r < height(table) && #[trigger] same_row(columns, i, table, r);
    law_moved_row_tells_the_block(columns, i, table, r, *schema, chain_id, block);
}

/// The table that is made of the transactions of fetched blocks, sorted or not, tells every one of
/// them in some row, and has no other rows.
pub proof fn law_frame_tells_every_transaction(
    messages: Seq<BlockTxGasTuple<Transaction>>,
    blocks_schema: Option<&Table>,
    schema: &Table,
    chain_id: u64,
    blocks_df: Option<polars::prelude::DataFrame>,
    transactions_df: polars::prelude::DataFrame,
    i: int,
    k: int,
    gas_used: Option<u32>,
)
    requires
        forall|j: int| 0 <= j < messages.len() ==> (#[trigger] messages[j]) is Ok,
        messages_fit(messages, blocks_schema, Some(schema)),
        amounts_complete(messages),
        ({
            let all = gathered(messages, blocks_schema, Some(schema));
            &&& tables_fit(all, blocks_schema, Some(schema), chain_id)
            &&& tables_hold(
                all,
                blocks_schema,
                Some(schema),
                chain_id,
                blocks_df,
                Some(transactions_df),
            )
        }),
        wants_data(transaction_names(), *schema),
        0 <= i < messages.len(),
        0 <= k < messages[i]->Ok_0.0.transactions@.len(),
        gas_used == match messages[i]->Ok_0.1 {
            Some(amounts) => Some(amounts@[k]),
            None => None,
        },
    ensures
        height(frame_columns(transactions_df)) == transactions_in(messages),
        exists|r: int|
            0 <= r < transactions_in(messages) && #[trigger] tells_transaction(
                frame_columns(transactions_df),
                *schema,
                chain_id,
                r,
                messages[i]->Ok_0.0.transactions@[k],
                gas_used,
            ),
{
    let all = gathered(messages, blocks_schema, Some(schema));
    let columns = transaction_table(all.transactions, *schema, chain_id, all.n_txs);
    let table = frame_columns(transactions_df);
    let tx = messages[i]->Ok_0.0.transactions@[k];
    let row = transactions_in(messages.take(i)) + k;
    law_every_transaction_makes_a_row(messages, blocks_schema, schema, chain_id);
    law_transaction_table_tells_every_transaction(messages, blocks_schema, schema, chain_id, i, k);
    assert(messages[i] is Ok);
    lemma_transactions_before(messages, i);
    law_sorting_moves_whole_rows(columns, schema.sort_key(), table);
    assert(row_kept(columns, row, table));
    let r = choose|r: int| 0 <= r < height(table) && #[trigger] same_row(columns, row, table, r);
    law_moved_row_tells_the_transaction(
        columns,
        row,
        table,
        r,
        *schema,
        chain_id,
        tx,
        gas_used,
    );
}

/// A block that is not pending, in numbers of ordinary size, makes a row whatever is wanted.
pub proof fn law_ordinary_block_makes_a_row<TX>(block: Block<TX>, schema: Table)
    requires
        block.hash is Some,
        block.author is Some,
        block.number is Some,
        block.number->0 <= u32::MAX,
        block.gas_used.value() <= u32::MAX,
        block.timestamp.value() <= u32::MAX,
        block.size is Some ==> block.size->0.value() <= u32::MAX,
        block.base_fee_per_gas is Some ==> block.base_fee_per_gas->0.value() <= u64::MAX,
    ensures
        block_fits(block, schema),
{
}

/// A transaction in numbers of ordinary size makes a row whatever is wanted, where the gas that it
/// used is known.
pub proof fn law_ordinary_transaction_makes_a_row(
    tx: Transaction,
    schema: Table,
    gas_used: Option<u32>,
)
    requires
        tx.nonce.value() <= u64::MAX,
        tx.gas.value() <= u32::MAX,
        tx.gas_price is Some ==> tx.gas_price->0.value() <= u64::MAX,
        tx.transaction_type is Some ==> tx.transaction_type->0 <= u32::MAX,
        tx.max_priority_fee_per_gas is Some ==> tx.max_priority_fee_per_gas->0.value() <= u64::MAX,
        tx.max_fee_per_gas is Some ==> tx.max_fee_per_gas->0.value() <= u64::MAX,
        gas_used is Some || !schema.has("gas_used"@),
    ensures
        transaction_fits(tx, schema, gas_used),
{
}

/// What is wanted is all that counts: of a block and a transaction whose rows are made, the columns
/// that are not wanted may be missing or too large.
pub proof fn law_unwanted_columns_do_not_count<TX>(
    block: Block<TX>,
    tx: Transaction,
    schema: Table,
)
    requires
        forall|name: Seq<char>| !schema.has(name),
    ensures
        block_fits(block, schema),
        transaction_fits(tx, schema, None),
{
}

/// Ordinary numbers of rows are never refused: fewer blocks, and fewer transactions in them, than
/// can be counted in 32 bits make tables, sorted by something or not at all.
pub proof fn law_ordinary_numbers_of_rows_fit(
    messages: Seq<BlockTxGasTuple<Transaction>>,
    blocks_schema: Option<&Table>,
    transactions_schema: Option<&Table>,
)
    requires
        messages.len() < u32::MAX,
        transactions_in(messages) < u32::MAX,
        blocks_schema is Some && blocks_schema->0.sort_columns is Some
            ==> blocks_schema->0.sort_columns->0@.len() > 0,
        transactions_schema is Some && transactions_schema->0.sort_columns is Some
            ==> transactions_schema->0.sort_columns->0@.len() > 0,
    ensures
        rows_fit(messages, blocks_schema, transactions_schema),
        gathered(messages, blocks_schema, transactions_schema).n_txs <= usize::MAX,
        tables_countable(
            gathered(messages, blocks_schema, transactions_schema),
            blocks_schema,
            transactions_schema,
        ),
{
    lemma_no_more_rows_than_transactions(messages, blocks_schema, transactions_schema);
    law_few_rows_can_be_counted(messages, blocks_schema, transactions_schema);
}

/// Nothing but the transactions of the blocks makes transaction rows.
proof fn lemma_no_more_rows_than_transactions<TX: ProcessTransactions>(
    messages: Seq<BlockTxGasTuple<TX>>,
    blocks_schema: Option<&Table>,
    transactions_schema: Option<&Table>,
)
    ensures
        gathered(messages, blocks_schema, transactions_schema).n_txs <= transactions_in(messages),
    decreases messages.len(),
{
    if messages.len() > 0 {
        lemma_no_more_rows_than_transactions(
            messages.drop_last(),
            blocks_schema,
            transactions_schema,
        );
        if let Ok((block, gas_used)) = messages.last() {
            law_rows_of_a_block(block.transactions@, gas_used);
        }
    }
}

/// Messages of ordinary blocks and transactions make rows whatever is wanted.
pub proof fn law_ordinary_messages_fit(
    messages: Seq<BlockTxGasTuple<Transaction>>,
    blocks_schema: Option<&Table>,
    transactions_schema: Option<&Table>,
)
    requires
        forall|i: int|
            0 <= i < messages.len() && (#[trigger] messages[i]) is Ok ==> {
                let (block, gas_used) = messages[i]->Ok_0;
                &&& blocks_schema is Some ==> block_fits(block, *blocks_schema->0)
                &&& transactions_schema is Some ==> forall|k: int|
                    0 <= k < block.transactions@.len() ==> transaction_fits(
                        #[trigger] block.transactions@[k],
                        *transactions_schema->0,
                        gas_at(gas_used, k),
                    )
            },
    ensures
        messages_fit(messages, blocks_schema, transactions_schema),
{
    assert forall|i: int|
        0 <= i < messages.len() && all_blocks(messages.take(i)) implies message_fits(
        #[trigger] messages[i],
        blocks_schema,
        transactions_schema,
    ) by {
        if let Ok((block, gas_used)) = messages[i] {
            law_rows_of_a_block(block.transactions@, gas_used);
        }
    }
}

/// Messages of ordinary blocks make rows where their transactions are not wanted, whatever these
/// are.
pub proof fn law_ordinary_blocks_fit<TX: ProcessTransactions>(
    messages: Seq<BlockTxGasTuple<TX>>,
    blocks_schema: Option<&Table>,
)
    requires
        forall|i: int|
            0 <= i < messages.len() && (#[trigger] messages[i]) is Ok ==> (blocks_schema is Some
                ==> block_fits(messages[i]->Ok_0.0, *blocks_schema->0)),
    ensures
        messages_fit(messages, blocks_schema, None),
{
}

} // verus!
