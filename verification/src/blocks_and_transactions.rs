//! The dataset of blocks together with their transactions.
use vstd::prelude::*;
use crate::errors::CollectError;
use crate::gather::{
    all_blocks, blocks_to_dfs, gas_at, gathered, messages_fit, row_count, tables_countable,
    tables_fit, tables_hold, BlockTxGasTuple,
};
use crate::numbers::U256;
use crate::records::{Block, Receipt, Transaction};
use crate::schema::{Datatype, PerDatatype, Table};

verus! {

/// The dataset of blocks together with their transactions.
#[derive(Clone, Copy, Debug)]
pub struct BlocksAndTransactions;

/// What to do once the node has replied to the request for a block.
#[derive(Debug)]
pub enum BlockStep {
    /// Pass the outcome on.
    Send(BlockTxGasTuple<Transaction>),
    /// Ask for the receipts of the block's transactions first.
    FetchReceipts(Block<Transaction>),
}

/// What follows from the node's reply to the request for a block with its transactions.
pub open spec fn follows(
    reply: Result<Option<Block<Transaction>>, ethers::providers::ProviderError>,
    include_gas_used: bool,
    step: BlockStep,
) -> bool {
    match reply {
        Ok(Some(block)) => if include_gas_used {
            step == BlockStep::FetchReceipts(block)
        } else {
            step == BlockStep::Send(Ok((block, None)))
        },
        Ok(None) => step matches BlockStep::Send(Err(e)) && e.says("no block found"@),
        Err(cause) => step == BlockStep::Send(Err(CollectError::ProviderError(cause))),
    }
}

/// A block together with the gas that its transactions used.
pub open spec fn with_gas(
    block: Block<Transaction>,
    gas_used: Result<Vec<u32>, CollectError>,
) -> BlockTxGasTuple<Transaction> {
    match gas_used {
        Ok(amounts) => Ok((block, Some(amounts))),
        Err(e) => Err(e),
    }
}

/// Judges the node's reply to the request for a block with its transactions.
pub fn block_fetched(
    reply: Result<Option<Block<Transaction>>, ethers::providers::ProviderError>,
    include_gas_used: bool,
) -> (r: BlockStep)
    ensures
        follows(reply, include_gas_used, r),
{
    match reply {
        Ok(Some(block)) => {
            if include_gas_used {
                BlockStep::FetchReceipts(block)
            } else {
                BlockStep::Send(Ok((block, None)))
            }
        },
        Ok(None) => BlockStep::Send(
            Err(CollectError::CollectError("no block found".to_owned())),
        ),
        Err(e) => BlockStep::Send(Err(CollectError::ProviderError(e))),
    }
}

/// Puts a block together with the gas that its transactions used.
pub fn gas_fetched(block: Block<Transaction>, gas_used: Result<Vec<u32>, CollectError>) -> (r:
    BlockTxGasTuple<Transaction>)
    ensures
        r == with_gas(block, gas_used),
{
    match gas_used {
        Ok(gas_used) => Ok((block, Some(gas_used))),
        Err(e) => Err(e),
    }
}

/// Judges the node's reply to the request for a receipt.
pub fn receipt_gas(
    reply: Result<Option<Receipt>, ethers::providers::ProviderError>,
) -> (r: Result<Option<U256>, CollectError>)
    ensures
        match reply {
            Ok(Some(receipt)) => r == Ok::<Option<U256>, CollectError>(receipt.gas_used),
            Ok(None) => r matches Err(e) && e.says("could not find tx receipt"@),
            Err(cause) => r == Err::<Option<U256>, CollectError>(
                CollectError::ProviderError(cause),
            ),
        },
{
    match reply {
        Ok(Some(receipt)) => Ok(receipt.gas_used),
        Ok(None) => Err(CollectError::CollectError("could not find tx receipt".to_owned())),
        Err(e) => Err(CollectError::ProviderError(e)),
    }
}

/// The outcome of asking for one receipt in a task of its own, which may fail as `E` tells.
pub type GasLookup<E> = Result<Result<Option<U256>, CollectError>, E>;

/// The amount of gas that a lookup gives.
pub open spec fn gas_of<E>(lookup: GasLookup<E>) -> Option<nat> {
    match lookup {
        Ok(Ok(Some(amount))) => Some(amount.value()),
        _ => None,
    }
}

/// Tells whether a lookup gives an amount of gas. One that does not ends the waiting for others.
pub fn gives_gas<E>(lookup: &GasLookup<E>) -> (r: bool)
    ensures
        r == (gas_of(*lookup) is Some),
{
    match lookup {
        Ok(Ok(Some(_))) => true,
        _ => false,
    }
}

/// Lookup `i` is the first that gives no amount of gas.
pub open spec fn first_without_gas<E>(lookups: Seq<GasLookup<E>>, i: int) -> bool {
    &&& 0 <= i < lookups.len()
    &&& gas_of(lookups[i]) is None
    &&& forall|j: int| 0 <= j < i ==> gas_of(#[trigger] lookups[j]) is Some
}

/// All lookups before `i` give an amount of gas.
pub open spec fn gas_before<E>(lookups: Seq<GasLookup<E>>, i: int) -> bool {
    forall|j: int| 0 <= j < i ==> gas_of(#[trigger] lookups[j]) is Some
}

/// The amounts up to the first lookup without one fit in 32 bits.
pub open spec fn amounts_fit<E>(lookups: Seq<GasLookup<E>>) -> bool {
    forall|i: int|
        0 <= i < lookups.len() && gas_before(lookups, i) ==> (gas_of(
            #[trigger] lookups[i],
        ) matches Some(amount) ==> amount <= u32::MAX)
}

/// The amounts are those of the lookups, in order.
pub open spec fn amounts_match<E>(lookups: Seq<GasLookup<E>>, amounts: Seq<u32>) -> bool {
    &&& amounts.len() == lookups.len()
    &&& forall|i: int|
        0 <= i < lookups.len() ==> gas_of(#[trigger] lookups[i]) == Some(amounts[i] as nat)
}

/// The error that a lookup without an amount of gas amounts to, where a failed task tells a text.
pub open spec fn gas_fault(lookup: GasLookup<String>, e: CollectError) -> bool {
    match lookup {
        Ok(Ok(Some(_))) => false,
        Ok(Ok(None)) => e.says("gas_used not available from node"@),
        Ok(Err(cause)) => e == cause,
        Err(text) => e.says(text@),
    }
}

/// The text on why a task failed.
pub uninterp spec fn task_error_text(e: tokio::task::JoinError) -> Seq<char>;

/// The error that a lookup without an amount of gas amounts to.
pub open spec fn lookup_gas_fault(
    lookup: GasLookup<tokio::task::JoinError>,
    e: CollectError,
) -> bool {
    match lookup {
        Ok(Ok(Some(_))) => false,
        Ok(Ok(None)) => e.says("gas_used not available from node"@),
        Ok(Err(cause)) => e == cause,
        Err(cause) => e.says(task_error_text(cause)),
    }
}

/// The same lookup, with the text of a failed task.
pub open spec fn told(
    lookup: GasLookup<tokio::task::JoinError>,
    text: GasLookup<String>,
) -> bool {
    match lookup {
        Ok(reply) => text == Ok::<Result<Option<U256>, CollectError>, String>(reply),
        Err(cause) => text matches Err(text) && text@ == task_error_text(cause),
    }
}

/// `tokio::task::JoinError::to_string`: the text on why a task failed, made of nothing but what the
/// error holds. The text names the task by a number, so that two tasks that fail alike differ in
/// it.
#[verifier::external_body]
fn join_error_text(e: &tokio::task::JoinError) -> (r: String)
    ensures
        r@ == task_error_text(*e),
{
    e.to_string()
}

/// Tells whether the amounts up to the first lookup without one fit in 32 bits.
pub fn amounts_in_range<E>(lookups: &Vec<GasLookup<E>>) -> (r: bool)
    ensures
        r == amounts_fit(lookups@),
{
    for i in 0..lookups.len()
        invariant
            gas_before(lookups@, i as int),
            forall|j: int|
                0 <= j < i ==> (gas_of(#[trigger] lookups@[j]) matches Some(amount) ==> amount
                    <= u32::MAX),
    {
        match &lookups[i] {
            Ok(Ok(Some(amount))) => {
                if !amount.fits_u32() {
                    assert(gas_of(lookups@[i as int]) is Some);
                    return false;
                }
            },
            _ => {
                assert(gas_of(lookups@[i as int]) is None);
                return true;
            },
        }
    }
    true
}

/// Lists the amounts of gas that were looked up, in order. The first lookup that gives none makes
/// the whole fail.
pub fn amounts_of(lookups: Vec<GasLookup<String>>) -> (r: Result<Vec<u32>, CollectError>)
    requires
        amounts_fit(lookups@),
    ensures
        match r {
            Ok(amounts) => amounts_match(lookups@, amounts@),
            Err(e) => exists|i: int|
                #[trigger] first_without_gas(lookups@, i) && gas_fault(lookups@[i], e),
        },
{
    let mut amounts: Vec<u32> = Vec::new();
    let ghost all = lookups@;
    for lookup in iter: lookups
        invariant
            iter.seq() == all,
            amounts_fit(all),
            amounts@.len() == iter.index(),
            forall|i: int|
                0 <= i < iter.index() ==> gas_of(#[trigger] all[i]) == Some(amounts@[i] as nat),
    {
        let ghost i = iter.index();
        assert(lookup == all[i]);
        assert(gas_before(all, i));
        assert(gas_of(lookup) is None ==> first_without_gas(all, i));
        match lookup {
            Ok(Ok(Some(value))) => amounts.push(value.as_u32()),
            Ok(Ok(None)) => {
                return Err(
                    CollectError::CollectError("gas_used not available from node".to_owned()),
                );
            },
            Ok(Err(e)) => return Err(e),
            Err(text) => return Err(CollectError::CollectError(text)),
        }
    }
    Ok(amounts)
}

/// Lists the amounts of gas that the receipts tell, in order. The first receipt without one makes
/// the whole fail; a task that failed does so with its text.
pub fn get_txs_gas_used(lookups: Vec<GasLookup<tokio::task::JoinError>>) -> (r: Result<
    Vec<u32>,
    CollectError,
>)
    requires
        amounts_fit(lookups@),
    ensures
        match r {
            Ok(amounts) => amounts_match(lookups@, amounts@),
            Err(e) => exists|i: int|
                #[trigger] first_without_gas(lookups@, i) && lookup_gas_fault(lookups@[i], e),
        },
{
    let mut texts: Vec<GasLookup<String>> = Vec::new();
    let ghost all = lookups@;
    for lookup in iter: lookups
        invariant
            iter.seq() == all,
            texts@.len() == iter.index(),
            forall|i: int| 0 <= i < iter.index() ==> told(#[trigger] all[i], texts@[i]),
    {
        assert(lookup == all[iter.index()]);
        match lookup {
            Ok(reply) => texts.push(Ok(reply)),
            Err(e) => texts.push(Err(join_error_text(&e))),
        }
    }
    proof {
        assert forall|i: int| 0 <= i < all.len() implies gas_of(#[trigger] all[i]) == gas_of(
            texts@[i],
        ) by {}
        assert forall|i: int|
            0 <= i < texts@.len() && gas_before(texts@, i) implies (gas_of(
            #[trigger] texts@[i],
        ) matches Some(amount) ==> amount <= u32::MAX) by {
            assert(gas_of(all[i]) == gas_of(texts@[i]));
            assert forall|j: int| 0 <= j < i implies gas_of(#[trigger] all[j]) is Some by {
                assert(gas_of(texts@[j]) is Some);
            }
        }
    }
    let ghost described = texts@;
    match amounts_of(texts) {
        Ok(amounts) => {
            assert forall|i: int| 0 <= i < all.len() implies gas_of(#[trigger] all[i]) == Some(
                amounts@[i] as nat,
            ) by {
                assert(gas_of(described[i]) == Some(amounts@[i] as nat));
            }
            Ok(amounts)
        },
        Err(e) => {
            proof {
                let i = choose|i: int|
                    #[trigger] first_without_gas(described, i) && gas_fault(described[i], e);
                assert(gas_of(all[i]) == gas_of(described[i]));
                assert forall|j: int| 0 <= j < i implies gas_of(#[trigger] all[j]) is Some by {
                    assert(gas_of(described[j]) is Some);
                }
                assert(first_without_gas(all, i));
            }
            Err(e)
        },
    }
}

/// The gas that each transaction used is wanted.
pub open spec fn wants_gas(transactions_schema: Option<&Table>) -> bool {
    transactions_schema matches Some(schema) && schema.has("gas_used"@)
}

impl BlocksAndTransactions {
    /// Name of the dataset.
    pub fn name(&self) -> (r: &'static str)
        ensures
            r@ == "blocks_and_transactions"@,
    {
        "blocks_and_transactions"
    }

    /// Kinds of data in the dataset, each once.
    pub fn datatypes(&self) -> (r: Vec<Datatype>)
        ensures
            r@ == seq![Datatype::Blocks, Datatype::Transactions],
    {
        let datatypes: Vec<Datatype> = vec![Datatype::Blocks, Datatype::Transactions];
        assert(datatypes@ =~= seq![Datatype::Blocks, Datatype::Transactions]);
        datatypes
    }

    /// Tells whether receipts are needed: whether the gas that each transaction used is wanted.
    pub fn include_gas_used(&self, schemas: &PerDatatype<Table>) -> (r: bool)
        ensures
            r == wants_gas(schemas.transactions_schema()),
            r == (schemas.transactions is Some && exists|i: int|
                0 <= i < schemas.transactions->0.columns@.len() && (
                #[trigger] schemas.transactions->0.columns@[i]).0@ == "gas_used"@),
    {
        match schemas.get(&Datatype::Transactions) {
            Some(table) => table.has_column("gas_used"),
            None => false,
        }
    }

    /// Makes the table of the blocks that were fetched and that of their transactions. Both must
    /// be wanted.
    pub fn collect_block_chunk(
        &self,
        blocks: &Vec<BlockTxGasTuple<Transaction>>,
        schemas: &PerDatatype<Table>,
        chain_id: u64,
    ) -> (r: Result<PerDatatype<polars::prelude::DataFrame>, CollectError>)
        requires
            messages_fit(blocks@, schemas.blocks_schema(), schemas.transactions_schema()),
            gathered(
                blocks@,
                schemas.blocks_schema(),
                schemas.transactions_schema(),
            ).n_txs <= usize::MAX,
            all_blocks(blocks@) ==> tables_countable(
                gathered(blocks@, schemas.blocks_schema(), schemas.transactions_schema()),
                schemas.blocks_schema(),
                schemas.transactions_schema(),
            ),
        ensures
            ({
                let blocks_schema = schemas.blocks_schema();
                let transactions_schema = schemas.transactions_schema();
                let all = gathered(blocks@, blocks_schema, transactions_schema);
                match r {
                    Ok(frames) => {
                        &&& all_blocks(blocks@)
                        &&& blocks_schema is Some
                        &&& transactions_schema is Some
                        &&& tables_fit(all, blocks_schema, transactions_schema, chain_id)
                        &&& frames@.dom() == set![Datatype::Blocks, Datatype::Transactions]
                        &&& tables_hold(
                            all,
                            blocks_schema,
                            transactions_schema,
                            chain_id,
                            Some(frames@[Datatype::Blocks]),
                            Some(frames@[Datatype::Transactions]),
                        )
                    },
                    Err(CollectError::TooManyRequestsError) => !all_blocks(blocks@),
                    Err(CollectError::BadSchemaError) => {
                        &&& all_blocks(blocks@)
                        &&& tables_fit(all, blocks_schema, transactions_schema, chain_id)
                        &&& blocks_schema is None || transactions_schema is None
                    },
                    Err(e) => {
                        &&& all_blocks(blocks@)
                        &&& e is PolarsError
                        &&& !tables_fit(all, blocks_schema, transactions_schema, chain_id)
                    },
                }
            }),
    {
        let output = blocks_to_dfs(
            blocks,
            &schemas.get(&Datatype::Blocks),
            &schemas.get(&Datatype::Transactions),
            chain_id,
        );
        match output {
            Ok((Some(blocks_df), Some(txs_df))) => {
                let mut frames: PerDatatype<polars::prelude::DataFrame> = PerDatatype::new();
                frames.insert(Datatype::Blocks, blocks_df);
                frames.insert(Datatype::Transactions, txs_df);
                assert(frames@.dom() =~= set![Datatype::Blocks, Datatype::Transactions]);
                Ok(frames)
            },
            Ok((_, _)) => Err(CollectError::BadSchemaError),
            Err(e) => Err(e),
        }
    }
}

/// Where amounts of gas were fetched, there is one for each transaction of the block: no
/// transaction is without its row, and each row has the amount that its own receipt tells.
pub proof fn law_gas_goes_to_its_transaction(
    block: Block<Transaction>,
    lookups: Seq<GasLookup<tokio::task::JoinError>>,
    amounts: Vec<u32>,
)
    requires
        lookups.len() == block.transactions@.len(),
        amounts_match(lookups, amounts@),
    ensures
        row_count(block.transactions@, Some(amounts)) == block.transactions@.len(),
        forall|i: int|
            0 <= i < block.transactions@.len() ==> gas_of(#[trigger] lookups[i]) == Some(
                gas_at(Some(amounts), i)->0 as nat,
            ),
{
}

/// A row of a transaction is never without the gas that it used, where that is wanted: receipts
/// are asked for exactly then.
pub proof fn law_wanted_gas_is_there(
    schema: &Table,
    reply: Result<Option<Block<Transaction>>, ethers::providers::ProviderError>,
    step: BlockStep,
    gas_used: Result<Vec<u32>, CollectError>,
    i: int,
)
    requires
        follows(reply, wants_gas(Some(schema)), step),
    ensures
        (match step {
            BlockStep::Send(message) => message,
            BlockStep::FetchReceipts(block) => with_gas(block, gas_used),
        }) matches Ok((_, amounts)) ==> (gas_at(amounts, i) is Some <==> schema.has("gas_used"@)),
{
}

/// The lookup told this amount of gas.
pub open spec fn told_gas<E>(lookup: GasLookup<E>, amount: nat) -> bool {
    &&& lookup is Ok
    &&& lookup->Ok_0 is Ok
    &&& lookup->Ok_0->Ok_0 is Some
    &&& lookup->Ok_0->Ok_0->0.value() == amount
}

/// The amounts are those that the receipts told, one for each and as they are.
pub proof fn law_amounts_are_those_of_the_receipts<E>(
    lookups: Seq<GasLookup<E>>,
    amounts: Seq<u32>,
)
    requires
        amounts_match(lookups, amounts),
    ensures
        amounts.len() == lookups.len(),
        forall|i: int|
            0 <= i < lookups.len() ==> told_gas(#[trigger] lookups[i], amounts[i] as nat),
{
    assert forall|i: int| 0 <= i < lookups.len() implies told_gas(
        #[trigger] lookups[i],
        amounts[i] as nat,
    ) by {
        assert(gas_of(lookups[i]) == Some(amounts[i] as nat));
    }
}

/// A lookup gives gas exactly where it told some. Amounts that all fit in 32 bits are never
/// refused.
pub proof fn law_told_gas_is_given<E>(lookups: Seq<GasLookup<E>>)
    ensures
        forall|i: int|
            #![trigger lookups[i]]
            0 <= i < lookups.len() ==> (gas_of(lookups[i]) is Some <==> exists|n: nat|
                told_gas(lookups[i], n)),
        (forall|i: int, n: nat|
            0 <= i < lookups.len() && #[trigger] told_gas(lookups[i], n) ==> n <= u32::MAX)
            ==> amounts_fit(lookups),
{
    assert forall|i: int|
        #![trigger lookups[i]]
        0 <= i < lookups.len() implies (gas_of(lookups[i]) is Some <==> exists|n: nat|
        told_gas(lookups[i], n)) by {
        if gas_of(lookups[i]) is Some {
            assert(told_gas(lookups[i], gas_of(lookups[i])->0));
        }
    }
    if forall|i: int, n: nat|
        0 <= i < lookups.len() && #[trigger] told_gas(lookups[i], n) ==> n <= u32::MAX {
        assert forall|i: int| 0 <= i < lookups.len() && gas_before(lookups, i) implies (gas_of(
            #[trigger] lookups[i],
        ) matches Some(amount) ==> amount <= u32::MAX) by {
            if let Some(amount) = gas_of(lookups[i]) {
                assert(told_gas(lookups[i], amount));
            }
        }
    }
}

/// Each kind of lookup without gas has its own error, and a lookup with gas has none.
pub proof fn law_lookup_without_gas_has_its_error(
    lookup: GasLookup<tokio::task::JoinError>,
    e: CollectError,
)
    requires
        lookup_gas_fault(lookup, e),
    ensures
        forall|n: nat| !told_gas(lookup, n),
        lookup is Err ==> (e matches CollectError::CollectError(text) && text@ == task_error_text(
            lookup->Err_0,
        )),
        lookup is Ok && lookup->Ok_0 is Err ==> e == lookup->Ok_0->Err_0,
        lookup is Ok && lookup->Ok_0 is Ok ==> (e matches CollectError::CollectError(text) && text@
            == "gas_used not available from node"@),
{
}

/// A block that came is passed on as it is, after its receipts where gas is wanted and at once
/// where it is not. Where no block came, an error is passed on.
pub proof fn law_block_is_passed_on(
    reply: Result<Option<Block<Transaction>>, ethers::providers::ProviderError>,
    include_gas_used: bool,
    step: BlockStep,
)
    requires
        follows(reply, include_gas_used, step),
    ensures
        step is FetchReceipts <==> include_gas_used && reply is Ok && reply->Ok_0 is Some,
        step is FetchReceipts ==> step->FetchReceipts_0 == reply->Ok_0->0,
        reply is Ok && reply->Ok_0 is Some && !include_gas_used ==> step->Send_0 is Ok
            && step->Send_0->Ok_0.0 == reply->Ok_0->0 && step->Send_0->Ok_0.1 is None,
        reply is Err ==> step == BlockStep::Send(
            Err(CollectError::ProviderError(reply->Err_0)),
        ),
        reply is Ok && reply->Ok_0 is None ==> step->Send_0 is Err && (
        step->Send_0->Err_0 matches CollectError::CollectError(text) && text@
            == "no block found"@),
{
}

/// A block keeps all that it has when gas joins it, and the amounts stay as they were fetched.
pub proof fn law_gas_joins_its_block(
    block: Block<Transaction>,
    gas_used: Result<Vec<u32>, CollectError>,
)
    ensures
        gas_used is Ok <==> with_gas(block, gas_used) is Ok,
        gas_used is Ok ==> with_gas(block, gas_used)->Ok_0.0 == block && with_gas(
            block,
            gas_used,
        )->Ok_0.1 == Some(gas_used->Ok_0),
        gas_used is Err ==> with_gas(block, gas_used)->Err_0 == gas_used->Err_0,
{
}

/// Each kind of lookup without gas has its own error, where a failed task tells a text.
pub proof fn law_told_lookup_without_gas_has_its_error(lookup: GasLookup<String>, e: CollectError)
    requires
        gas_fault(lookup, e),
    ensures
        forall|n: nat| !told_gas(lookup, n),
        lookup is Err ==> (e matches CollectError::CollectError(text) && text@
            == lookup->Err_0@),
        lookup is Ok && lookup->Ok_0 is Err ==> e == lookup->Ok_0->Err_0,
        lookup is Ok && lookup->Ok_0 is Ok ==> (e matches CollectError::CollectError(text) && text@
            == "gas_used not available from node"@),
{
}

} // verus!
