//! Blocks, transactions and the chunks that name them.
use vstd::prelude::*;
use crate::numbers::U256;

verus! {

/// A block, with its transactions as `TX`.
#[derive(Debug)]
pub struct Block<TX> {
    /// Hash of the block, missing while the block is pending.
    pub hash: Option<[u8; 32]>,
    /// Hash of the parent block.
    pub parent_hash: [u8; 32],
    /// Address of the author, missing while the block is pending.
    pub author: Option<[u8; 20]>,
    /// Root of the state.
    pub state_root: [u8; 32],
    /// Root of the transactions.
    pub transactions_root: [u8; 32],
    /// Root of the receipts.
    pub receipts_root: [u8; 32],
    /// Number of the block, missing while the block is pending.
    pub number: Option<u64>,
    /// Gas used by the block.
    pub gas_used: U256,
    /// Extra data.
    pub extra_data: Vec<u8>,
    /// Bloom filter of the logs.
    pub logs_bloom: Option<[u8; 256]>,
    /// Timestamp, in seconds.
    pub timestamp: U256,
    /// Total difficulty.
    pub total_difficulty: Option<U256>,
    /// Size of the block in bytes.
    pub size: Option<U256>,
    /// Base fee per unit of gas.
    pub base_fee_per_gas: Option<U256>,
    /// Transactions of the block.
    pub transactions: Vec<TX>,
}

/// The hash of a transaction, standing for a transaction that was not fetched.
#[derive(Clone, Copy, Debug)]
pub struct TxHash(pub [u8; 32]);

/// A transaction.
#[derive(Debug)]
pub struct Transaction {
    /// Hash of the transaction.
    pub hash: [u8; 32],
    /// Nonce.
    pub nonce: U256,
    /// Number of the block that holds the transaction.
    pub block_number: Option<u64>,
    /// Index of the transaction in its block.
    pub transaction_index: Option<u64>,
    /// Sender.
    pub from: [u8; 20],
    /// Recipient, missing where a contract is created.
    pub to: Option<[u8; 20]>,
    /// Value that is transferred.
    pub value: U256,
    /// Price per unit of gas.
    pub gas_price: Option<U256>,
    /// Gas limit.
    pub gas: U256,
    /// Call data.
    pub input: Vec<u8>,
    /// Type of the transaction.
    pub transaction_type: Option<u64>,
    /// Greatest priority fee per unit of gas.
    pub max_priority_fee_per_gas: Option<U256>,
    /// Greatest fee per unit of gas.
    pub max_fee_per_gas: Option<U256>,
}

/// The receipt of a transaction.
#[derive(Clone, Copy, Debug)]
pub struct Receipt {
    /// Gas that the transaction used, missing where the node does not tell.
    pub gas_used: Option<U256>,
}

/// A chunk of blocks.
#[derive(Debug)]
pub enum BlockChunk {
    /// Single block numbers.
    Numbers(Vec<u64>),
    /// All block numbers from the first to the second, both included.
    Range(u64, u64),
}

/// A chunk of transactions.
#[derive(Debug)]
pub enum TransactionChunk {
    /// Single transaction hashes.
    Values(Vec<Vec<u8>>),
    /// A range of transaction hashes.
    Range(Vec<u8>, Vec<u8>),
}

impl BlockChunk {
    /// The block numbers of the chunk, in order.
    pub open spec fn block_numbers(self) -> Seq<u64> {
        match self {
            BlockChunk::Numbers(numbers) => numbers@,
            BlockChunk::Range(start, end) => if start <= end {
                Seq::new((end - start + 1) as nat, |i: int| (start + i) as u64)
            } else {
                seq![]
            },
        }
    }

    /// Lists the block numbers of the chunk.
    pub fn numbers(&self) -> (r: Vec<u64>)
        requires
            self.block_numbers().len() <= usize::MAX,
        ensures
            r@ == self.block_numbers(),
            match *self {
                BlockChunk::Numbers(numbers) => r@ == numbers@,
                BlockChunk::Range(start, end) => {
                    &&& r@.len() == if start <= end {
                        end - start + 1
                    } else {
                        0
                    }
                    &&& forall|i: int| 0 <= i < r@.len() ==> #[trigger] r@[i] == start + i
                },
            },
    {
        match self {
            BlockChunk::Numbers(numbers) => {
                let copy = numbers.clone();
                assert(copy@ =~= numbers@);
                copy
            },
            BlockChunk::Range(start, end) => {
                let first: u64 = *start;
                let last: u64 = *end;
                let mut listed: Vec<u64> = Vec::new();
                if first <= last {
                    let mut next: u64 = first;
                    while next < last
                        invariant
                            first <= next <= last,
                            listed@ == Seq::new((next - first) as nat, |i: int| (first + i) as u64),
                        decreases last - next,
                    {
                        listed.push(next);
                        next = next + 1;
                        assert(listed@ =~= Seq::new(
                            (next - first) as nat,
                            |i: int| (first + i) as u64,
                        ));
                    }
                    listed.push(next);
                }
                assert(listed@ =~= self.block_numbers());
                listed
            },
        }
    }
}

/// A range of blocks holds the numbers from its start to its end, both included, in ascending
/// order, and no others. Single numbers are held as they are listed.
pub proof fn law_chunk_holds_its_blocks(chunk: BlockChunk)
    ensures
        match chunk {
            BlockChunk::Numbers(numbers) => chunk.block_numbers() == numbers@,
            BlockChunk::Range(start, end) => {
                &&& forall|n: u64|
                    chunk.block_numbers().contains(n) <==> start <= n <= end
                &&& forall|i: int, j: int|
                    0 <= i < j < chunk.block_numbers().len() ==> chunk.block_numbers()[i]
                        < chunk.block_numbers()[j]
            },
        },
{
    if let BlockChunk::Range(start, end) = chunk {
        let numbers = chunk.block_numbers();
        assert forall|n: u64| numbers.contains(n) <==> start <= n <= end by {
            if start <= n <= end {
                assert(numbers[n - start] == n);
            }
        }
    }
}

} // verus!
