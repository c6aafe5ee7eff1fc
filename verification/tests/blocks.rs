use cryo_freeze::blocks::{block_reply, tx_block_numbers, tx_request, Blocks, TxLookup};
use cryo_freeze::errors::CollectError;
use cryo_freeze::gather::BlockTxGasTuple;
use cryo_freeze::numbers::U256;
use cryo_freeze::records::{Block, BlockChunk, Transaction, TransactionChunk, TxHash};
use cryo_freeze::schema::{ColumnType, Datatype, Table};
use ethers::providers::ProviderError;

fn number(word: u64) -> U256 {
    U256 { words: [word, 0, 0, 0] }
}

fn block(n: u64) -> Block<TxHash> {
    Block {
        hash: Some([n as u8; 32]),
        parent_hash: [1; 32],
        author: Some([2; 20]),
        state_root: [3; 32],
        transactions_root: [4; 32],
        receipts_root: [5; 32],
        number: Some(n),
        gas_used: number(100 + n),
        extra_data: vec![],
        logs_bloom: None,
        timestamp: number(1_600_000_000 + n),
        total_difficulty: None,
        size: None,
        base_fee_per_gas: None,
        transactions: vec![TxHash([7; 32])],
    }
}

fn in_block(block_number: Option<u64>) -> TxLookup {
    Ok(Ok(Some(Transaction {
        hash: [0; 32],
        nonce: number(0),
        block_number,
        transaction_index: None,
        from: [0; 20],
        to: None,
        value: number(0),
        gas_price: None,
        gas: number(0),
        input: vec![],
        transaction_type: None,
        max_priority_fee_per_gas: None,
        max_fee_per_gas: None,
    })))
}

fn cancelled() -> tokio::task::JoinError {
    let runtime = tokio::runtime::Builder::new_current_thread().build().unwrap();
    runtime.block_on(async {
        let task = tokio::spawn(async {});
        task.abort();
        task.await.err().unwrap()
    })
}

fn text_of<T>(result: Result<T, CollectError>) -> String {
    match result {
        Err(CollectError::CollectError(text)) => text,
        _ => panic!("another outcome"),
    }
}

#[test]
fn dataset_of_blocks() {
    assert_eq!(Blocks.datatype(), Datatype::Blocks);
    assert_eq!(Blocks.name(), "blocks");
    let types = Blocks.column_types();
    assert_eq!(types.len(), 16);
    assert!(types.contains(&("hash", ColumnType::Binary)));
    assert!(types.contains(&("number", ColumnType::UInt32)));
    assert!(types.contains(&("total_difficulty", ColumnType::String)));
    assert!(types.contains(&("base_fee_per_gas", ColumnType::UInt64)));
    assert_eq!(
        Blocks.default_columns(),
        vec!["number", "hash", "timestamp", "author", "gas_used", "extra_data", "base_fee_per_gas"]
    );
    assert_eq!(Blocks.default_sort(), vec!["number"]);
}

#[test]
fn default_columns_are_columns() {
    let types = Blocks.column_types();
    for column in Blocks.default_columns() {
        assert!(types.iter().any(|(name, _)| *name == column));
    }
    for column in Blocks.default_sort() {
        assert!(Blocks.default_columns().contains(&column.as_str()));
    }
    for i in 0..types.len() {
        assert!(types[..i].iter().all(|(name, _)| *name != types[i].0));
    }
}

#[test]
fn default_table_of_blocks() {
    let types = Blocks.column_types();
    let defaults = Blocks.default_columns();
    let columns = types
        .iter()
        .filter(|(name, _)| defaults.contains(name))
        .map(|(name, kind)| (name.to_string(), *kind))
        .collect();
    let schema = Table {
        datatype: Blocks.datatype(),
        columns,
        sort_columns: Some(Blocks.default_sort()),
    };
    let messages = vec![Ok((block(9), None)), Ok((block(4), None))];
    let frame = Blocks.collect_block_chunk(&messages, &schema, 1).unwrap();
    assert_eq!(
        frame.get_column_names(),
        vec!["hash", "author", "number", "gas_used", "extra_data", "timestamp", "base_fee_per_gas"]
    );
    let numbers: Vec<_> = frame.column("number").unwrap().u32().unwrap().into_iter().collect();
    assert_eq!(numbers, vec![Some(4), Some(9)]);
    let none: Vec<BlockTxGasTuple<TxHash>> = vec![];
    assert_eq!(Blocks.collect_block_chunk(&none, &schema, 1).unwrap().shape(), (0, 7));
}

#[test]
fn failures_of_collecting_blocks() {
    let schema = Table {
        datatype: Datatype::Blocks,
        columns: vec![("number".to_string(), ColumnType::UInt32)],
        sort_columns: Some(vec!["hash".to_string()]),
    };
    let messages: Vec<BlockTxGasTuple<TxHash>> = vec![Ok((block(1), None))];
    assert!(matches!(
        Blocks.collect_block_chunk(&messages, &schema, 1),
        Err(CollectError::PolarsError(_))
    ));
    let messages: Vec<BlockTxGasTuple<TxHash>> = vec![Err(CollectError::BadSchemaError)];
    assert!(matches!(
        Blocks.collect_block_chunk(&messages, &schema, 1),
        Err(CollectError::TooManyRequestsError)
    ));
}

#[test]
fn hashes_to_ask_for() {
    let bytes: Vec<u8> = (0..32).collect();
    assert_eq!(tx_request(&bytes).unwrap().to_vec(), bytes);
    assert!(tx_request(&vec![0; 31]).is_none());
    assert!(tx_request(&vec![0; 33]).is_none());
}

#[test]
fn blocks_of_transactions() {
    let lookups =
        vec![in_block(Some(7)), in_block(Some(3)), in_block(Some(7)), in_block(Some(5))];
    assert_eq!(tx_block_numbers(&lookups).unwrap(), vec![3, 5, 7]);
    let reordered = vec![in_block(Some(5)), in_block(Some(7)), in_block(Some(3))];
    assert_eq!(tx_block_numbers(&reordered).unwrap(), vec![3, 5, 7]);
    assert_eq!(tx_block_numbers(&vec![]).unwrap(), Vec::<u64>::new());
    let chunk = Blocks.transaction_blocks(&lookups).unwrap();
    assert!(matches!(&chunk, BlockChunk::Numbers(_)));
    assert_eq!(chunk.numbers(), vec![3, 5, 7]);
}

#[test]
fn faults_of_lookups() {
    let provider = || Ok(Err(ProviderError::CustomError("down".to_string())));
    let fault = |lookup: TxLookup| text_of(tx_block_numbers(&vec![in_block(Some(1)), lookup]));
    assert_eq!(fault(Err(cancelled())), "Task join error");
    assert_eq!(fault(provider()), "Provider error");
    assert_eq!(fault(Ok(Ok(None))), "Transaction not found");
    assert_eq!(fault(in_block(None)), "No block number for tx");
    let both = vec![in_block(None), provider()];
    assert_eq!(text_of(Blocks.transaction_blocks(&both)), "No block number for tx");
}

#[test]
fn replies_on_blocks() {
    match block_reply(Ok(Some(block(4)))) {
        Ok((block, None)) => assert_eq!(block.number, Some(4)),
        _ => panic!("another outcome"),
    }
    assert_eq!(text_of(block_reply(Ok(None))), "block not in node");
    let reply = block_reply(Err(ProviderError::CustomError("down".to_string())));
    match reply {
        Err(CollectError::ProviderError(ProviderError::CustomError(text))) => {
            assert_eq!(text, "down")
        }
        _ => panic!("another outcome"),
    }
}

#[test]
fn chunks_of_transactions() {
    let values = TransactionChunk::Values(vec![vec![1], vec![2]]);
    assert_eq!(Blocks.transaction_hashes(&values).unwrap(), &vec![vec![1], vec![2]]);
    let range = TransactionChunk::Range(vec![1], vec![2]);
    assert_eq!(text_of(Blocks.transaction_hashes(&range)), "");
}

#[test]
fn numbers_of_chunks() {
    assert_eq!(BlockChunk::Numbers(vec![5, 1]).numbers(), vec![5, 1]);
    assert_eq!(BlockChunk::Range(3, 6).numbers(), vec![3, 4, 5, 6]);
    assert_eq!(BlockChunk::Range(6, 6).numbers(), vec![6]);
    assert_eq!(BlockChunk::Range(6, 3).numbers(), Vec::<u64>::new());
    assert_eq!(BlockChunk::Range(u64::MAX - 1, u64::MAX).numbers(), vec![u64::MAX - 1, u64::MAX]);
}
