use cryo_freeze::blocks_and_transactions::{
    amounts_in_range, amounts_of, block_fetched, gas_fetched, get_txs_gas_used, gives_gas,
    receipt_gas, BlockStep, BlocksAndTransactions, GasLookup,
};
use cryo_freeze::errors::CollectError;
use cryo_freeze::gather::BlockTxGasTuple;
use cryo_freeze::numbers::U256;
use cryo_freeze::records::{Block, Receipt, Transaction};
use cryo_freeze::schema::{ColumnType, Datatype, PerDatatype, Table};
use ethers::providers::ProviderError;

fn number(word: u64) -> U256 {
    U256 { words: [word, 0, 0, 0] }
}

fn transaction(n: u64) -> Transaction {
    Transaction {
        hash: [n as u8; 32],
        nonce: number(n),
        block_number: Some(8),
        transaction_index: Some(n),
        from: [9; 20],
        to: None,
        value: number(0),
        gas_price: None,
        gas: number(21_000),
        input: vec![],
        transaction_type: None,
        max_priority_fee_per_gas: None,
        max_fee_per_gas: None,
    }
}

fn block(n: u64, transactions: Vec<Transaction>) -> Block<Transaction> {
    Block {
        hash: None,
        parent_hash: [1; 32],
        author: None,
        state_root: [3; 32],
        transactions_root: [4; 32],
        receipts_root: [5; 32],
        number: Some(n),
        gas_used: number(0),
        extra_data: vec![],
        logs_bloom: None,
        timestamp: number(0),
        total_difficulty: None,
        size: None,
        base_fee_per_gas: None,
        transactions,
    }
}

fn table(datatype: Datatype, columns: &[(&str, ColumnType)]) -> Table {
    Table {
        datatype,
        columns: columns.iter().map(|(name, kind)| (name.to_string(), *kind)).collect(),
        sort_columns: None,
    }
}

fn schemas(blocks: bool, transactions: Option<&[(&str, ColumnType)]>) -> PerDatatype<Table> {
    let mut schemas = PerDatatype::new();
    if blocks {
        let columns = [("number", ColumnType::UInt32)];
        schemas.insert(Datatype::Blocks, table(Datatype::Blocks, &columns));
    }
    if let Some(columns) = transactions {
        schemas.insert(Datatype::Transactions, table(Datatype::Transactions, columns));
    }
    schemas
}

fn used(amount: u64) -> GasLookup<String> {
    Ok(Ok(Some(number(amount))))
}

fn down() -> ProviderError {
    ProviderError::CustomError("down".to_string())
}

fn cancelled() -> tokio::task::JoinError {
    let runtime = tokio::runtime::Builder::new_current_thread().build().unwrap();
    runtime.block_on(async {
        let task = tokio::spawn(async {});
        task.abort();
        task.await.err().unwrap()
    })
}

fn text_of<T>(result: Result<T, CollectError>) -> String {
    match result {
        Err(CollectError::CollectError(text)) => text,
        _ => panic!("another outcome"),
    }
}

#[test]
fn dataset_of_both() {
    assert_eq!(BlocksAndTransactions.name(), "blocks_and_transactions");
    assert_eq!(
        BlocksAndTransactions.datatypes(),
        vec![Datatype::Blocks, Datatype::Transactions]
    );
}

#[test]
fn gas_is_wanted_by_its_column() {
    let gas = [("gas_used", ColumnType::UInt32)];
    let nonce = [("nonce", ColumnType::UInt64)];
    assert!(BlocksAndTransactions.include_gas_used(&schemas(true, Some(&gas))));
    assert!(!BlocksAndTransactions.include_gas_used(&schemas(true, Some(&nonce))));
    assert!(!BlocksAndTransactions.include_gas_used(&schemas(true, None)));
    let mut only_blocks = PerDatatype::new();
    only_blocks.insert(Datatype::Blocks, table(Datatype::Blocks, &gas));
    assert!(!BlocksAndTransactions.include_gas_used(&only_blocks));
}

#[test]
fn steps_after_a_block() {
    match block_fetched(Ok(Some(block(4, vec![]))), true) {
        BlockStep::FetchReceipts(block) => assert_eq!(block.number, Some(4)),
        _ => panic!("another step"),
    }
    match block_fetched(Ok(Some(block(4, vec![]))), false) {
        BlockStep::Send(Ok((block, None))) => assert_eq!(block.number, Some(4)),
        _ => panic!("another step"),
    }
    for include_gas_used in [false, true] {
        match block_fetched(Ok(None), include_gas_used) {
            BlockStep::Send(result) => assert_eq!(text_of(result), "no block found"),
            _ => panic!("another step"),
        }
        assert!(matches!(
            block_fetched(Err(down()), include_gas_used),
            BlockStep::Send(Err(CollectError::ProviderError(_)))
        ));
    }
}

#[test]
fn gas_joins_its_block() {
    match gas_fetched(block(4, vec![transaction(1)]), Ok(vec![10])) {
        Ok((block, Some(amounts))) => {
            assert_eq!(block.number, Some(4));
            assert_eq!(amounts, vec![10]);
        }
        _ => panic!("another outcome"),
    }
    assert!(matches!(
        gas_fetched(block(4, vec![]), Err(CollectError::InvalidNumberOfTopics)),
        Err(CollectError::InvalidNumberOfTopics)
    ));
}

#[test]
fn replies_on_receipts() {
    let amount = receipt_gas(Ok(Some(Receipt { gas_used: Some(number(5)) }))).unwrap();
    assert_eq!(amount.unwrap().words, [5, 0, 0, 0]);
    assert!(receipt_gas(Ok(Some(Receipt { gas_used: None }))).unwrap().is_none());
    assert_eq!(text_of(receipt_gas(Ok(None))), "could not find tx receipt");
    assert!(matches!(receipt_gas(Err(down())), Err(CollectError::ProviderError(_))));
}

#[test]
fn amounts_of_gas() {
    let lookups: Vec<GasLookup<tokio::task::JoinError>> =
        vec![Ok(Ok(Some(number(21_000)))), Ok(Ok(Some(number(u32::MAX as u64))))];
    assert!(amounts_in_range(&lookups));
    assert_eq!(get_txs_gas_used(lookups).unwrap(), vec![21_000, u32::MAX]);
    assert_eq!(get_txs_gas_used(vec![]).unwrap(), Vec::<u32>::new());
}

#[test]
fn faults_of_gas() {
    let first = || Ok(Ok(Some(number(1))));
    let not_told = vec![first(), Ok(Ok(None)), Ok(Err(CollectError::BadSchemaError))];
    assert_eq!(text_of(get_txs_gas_used(not_told)), "gas_used not available from node");
    let failed = vec![first(), Ok(Err(CollectError::BadSchemaError)), Ok(Ok(None))];
    assert!(matches!(get_txs_gas_used(failed), Err(CollectError::BadSchemaError)));
    let cause = cancelled();
    let expected = cause.to_string();
    assert!(!expected.is_empty());
    assert_eq!(text_of(get_txs_gas_used(vec![first(), Err(cause)])), expected);
    let told: Vec<GasLookup<String>> = vec![used(1), Err("gone".to_string())];
    assert_eq!(text_of(amounts_of(told)), "gone");
}

#[test]
fn lookups_that_give_gas() {
    assert!(gives_gas(&used(0)));
    let none: [GasLookup<String>; 3] = [
        Ok(Ok(None)),
        Ok(Err(CollectError::BadSchemaError)),
        Err("gone".to_string()),
    ];
    assert!(none.iter().all(|lookup| !gives_gas(lookup)));
}

#[test]
fn amounts_that_fit() {
    let wide = || used(u32::MAX as u64 + 1);
    assert!(!amounts_in_range(&vec![used(1), wide()]));
    assert!(amounts_in_range(&vec![used(1), Ok(Ok(None)), wide()]));
    assert!(amounts_in_range(&vec![used(1), Err("gone".to_string()), wide()]));
}

#[test]
fn tables_of_both() {
    let columns = [("nonce", ColumnType::UInt64), ("gas_used", ColumnType::UInt32)];
    let messages = vec![
        gas_fetched(block(4, vec![transaction(1), transaction(2)]), Ok(vec![10, 20])),
        gas_fetched(block(5, vec![]), Ok(vec![])),
    ];
    let frames = BlocksAndTransactions
        .collect_block_chunk(&messages, &schemas(true, Some(&columns)), 1)
        .unwrap();
    let blocks = frames.get(&Datatype::Blocks).unwrap();
    let numbers: Vec<_> = blocks.column("number").unwrap().u32().unwrap().into_iter().collect();
    assert_eq!(numbers, vec![Some(4), Some(5)]);
    let transactions = frames.get(&Datatype::Transactions).unwrap();
    let gas: Vec<_> = transactions.column("gas_used").unwrap().u32().unwrap().into_iter().collect();
    assert_eq!(gas, vec![Some(10), Some(20)]);
    let nonces: Vec<_> = transactions.column("nonce").unwrap().u64().unwrap().into_iter().collect();
    assert_eq!(nonces, vec![Some(1), Some(2)]);
}

#[test]
fn failures_of_collecting_both() {
    let columns = [("nonce", ColumnType::UInt64)];
    let one = || vec![Ok((block(4, vec![]), None))];
    assert!(matches!(
        BlocksAndTransactions.collect_block_chunk(&one(), &schemas(true, None), 1),
        Err(CollectError::BadSchemaError)
    ));
    assert!(matches!(
        BlocksAndTransactions.collect_block_chunk(&one(), &schemas(false, Some(&columns)), 1),
        Err(CollectError::BadSchemaError)
    ));
    let failed: Vec<BlockTxGasTuple<Transaction>> = vec![Err(CollectError::ProviderError(down()))];
    assert!(matches!(
        BlocksAndTransactions.collect_block_chunk(&failed, &schemas(true, Some(&columns)), 1),
        Err(CollectError::TooManyRequestsError)
    ));
    let mut bad = schemas(true, None);
    let mut sorted = table(Datatype::Transactions, &columns);
    sorted.sort_columns = Some(vec!["block_number".to_string()]);
    bad.insert(Datatype::Transactions, sorted);
    assert!(matches!(
        BlocksAndTransactions.collect_block_chunk(&one(), &bad, 1),
        Err(CollectError::PolarsError(_))
    ));
}
