use cryo_freeze::block_columns::{block_in_range, is_complete, process_block, BlockColumns};
use cryo_freeze::errors::CollectError;
use cryo_freeze::gather::{
    blocks_to_dfs, messages_in_range, rows_in_range, BlockGatherer, BlockTxGasTuple,
};
use cryo_freeze::numbers::U256;
use cryo_freeze::records::{Block, Transaction, TxHash};
use cryo_freeze::schema::{ColumnType, Datatype, Table};
use cryo_freeze::transaction_columns::{
    process_transaction, transaction_in_range, ProcessTransactions, TransactionColumns,
};
use polars::prelude::DataFrame;

fn number(word: u64) -> U256 {
    U256 { words: [word, 0, 0, 0] }
}

fn block<TX>(n: u64, transactions: Vec<TX>) -> Block<TX> {
    Block {
        hash: Some([n as u8; 32]),
        parent_hash: [1; 32],
        author: Some([2; 20]),
        state_root: [3; 32],
        transactions_root: [4; 32],
        receipts_root: [5; 32],
        number: Some(n),
        gas_used: number(100 + n),
        extra_data: vec![n as u8, 0xee],
        logs_bloom: Some([6; 256]),
        timestamp: number(1_600_000_000 + n),
        total_difficulty: Some(number(0x0201)),
        size: Some(number(1000)),
        base_fee_per_gas: Some(number(7_000_000_000)),
        transactions,
    }
}

fn transaction(n: u64) -> Transaction {
    Transaction {
        hash: [n as u8; 32],
        nonce: number(n),
        block_number: Some(8),
        transaction_index: Some(n),
        from: [9; 20],
        to: Some([10; 20]),
        value: U256 { words: [n, 1, 0, 0] },
        gas_price: Some(number(50)),
        gas: number(21_000),
        input: vec![n as u8],
        transaction_type: Some(2),
        max_priority_fee_per_gas: Some(number(3)),
        max_fee_per_gas: Some(number(4)),
    }
}

fn schema(columns: &[(&str, ColumnType)], sort: Option<&[&str]>) -> Table {
    Table {
        datatype: Datatype::Blocks,
        columns: columns.iter().map(|(name, kind)| (name.to_string(), *kind)).collect(),
        sort_columns: sort.map(|names| names.iter().map(|name| name.to_string()).collect()),
    }
}

fn u32s(frame: &DataFrame, column: &str) -> Vec<Option<u32>> {
    frame.column(column).unwrap().u32().unwrap().into_iter().collect()
}

fn u64s(frame: &DataFrame, column: &str) -> Vec<Option<u64>> {
    frame.column(column).unwrap().u64().unwrap().into_iter().collect()
}

fn strings(frame: &DataFrame, column: &str) -> Vec<Option<String>> {
    let column = frame.column(column).unwrap().utf8().unwrap();
    column.into_iter().map(|text| text.map(|text| text.to_string())).collect()
}

fn bytes(frame: &DataFrame, column: &str) -> Vec<Option<Vec<u8>>> {
    let column = frame.column(column).unwrap().binary().unwrap();
    column.into_iter().map(|bytes| bytes.map(|bytes| bytes.to_vec())).collect()
}

fn repeated(byte: &str, n: usize) -> String {
    format!("0x{}", byte.repeat(n))
}

const ALL_OF_A_BLOCK: [(&str, ColumnType); 16] = [
    ("_stream_type", ColumnType::String),
    ("hash", ColumnType::Hex),
    ("parent_hash", ColumnType::Binary),
    ("author", ColumnType::Binary),
    ("state_root", ColumnType::Binary),
    ("transactions_root", ColumnType::Binary),
    ("receipts_root", ColumnType::Binary),
    ("number", ColumnType::UInt32),
    ("gas_used", ColumnType::UInt32),
    ("extra_data", ColumnType::Binary),
    ("logs_bloom", ColumnType::Hex),
    ("timestamp", ColumnType::UInt32),
    ("total_difficulty", ColumnType::Binary),
    ("size", ColumnType::UInt32),
    ("base_fee_per_gas", ColumnType::UInt64),
    ("chain_id", ColumnType::UInt64),
];

const ALL_OF_A_TRANSACTION: [(&str, ColumnType); 16] = [
    ("_stream_type", ColumnType::String),
    ("block_number", ColumnType::UInt64),
    ("transaction_index", ColumnType::UInt64),
    ("transaction_hash", ColumnType::Binary),
    ("nonce", ColumnType::UInt64),
    ("from_address", ColumnType::Hex),
    ("to_address", ColumnType::Hex),
    ("value", ColumnType::String),
    ("input", ColumnType::Binary),
    ("gas_limit", ColumnType::UInt32),
    ("gas_used", ColumnType::UInt32),
    ("gas_price", ColumnType::UInt64),
    ("transaction_type", ColumnType::UInt32),
    ("max_priority_fee_per_gas", ColumnType::UInt64),
    ("max_fee_per_gas", ColumnType::UInt64),
    ("chain_id", ColumnType::UInt64),
];

fn names(columns: &[(&'static str, ColumnType)]) -> Vec<&'static str> {
    columns.iter().map(|(name, _)| *name).collect()
}

#[test]
fn table_of_blocks() {
    let all = schema(&ALL_OF_A_BLOCK, None);
    let mut bare: Block<TxHash> = block(2, vec![]);
    bare.logs_bloom = None;
    bare.total_difficulty = None;
    bare.size = None;
    bare.base_fee_per_gas = None;
    let messages = vec![Ok((block(1, vec![TxHash([0; 32])]), None)), Ok((bare, None))];
    let (frame, others) = blocks_to_dfs(&messages, &Some(&all), &None, 5).unwrap();
    assert!(others.is_none());
    let frame = frame.unwrap();
    assert_eq!(frame.get_column_names(), names(&ALL_OF_A_BLOCK));
    assert_eq!(frame.height(), 2);
    let same = |byte: u8, n: usize| vec![Some(vec![byte; n]), Some(vec![byte; n])];
    let text = |text: &str| Some(text.to_string());
    assert_eq!(strings(&frame, "_stream_type"), vec![text("block"), text("block")]);
    assert_eq!(
        strings(&frame, "hash"),
        vec![Some(repeated("01", 32)), Some(repeated("02", 32))]
    );
    assert_eq!(bytes(&frame, "parent_hash"), same(1, 32));
    assert_eq!(bytes(&frame, "author"), same(2, 20));
    assert_eq!(bytes(&frame, "state_root"), same(3, 32));
    assert_eq!(bytes(&frame, "transactions_root"), same(4, 32));
    assert_eq!(bytes(&frame, "receipts_root"), same(5, 32));
    assert_eq!(u32s(&frame, "number"), vec![Some(1), Some(2)]);
    assert_eq!(u32s(&frame, "gas_used"), vec![Some(101), Some(102)]);
    assert_eq!(bytes(&frame, "extra_data"), vec![Some(vec![1, 0xee]), Some(vec![2, 0xee])]);
    assert_eq!(
        strings(&frame, "logs_bloom"),
        vec![Some(repeated("06", 256)), None]
    );
    assert_eq!(u32s(&frame, "timestamp"), vec![Some(1_600_000_001), Some(1_600_000_002)]);
    let mut difficulty = vec![0; 32];
    difficulty[30] = 2;
    difficulty[31] = 1;
    assert_eq!(bytes(&frame, "total_difficulty"), vec![Some(difficulty), None]);
    assert_eq!(u32s(&frame, "size"), vec![Some(1000), None]);
    assert_eq!(u64s(&frame, "base_fee_per_gas"), vec![Some(7_000_000_000), None]);
    assert_eq!(u64s(&frame, "chain_id"), vec![Some(5), Some(5)]);
}

#[test]
fn table_of_transactions() {
    let all = schema(&ALL_OF_A_TRANSACTION, None);
    let mut bare = transaction(2);
    bare.block_number = None;
    bare.transaction_index = None;
    bare.to = None;
    bare.gas_price = None;
    bare.transaction_type = None;
    bare.max_priority_fee_per_gas = None;
    bare.max_fee_per_gas = None;
    let messages = vec![
        Ok((block(7, vec![]), Some(vec![]))),
        Ok((block(8, vec![transaction(1), bare]), Some(vec![11, 12]))),
    ];
    let (others, frame) = blocks_to_dfs(&messages, &None, &Some(&all), 5).unwrap();
    assert!(others.is_none());
    let frame = frame.unwrap();
    assert_eq!(frame.get_column_names(), names(&ALL_OF_A_TRANSACTION));
    assert_eq!(frame.height(), 2);
    let text = |text: &str| Some(text.to_string());
    assert_eq!(strings(&frame, "_stream_type"), vec![text("tx"), text("tx")]);
    assert_eq!(u64s(&frame, "block_number"), vec![Some(8), None]);
    assert_eq!(u64s(&frame, "transaction_index"), vec![Some(1), None]);
    assert_eq!(bytes(&frame, "transaction_hash"), vec![Some(vec![1; 32]), Some(vec![2; 32])]);
    assert_eq!(u64s(&frame, "nonce"), vec![Some(1), Some(2)]);
    let from = Some(repeated("09", 20));
    assert_eq!(strings(&frame, "from_address"), vec![from.clone(), from]);
    assert_eq!(
        strings(&frame, "to_address"),
        vec![Some(repeated("0a", 20)), None]
    );
    assert_eq!(
        strings(&frame, "value"),
        vec![text("18446744073709551617"), text("18446744073709551618")]
    );
    assert_eq!(bytes(&frame, "input"), vec![Some(vec![1]), Some(vec![2])]);
    assert_eq!(u32s(&frame, "gas_limit"), vec![Some(21_000), Some(21_000)]);
    assert_eq!(u32s(&frame, "gas_used"), vec![Some(11), Some(12)]);
    assert_eq!(u64s(&frame, "gas_price"), vec![Some(50), None]);
    assert_eq!(u32s(&frame, "transaction_type"), vec![Some(2), None]);
    assert_eq!(u64s(&frame, "max_priority_fee_per_gas"), vec![Some(3), None]);
    assert_eq!(u64s(&frame, "max_fee_per_gas"), vec![Some(4), None]);
    assert_eq!(u64s(&frame, "chain_id"), vec![Some(5), Some(5)]);
}

#[test]
fn unwanted_columns_stay_out() {
    let some = schema(
        &[("number", ColumnType::UInt32), ("no_such_column", ColumnType::String)],
        None,
    );
    let messages: Vec<BlockTxGasTuple<TxHash>> = vec![Ok((block(4, vec![]), None))];
    let (frame, _) = blocks_to_dfs(&messages, &Some(&some), &None, 1).unwrap();
    let frame = frame.unwrap();
    assert_eq!(frame.get_column_names(), vec!["number"]);
    assert_eq!(u32s(&frame, "number"), vec![Some(4)]);
}

#[test]
fn no_tables_wanted() {
    let messages: Vec<BlockTxGasTuple<TxHash>> = vec![Ok((block(4, vec![TxHash([0; 32])]), None))];
    let (blocks, transactions) = blocks_to_dfs(&messages, &None, &None, 1).unwrap();
    assert!(blocks.is_none() && transactions.is_none());
}

#[test]
fn rows_come_sorted() {
    let by_number = schema(
        &[("number", ColumnType::UInt32), ("extra_data", ColumnType::Binary)],
        Some(&["number"]),
    );
    let messages: Vec<BlockTxGasTuple<TxHash>> = vec![
        Ok((block(9, vec![]), None)),
        Ok((block(3, vec![]), None)),
        Ok((block(5, vec![]), None)),
    ];
    let (frame, _) = blocks_to_dfs(&messages, &Some(&by_number), &None, 1).unwrap();
    let frame = frame.unwrap();
    assert_eq!(u32s(&frame, "number"), vec![Some(3), Some(5), Some(9)]);
    assert_eq!(
        bytes(&frame, "extra_data"),
        vec![Some(vec![3, 0xee]), Some(vec![5, 0xee]), Some(vec![9, 0xee])]
    );
}

#[test]
fn rows_come_sorted_by_several_columns() {
    let by_two = schema(
        &[("block_number", ColumnType::UInt64), ("transaction_index", ColumnType::UInt64)],
        Some(&["block_number", "transaction_index"]),
    );
    let place = |block: Option<u64>, index: u64| {
        let mut tx = transaction(index);
        tx.block_number = block;
        tx
    };
    let transactions = vec![
        place(Some(2), 0),
        place(Some(1), 1),
        place(None, 7),
        place(Some(2), 1),
        place(Some(1), 0),
    ];
    let messages = vec![Ok((block(1, transactions), None))];
    let (_, frame) = blocks_to_dfs(&messages, &None, &Some(&by_two), 1).unwrap();
    let frame = frame.unwrap();
    assert_eq!(u64s(&frame, "block_number"), vec![None, Some(1), Some(1), Some(2), Some(2)]);
    assert_eq!(
        u64s(&frame, "transaction_index"),
        vec![Some(7), Some(0), Some(1), Some(0), Some(1)]
    );
}

#[test]
fn rows_come_sorted_by_text_and_bytes() {
    let place = |input: &[u8], value: u64| {
        let mut tx = transaction(0);
        tx.input = input.to_vec();
        tx.value = number(value);
        tx
    };
    let transactions = || vec![place(&[2], 10), place(&[1, 0], 9), place(&[1], 100)];
    let columns = [("input", ColumnType::Binary), ("value", ColumnType::String)];
    let by_bytes = schema(&columns, Some(&["input"]));
    let messages = vec![Ok((block(1, transactions()), None))];
    let (_, frame) = blocks_to_dfs(&messages, &None, &Some(&by_bytes), 1).unwrap();
    assert_eq!(
        bytes(&frame.unwrap(), "input"),
        vec![Some(vec![1]), Some(vec![1, 0]), Some(vec![2])]
    );
    let by_text = schema(&columns, Some(&["value"]));
    let (_, frame) = blocks_to_dfs(&messages, &None, &Some(&by_text), 1).unwrap();
    let text = |text: &str| Some(text.to_string());
    assert_eq!(strings(&frame.unwrap(), "value"), vec![text("10"), text("100"), text("9")]);
}

#[test]
fn rows_come_sorted_by_mixed_columns() {
    let place = |n: u64, price: Option<u64>, to: Option<u8>, input: &[u8]| {
        let mut tx = transaction(n);
        tx.gas_price = price.map(number);
        tx.to = to.map(|byte| [byte; 20]);
        tx.value = number(price.unwrap_or(0));
        tx.input = input.to_vec();
        tx
    };
    let transactions = vec![
        place(0, Some(10), Some(2), &[1]),
        place(1, None, None, &[2]),
        place(2, Some(9), Some(1), &[]),
        place(3, Some(10), None, &[1]),
        place(4, None, Some(3), &[1, 0]),
    ];
    let messages = vec![Ok((block(1, transactions), None))];
    let order = |to: ColumnType, by: &[&str]| {
        let columns = [
            ("nonce", ColumnType::UInt64),
            ("gas_price", ColumnType::UInt64),
            ("to_address", to),
            ("value", ColumnType::String),
            ("input", ColumnType::Binary),
        ];
        let wanted = schema(&columns, Some(by));
        let (_, frame) = blocks_to_dfs(&messages, &None, &Some(&wanted), 1).unwrap();
        u64s(&frame.unwrap(), "nonce").into_iter().flatten().collect::<Vec<_>>()
    };
    for to in [ColumnType::Binary, ColumnType::Hex] {
        assert_eq!(order(to, &["gas_price", "to_address"]), vec![1, 4, 2, 3, 0]);
        assert_eq!(order(to, &["to_address", "gas_price"]), vec![1, 3, 2, 0, 4]);
        assert_eq!(order(to, &["value", "to_address"]), vec![1, 4, 3, 0, 2]);
        assert_eq!(order(to, &["input", "gas_price", "to_address"]), vec![2, 3, 0, 4, 1]);
        assert_eq!(order(to, &["value", "value", "nonce"]), vec![1, 4, 0, 3, 2]);
    }
}

#[test]
fn rows_without_a_value_come_first() {
    let place = |to: Option<u8>| {
        let mut tx = transaction(0);
        tx.to = to.map(|byte| [byte; 20]);
        tx.gas_price = to.map(|byte| number(byte as u64));
        tx
    };
    let messages = vec![Ok((block(1, vec![place(Some(2)), place(None), place(Some(1))]), None))];
    let alone = schema(&[("gas_price", ColumnType::UInt64)], Some(&["gas_price"]));
    let (_, frame) = blocks_to_dfs(&messages, &None, &Some(&alone), 1).unwrap();
    assert_eq!(u64s(&frame.unwrap(), "gas_price"), vec![None, Some(1), Some(2)]);
    let alone = schema(&[("to_address", ColumnType::Binary)], Some(&["to_address"]));
    let (_, frame) = blocks_to_dfs(&messages, &None, &Some(&alone), 1).unwrap();
    assert_eq!(
        bytes(&frame.unwrap(), "to_address"),
        vec![None, Some(vec![1; 20]), Some(vec![2; 20])]
    );
    let columns = [("gas_price", ColumnType::UInt64), ("to_address", ColumnType::Hex)];
    let both = schema(&columns, Some(&["to_address"]));
    let (_, frame) = blocks_to_dfs(&messages, &None, &Some(&both), 1).unwrap();
    assert_eq!(u64s(&frame.unwrap(), "gas_price"), vec![None, Some(1), Some(2)]);
}

#[test]
fn sorting_by_what_is_not_there() {
    let bad = schema(&[("number", ColumnType::UInt32)], Some(&["timestamp"]));
    let messages: Vec<BlockTxGasTuple<TxHash>> = vec![Ok((block(9, vec![]), None))];
    assert!(matches!(
        blocks_to_dfs(&messages, &Some(&bad), &None, 1),
        Err(CollectError::PolarsError(_))
    ));
    let second_bad = schema(&[("number", ColumnType::UInt32)], Some(&["number", "timestamp"]));
    assert!(matches!(
        blocks_to_dfs(&messages, &Some(&second_bad), &None, 1),
        Err(CollectError::PolarsError(_))
    ));
}

#[test]
fn stream_type_needs_its_measure() {
    let columns = [("_stream_type", ColumnType::String), ("number", ColumnType::UInt32)];
    let misfit = schema(&columns, None);
    let messages: Vec<BlockTxGasTuple<TxHash>> = vec![Ok((block(9, vec![]), None))];
    assert!(matches!(
        blocks_to_dfs(&messages, &Some(&misfit), &None, 1),
        Err(CollectError::PolarsError(_))
    ));
    let none: Vec<BlockTxGasTuple<TxHash>> = vec![];
    let (frame, _) = blocks_to_dfs(&none, &Some(&misfit), &None, 1).unwrap();
    assert_eq!(frame.unwrap().height(), 0);
    let alone = schema(&[("_stream_type", ColumnType::String)], None);
    let (frame, _) = blocks_to_dfs(&messages, &Some(&alone), &None, 1).unwrap();
    assert_eq!(frame.unwrap().height(), 0);
}

#[test]
fn no_blocks_make_empty_tables() {
    let all = schema(&ALL_OF_A_BLOCK, Some(&["number"]));
    let txs = schema(&ALL_OF_A_TRANSACTION, Some(&["block_number"]));
    let none: Vec<BlockTxGasTuple<Transaction>> = vec![];
    let (blocks, transactions) = blocks_to_dfs(&none, &Some(&all), &Some(&txs), 1).unwrap();
    assert_eq!(blocks.unwrap().shape(), (0, 16));
    assert_eq!(transactions.unwrap().shape(), (0, 16));
}

#[test]
fn failed_message_fails_the_stream() {
    let all = schema(&ALL_OF_A_BLOCK, None);
    let messages: Vec<BlockTxGasTuple<TxHash>> = vec![
        Ok((block(1, vec![]), None)),
        Err(CollectError::RPCError("lost".to_string())),
        Ok((block(2, vec![]), None)),
    ];
    assert!(matches!(
        blocks_to_dfs(&messages, &Some(&all), &None, 1),
        Err(CollectError::TooManyRequestsError)
    ));
}

#[test]
fn gathering_goes_on_after_a_failed_message() {
    let numbers = schema(&[("number", ColumnType::UInt32)], None);
    let wanted = Some(&numbers);
    let mut gatherer = BlockGatherer::new(&wanted, &None);
    let first: BlockTxGasTuple<TxHash> = Ok((block(1, vec![]), None));
    let failed: BlockTxGasTuple<TxHash> = Err(CollectError::BadSchemaError);
    let last: BlockTxGasTuple<TxHash> = Ok((block(2, vec![]), None));
    assert!(gatherer.gather(&first, &wanted, &None).is_ok());
    assert!(matches!(
        gatherer.gather(&failed, &wanted, &None),
        Err(CollectError::TooManyRequestsError)
    ));
    assert_eq!(gatherer.n_blocks, 1);
    assert!(gatherer.gather(&last, &wanted, &None).is_ok());
    let (frame, _) = gatherer.into_frames(&wanted, &None, 1).unwrap();
    assert_eq!(u32s(&frame.unwrap(), "number"), vec![Some(1), Some(2)]);
}

#[test]
fn rows_follow_the_messages() {
    let txs = schema(&[("nonce", ColumnType::UInt64), ("gas_used", ColumnType::UInt32)], None);
    let numbers = schema(&[("number", ColumnType::UInt32)], None);
    let messages = vec![
        Ok((block(5, vec![transaction(50), transaction(51)]), Some(vec![500, 510]))),
        Ok((block(4, vec![]), Some(vec![]))),
        Ok((block(6, vec![transaction(60)]), Some(vec![600]))),
    ];
    let (blocks, transactions) =
        blocks_to_dfs(&messages, &Some(&numbers), &Some(&txs), 1).unwrap();
    assert_eq!(u32s(&blocks.unwrap(), "number"), vec![Some(5), Some(4), Some(6)]);
    let transactions = transactions.unwrap();
    assert_eq!(u64s(&transactions, "nonce"), vec![Some(50), Some(51), Some(60)]);
    assert_eq!(u32s(&transactions, "gas_used"), vec![Some(500), Some(510), Some(600)]);
}

#[test]
fn amounts_of_gas_bound_the_rows() {
    let txs = schema(&[("nonce", ColumnType::UInt64), ("chain_id", ColumnType::UInt64)], None);
    let three = || vec![transaction(1), transaction(2), transaction(3)];
    let messages = vec![
        Ok((block(5, three()), Some(vec![500]))),
        Ok((block(6, three()), Some(vec![1, 2, 3, 4]))),
    ];
    let (_, frame) = blocks_to_dfs(&messages, &None, &Some(&txs), 9).unwrap();
    let frame = frame.unwrap();
    assert_eq!(u64s(&frame, "nonce"), vec![Some(1), Some(1), Some(2), Some(3)]);
    assert_eq!(u64s(&frame, "chain_id"), vec![Some(9); 4]);
}

#[test]
fn blocks_that_make_rows() {
    let wants = |column: &str| schema(&[(column, ColumnType::Binary)], None);
    let good: Block<TxHash> = block(1, vec![]);
    for (column, _) in ALL_OF_A_BLOCK {
        assert!(block_in_range(&good, &wants(column)));
    }
    let mut pending: Block<TxHash> = block(1, vec![]);
    pending.hash = None;
    pending.author = None;
    pending.number = None;
    for (column, _) in ALL_OF_A_BLOCK {
        let needed = ["hash", "author", "number"].contains(&column);
        assert_eq!(block_in_range(&pending, &wants(column)), !needed);
        assert_eq!(is_complete(&pending, &wants(column)), !needed);
    }
    let wide = U256 { words: [0, 1, 0, 0] };
    let mut large: Block<TxHash> = block(u32::MAX as u64 + 1, vec![]);
    large.gas_used = wide;
    large.timestamp = wide;
    large.total_difficulty = Some(wide);
    large.size = Some(wide);
    large.base_fee_per_gas = Some(wide);
    for (column, _) in ALL_OF_A_BLOCK {
        let bounded =
            ["number", "gas_used", "timestamp", "size", "base_fee_per_gas"].contains(&column);
        assert_eq!(block_in_range(&large, &wants(column)), !bounded);
        assert!(is_complete(&large, &wants(column)));
    }
}

#[test]
fn transactions_that_make_rows() {
    let wants = |column: &str| schema(&[(column, ColumnType::Binary)], None);
    for (column, _) in ALL_OF_A_TRANSACTION {
        assert!(transaction_in_range(&transaction(1), &wants(column), Some(1)));
        assert_eq!(
            transaction(1).can_process(&wants(column), None),
            column != "gas_used"
        );
        assert!(!TxHash([0; 32]).can_process(&wants(column), Some(1)));
    }
    let wide = U256 { words: [0, 0, 0, 1] };
    let mut large = transaction(1);
    large.nonce = wide;
    large.value = wide;
    large.gas = wide;
    large.gas_price = Some(wide);
    large.transaction_type = Some(u64::MAX);
    large.max_priority_fee_per_gas = Some(wide);
    large.max_fee_per_gas = Some(wide);
    let bounded = [
        "nonce",
        "gas_limit",
        "gas_price",
        "transaction_type",
        "max_priority_fee_per_gas",
        "max_fee_per_gas",
    ];
    for (column, _) in ALL_OF_A_TRANSACTION {
        assert_eq!(
            transaction_in_range(&large, &wants(column), Some(1)),
            !bounded.contains(&column)
        );
    }
}

#[test]
fn messages_that_make_rows() {
    let numbers = schema(&[("number", ColumnType::UInt32)], None);
    let gas = schema(&[("gas_used", ColumnType::UInt32)], None);
    let mut pending: Block<Transaction> = block(1, vec![]);
    pending.number = None;
    let messages = vec![Ok((block(1, vec![transaction(1)]), None)), Ok((pending, None))];
    assert!(!messages_in_range(&messages, &Some(&numbers), &None));
    assert!(!messages_in_range(&messages, &None, &Some(&gas)));
    assert!(messages_in_range(&messages, &None, &Some(&numbers)));
    assert!(messages_in_range(&messages, &Some(&gas), &None));
    let mut pending: Block<Transaction> = block(1, vec![]);
    pending.number = None;
    let messages = vec![Err(CollectError::BadSchemaError), Ok((pending, None))];
    assert!(messages_in_range(&messages, &Some(&numbers), &None));
}

#[test]
fn rows_that_can_be_counted_and_sorted() {
    let columns = [("number", ColumnType::UInt32)];
    let sorted = schema(&columns, Some(&["number"]));
    let unsorted = schema(&columns, None);
    let by_nothing = schema(&columns, Some(&[]));
    let messages = vec![
        Ok((block(1, vec![transaction(1)]), None)),
        Err(CollectError::BadSchemaError),
        Ok((block(2, vec![]), Some(vec![]))),
    ];
    assert!(rows_in_range(&messages, &Some(&sorted), &Some(&unsorted)));
    assert!(rows_in_range(&messages, &None, &None));
    assert!(!rows_in_range(&messages, &Some(&by_nothing), &None));
    assert!(!rows_in_range(&messages, &Some(&sorted), &Some(&by_nothing)));
}

#[test]
fn columns_fill_row_by_row() {
    let some = schema(&[("hash", ColumnType::Binary), ("size", ColumnType::UInt32)], None);
    let mut columns = BlockColumns::new(2);
    process_block(&block::<TxHash>(1, vec![]), &some, &mut columns);
    process_block(&block::<TxHash>(2, vec![]), &some, &mut columns);
    assert_eq!(columns.hash, vec![vec![1; 32], vec![2; 32]]);
    assert_eq!(columns.size, vec![Some(1000), Some(1000)]);
    assert!(columns.number.is_empty() && columns.parent_hash.is_empty());
    let frame = columns.create_df(&some, 1, 2).unwrap();
    assert_eq!(frame.shape(), (2, 2));

    let some = schema(&[("value", ColumnType::String), ("gas_used", ColumnType::UInt32)], None);
    let mut columns = TransactionColumns::new(0);
    process_transaction(&transaction(4), &some, &mut columns, Some(40));
    assert_eq!(columns.value, vec!["18446744073709551620".to_string()]);
    assert_eq!(columns.gas_used, vec![40]);
    assert!(columns.nonce.is_empty() && columns.input.is_empty());
    let frame = columns.create_df(&some, 1, 1).unwrap();
    assert_eq!(frame.shape(), (1, 2));
}
