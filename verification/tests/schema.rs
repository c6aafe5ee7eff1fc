use cryo_freeze::schema::{ColumnType, Datatype, PerDatatype, Table};

#[test]
fn columns_of_a_schema() {
    let schema = Table {
        datatype: Datatype::Blocks,
        columns: vec![
            ("hash".to_string(), ColumnType::Hex),
            ("number".to_string(), ColumnType::UInt32),
        ],
        sort_columns: None,
    };
    assert!(schema.has_column("hash"));
    assert!(!schema.has_column("Hash"));
    assert!(!schema.has_column(""));
    assert_eq!(schema.column_type("number"), Some(ColumnType::UInt32));
    assert_eq!(schema.column_type("hash"), Some(ColumnType::Hex));
    assert_eq!(schema.column_type("size"), None);
}

#[test]
fn values_per_datatype() {
    let mut values: PerDatatype<u8> = PerDatatype::new();
    assert_eq!(values.get(&Datatype::Blocks), None);
    values.insert(Datatype::Transactions, 1);
    values.insert(Datatype::Blocks, 2);
    values.insert(Datatype::Transactions, 3);
    assert_eq!(values.get(&Datatype::Blocks), Some(&2));
    assert_eq!(values.get(&Datatype::Transactions), Some(&3));
}
