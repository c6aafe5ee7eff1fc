use cryo_freeze::errors::{ChunkError, CollectError, FileError, FreezeError, ParseError};

#[test]
fn errors_of_freezing() {
    assert!(matches!(
        FreezeError::from(FileError::FileWriteError),
        FreezeError::FilePathError(FileError::FileWriteError)
    ));
    assert!(matches!(
        FreezeError::from(CollectError::BadSchemaError),
        FreezeError::CollectError(CollectError::BadSchemaError)
    ));
    let template = indicatif::ProgressStyle::with_template("{}").err().unwrap();
    assert!(matches!(FreezeError::from(template), FreezeError::ProgressBarError(_)));
    match FreezeError::from(ParseError::ParseError("bad".to_string())) {
        FreezeError::ParseError(ParseError::ParseError(text)) => assert_eq!(text, "bad"),
        _ => panic!("another error"),
    }
    match FreezeError::from(cloud_storage::Error::Other("full".to_string())) {
        FreezeError::UploadError(cloud_storage::Error::Other(text)) => assert_eq!(text, "full"),
        _ => panic!("another error"),
    }
}

#[test]
fn errors_of_parts() {
    let cause = polars::prelude::PolarsError::NoData("nothing".into());
    assert!(matches!(CollectError::from(cause), CollectError::PolarsError(_)));
    let cause = "x".parse::<u8>().err().unwrap();
    match ParseError::from(cause.clone()) {
        ParseError::ParseIntError(kept) => assert_eq!(kept, cause),
        _ => panic!("another error"),
    }
    assert!(matches!(
        FileError::from(ChunkError::StubError),
        FileError::FilePathError(ChunkError::StubError)
    ));
}
