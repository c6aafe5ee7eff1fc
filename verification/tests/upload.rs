use cryo_freeze::upload::{blob_name, blob_name_of, bucket_and_prefix, BLOB_MIME};
use std::path::PathBuf;

fn split(destination: &str) -> Option<(String, String)> {
    bucket_and_prefix(destination)
}

fn pair(bucket: &str, prefix: &str) -> Option<(String, String)> {
    Some((bucket.to_string(), prefix.to_string()))
}

#[test]
fn destination_splits_at_first_slash() {
    assert_eq!(split("bucket/data/eth/"), pair("bucket", "data/eth/"));
    assert_eq!(split("bucket/"), pair("bucket", ""));
    assert_eq!(split("/data"), pair("", "data"));
    assert_eq!(split("bucket"), None);
    assert_eq!(split(""), None);
}

#[test]
fn parts_become_directories() {
    assert_eq!(
        blob_name("data/", "ethereum__blocks__00000010_to_00000020.parquet"),
        "data/ethereum/blocks/00000010_to_00000020.parquet"
    );
    assert_eq!(
        blob_name("", "ethereum__blocks__00000010_to_00000020__v2.csv"),
        "ethereum/blocks/00000010_to_00000020/v2.csv"
    );
    assert_eq!(
        blob_name("p/", "ethereum__logs__2023-07-04__data.parquet"),
        "p/ethereum/logs/2023-07-04/data.parquet"
    );
}

#[test]
fn directories_do_not_count() {
    let name = |path: &str| blob_name_of("data/", &PathBuf::from(path));
    let expected = Some("data/ethereum/blocks/v2.parquet".to_string());
    assert_eq!(name("ethereum__blocks__v2.parquet"), expected);
    assert_eq!(name("/ethereum__blocks__v2.parquet"), expected);
    assert_eq!(name("/some__where/out/ethereum__blocks__v2.parquet"), expected);
    assert_eq!(name("../a//ethereum__blocks__v2.parquet"), expected);
    assert_eq!(name("out/a__b/"), Some("data/a/b".to_string()));
    assert_eq!(name(""), None);
    assert_eq!(name("/"), None);
    assert_eq!(name("out/.."), None);
}

#[test]
fn underscores_pair_up_from_the_left() {
    let name = |text: &str| blob_name("", text);
    assert_eq!(name(""), "");
    assert_eq!(name("_"), "_");
    assert_eq!(name("a_b"), "a_b");
    assert_eq!(name("__"), "/");
    assert_eq!(name("___"), "/_");
    assert_eq!(name("a____b"), "a//b");
    assert_eq!(name("a___b"), "a/_b");
    assert_eq!(name("ä__ö"), "ä/ö");
    for text in ["", "_", "___", "a____b", "a___b", "x__y_z__"] {
        let parts: Vec<_> = text.split("__").collect();
        assert_eq!(name(text), parts.join("/"));
    }
}

#[test]
fn media_type_of_blobs() {
    assert_eq!(BLOB_MIME, "application/octet-stream");
}
