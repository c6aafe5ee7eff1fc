use cryo_freeze::chunks::{valid_path, ChunkData, FileOutput};
use cryo_freeze::date::Date;
use cryo_freeze::errors::{ChunkError, FileError};
use cryo_freeze::text::to_hex;

struct Numbers {
    items: Vec<u64>,
    date: Option<Date>,
}

impl ChunkData for Numbers {
    type Inner = u64;

    fn format_item(value: u64) -> String {
        format!("{:0>8}", value)
    }

    fn size(&self) -> u64 {
        self.items.len() as u64
    }

    fn min_value(&self) -> Option<u64> {
        self.items.iter().min().copied()
    }

    fn max_value(&self) -> Option<u64> {
        self.items.iter().max().copied()
    }

    fn date(&self) -> Option<&Date> {
        self.date.as_ref()
    }
}

fn chunk(items: &[u64]) -> Numbers {
    Numbers { items: items.to_vec(), date: None }
}

fn dated(items: &[u64]) -> Numbers {
    Numbers { items: items.to_vec(), date: Date::from_ymd_opt(2023, 7, 4) }
}

fn output_in(dir: &str, suffix: Option<&str>) -> FileOutput {
    FileOutput::in_dir(
        dir,
        "ethereum".to_string(),
        suffix.map(|s| s.to_string()),
        "parquet".to_string(),
    )
}

fn output(suffix: Option<&str>) -> FileOutput {
    output_in("out", suffix)
}

fn in_out(file: &str) -> String {
    std::path::Path::new("out").join(file).to_str().unwrap().to_string()
}

#[test]
fn stub_of_items() {
    assert_eq!(chunk(&[30, 10, 20]).stub().unwrap(), "00000010_to_00000030");
    assert_eq!(chunk(&[7]).stub().unwrap(), "00000007_to_00000007");
}

#[test]
fn stub_of_date() {
    assert_eq!(dated(&[30, 10]).stub().unwrap(), "2023-07-04__data");
    assert_eq!(dated(&[]).stub().unwrap(), "2023-07-04__data");
}

#[test]
fn stub_of_nothing() {
    assert!(matches!(chunk(&[]).stub(), Err(ChunkError::InvalidChunk)));
    let none: Vec<Numbers> = vec![];
    assert!(matches!(none.stub(), Err(ChunkError::InvalidChunk)));
    assert!(matches!(
        chunk(&[]).filepath("blocks", &output(None), &None),
        Err(FileError::FilePathError(ChunkError::InvalidChunk))
    ));
}

#[test]
fn file_of_chunk() {
    assert_eq!(
        chunk(&[10, 20]).filepath("blocks", &output(None), &None).unwrap(),
        in_out("ethereum__blocks__00000010_to_00000020.parquet")
    );
    assert_eq!(
        chunk(&[10, 20]).filepath("blocks", &output(Some("v2")), &None).unwrap(),
        in_out("ethereum__blocks__00000010_to_00000020__v2.parquet")
    );
    assert_eq!(
        dated(&[10, 20]).filepath("logs", &output(None), &None).unwrap(),
        in_out("ethereum__logs__2023-07-04__data.parquet")
    );
}

#[test]
fn file_of_labelled_chunk() {
    let label = Some("mine".to_string());
    assert_eq!(
        chunk(&[]).filepath("blocks", &output(None), &label).unwrap(),
        in_out("ethereum__blocks__mine.parquet")
    );
    assert_eq!(
        dated(&[1]).filepath("blocks", &output(Some("v2")), &label).unwrap(),
        in_out("ethereum__blocks__mine__v2.parquet")
    );
}

#[test]
fn file_below_the_directory() {
    let label = Some("2023/july".to_string());
    assert_eq!(
        chunk(&[]).filepath("blocks", &output(None), &label).unwrap(),
        in_out("ethereum__blocks__2023/july.parquet")
    );
}

#[test]
fn file_in_other_directories() {
    let to = output_in("", None);
    assert_eq!(
        chunk(&[1]).filepath("blocks", &to, &None).unwrap(),
        "ethereum__blocks__00000001_to_00000001.parquet"
    );
    let to = output_in("a/", None);
    assert_eq!(
        chunk(&[1]).filepath("blocks", &to, &None).unwrap(),
        "a/ethereum__blocks__00000001_to_00000001.parquet"
    );
}

#[test]
fn file_from_a_root() {
    let mut to = output_in("out", None);
    to.prefix = "/ethereum".to_string();
    let path = chunk(&[1]).filepath("blocks", &to, &Some("x".to_string())).unwrap();
    assert!(path.ends_with("/ethereum__blocks__x.parquet"));
    assert!(!path.starts_with("out"));
}

#[test]
fn output_in_directory() {
    let to = output_in("some/where", Some("v2"));
    assert_eq!(to.output_dir, std::path::PathBuf::from("some/where"));
    assert_eq!(to.prefix, "ethereum");
    assert_eq!(to.suffix, Some("v2".to_string()));
    assert_eq!(to.format, "parquet");
}

#[test]
fn paths_that_are_not_text() {
    assert_eq!(valid_path(Some("a/b".to_string())).unwrap(), "a/b");
    match valid_path(None) {
        Err(FileError::NoFilePathError(text)) => assert_eq!(text, "output dir invalid"),
        _ => panic!("a path without text"),
    }
}

#[test]
fn label_like_the_stub() {
    for chunk in [chunk(&[10, 20]), dated(&[5])] {
        let stub = chunk.stub().unwrap();
        let unlabelled = chunk.filepath("blocks", &output(Some("v2")), &None).unwrap();
        let labelled = chunk.filepath("blocks", &output(Some("v2")), &Some(stub)).unwrap();
        assert_eq!(unlabelled, labelled);
    }
}

#[test]
fn label_hides_the_chunk() {
    let label = Some("mine".to_string());
    let path = chunk(&[1, 2]).filepath("blocks", &output(None), &label).unwrap();
    assert_eq!(dated(&[7]).filepath("blocks", &output(None), &label).unwrap(), path);
    let none: Vec<Numbers> = vec![];
    assert_eq!(none.filepath("blocks", &output(None), &label).unwrap(), path);
}

struct Hashes(Vec<Vec<u8>>);

impl ChunkData for Hashes {
    type Inner = Vec<u8>;

    fn format_item(value: Vec<u8>) -> String {
        to_hex(&value)
    }

    fn size(&self) -> u64 {
        self.0.len() as u64
    }

    fn min_value(&self) -> Option<Vec<u8>> {
        self.0.iter().min().cloned()
    }

    fn max_value(&self) -> Option<Vec<u8>> {
        self.0.iter().max().cloned()
    }

    fn date(&self) -> Option<&Date> {
        None
    }
}

#[test]
fn chunks_of_byte_strings() {
    let hashes = || Hashes(vec![vec![2], vec![1, 9], vec![1]]);
    assert_eq!(hashes().stub().unwrap(), "0x01_to_0x02");
    assert_eq!(vec![hashes()].stub().unwrap(), "0x01_to_0x02");
    let lists = vec![hashes(), Hashes(vec![]), Hashes(vec![vec![0, 5]])];
    assert_eq!(lists.min_value(), Some(vec![0, 5]));
    assert_eq!(lists.max_value(), Some(vec![2]));
    assert!(matches!(vec![Hashes(vec![])].stub(), Err(ChunkError::InvalidChunk)));
    assert!(matches!(
        Vec::<Hashes>::new().filepath("blocks", &output(None), &None),
        Err(FileError::FilePathError(ChunkError::InvalidChunk))
    ));
}

#[test]
fn list_of_chunks() {
    let chunks = vec![chunk(&[30, 40]), chunk(&[]), chunk(&[10, 20, 25])];
    assert_eq!(chunks.size(), 5);
    assert_eq!(chunks.min_value(), Some(10));
    assert_eq!(chunks.max_value(), Some(40));
    assert!(chunks.date().is_none());
    assert_eq!(chunks.stub().unwrap(), "00000010_to_00000040");
    assert_eq!(Vec::<Numbers>::format_item(3), "00000003");
}

#[test]
fn list_of_no_chunks() {
    let none: Vec<Numbers> = vec![];
    assert_eq!(none.size(), 0);
    assert_eq!(none.min_value(), None);
    assert_eq!(none.max_value(), None);
    assert!(none.date().is_none());
}

#[test]
fn list_of_one_chunk() {
    let one = vec![dated(&[10, 20])];
    assert_eq!(one.size(), 2);
    assert_eq!(one.stub().unwrap(), dated(&[10, 20]).stub().unwrap());
    let plain = vec![chunk(&[10, 20])];
    assert_eq!(plain.stub().unwrap(), chunk(&[10, 20]).stub().unwrap());
    let two = vec![dated(&[10, 20]), dated(&[30])];
    assert!(two.date().is_none());
    assert_eq!(two.stub().unwrap(), "00000010_to_00000030");
}

#[test]
fn counts_of_joined_lists() {
    let first = vec![chunk(&[1, 2]), chunk(&[3])];
    let second = vec![chunk(&[4, 5, 6])];
    let sum = first.size() + second.size();
    let mut both = first;
    both.extend(second);
    assert_eq!(both.size(), sum);
    assert_eq!(sum, 6);
}

#[test]
fn list_of_lists() {
    let lists = vec![vec![chunk(&[5]), chunk(&[9])], vec![], vec![chunk(&[2])]];
    assert_eq!(lists.size(), 3);
    assert_eq!(lists.stub().unwrap(), "00000002_to_00000009");
}
