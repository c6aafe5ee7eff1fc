use cryo_freeze::text::{all_opt_to_hex, all_to_hex, to_hex};

#[test]
fn hex_of_bytes() {
    assert_eq!(to_hex(&vec![0x00, 0x1f, 0xa0, 0xff]), "0x001fa0ff");
    assert_eq!(to_hex(&vec![0x01, 0x23, 0x45, 0x67, 0x89, 0xab, 0xcd, 0xef]), "0x0123456789abcdef");
    assert_eq!(to_hex(&vec![]), "0x");
}

#[test]
fn hex_of_many() {
    assert_eq!(all_to_hex(&vec![vec![1], vec![]]), vec!["0x01", "0x"]);
    assert_eq!(all_opt_to_hex(&vec![Some(vec![0xfe]), None]), vec![Some("0xfe".to_string()), None]);
}

#[test]
fn hex_tells_bytes_apart() {
    let mut seen: Vec<String> = (0..=255).map(|byte| to_hex(&vec![byte])).collect();
    seen.sort();
    seen.dedup();
    assert_eq!(seen.len(), 256);
}
