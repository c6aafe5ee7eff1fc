use cryo_freeze::numbers::U256;

fn number(word: u64) -> U256 {
    U256 { words: [word, 0, 0, 0] }
}

#[test]
fn numbers_in_fewer_bits() {
    assert_eq!(number(0).as_u32(), 0);
    assert_eq!(number(u32::MAX as u64).as_u32(), u32::MAX);
    assert_eq!(number(12_345).as_u32(), 12_345);
    assert_eq!(number(u64::MAX).as_u64(), u64::MAX);
}

#[test]
fn numbers_that_fit() {
    assert!(number(u32::MAX as u64).fits_u32());
    assert!(!number(u32::MAX as u64 + 1).fits_u32());
    assert!(number(u64::MAX).fits_u64());
    for k in 1..4 {
        let mut words = [0; 4];
        words[k] = 1;
        assert!(!U256 { words }.fits_u32());
        assert!(!U256 { words }.fits_u64());
    }
}

#[test]
fn numbers_in_decimal() {
    assert_eq!(number(0).to_decimal(), "0");
    assert_eq!(number(1_000_000_000_000_000_000).to_decimal(), "1000000000000000000");
    assert_eq!(U256 { words: [0, 1, 0, 0] }.to_decimal(), "18446744073709551616");
    assert_eq!(
        U256 { words: [u64::MAX; 4] }.to_decimal(),
        "115792089237316195423570985008687907853269984665640564039457584007913129639935"
    );
}

#[test]
fn numbers_in_bytes() {
    let bytes = U256 { words: [0x0102, 0, 0, 0xff00_0000_0000_0000] }.to_vec_u8();
    let mut expected = vec![0; 32];
    expected[0] = 0xff;
    expected[30] = 1;
    expected[31] = 2;
    assert_eq!(bytes, expected);
}
