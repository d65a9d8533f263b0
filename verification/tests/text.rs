use deskovery::text::{contains, decimal_bytes, find_expected, index_of, merge, WriteBuf};

#[test]
fn index_of_finds_first_occurrence() {
    assert_eq!(index_of(b"abcabc", b"bc"), Some(1));
    assert_eq!(index_of(b"abcabc", b"abc"), Some(0));
    assert_eq!(index_of(b"abcabc", b"cab"), Some(2));
    assert_eq!(index_of(b"abc", b"abcd"), None);
    assert_eq!(index_of(b"", b"a"), None);
    assert_eq!(index_of(b"STATUS:2", b"STATUS:"), Some(0));
}

#[test]
fn contains_agrees_with_index_of() {
    for (src, pat) in [(&b"hello OK"[..], &b"OK"[..]), (b"hello", b"OK"), (b"CLOSED", b"CLOSED"), (b"CLOSE", b"CLOSED")] {
        assert_eq!(contains(src, pat), index_of(src, pat).is_some());
    }
    assert!(contains(b"AT\r\n\r\nOK\r\n", b"OK"));
    assert!(!contains(b"AT\r\nERROR", b"OK"));
}

#[test]
fn find_expected_uses_list_order() {
    assert_eq!(find_expected(b"xxOKyyERROR", &["ERROR", "OK"]), Some(11));
    assert_eq!(find_expected(b"xxOKyyERROR", &["OK", "ERROR"]), Some(4));
    assert_eq!(find_expected(b"nothing yet", &["OK"]), None);
    assert_eq!(find_expected(b"\r\nSEND OK\r\n", &["SEND OK"]), Some(9));
}

#[test]
fn decimal_digits() {
    assert_eq!(decimal_bytes(0), b"0".to_vec());
    assert_eq!(decimal_bytes(7), b"7".to_vec());
    assert_eq!(decimal_bytes(8000), b"8000".to_vec());
    assert_eq!(decimal_bytes(u64::MAX), b"18446744073709551615".to_vec());
}

#[test]
fn write_buf_keeps_what_fits() {
    let mut w = WriteBuf::new(vec![0u8; 8]);
    assert!(w.write_str("AT+").is_ok());
    assert!(w.write_decimal(1234).is_ok());
    assert_eq!(w.written(), b"AT+1234".to_vec());
    assert!(w.write_str("56").is_err());
    assert_eq!(w.written(), b"AT+12345".to_vec());
    assert!(w.write_bytes(b"").is_ok());
    assert!(w.write_bytes(b"x").is_err());
    assert_eq!(w.written(), b"AT+12345".to_vec());
}

#[test]
fn merge_overwrites_the_start() {
    assert_eq!(merge(b"abcdef", b"XY"), b"XYcdef".to_vec());
    assert_eq!(merge(b"abc", b""), b"abc".to_vec());
    assert_eq!(merge(b"abc", b"XYZ"), b"XYZ".to_vec());
}
