use lib::fixed_string::FixedString;

#[test]
fn fixed_string_starts_empty() {
    let s = FixedString::<8>::new();
    assert_eq!(s.len(), 0);
    assert_eq!(s.as_str().unwrap(), "");
}

#[test]
fn fixed_string_appends_what_fits() {
    let mut s = FixedString::<8>::new();
    assert!(s.write_str("kfs").is_ok());
    assert!(s.write_str("-1").is_ok());
    assert_eq!(s.len(), 5);
    assert_eq!(s.as_str().unwrap(), "kfs-1");
    assert_eq!(s.as_str_unchecked(), "kfs-1");
}

#[test]
fn fixed_string_refuses_a_write_past_capacity_whole() {
    let mut s = FixedString::<4>::new();
    assert!(s.write_str("abc").is_ok());
    assert!(s.write_str("de").is_err());
    assert_eq!(s.as_str().unwrap(), "abc");
    assert!(s.write_str("d").is_ok());
    assert_eq!(s.len(), 4);
    assert!(s.write_str("").is_ok());
    assert!(s.write_str("e").is_err());
    assert_eq!(s.as_bytes(), b"abcd");
}

#[test]
fn fixed_string_counts_utf8_bytes() {
    let mut s = FixedString::<3>::new();
    assert!(s.write_str("é").is_ok());
    assert_eq!(s.len(), 2);
    assert!(s.write_str("é").is_err());
    assert_eq!(s.as_str().unwrap(), "é");
}

#[test]
fn fixed_string_as_str_rejects_invalid_utf8() {
    let mut s = FixedString::<4>::new();
    assert!(s.write_bytes(&[0x61, 0xff]).is_ok());
    assert!(s.as_str().is_err());
    let mut t = FixedString::<4>::new();
    assert!(t.write_bytes(&[0xc3]).is_ok());
    assert!(t.as_str().is_err());
    assert!(t.write_bytes(&[0xa9]).is_ok());
    assert_eq!(t.as_str().unwrap(), "é");
}

#[test]
fn fixed_string_filled_by_write_str_reads_back() {
    let mut s = FixedString::<6>::new();
    for piece in ["é", "ab", "ü", "xyz"] {
        let _ = s.write_str(piece);
    }
    assert_eq!(s.as_str().unwrap(), "éabü");
    assert_eq!(s.len(), 6);
}
