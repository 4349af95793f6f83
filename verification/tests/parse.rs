use lib::parse::{bytes_eq_str, parse_usize, split_ascii_whitespace, ParseError};

#[test]
fn parse_usize_reads_decimal_numbers() {
    assert_eq!(parse_usize(b"0"), Ok(0));
    assert_eq!(parse_usize(b"128"), Ok(128));
    assert_eq!(parse_usize(b"+42"), Ok(42));
    assert_eq!(parse_usize(b"007"), Ok(7));
    assert_eq!(parse_usize(usize::MAX.to_string().as_bytes()), Ok(usize::MAX));
}

#[test]
fn parse_usize_errors() {
    assert_eq!(parse_usize(b""), Err(ParseError::Empty));
    assert_eq!(parse_usize(b"+"), Err(ParseError::InvalidDigit));
    assert_eq!(parse_usize(b"-"), Err(ParseError::InvalidDigit));
    assert_eq!(parse_usize(b"-5"), Err(ParseError::InvalidDigit));
    assert_eq!(parse_usize(b"12a"), Err(ParseError::InvalidDigit));
    assert_eq!(parse_usize(b"++1"), Err(ParseError::InvalidDigit));
    assert_eq!(parse_usize(b"99999999999999999999999"), Err(ParseError::PosOverflow));
    // The first failure from the left decides.
    assert_eq!(parse_usize(b"99999999999999999999999x"), Err(ParseError::PosOverflow));
    assert_eq!(parse_usize(b"x99999999999999999999999"), Err(ParseError::InvalidDigit));
}

#[test]
fn parse_usize_agrees_with_std() {
    for s in ["", "+", "-", "0", "+0", "17", "1x", " 1", "18446744073709551616", "4294967296"] {
        let std_result = s.parse::<usize>();
        let ours = parse_usize(s.as_bytes());
        match (std_result, ours) {
            (Ok(a), Ok(b)) => assert_eq!(a, b),
            (Err(e), Err(f)) => assert_eq!(e.to_string(), f.message()),
            (a, b) => panic!("{:?} gave {:?} and {:?}", s, a, b),
        }
    }
}

#[test]
fn parse_error_messages() {
    assert_eq!(ParseError::Empty.message(), "cannot parse integer from empty string");
    assert_eq!(ParseError::InvalidDigit.message(), "invalid digit found in string");
    assert_eq!(ParseError::PosOverflow.message(), "number too large to fit in target type");
}

#[test]
fn split_ascii_whitespace_words() {
    let w = split_ascii_whitespace(b"  STACK\t 64 \r\n");
    assert_eq!(w, vec![b"STACK".to_vec(), b"64".to_vec()]);
    assert!(split_ascii_whitespace(b"").is_empty());
    assert!(split_ascii_whitespace(b" \t ").is_empty());
    assert_eq!(split_ascii_whitespace(b"a\x0bb"), vec![b"a\x0bb".to_vec()]);
    let line = b"SWITCH  2 x";
    let std_words: Vec<Vec<u8>> = std::str::from_utf8(line)
        .unwrap()
        .split_ascii_whitespace()
        .map(|w| w.as_bytes().to_vec())
        .collect();
    assert_eq!(split_ascii_whitespace(line), std_words);
}

#[test]
fn bytes_eq_str_compares_bytes() {
    assert!(bytes_eq_str(b"CLEAR", "CLEAR"));
    assert!(!bytes_eq_str(b"CLEA", "CLEAR"));
    assert!(!bytes_eq_str(b"clear", "CLEAR"));
}
