use lib::stack_dump::{dump_memory, dump_slice, get_ascii_representation, stack_dump_cmd};

#[test]
fn ascii_representation() {
    assert_eq!(get_ascii_representation(b'A'), 'A');
    assert_eq!(get_ascii_representation(b' '), ' ');
    assert_eq!(get_ascii_representation(b'~'), '~');
    assert_eq!(get_ascii_representation(0x1f), '.');
    assert_eq!(get_ascii_representation(0x7f), '.');
    assert_eq!(get_ascii_representation(0xff), '.');
}

#[test]
fn dump_slice_full_line() {
    let line = dump_slice(b"# BLIGHT by Jola", 0);
    assert_eq!(
        line.as_str().unwrap(),
        "00000000  23 20 42 4c 49 47 48 54  20 62 79 20 4a 6f 6c 61  |# BLIGHT by Jola|"
    );
    assert_eq!(line.len(), 78);
}

#[test]
fn dump_slice_short_line() {
    let line = dump_slice(&[0x00, 0x41, 0xff], 0xdeadbeef);
    let expected = format!(
        "deadbeef  00 41 ff {} {} |.A.|",
        "   ".repeat(5),
        "   ".repeat(8)
    );
    assert_eq!(line.as_str().unwrap(), expected);
    assert_eq!(line.len(), 65);
    let empty = dump_slice(&[], 16);
    assert_eq!(empty.len(), 62);
    assert!(empty.as_str().unwrap().starts_with("00000010  "));
    assert!(empty.as_str().unwrap().ends_with("||"));
}

#[test]
fn dump_memory_lines() {
    let data: Vec<u8> = (0u8..40).collect();
    let lines = dump_memory(&data, 0x1000);
    assert_eq!(lines.len(), 4);
    assert!(lines[0].as_str().unwrap().starts_with("00001000  00 01 02"));
    assert!(lines[1].as_str().unwrap().starts_with("00001010  10 11"));
    assert!(lines[2].as_str().unwrap().starts_with("00001020  20 21 22 23 24 25 26 27"));
    assert_eq!(lines[2].len(), 62 + 8);
    assert_eq!(lines[3].as_str().unwrap(), "00001028");
    let none = dump_memory(&[], 0x20);
    assert_eq!(none.len(), 1);
    assert_eq!(none[0].as_str().unwrap(), "00000020");
    let exact = dump_memory(&[0x41; 32], 0);
    assert_eq!(exact.len(), 3);
    assert_eq!(exact[2].as_str().unwrap(), "00000020");
}

#[test]
fn stack_dump_cmd_size() {
    assert_eq!(stack_dump_cmd(&[]), Some(128));
    assert_eq!(stack_dump_cmd(&[b"256".to_vec()]), Some(256));
    assert_eq!(stack_dump_cmd(&[b"2x".to_vec()]), None);
    assert_eq!(stack_dump_cmd(&[b"16".to_vec(), b"x".to_vec()]), Some(16));
}
