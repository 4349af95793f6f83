use lib::microshell::{
    cursor_end_register, cursor_start_register, cursor_writes, Command, PortWrite, ShellBuf,
};
use lib::parse::ParseError;
use lib::screen::SwitchError;

fn typed(s: &str) -> ShellBuf {
    let mut b = ShellBuf::new();
    for c in s.bytes() {
        assert!(b.insert_shell_char(c));
    }
    b
}

#[test]
fn shell_types_at_the_cursor() {
    let mut b = typed("HLO");
    assert_eq!(b.as_bytes(), b"HLO");
    assert_eq!(b.cursor_pos(), 3);
    assert!(b.set_cursor_pos(1));
    assert!(b.insert_shell_char(b'E'));
    assert!(b.set_cursor_pos(3));
    assert!(b.insert_shell_char(b'L'));
    assert_eq!(b.as_bytes(), b"HELLO");
    assert_eq!(b.cursor_pos(), 4);
}

#[test]
fn shell_refuses_a_full_line() {
    let mut b = typed(&"A".repeat(80));
    assert!(!b.insert_shell_char(b'B'));
    assert_eq!(b.as_bytes().len(), 80);
    assert_eq!(b.cursor_pos(), 80);
}

#[test]
fn shell_erases_before_the_cursor() {
    let mut b = typed("ABCD");
    assert!(b.set_cursor_pos(2));
    assert!(b.remove_shell_char());
    assert_eq!(b.as_bytes(), b"ACD");
    assert_eq!(b.cursor_pos(), 1);
    assert!(b.remove_shell_char());
    assert_eq!(b.as_bytes(), b"CD");
    assert!(!b.remove_shell_char());
    assert_eq!(b.as_bytes(), b"CD");
    assert!(b.set_cursor_pos(2));
    assert!(b.remove_shell_char());
    assert_eq!(b.as_bytes(), b"C");
    let mut e = ShellBuf::new();
    assert!(!e.remove_shell_char());
}

#[test]
fn shell_type_then_erase_restores_the_line() {
    let mut b = typed("ABCD");
    assert!(b.set_cursor_pos(2));
    assert!(b.insert_shell_char(b'X'));
    assert!(b.remove_shell_char());
    assert_eq!(b.as_bytes(), b"ABCD");
    assert_eq!(b.cursor_pos(), 2);
}

#[test]
fn shell_cursor_moves_within_the_line() {
    let mut b = typed("AB");
    assert!(!b.set_cursor_pos(3));
    assert_eq!(b.cursor_pos(), 2);
    assert!(!b.shift_cursor(1));
    assert!(b.shift_cursor(-1));
    assert!(b.shift_cursor(-1));
    assert_eq!(b.cursor_pos(), 0);
    assert!(!b.shift_cursor(-1));
    assert_eq!(b.cursor_pos(), 0);
    assert!(b.shift_cursor(2));
    assert_eq!(b.cursor_pos(), 2);
}

#[test]
fn shell_input_line_cells() {
    let b = typed("AB");
    let cells = b.flush_buffer();
    assert_eq!(cells.len(), 160);
    assert_eq!(&cells[0..6], &[b'A', 13, b'B', 13, 0, 13]);
    assert!(cells[4..].chunks(2).all(|c| c == [0, 13]));
}

#[test]
fn shell_cursor_port_writes() {
    let b = typed("ABC");
    let pos: u16 = 24 * 80 + 3;
    assert_eq!(
        b.update_cursor(),
        vec![
            PortWrite { port: 0x3d4, value: 0x0f },
            PortWrite { port: 0x3d5, value: (pos & 0xff) as u8 },
            PortWrite { port: 0x3d4, value: 0x0e },
            PortWrite { port: 0x3d5, value: (pos >> 8) as u8 },
        ]
    );
    assert_eq!(cursor_writes(0x1234)[1].value, 0x34);
    assert_eq!(cursor_writes(0x1234)[3].value, 0x12);
    assert_eq!(cursor_start_register(0xff), 0xce);
    assert_eq!(cursor_start_register(0x00), 14);
    assert_eq!(cursor_end_register(0xff), 0xef);
}

fn run(line: &str) -> Command {
    let mut b = typed(line);
    let c = b.enter_cmd();
    assert_eq!(b.as_bytes(), b"");
    assert_eq!(b.cursor_pos(), 0);
    c
}

#[test]
fn shell_commands() {
    assert!(matches!(run(""), Command::Empty));
    assert!(matches!(run("   "), Command::Empty));
    assert!(matches!(run("STACK"), Command::Stack(Some(128))));
    assert!(matches!(run("STACK 64"), Command::Stack(Some(64))));
    assert!(matches!(run(" STACK  32 X"), Command::Stack(Some(32))));
    assert!(matches!(run("STACK X"), Command::Stack(None)));
    assert!(matches!(run("REBOOT"), Command::Reboot));
    assert!(matches!(run("CLEAR NOW"), Command::Clear));
    assert!(matches!(run("SWITCH 1"), Command::Switch(Ok(1))));
    assert!(matches!(run("SWITCH"), Command::Switch(Err(SwitchError::MissingArgument))));
    match run("SWITCH -1") {
        Command::Switch(Err(SwitchError::Unparsable { arg, error })) => {
            assert_eq!(arg, b"-1".to_vec());
            assert_eq!(error, ParseError::InvalidDigit);
        }
        other => panic!("{:?}", other),
    }
    match run("HELP ME") {
        Command::NotFound(w) => assert_eq!(w, b"HELP".to_vec()),
        other => panic!("{:?}", other),
    }
    assert!(matches!(run("stack"), Command::NotFound(_)));
}

#[test]
fn shell_clear_buffer() {
    let mut b = typed("ABC");
    b.clear_buffer();
    assert_eq!(b.as_bytes(), b"");
    assert_eq!(b.cursor_pos(), 0);
    assert!(matches!(
        ShellBuf::match_command(&[b"SWITCH".to_vec(), b"3".to_vec()]),
        Command::Switch(Ok(3))
    ));
    assert!(matches!(ShellBuf::switch_cmd(Some(b"0")), Ok(0)));
}
