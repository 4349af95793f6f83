use lib::kb_scancodes::{make_scancodes, KeyAction, Keyboard, NO_CHAR};

#[test]
fn scancode_table_rows() {
    let t = make_scancodes();
    assert_eq!(t[0x02], b'1');
    assert_eq!(t[0x0b], b'0');
    assert_eq!(t[0x0d], b'=');
    assert_eq!(t[0x10], b'Q');
    assert_eq!(t[0x1b], b']');
    assert_eq!(t[0x1e], b'A');
    assert_eq!(t[0x28], b'\'');
    assert_eq!(t[0x2b], b'\\');
    assert_eq!(t[0x2c], b'Z');
    assert_eq!(t[0x35], b'/');
    assert_eq!(t[0x37], b'*');
    assert_eq!(t[0x39], b' ');
    assert_eq!(t[0x00], NO_CHAR);
    assert_eq!(t[0x48], NO_CHAR);
    assert_eq!(t[0xff], NO_CHAR);
    let typed = t.iter().filter(|&&c| c != NO_CHAR).count();
    assert_eq!(typed, 48);
    assert!(t.iter().all(|&c| (0x20..=0x7e).contains(&c)));
}

#[test]
fn key_actions() {
    let k = Keyboard::new();
    assert_eq!(k.action(0x1e), KeyAction::Type(b'A'));
    assert_eq!(k.action(0x39), KeyAction::Type(b' '));
    // The period key's table entry reads as "no character".
    assert_eq!(k.action(0x34), KeyAction::Ignore);
    assert_eq!(k.action(0x0e), KeyAction::Backspace);
    assert_eq!(k.action(0x1c), KeyAction::Enter);
    assert_eq!(k.action(0x01), KeyAction::Escape);
    assert_eq!(k.action(0x3b), KeyAction::Switch(0));
    assert_eq!(k.action(0x3e), KeyAction::Switch(3));
    assert_eq!(k.action(0x3f), KeyAction::Ignore);
    assert_eq!(k.action(0x48), KeyAction::ScrollUp);
    assert_eq!(k.action(0x50), KeyAction::ScrollDown);
    assert_eq!(k.action(0x4b), KeyAction::CursorLeft);
    assert_eq!(k.action(0x4d), KeyAction::CursorRight);
    assert_eq!(k.action(0x9e), KeyAction::Ignore);
    assert_eq!(k.char_of(0x10), Some(b'Q'));
    assert_eq!(k.char_of(0x01), None);
}
