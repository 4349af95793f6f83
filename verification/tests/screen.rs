use lib::screen::{
    switch_cmd, LogLevel, Screen, SwitchError, VgaColor, SCREEN_BUFFER_SIZE, SCREEN_LINES,
    VGA_BUFFER_SIZE, VGA_WIDTH,
};
use lib::parse::ParseError;

fn write_lines(s: &mut Screen, n: usize) {
    for _ in 0..n {
        assert!(s.can_write("x\n"));
        assert!(s.write_str("x\n").is_ok());
    }
}

#[test]
fn screen_starts_blank() {
    let s = Screen::new();
    assert_eq!(s.active_index(), 0);
    for i in 0..4 {
        let t = s.terminal(i);
        assert_eq!((t.line(), t.offset(), t.pos()), (0, 0, 0));
        assert_eq!(t.buffer().len(), SCREEN_BUFFER_SIZE);
        assert!(t.buffer().iter().all(|&b| b == 0));
    }
    assert_eq!(s.active_window().len(), VGA_BUFFER_SIZE);
}

#[test]
fn screen_write_fills_cells_in_the_current_colour() {
    let mut s = Screen::new();
    s.set_color(VgaColor::LightCyan);
    assert!(s.write_str("hi").is_ok());
    let w = s.active_window();
    assert_eq!(&w[0..4], &[b'h', 11, b'i', 11]);
    assert_eq!(s.terminal(0).pos(), 2);
    assert!(s.write_str("!\n").is_ok());
    let t = s.terminal(0);
    assert_eq!((t.line(), t.pos()), (1, 0));
    assert_eq!(&t.buffer()[4..6], &[b'!', 11]);
    assert!(s.write_str("ok").is_ok());
    assert_eq!(&s.terminal(0).buffer()[160..164], &[b'o', 11, b'k', 11]);
    // The other terminals are untouched.
    assert!(s.terminal(1).buffer().iter().all(|&b| b == 0));
}

#[test]
fn screen_refuses_a_string_longer_than_a_line() {
    let mut s = Screen::new();
    let long = "a".repeat(VGA_WIDTH + 1);
    assert!(s.can_write(&long));
    assert!(s.write_str(&long).is_err());
    assert_eq!(s.terminal(0).pos(), 0);
    assert!(s.terminal(0).buffer().iter().all(|&b| b == 0));
    let line = "a".repeat(VGA_WIDTH);
    assert!(s.write_str(&line).is_ok());
    assert_eq!(s.terminal(0).pos(), VGA_WIDTH);
}

#[test]
fn screen_wraps_after_twice_the_width_dropping_that_byte() {
    let mut s = Screen::new();
    let line = "a".repeat(VGA_WIDTH);
    assert!(s.write_str(&line).is_ok());
    assert!(s.write_str(&line).is_ok());
    assert_eq!(s.terminal(0).pos(), 2 * VGA_WIDTH);
    assert!(s.write_str("bc").is_ok());
    let t = s.terminal(0);
    assert_eq!((t.line(), t.pos()), (1, 1));
    // Characters past the width spill into the next line's cells, which
    // the next line then writes over.
    assert_eq!(t.buffer()[158], b'a');
    assert_eq!(t.buffer()[160], b'c');
    assert_eq!(t.buffer()[162], b'a');
    assert_eq!(t.buffer()[320], 0);
}

#[test]
fn screen_window_follows_the_last_lines() {
    let mut s = Screen::new();
    write_lines(&mut s, 30);
    let t = s.terminal(0);
    assert_eq!(t.line(), 30);
    assert_eq!(t.offset(), 6 * 160);
    // The last line written is the bottom line of the window.
    assert_eq!(s.active_window()[23 * 160], b'x');
}

#[test]
fn screen_push_up_when_full_moves_text_up() {
    let mut s = Screen::new();
    assert!(s.write_str("top\n").is_ok());
    write_lines(&mut s, SCREEN_LINES - 1);
    assert_eq!(s.terminal(0).line(), SCREEN_LINES);
    assert_eq!(s.terminal(0).buffer()[0], b't');
    // A write to a full buffer first moves every line up.
    assert!(s.write_str("y").is_ok());
    let t = s.terminal(0);
    assert_eq!(t.line(), SCREEN_LINES - 1);
    assert_eq!(t.buffer()[0], b'x');
    assert_eq!(t.buffer()[(SCREEN_LINES - 1) * 160], b'y');
    assert_eq!(t.buffer()[(SCREEN_LINES - 1) * 160 + 2], 0);
    s.push_up();
    assert_eq!(s.terminal(0).line(), SCREEN_LINES);
    s.push_up();
    let t = s.terminal(0);
    assert_eq!(t.line(), SCREEN_LINES - 1);
    assert_eq!(t.buffer()[(SCREEN_LINES - 2) * 160], b'y');
    assert!(t.buffer()[(SCREEN_LINES - 1) * 160..].iter().all(|&b| b == 0));
}

#[test]
fn screen_can_write_detects_a_write_past_the_buffer() {
    let mut s = Screen::new();
    write_lines(&mut s, SCREEN_LINES - 1);
    let line = "a".repeat(VGA_WIDTH);
    assert!(s.write_str(&line).is_ok());
    assert_eq!(s.terminal(0).line(), SCREEN_LINES - 1);
    // The last line's cells are full: the next character has no cell.
    assert!(!s.can_write("b"));
    assert!(s.can_write("\n"));
    // A newline that fills the buffer and a character after it.
    let mut s2 = Screen::new();
    write_lines(&mut s2, SCREEN_LINES - 1);
    assert!(!s2.can_write("\nb"));
    assert!(s2.can_write("\n\n"));
}

#[test]
fn screen_scrolls_within_bounds() {
    let mut s = Screen::new();
    write_lines(&mut s, 40);
    assert_eq!(s.terminal(0).offset(), 16 * 160);
    s.scroll_up();
    assert_eq!(s.terminal(0).offset(), 15 * 160);
    s.scroll_down();
    assert_eq!(s.terminal(0).offset(), 16 * 160);
    // The last line written is already on the bottom line: no further.
    s.scroll_down();
    assert_eq!(s.terminal(0).offset(), 16 * 160);
    for _ in 0..30 {
        s.scroll_up();
    }
    assert_eq!(s.terminal(0).offset(), 0);
}

#[test]
fn screen_switch_and_clear() {
    let mut s = Screen::new();
    assert!(s.write_str("a\n").is_ok());
    s.switch_active(2);
    assert_eq!(s.active_index(), 2);
    assert!(s.write_str("b\n").is_ok());
    assert_eq!(s.terminal(2).buffer()[0], b'b');
    assert_eq!(s.terminal(0).buffer()[0], b'a');
    s.switch_active(9);
    assert_eq!(s.active_index(), 3);
    s.switch_active(0);
    s.clear_screen();
    let t = s.terminal(0);
    assert_eq!((t.line(), t.offset(), t.pos()), (0, 0, 0));
    assert!(t.buffer().iter().all(|&b| b == 0));
    assert_eq!(s.terminal(2).buffer()[0], b'b');
    assert_eq!(s.active_line(), 0);
}

#[test]
fn level_colors() {
    assert_eq!(LogLevel::Debug.color(), VgaColor::LightGrey);
    assert_eq!(LogLevel::Info.color(), VgaColor::LightCyan);
    assert_eq!(LogLevel::Warn.color(), VgaColor::LightRed);
    assert_eq!(LogLevel::Error.color(), VgaColor::Red);
    assert_eq!(LogLevel::Error.value(), 3);
    assert_eq!(VgaColor::Black.value(), 0);
    assert_eq!(VgaColor::LightMagenta.value(), 13);
    assert_eq!(VgaColor::White.value(), 15);
}

#[test]
fn switch_cmd_reads_the_terminal_number() {
    assert_eq!(switch_cmd(Some(b"2")).unwrap(), 2);
    assert_eq!(switch_cmd(Some(b"7")).unwrap(), 7);
    assert!(matches!(switch_cmd(None), Err(SwitchError::MissingArgument)));
    match switch_cmd(Some(b"two")) {
        Err(SwitchError::Unparsable { arg, error }) => {
            assert_eq!(arg, b"two".to_vec());
            assert_eq!(error, ParseError::InvalidDigit);
        }
        other => panic!("{:?}", other),
    }
}
