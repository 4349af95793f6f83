//! PS/2 keyboard input: the scancode set 1 table of the keys that type a
//! character, and what each key press does.
use vstd::prelude::*;

verus! {

/// The table entry of a key that types no character.
pub const NO_CHAR: u8 = 0x2e;
pub const BACKSPACE: u8 = 0x0e;
pub const ENTER: u8 = 0x1c;
pub const ESCAPE: u8 = 0x01;
pub const LEFT_ARROW: u8 = 0x4b;
pub const RIGHT_ARROW: u8 = 0x4d;
pub const UP_ARROW: u8 = 0x48;
pub const DOWN_ARROW: u8 = 0x50;
pub const F1: u8 = 0x3b;
pub const F2: u8 = 0x3c;
pub const F3: u8 = 0x3d;
pub const F4: u8 = 0x3e;

/// The ASCII character a key types, by its make code; `NO_CHAR` for a key
/// that types none. (The keypad keys share their codes with the arrow keys
/// and are left out.)
pub open spec fn scancode_char(code: u8) -> u8 {
    match code {
        0x02 => 0x31, // '1'
        0x03 => 0x32, // '2'
        0x04 => 0x33, // '3'
        0x05 => 0x34, // '4'
        0x06 => 0x35, // '5'
        0x07 => 0x36, // '6'
        0x08 => 0x37, // '7'
        0x09 => 0x38, // '8'
        0x0a => 0x39, // '9'
        0x0b => 0x30, // '0'
        0x0c => 0x2d, // Hyphen
        0x0d => 0x3d, // Equals
        0x10 => 0x51, // 'Q'
        0x11 => 0x57, // 'W'
        0x12 => 0x45, // 'E'
        0x13 => 0x52, // 'R'
        0x14 => 0x54, // 'T'
        0x15 => 0x59, // 'Y'
        0x16 => 0x55, // 'U'
        0x17 => 0x49, // 'I'
        0x18 => 0x4f, // 'O'
        0x19 => 0x50, // 'P'
        0x1a => 0x5b, // Opening bracket
        0x1b => 0x5d, // Closing bracket
        0x1e => 0x41, // 'A'
        0x1f => 0x53, // 'S'
        0x20 => 0x44, // 'D'
        0x21 => 0x46, // 'F'
        0x22 => 0x47, // 'G'
        0x23 => 0x48, // 'H'
        0x24 => 0x4a, // 'J'
        0x25 => 0x4b, // 'K'
        0x26 => 0x4c, // 'L'
        0x27 => 0x3b, // Semicolon
        0x28 => 0x27, // Apostrophe
        0x29 => 0x60, // Backtick
        0x2b => 0x5c, // Backslash
        0x2c => 0x5a, // 'Z'
        0x2d => 0x58, // 'X'
        0x2e => 0x43, // 'C'
        0x2f => 0x56, // 'V'
        0x30 => 0x42, // 'B'
        0x31 => 0x4e, // 'N'
        0x32 => 0x4d, // 'M'
        0x33 => 0x2c, // Comma
        0x34 => 0x2e, // Period
        0x35 => 0x2f, // Forward slash
        0x37 => 0x2a, // Keypad *
        0x39 => 0x20, // Space
        _ => NO_CHAR,
    }
}

/// The scancode table (see `scancode_char`).
pub fn make_scancodes() -> (t: [u8; 256])
    ensures
        forall|code: u8| #[trigger] t@[code as int] == scancode_char(code),
{
    let mut scancodes: [u8; 256] = [NO_CHAR; 256];

    // Number row
    scancodes[0x02] = 0x31; // '1'
    scancodes[0x03] = 0x32; // '2'
    scancodes[0x04] = 0x33; // '3'
    scancodes[0x05] = 0x34; // '4'
    scancodes[0x06] = 0x35; // '5'
    scancodes[0x07] = 0x36; // '6'
    scancodes[0x08] = 0x37; // '7'
    scancodes[0x09] = 0x38; // '8'
    scancodes[0x0a] = 0x39; // '9'
    scancodes[0x0b] = 0x30; // '0'
    scancodes[0x0c] = 0x2d; // Hyphen
    scancodes[0x0d] = 0x3d; // Equals

    // Top row
    scancodes[0x10] = 0x51; // 'Q'
    scancodes[0x11] = 0x57; // 'W'
    scancodes[0x12] = 0x45; // 'E'
    scancodes[0x13] = 0x52; // 'R'
    scancodes[0x14] = 0x54; // 'T'
    scancodes[0x15] = 0x59; // 'Y'
    scancodes[0x16] = 0x55; // 'U'
    scancodes[0x17] = 0x49; // 'I'
    scancodes[0x18] = 0x4f; // 'O'
    scancodes[0x19] = 0x50; // 'P'
    scancodes[0x1a] = 0x5b; // Opening bracket
    scancodes[0x1b] = 0x5d; // Closing bracket

    // Home row
    scancodes[0x1e] = 0x41; // 'A'
    scancodes[0x1f] = 0x53; // 'S'
    scancodes[0x20] = 0x44; // 'D'
    scancodes[0x21] = 0x46; // 'F'
    scancodes[0x22] = 0x47; // 'G'
    scancodes[0x23] = 0x48; // 'H'
    scancodes[0x24] = 0x4a; // 'J'
    scancodes[0x25] = 0x4b; // 'K'
    scancodes[0x26] = 0x4c; // 'L'
    scancodes[0x27] = 0x3b; // Semicolon
    scancodes[0x28] = 0x27; // Apostrophe
    scancodes[0x29] = 0x60; // Backtick
    scancodes[0x2b] = 0x5c; // Backslash

    // Bottom row
    scancodes[0x2c] = 0x5a; // 'Z'
    scancodes[0x2d] = 0x58; // 'X'
    scancodes[0x2e] = 0x43; // 'C'
    scancodes[0x2f] = 0x56; // 'V'
    scancodes[0x30] = 0x42; // 'B'
    scancodes[0x31] = 0x4e; // 'N'
    scancodes[0x32] = 0x4d; // 'M'
    scancodes[0x33] = 0x2c; // Comma
    scancodes[0x34] = 0x2e; // Period
    scancodes[0x35] = 0x2f; // Forward slash
    scancodes[0x37] = 0x2a; // Keypad *
    scancodes[0x39] = 0x20; // Space

    assert(scancodes@ =~= Seq::new(256, |code: int| scancode_char(code as u8)));
    scancodes
}


/// What a key press does.
#[derive(Clone, Copy, Debug, PartialEq, Eq, Structural)]
pub enum KeyAction {
    /// Type the character at the cursor.
    Type(u8),
    /// Erase the character before the cursor.
    Backspace,
    /// Run the input line.
    Enter,
    /// Empty the input line.
    Escape,
    /// Show the terminal of the given number (F1 to F4 show 0 to 3).
    Switch(usize),
    ScrollUp,
    ScrollDown,
    /// Move the cursor one place left.
    CursorLeft,
    /// Move the cursor one place right.
    CursorRight,
    /// Nothing.
    Ignore,
}

/// The action of the key with make code `code`: a key that types a
/// character types it; otherwise the editing, function and arrow keys act,
/// and the other keys do nothing.
pub open spec fn key_action_spec(code: u8) -> KeyAction {
    if scancode_char(code) != NO_CHAR {
        KeyAction::Type(scancode_char(code))
    } else if code == BACKSPACE {
        KeyAction::Backspace
    } else if code == ENTER {
        KeyAction::Enter
    } else if code == ESCAPE {
        KeyAction::Escape
    } else if F1 <= code <= F4 {
        KeyAction::Switch((code - F1) as usize)
    } else if code == UP_ARROW {
        KeyAction::ScrollUp
    } else if code == DOWN_ARROW {
        KeyAction::ScrollDown
    } else if code == LEFT_ARROW {
        KeyAction::CursorLeft
    } else if code == RIGHT_ARROW {
        KeyAction::CursorRight
    } else {
        KeyAction::Ignore
    }
}

/// The keyboard's scancode table.
pub struct Keyboard {
    scancodes: [u8; 256],
}

impl Keyboard {
    #[verifier::type_invariant]
    closed spec fn inv(self) -> bool {
        forall|code: u8| #[trigger] self.scancodes@[code as int] == scancode_char(code)
    }

    /// The table: the character each key types, by make code.
    pub closed spec fn table(&self) -> Seq<u8> {
        self.scancodes@
    }

    /// A keyboard with the scancode table (see `scancode_char`).
    pub fn new() -> (k: Self)
        ensures
            k.table().len() == 256,
            forall|code: u8| #[trigger] k.table()[code as int] == scancode_char(code),
    {
        Keyboard { scancodes: make_scancodes() }
    }

    /// The character the key with make code `code` types, if any.
    pub fn char_of(&self, code: u8) -> (c: Option<u8>)
        ensures
            c == if scancode_char(code) == NO_CHAR {
                None
            } else {
                Some(scancode_char(code))
            },
    {
        proof {
            use_type_invariant(self);
        }
        let v = self.scancodes[code as usize];
        assert(v == scancode_char(code));
        if v == NO_CHAR {
            None
        } else {
            Some(v)
        }
    }

    /// What pressing the key with make code `code` does (see
    /// `key_action_spec`).
    pub fn action(&self, code: u8) -> (a: KeyAction)
        ensures
            a == key_action_spec(code),
    {
        if let Some(c) = self.char_of(code) {
            KeyAction::Type(c)
        } else if code == BACKSPACE {
            KeyAction::Backspace
        } else if code == ENTER {
            KeyAction::Enter
        } else if code == ESCAPE {
            KeyAction::Escape
        } else if code >= F1 && code <= F4 {
            KeyAction::Switch((code - F1) as usize)
        } else if code == UP_ARROW {
            KeyAction::ScrollUp
        } else if code == DOWN_ARROW {
            KeyAction::ScrollDown
        } else if code == LEFT_ARROW {
            KeyAction::CursorLeft
        } else if code == RIGHT_ARROW {
            KeyAction::CursorRight
        } else {
            KeyAction::Ignore
        }
    }
}

/// The function keys F1 to F4 (make codes 0x3b to 0x3e) show terminals 0
/// to 3 in order.
pub proof fn lemma_function_keys(code: u8)
    requires
        0x3b <= code <= 0x3e,
    ensures
        key_action_spec(code) == KeyAction::Switch((code - 0x3b) as usize),
{
}

/// Every key that types a character types printable ASCII.
pub proof fn lemma_scancodes_printable(code: u8)
    ensures
        0x20 <= scancode_char(code) <= 0x7e,
{
}

} // verus!
