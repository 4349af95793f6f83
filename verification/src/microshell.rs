//! The input line of the kernel shell: an editable line of at most
//! `VGA_WIDTH` characters with a cursor, shown on the screen's last line,
//! and the commands it runs.
use vstd::prelude::*;
use vstd::string::StringSliceAdditionalSpecFns;
use crate::screen::{VGA_WIDTH, VGA_HEIGHT, VgaColor, SwitchError, switch_cmd_spec};
use crate::parse::{words, split_ascii_whitespace, bytes_eq_str};
use crate::stack_dump::stack_dump_size_spec;

verus! {

/// A byte written to an I/O port.
#[derive(Clone, Copy, Debug, PartialEq, Eq, Structural)]
pub struct PortWrite {
    pub port: u16,
    pub value: u8,
}

/// The VGA CRT controller's index and data ports.
pub const CRTC_INDEX: u16 = 0x3d4;
pub const CRTC_DATA: u16 = 0x3d5;

/// The port writes that move the hardware cursor to cell `pos` (row-major
/// over the whole screen): the low byte into register 0x0f, then the high
/// byte into register 0x0e.
pub open spec fn cursor_writes_spec(pos: u16) -> Seq<PortWrite> {
    seq![
        PortWrite { port: CRTC_INDEX, value: 0x0f },
        PortWrite { port: CRTC_DATA, value: (pos % 256) as u8 },
        PortWrite { port: CRTC_INDEX, value: 0x0e },
        PortWrite { port: CRTC_DATA, value: (pos / 256) as u8 },
    ]
}

/// The port writes that move the hardware cursor to cell `pos`.
pub fn cursor_writes(pos: u16) -> (w: Vec<PortWrite>)
    ensures
        w@ == cursor_writes_spec(pos),
{
    assert((pos & 0xff) == pos % 256) by (bit_vector);
    assert(((pos >> 8) & 0xff) == pos / 256) by (bit_vector);
    let mut w: Vec<PortWrite> = Vec::new();
    w.push(PortWrite { port: CRTC_INDEX, value: 0x0f });
    w.push(PortWrite { port: CRTC_DATA, value: (pos & 0xff) as u8 });
    w.push(PortWrite { port: CRTC_INDEX, value: 0x0e });
    w.push(PortWrite { port: CRTC_DATA, value: ((pos >> 8) & 0xff) as u8 });
    assert(w@ =~= cursor_writes_spec(pos));
    w
}

/// The new value of the cursor start register (0x0a) given its old value:
/// the cursor shown, starting at scanline 14.
pub fn cursor_start_register(old: u8) -> (r: u8)
    ensures
        r == (old / 64) * 64 + 14,
{
    let r = (old & 0xC0) | 14;
    assert((old & 0xC0) | 14 == (old / 64) * 64 + 14) by (bit_vector);
    r
}

/// The new value of the cursor end register (0x0b) given its old value:
/// the cursor ending at scanline 15.
pub fn cursor_end_register(old: u8) -> (r: u8)
    ensures
        r == (old / 32) * 32 + 15,
{
    let r = (old & 0xE0) | 15;
    assert((old & 0xE0) | 15 == (old / 32) * 32 + 15) by (bit_vector);
    r
}

/// The cells of the input line for `contents`: each character in light
/// magenta, the rest of the line blank in light magenta.
pub open spec fn input_line_cells(contents: Seq<u8>) -> Seq<u8> {
    Seq::new(
        (2 * VGA_WIDTH) as nat,
        |k: int|
            if k % 2 == 1 {
                13u8
            } else if k / 2 < contents.len() {
                contents[k / 2]
            } else {
                0u8
            },
    )
}

/// A command of the shell.
#[derive(Debug)]
pub enum Command {
    /// An empty line.
    Empty,
    /// Dump the given number of bytes of the stack; `None` where the size
    /// given is not a number (nothing is dumped).
    Stack(Option<usize>),
    /// Restart the machine.
    Reboot,
    /// Show the terminal the argument names.
    Switch(Result<usize, SwitchError>),
    /// Blank the terminal shown.
    Clear,
    /// An unknown command word.
    NotFound(Vec<u8>),
}

/// `r` is the command for the words `tokens`: the first word picks the
/// command, the words after it are its arguments.
pub open spec fn command_spec(tokens: Seq<Seq<u8>>, r: Command) -> bool {
    if tokens.len() == 0 {
        r is Empty
    } else if tokens[0] == "STACK".spec_bytes() {
        r == Command::Stack(stack_dump_size_spec(tokens.drop_first()))
    } else if tokens[0] == "REBOOT".spec_bytes() {
        r is Reboot
    } else if tokens[0] == "SWITCH".spec_bytes() {
        r matches Command::Switch(res) && switch_cmd_spec(
            if tokens.len() > 1 {
                Some(tokens[1])
            } else {
                None
            },
            res,
        )
    } else if tokens[0] == "CLEAR".spec_bytes() {
        r is Clear
    } else {
        r matches Command::NotFound(w) && w@ == tokens[0]
    }
}

/// Typing a character and erasing it again gives back the line: the
/// character typed at `cursor` is the one `remove_shell_char` erases with
/// the cursor moved past it.
pub proof fn lemma_type_then_erase(contents: Seq<u8>, cursor: int, c: u8)
    requires
        0 <= cursor <= contents.len(),
    ensures
        contents.insert(cursor, c).remove(cursor) == contents,
{
    assert(contents.insert(cursor, c).remove(cursor) =~= contents);
}

/// Erasing the character before the cursor and typing it again gives back
/// the line.
pub proof fn lemma_erase_then_type(contents: Seq<u8>, cursor: int)
    requires
        0 < cursor <= contents.len(),
    ensures
        contents.remove(cursor - 1).insert(cursor - 1, contents[cursor - 1]) == contents,
{
    assert(contents.remove(cursor - 1).insert(cursor - 1, contents[cursor - 1]) =~= contents);
}

/// `SWITCH` reads its first argument alone: with at least one argument, the
/// command is the switch that argument gives, whatever words follow it; the
/// same holds of the first argument of `STACK`.
pub proof fn lemma_command_first_argument(tokens: Seq<Seq<u8>>, r: Command)
    requires
        command_spec(tokens, r),
        tokens.len() >= 2,
    ensures
        tokens[0] == "SWITCH".spec_bytes() ==> (r matches Command::Switch(res) && switch_cmd_spec(
            Some(tokens[1]),
            res,
        )),
        tokens[0] == "SWITCH".spec_bytes() ==> command_spec(tokens.take(2), r),
        tokens[0] == "STACK".spec_bytes() ==> r == Command::Stack(
            match crate::parse::parse_usize_spec(tokens[1]) {
                Ok(v) => Some(v as usize),
                Err(_) => None,
            },
        ),
{
    reveal_strlit("SWITCH");
    reveal_strlit("STACK");
    reveal_strlit("REBOOT");
    vstd::string::is_ascii_spec_bytes("SWITCH");
    vstd::string::is_ascii_spec_bytes("STACK");
    vstd::string::is_ascii_spec_bytes("REBOOT");
    assert("SWITCH".spec_bytes()[1] == 0x57);
    assert("STACK".spec_bytes()[1] == 0x54);
    assert("SWITCH".spec_bytes()[0] == 0x53);
    assert("REBOOT".spec_bytes()[0] == 0x52);
    assert(tokens.take(2)[0] == tokens[0]);
    assert(tokens.take(2)[1] == tokens[1]);
    assert(tokens.drop_first()[0] == tokens[1]);
}

/// The input line: the characters typed, their count and the cursor.
pub struct ShellBuf {
    buf: [u8; VGA_WIDTH],
    len: usize,
    cursor_pos: usize,
}

impl ShellBuf {
    pub closed spec fn wf(&self) -> bool {
        self.cursor_pos <= self.len <= VGA_WIDTH
    }

    /// What a well-formed line guarantees: the cursor lies within the line,
    /// and the line holds at most `VGA_WIDTH` characters.
    pub proof fn lemma_wf(&self)
        requires
            self.wf(),
        ensures
            0 <= self.cursor() <= self.contents().len() <= VGA_WIDTH,
    {
    }

    /// The characters of the line.
    pub closed spec fn contents(&self) -> Seq<u8> {
        self.buf@.take(self.len as int)
    }

    /// The cursor: the index in the line at which a character is typed.
    pub closed spec fn cursor(&self) -> int {
        self.cursor_pos as int
    }

    /// An empty line.
    pub fn new() -> (s: Self)
        ensures
            s.wf(),
            s.contents() == Seq::<u8>::empty(),
            s.cursor() == 0,
    {
        let s = ShellBuf { buf: [0u8; VGA_WIDTH], len: 0, cursor_pos: 0 };
        assert(s.contents() =~= Seq::<u8>::empty());
        s
    }

    /// The characters of the line.
    pub fn as_bytes(&self) -> (b: &[u8])
        requires
            self.wf(),
        ensures
            b@ == self.contents(),
    {
        vstd::slice::slice_subrange(vstd::array::array_as_slice(&self.buf), 0, self.len)
    }

    /// The cursor's index in the line.
    pub fn cursor_pos(&self) -> (c: usize)
        ensures
            c == self.cursor(),
    {
        self.cursor_pos
    }

    /// The port writes that put the hardware cursor on the input line, at
    /// the cursor.
    pub fn update_cursor(&self) -> (w: Vec<PortWrite>)
        requires
            self.wf(),
        ensures
            w@ == cursor_writes_spec((VGA_HEIGHT * VGA_WIDTH + self.cursor()) as u16),
    {
        let x = self.cursor_pos as u16;
        let y = VGA_HEIGHT as u16;
        let pos = (y * VGA_WIDTH as u16) + x;
        cursor_writes(pos)
    }

    /// Moves the cursor to `pos` if that is within the line.
    pub fn set_cursor_pos(&mut self, pos: usize) -> (r: bool)
        requires
            old(self).wf(),
        ensures
            final(self).wf(),
            r == (pos <= old(self).contents().len()),
            final(self).contents() == old(self).contents(),
            final(self).cursor() == if r { pos as int } else { old(self).cursor() },
    {
        if pos > self.len {
            return false;
        }
        self.cursor_pos = pos;
        true
    }

    /// Moves the cursor by `offset` if that stays within the line.
    pub fn shift_cursor(&mut self, offset: isize) -> (r: bool)
        requires
            old(self).wf(),
            old(self).cursor() + offset <= isize::MAX,
        ensures
            final(self).wf(),
            r == (0 <= old(self).cursor() + offset <= old(self).contents().len()),
            final(self).contents() == old(self).contents(),
            final(self).cursor() == if r {
                old(self).cursor() + offset
            } else {
                old(self).cursor()
            },
    {
        let cursor_pos = self.cursor_pos as isize;
        let target = cursor_pos + offset;
        if target < 0 {
            // As an unsigned position this is past any line.
            return false;
        }
        self.set_cursor_pos(target as usize)
    }

    /// The cells of the input line as the screen shows them.
    pub fn flush_buffer(&self) -> (cells: Vec<u8>)
        requires
            self.wf(),
        ensures
            cells@ == input_line_cells(self.contents()),
    {
        let color = VgaColor::LightMagenta.value();
        let mut cells: Vec<u8> = Vec::new();
        let mut i: usize = 0;
        while i < self.len
            invariant
                self.wf(),
                i <= self.len,
                color == 13,
                cells@.len() == 2 * i,
                forall|k: int| 0 <= k < 2 * i ==> cells@[k] == input_line_cells(self.contents())[k],
            decreases self.len - i,
        {
            cells.push(self.buf[i]);
            cells.push(color);
            i = i + 1;
        }
        while i < VGA_WIDTH
            invariant
                self.wf(),
                self.len <= i <= VGA_WIDTH,
                color == 13,
                cells@.len() == 2 * i,
                forall|k: int| 0 <= k < 2 * i ==> cells@[k] == input_line_cells(self.contents())[k],
            decreases VGA_WIDTH - i,
        {
            cells.push(0);
            cells.push(color);
            i = i + 1;
        }
        assert(cells@ =~= input_line_cells(self.contents()));
        cells
    }

    /// Types `c` at the cursor, which moves past it; refused on a full line.
    pub fn insert_shell_char(&mut self, c: u8) -> (r: bool)
        requires
            old(self).wf(),
        ensures
            final(self).wf(),
            r == (old(self).contents().len() < VGA_WIDTH),
            r ==> final(self).contents() == old(self).contents().insert(old(self).cursor(), c)
                && final(self).cursor() == old(self).cursor() + 1,
            !r ==> final(self).contents() == old(self).contents() && final(self).cursor() == old(
                self,
            ).cursor(),
    {
        if self.len >= VGA_WIDTH {
            return false;
        }
        let ghost old_buf = self.buf@;
        if self.cursor_pos != self.len {
            // Move the characters from the cursor on one place right.
            let mut k: usize = self.len;
            while k > self.cursor_pos
                invariant
                    self.wf(),
                    self.len < VGA_WIDTH,
                    self.len == old(self).len,
                    self.cursor_pos == old(self).cursor_pos,
                    self.cursor_pos <= k <= self.len,
                    forall|j: int| 0 <= j <= k ==> self.buf@[j] == old_buf[j],
                    forall|j: int| k < j <= self.len ==> self.buf@[j] == old_buf[j - 1],
                decreases k,
            {
                let v = self.buf[k - 1];
                self.buf[k] = v;
                k = k - 1;
            }
        }
        let at = self.cursor_pos;
        self.buf[at] = c;
        self.cursor_pos = self.cursor_pos + 1;
        self.len = self.len + 1;
        assert(self.contents() =~= old(self).contents().insert(old(self).cursor(), c));
        true
    }

    /// Erases the character before the cursor, which moves back by one;
    /// refused on an empty line or with the cursor at its start.
    pub fn remove_shell_char(&mut self) -> (r: bool)
        requires
            old(self).wf(),
        ensures
            final(self).wf(),
            r == (old(self).contents().len() > 0 && old(self).cursor() > 0),
            r ==> final(self).contents() == old(self).contents().remove(old(self).cursor() - 1)
                && final(self).cursor() == old(self).cursor() - 1,
            !r ==> final(self).contents() == old(self).contents() && final(self).cursor() == old(
                self,
            ).cursor(),
    {
        if self.len == 0 || self.cursor_pos == 0 {
            return false;
        }
        let ghost old_buf = self.buf@;
        if self.cursor_pos != self.len {
            // Move the characters from the cursor on one place left.
            let mut k: usize = self.cursor_pos;
            while k < self.len
                invariant
                    self.wf(),
                    self.len == old(self).len,
                    self.cursor_pos == old(self).cursor_pos,
                    0 < self.cursor_pos <= k <= self.len,
                    forall|j: int| 0 <= j < self.cursor_pos - 1 ==> self.buf@[j] == old_buf[j],
                    forall|j: int| self.cursor_pos - 1 <= j < k - 1 ==> self.buf@[j] == old_buf[j + 1],
                    forall|j: int| k <= j < VGA_WIDTH ==> self.buf@[j] == old_buf[j],
                decreases self.len - k,
            {
                let v = self.buf[k];
                self.buf[k - 1] = v;
                k = k + 1;
            }
        }
        self.cursor_pos = self.cursor_pos - 1;
        self.len = self.len - 1;
        assert(self.contents() =~= old(self).contents().remove(old(self).cursor() - 1));
        true
    }

    /// Reads the argument of the `SWITCH` command (see `screen::switch_cmd`).
    pub fn switch_cmd(arg: Option<&[u8]>) -> (r: Result<usize, SwitchError>)
        ensures
            switch_cmd_spec(
                match arg {
                    Some(a) => Some(a@),
                    None => None,
                },
                r,
            ),
    {
        crate::screen::switch_cmd(arg)
    }

    /// The command the words `tokens` give (see `command_spec`).
    pub fn match_command(tokens: &[Vec<u8>]) -> (r: Command)
        ensures
            command_spec(tokens@.map_values(|w: Vec<u8>| w@), r),
    {
        let ghost t = tokens@.map_values(|w: Vec<u8>| w@);
        if tokens.len() == 0 {
            return Command::Empty;
        }
        let cmd = tokens[0].as_slice();
        if bytes_eq_str(cmd, "STACK") {
            let args = vstd::slice::slice_subrange(tokens, 1, tokens.len());
            assert(args@.map_values(|w: Vec<u8>| w@) =~= t.drop_first());
            Command::Stack(crate::stack_dump::stack_dump_cmd(args))
        } else if bytes_eq_str(cmd, "REBOOT") {
            Command::Reboot
        } else if bytes_eq_str(cmd, "SWITCH") {
            let arg = if tokens.len() > 1 {
                Some(tokens[1].as_slice())
            } else {
                None
            };
            Command::Switch(Self::switch_cmd(arg))
        } else if bytes_eq_str(cmd, "CLEAR") {
            Command::Clear
        } else {
            Command::NotFound(tokens[0].clone())
        }
    }

    /// Takes the line as a command: returns the command its words give and
    /// empties the line.
    pub fn enter_cmd(&mut self) -> (r: Command)
        requires
            old(self).wf(),
        ensures
            final(self).wf(),
            command_spec(words(old(self).contents()), r),
            final(self).contents() == Seq::<u8>::empty(),
            final(self).cursor() == 0,
    {
        let line = vstd::slice::slice_subrange(vstd::array::array_as_slice(&self.buf), 0, self.len);
        let tokens = split_ascii_whitespace(line);
        let cmd = Self::match_command(tokens.as_slice());
        self.len = 0;
        self.cursor_pos = 0;
        assert(self.contents() =~= Seq::<u8>::empty());
        cmd
    }

    /// Empties the line.
    pub fn clear_buffer(&mut self)
        requires
            old(self).wf(),
        ensures
            final(self).wf(),
            final(self).contents() == Seq::<u8>::empty(),
            final(self).cursor() == 0,
    {
        self.len = 0;
        self.cursor_pos = 0;
        assert(self.contents() =~= Seq::<u8>::empty());
    }
}

} // verus!
