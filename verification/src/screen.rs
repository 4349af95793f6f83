//! Four virtual text terminals shown one at a time on the VGA text screen.
//!
//! Each terminal keeps a scroll-back of four screens of text in VGA cell
//! format (a character byte followed by a colour byte per cell). Text is
//! written on the current line; a full buffer moves up by one line. What the
//! hardware shows is a window of one screen into the active terminal.
use vstd::prelude::*;
use vstd::string::StringSliceAdditionalSpecFns;

verus! {

pub const VGA_BUFFER: usize = 0xb8000;
pub const VGA_WIDTH: usize = 80;
/// One line less than the hardware has, to leave room for the input line.
pub const VGA_HEIGHT: usize = 24;
pub const VGA_BUFFER_SIZE: usize = VGA_WIDTH * 2 * VGA_HEIGHT;
pub const SCREEN_BUFFER_SIZE: usize = VGA_BUFFER_SIZE * 4;
/// The number of lines of a terminal's scroll-back.
pub const SCREEN_LINES: usize = VGA_HEIGHT * 4;
/// The line feed character.
pub const NEWLINE: u8 = 0x0a;
/// The bytes of one line of cells.
pub const LINE_BYTES: usize = VGA_WIDTH * 2;
/// The largest window offset: the last screen of the scroll-back.
pub const MAX_OFFSET: usize = SCREEN_BUFFER_SIZE - VGA_BUFFER_SIZE;

/// What a terminal holds.
pub struct TermView {
    /// The scroll-back, in cells of two bytes.
    pub buf: Seq<u8>,
    /// The line being written; `SCREEN_LINES` means the buffer is full and
    /// must move up before the next character.
    pub line: int,
    /// The byte offset of the window shown.
    pub offset: int,
    /// The character position on the current line; it wraps after
    /// `2 * VGA_WIDTH` characters.
    pub pos: int,
}

pub open spec fn term_wf(t: TermView) -> bool {
    &&& t.buf.len() == SCREEN_BUFFER_SIZE
    &&& 0 <= t.line <= SCREEN_LINES
    &&& 0 <= t.pos <= LINE_BYTES
    &&& 0 <= t.offset <= MAX_OFFSET
}

/// A line of blank cells.
pub open spec fn blank_line() -> Seq<u8> {
    Seq::new(LINE_BYTES as nat, |i: int| 0u8)
}

/// A new line: the line count grows while it can; in a full buffer every
/// line moves up by one, the top line is lost, the bottom line is blank and
/// the line count drops by one.
pub open spec fn push_up_spec(t: TermView) -> TermView {
    if t.line < SCREEN_LINES {
        TermView { line: t.line + 1, ..t }
    } else {
        TermView {
            buf: t.buf.subrange(LINE_BYTES as int, SCREEN_BUFFER_SIZE as int) + blank_line(),
            line: t.line - 1,
            ..t
        }
    }
}

/// The index of the character byte of the cell at the write position.
pub open spec fn cell_index(t: TermView) -> int {
    (t.pos + t.line * VGA_WIDTH) * 2
}

/// Whether writing `b` keeps within the buffer: a newline, or a wrapped
/// line, writes no cell.
pub open spec fn step_ok(t: TermView, b: u8) -> bool {
    b == 10 || t.pos == LINE_BYTES || cell_index(t) + 1 < SCREEN_BUFFER_SIZE
}

/// Writing one byte: a newline, and any byte once the line holds
/// `2 * VGA_WIDTH` characters, start a new line (and that byte is not shown);
/// any other byte fills the cell at the write position with itself and
/// `color`, and the position moves on.
pub open spec fn step(t: TermView, b: u8, color: u8) -> TermView {
    if b == 10 || t.pos == LINE_BYTES {
        push_up_spec(TermView { pos: 0, ..t })
    } else {
        TermView {
            buf: t.buf.update(cell_index(t), b).update(cell_index(t) + 1, color),
            pos: t.pos + 1,
            ..t
        }
    }
}

/// Writing the bytes of `s` one after the other.
pub open spec fn run(t: TermView, s: Seq<u8>, color: u8) -> TermView
    decreases s.len(),
{
    if s.len() == 0 {
        t
    } else {
        step(run(t, s.drop_last(), color), s.last(), color)
    }
}

/// Whether each byte of `s`, written in turn, keeps within the buffer.
pub open spec fn run_ok(t: TermView, s: Seq<u8>, color: u8) -> bool
    decreases s.len(),
{
    s.len() == 0 || (run_ok(t, s.drop_last(), color) && step_ok(
        run(t, s.drop_last(), color),
        s.last(),
    ))
}

/// A write starts by moving a full buffer up.
pub open spec fn write_start(t: TermView) -> TermView {
    if t.line == SCREEN_LINES {
        push_up_spec(t)
    } else {
        t
    }
}

/// After a write the window shows the last `VGA_HEIGHT` lines up to the
/// current one.
pub open spec fn show_current_line(t: TermView) -> TermView {
    TermView {
        offset: (if t.line > VGA_HEIGHT {
            t.line - VGA_HEIGHT
        } else {
            0
        }) * LINE_BYTES,
        ..t
    }
}

/// Writing a string of at most `VGA_WIDTH` bytes.
pub open spec fn write_spec(t: TermView, s: Seq<u8>, color: u8) -> TermView {
    show_current_line(run(write_start(t), s, color))
}

/// Whether writing `s` keeps within the buffer.
pub open spec fn write_ok(t: TermView, s: Seq<u8>, color: u8) -> bool {
    run_ok(write_start(t), s, color)
}

/// The window moves up by a line, and stops at the top.
pub open spec fn scroll_up_spec(t: TermView) -> TermView {
    TermView { offset: if t.offset >= LINE_BYTES { t.offset - LINE_BYTES } else { 0 }, ..t }
}

/// The lowest offset at which the current line is shown on the window's
/// bottom line (0 while the text fits on the screen).
pub open spec fn bottom_offset(t: TermView) -> int {
    let last = (t.line - 1) * LINE_BYTES;
    let above = LINE_BYTES * (VGA_HEIGHT - 1);
    if last >= above {
        last - above
    } else {
        0
    }
}

/// The window moves down by a line, and stops where the current line is on
/// its bottom line, and at the end of the buffer.
pub open spec fn scroll_down_spec(t: TermView) -> TermView {
    let o = t.offset + LINE_BYTES;
    let o = if o > bottom_offset(t) {
        bottom_offset(t)
    } else {
        o
    };
    TermView { offset: if o > MAX_OFFSET { MAX_OFFSET as int } else { o }, ..t }
}

/// A blank terminal at its first line.
pub open spec fn blank_terminal() -> TermView {
    TermView {
        buf: Seq::new(SCREEN_BUFFER_SIZE as nat, |i: int| 0u8),
        line: 0,
        offset: 0,
        pos: 0,
    }
}

/// The cells the window shows.
pub open spec fn window(t: TermView) -> Seq<u8> {
    t.buf.subrange(t.offset, t.offset + VGA_BUFFER_SIZE)
}

/// Whether `s` can be written: too long a string is refused before anything
/// is written, otherwise every byte must keep within the buffer.
pub open spec fn can_write_spec(t: TermView, s: Seq<u8>, color: u8) -> bool {
    s.len() > VGA_WIDTH || write_ok(t, s, color)
}

/// `run_ok` of a sequence holds of each of its prefixes.
proof fn lemma_run_ok_prefix(t: TermView, s: Seq<u8>, color: u8, k: int)
    requires
        run_ok(t, s, color),
        0 <= k <= s.len(),
    ensures
        run_ok(t, s.take(k), color),
    decreases s.len(),
{
    if k < s.len() {
        assert(s.drop_last().take(k) =~= s.take(k));
        lemma_run_ok_prefix(t, s.drop_last(), color, k);
    } else {
        assert(s.take(k) =~= s);
    }
}

/// One step keeps a terminal well formed.
proof fn lemma_step_wf(t: TermView, b: u8, color: u8)
    requires
        term_wf(t),
        step_ok(t, b),
    ensures
        term_wf(step(t, b, color)),
{
}

/// A new line keeps a terminal within its bounds: at most `SCREEN_LINES`
/// lines, the window within the buffer, the buffer's size unchanged.
pub proof fn lemma_push_up_wf(t: TermView)
    requires
        term_wf(t),
    ensures
        term_wf(push_up_spec(t)),
{
}

/// Writing keeps a terminal well formed.
proof fn lemma_run_wf(t: TermView, s: Seq<u8>, color: u8)
    requires
        term_wf(t),
        run_ok(t, s, color),
    ensures
        term_wf(run(t, s, color)),
    decreases s.len(),
{
    if s.len() > 0 {
        lemma_run_wf(t, s.drop_last(), color);
        lemma_step_wf(run(t, s.drop_last(), color), s.last(), color);
    }
}

/// After a write, the last line started is on the screen: the window covers
/// the line before the write position.
pub proof fn lemma_write_shows_last_line(t: TermView, s: Seq<u8>, color: u8)
    requires
        term_wf(t),
        write_ok(t, s, color),
    ensures
        term_wf(write_spec(t, s, color)),
        write_spec(t, s, color).line >= 1 ==> {
            let w = write_spec(t, s, color);
            w.offset <= (w.line - 1) * LINE_BYTES < w.offset + VGA_BUFFER_SIZE
        },
{
    lemma_run_wf(write_start(t), s, color);
}

/// Where the window stands after a write: at the top of the scroll-back
/// while the lines written fit on one screen, and otherwise ending exactly
/// at the write position's line, so that its bottom line is the last line
/// started. Writing does not depend on the window: the text, line and
/// position are those of the bytes written in turn.
pub proof fn lemma_write_window(t: TermView, s: Seq<u8>, color: u8)
    requires
        term_wf(t),
        write_ok(t, s, color),
    ensures
        ({
            let w = write_spec(t, s, color);
            let r = run(write_start(t), s, color);
            &&& w.line <= VGA_HEIGHT ==> w.offset == 0
            &&& w.line > VGA_HEIGHT ==> w.offset + VGA_BUFFER_SIZE == w.line * LINE_BYTES
            &&& w.offset % (LINE_BYTES as int) == 0
            &&& w.buf == r.buf && w.line == r.line && w.pos == r.pos
        }),
{
    lemma_run_wf(write_start(t), s, color);
    let w = write_spec(t, s, color);
    if w.line > VGA_HEIGHT {
        assert(w.offset == (w.line - VGA_HEIGHT) * LINE_BYTES);
    }
}

/// Scrolling down moves the window down by at most one line, by exactly one
/// line where that keeps the last line started on or above the window's
/// bottom line and the window inside the buffer, and never above where it
/// was unless it stood below that bottom line; scrolling up moves it up by
/// one line, stopping at the top.
pub proof fn lemma_scroll_steps(t: TermView)
    requires
        term_wf(t),
        t.line >= 1,
    ensures
        scroll_down_spec(t).offset <= t.offset + LINE_BYTES,
        t.offset + LINE_BYTES <= bottom_offset(t) && t.offset + LINE_BYTES <= MAX_OFFSET
            ==> scroll_down_spec(t).offset == t.offset + LINE_BYTES,
        t.offset <= bottom_offset(t) ==> scroll_down_spec(t).offset >= t.offset,
        scroll_down_spec(t).offset <= bottom_offset(t),
        scroll_down_spec(t).offset <= MAX_OFFSET,
        t.offset >= LINE_BYTES ==> scroll_up_spec(t).offset + LINE_BYTES == t.offset,
        t.offset < LINE_BYTES ==> scroll_up_spec(t).offset == 0,
        scroll_down_spec(t).buf == t.buf && scroll_down_spec(t).line == t.line
            && scroll_down_spec(t).pos == t.pos,
        scroll_up_spec(t).buf == t.buf && scroll_up_spec(t).line == t.line && scroll_up_spec(
            t,
        ).pos == t.pos,
{
}

/// Scrolling up by a line and back down returns the window to where it was,
/// when it was at least a line from the top and not below the last line
/// started.
pub proof fn lemma_scroll_up_then_down(t: TermView)
    requires
        term_wf(t),
        t.line >= 1,
        LINE_BYTES <= t.offset <= bottom_offset(t),
    ensures
        scroll_down_spec(scroll_up_spec(t)) == t,
{
}

pub struct Terminal {
    buf: Vec<u8>,
    line: usize,
    offset: usize,
    pos: usize,
}

impl View for Terminal {
    type V = TermView;

    closed spec fn view(&self) -> TermView {
        TermView {
            buf: self.buf@,
            line: self.line as int,
            offset: self.offset as int,
            pos: self.pos as int,
        }
    }
}

impl Terminal {
    /// The terminal's bounds (see `term_wf`).
    pub open spec fn wf(&self) -> bool {
        term_wf(self@)
    }

    /// A blank terminal at its first line.
    pub fn new() -> (t: Self)
        ensures
            t.wf(),
            t@.buf == Seq::new(SCREEN_BUFFER_SIZE as nat, |i: int| 0u8),
            t@.line == 0,
            t@.offset == 0,
            t@.pos == 0,
    {
        let t = Terminal { buf: vec![0u8; SCREEN_BUFFER_SIZE], line: 0, offset: 0, pos: 0 };
        assert(t@.buf =~= Seq::new(SCREEN_BUFFER_SIZE as nat, |i: int| 0u8));
        t
    }

    /// Starts a new line (see `push_up_spec`).
    pub fn push_up(&mut self)
        requires
            old(self).wf(),
        ensures
            final(self).wf(),
            final(self)@ == push_up_spec(old(self)@),
    {
        if self.line < SCREEN_LINES {
            self.line = self.line + 1;
        } else {
            self.line = self.line - 1;
            let ghost old_buf = self.buf@;
            // Copy each line up by one.
            let mut i: usize = 0;
            while i < SCREEN_LINES - 1
                invariant
                    self.buf@.len() == SCREEN_BUFFER_SIZE,
                    old_buf.len() == SCREEN_BUFFER_SIZE,
                    self.line == SCREEN_LINES - 1,
                    self.offset == old(self).offset,
                    self.pos == old(self).pos,
                    i <= SCREEN_LINES - 1,
                    forall|k: int| 0 <= k < i * 160 ==> self.buf@[k] == old_buf[k + 160],
                    forall|k: int| i * 160 <= k < SCREEN_BUFFER_SIZE ==> self.buf@[k] == old_buf[k],
                decreases SCREEN_LINES - 1 - i,
            {
                let mut j: usize = 0;
                while j < VGA_WIDTH
                    invariant
                        self.buf@.len() == SCREEN_BUFFER_SIZE,
                        old_buf.len() == SCREEN_BUFFER_SIZE,
                        self.line == SCREEN_LINES - 1,
                        self.offset == old(self).offset,
                        self.pos == old(self).pos,
                        i < SCREEN_LINES - 1,
                        j <= VGA_WIDTH,
                        forall|k: int| 0 <= k < i * 160 + j * 2 ==> self.buf@[k] == old_buf[k + 160],
                        forall|k: int|
                            i * 160 + j * 2 <= k < SCREEN_BUFFER_SIZE ==> self.buf@[k] == old_buf[k],
                    decreases VGA_WIDTH - j,
                {
                    let v0 = self.buf[(j + (i + 1) * VGA_WIDTH) * 2];
                    let v1 = self.buf[(j + (i + 1) * VGA_WIDTH) * 2 + 1];
                    self.buf[(j + i * VGA_WIDTH) * 2] = v0;
                    self.buf[(j + i * VGA_WIDTH) * 2 + 1] = v1;
                    j = j + 1;
                }
                i = i + 1;
            }
            // Erase the lowest line.
            let mut i: usize = 0;
            while i < VGA_WIDTH
                invariant
                    self.buf@.len() == SCREEN_BUFFER_SIZE,
                    old_buf.len() == SCREEN_BUFFER_SIZE,
                    self.line == SCREEN_LINES - 1,
                    self.offset == old(self).offset,
                    self.pos == old(self).pos,
                    i <= VGA_WIDTH,
                    forall|k: int|
                        0 <= k < SCREEN_BUFFER_SIZE - 160 ==> self.buf@[k] == old_buf[k + 160],
                    forall|k: int|
                        SCREEN_BUFFER_SIZE - i * 2 <= k < SCREEN_BUFFER_SIZE ==> self.buf@[k] == 0,
                decreases VGA_WIDTH - i,
            {
                self.buf[SCREEN_BUFFER_SIZE - i * 2 - 1] = 0;
                self.buf[SCREEN_BUFFER_SIZE - i * 2 - 2] = 0;
                i = i + 1;
            }
            assert(self.buf@ =~= old_buf.subrange(LINE_BYTES as int, SCREEN_BUFFER_SIZE as int)
                + blank_line());
        }
    }

    /// The line being written.
    pub fn line(&self) -> (l: usize)
        ensures
            l == self@.line,
    {
        self.line
    }

    /// The byte offset of the window shown.
    pub fn offset(&self) -> (o: usize)
        ensures
            o == self@.offset,
    {
        self.offset
    }

    /// The character position on the current line.
    pub fn pos(&self) -> (p: usize)
        ensures
            p == self@.pos,
    {
        self.pos
    }

    /// The whole scroll-back, in cells.
    pub fn buffer(&self) -> (b: &[u8])
        ensures
            b@ == self@.buf,
    {
        self.buf.as_slice()
    }

    /// Writes one byte (see `step`).
    fn put_byte(&mut self, byte: u8, color: u8)
        requires
            old(self).wf(),
            step_ok(old(self)@, byte),
        ensures
            final(self).wf(),
            final(self)@ == step(old(self)@, byte, color),
    {
        proof {
            lemma_step_wf(self@, byte, color);
        }
        if byte == NEWLINE || self.pos == VGA_WIDTH * 2 {
            self.pos = 0;
            self.push_up();
        } else {
            let idx = (self.pos + self.line * VGA_WIDTH) * 2;
            self.buf[idx] = byte;
            self.buf[idx + 1] = color;
            self.pos = self.pos + 1;
        }
    }

    /// Writes `bytes` in the given colour (see `write_spec`), for a caller
    /// that has checked `write_ok`.
    pub fn write_bytes(&mut self, bytes: &[u8], color: u8)
        requires
            old(self).wf(),
            write_ok(old(self)@, bytes@, color),
        ensures
            final(self).wf(),
            final(self)@ == write_spec(old(self)@, bytes@, color),
    {
        if self.line == SCREEN_LINES {
            self.push_up();
        }
        let ghost t0 = self@;
        assert(bytes@.take(0) =~= Seq::<u8>::empty());
        let mut i: usize = 0;
        while i < bytes.len()
            invariant
                self.wf(),
                i <= bytes@.len(),
                run_ok(t0, bytes@, color),
                self@ == run(t0, bytes@.take(i as int), color),
            decreases bytes@.len() - i,
        {
            proof {
                lemma_run_ok_prefix(t0, bytes@, color, i + 1);
                assert(bytes@.take(i + 1).drop_last() =~= bytes@.take(i as int));
            }
            self.put_byte(bytes[i], color);
            i = i + 1;
        }
        assert(bytes@.take(bytes@.len() as int) =~= bytes@);
        self.offset = self.line.saturating_sub(VGA_HEIGHT) * VGA_WIDTH * 2;
    }

    /// Whether `write_bytes` may be called: it computes the write position
    /// the bytes would move through, without writing them.
    pub fn write_fits(&self, bytes: &[u8], color: u8) -> (r: bool)
        requires
            self.wf(),
        ensures
            r == write_ok(self@, bytes@, color),
    {
        let ghost t0 = write_start(self@);
        let mut line = self.line;
        let mut pos = self.pos;
        if line == SCREEN_LINES {
            line = line - 1;
        }
        let mut ok = true;
        assert(bytes@.take(0) =~= Seq::<u8>::empty());
        let mut i: usize = 0;
        while i < bytes.len()
            invariant
                i <= bytes@.len(),
                term_wf(t0),
                run_ok(t0, bytes@.take(i as int), color) ==> term_wf(
                    run(t0, bytes@.take(i as int), color),
                ),
                ok == run_ok(t0, bytes@.take(i as int), color),
                ok ==> line == run(t0, bytes@.take(i as int), color).line,
                ok ==> pos == run(t0, bytes@.take(i as int), color).pos,
                line <= SCREEN_LINES,
                pos <= LINE_BYTES,
            decreases bytes@.len() - i,
        {
            let b = bytes[i];
            proof {
                assert(bytes@.take(i + 1).drop_last() =~= bytes@.take(i as int));
                if ok && step_ok(run(t0, bytes@.take(i as int), color), b) {
                    lemma_step_wf(run(t0, bytes@.take(i as int), color), b, color);
                }
            }
            if b == NEWLINE || pos == VGA_WIDTH * 2 {
                pos = 0;
                if line < SCREEN_LINES {
                    line = line + 1;
                } else {
                    line = line - 1;
                }
            } else {
                if (pos + line * VGA_WIDTH) * 2 + 1 >= SCREEN_BUFFER_SIZE {
                    ok = false;
                }
                pos = pos + 1;
                if pos > LINE_BYTES {
                    pos = LINE_BYTES;
                }
            }
            i = i + 1;
        }
        assert(bytes@.take(bytes@.len() as int) =~= bytes@);
        ok
    }

    /// Moves the window up by a line (see `scroll_up_spec`).
    pub fn scroll_up(&mut self)
        requires
            old(self).wf(),
        ensures
            final(self).wf(),
            final(self)@ == scroll_up_spec(old(self)@),
    {
        self.offset = self.offset.saturating_sub(VGA_WIDTH * 2);
    }

    /// Moves the window down by a line (see `scroll_down_spec`); the
    /// terminal must have started a line.
    pub fn scroll_down(&mut self)
        requires
            old(self).wf(),
            old(self)@.line >= 1,
        ensures
            final(self).wf(),
            final(self)@ == scroll_down_spec(old(self)@),
    {
        self.offset = self.offset.saturating_add(VGA_WIDTH * 2);
        let bottom = ((self.line - 1) * VGA_WIDTH * 2).saturating_sub(
            VGA_WIDTH * 2 * (VGA_HEIGHT - 1),
        );
        if self.offset > bottom {
            self.offset = bottom;
        }
        if self.offset > SCREEN_BUFFER_SIZE - VGA_BUFFER_SIZE {
            self.offset = SCREEN_BUFFER_SIZE - VGA_BUFFER_SIZE;
        }
    }

    /// Blanks the terminal and goes back to its first line.
    pub fn clear(&mut self)
        requires
            old(self).wf(),
        ensures
            final(self).wf(),
            final(self)@ == blank_terminal(),
    {
        let mut k: usize = 0;
        while k < SCREEN_BUFFER_SIZE
            invariant
                self.buf@.len() == SCREEN_BUFFER_SIZE,
                k <= SCREEN_BUFFER_SIZE,
                forall|j: int| 0 <= j < k ==> self.buf@[j] == 0,
            decreases SCREEN_BUFFER_SIZE - k,
        {
            self.buf[k] = 0;
            k = k + 1;
        }
        self.line = 0;
        self.offset = 0;
        self.pos = 0;
        assert(self@.buf =~= blank_terminal().buf);
    }

    /// The cells the window shows.
    pub fn window(&self) -> (w: &[u8])
        requires
            self.wf(),
        ensures
            w@ == window(self@),
    {
        vstd::slice::slice_subrange(self.buf.as_slice(), self.offset, self.offset + VGA_BUFFER_SIZE)
    }
}

} // verus!

verus! {

/// The sixteen VGA text colours.
#[derive(Clone, Copy, Debug, PartialEq, Eq, Structural)]
pub enum VgaColor {
    Black,
    Blue,
    Green,
    Cyan,
    Red,
    Magenta,
    Brown,
    LightGrey,
    DarkGrey,
    LightBlue,
    LightGreen,
    LightCyan,
    LightRed,
    LightMagenta,
    LightBrown,
    White,
}

/// The hardware attribute value of a colour.
pub open spec fn color_code(c: VgaColor) -> u8 {
    match c {
        VgaColor::Black => 0,
        VgaColor::Blue => 1,
        VgaColor::Green => 2,
        VgaColor::Cyan => 3,
        VgaColor::Red => 4,
        VgaColor::Magenta => 5,
        VgaColor::Brown => 6,
        VgaColor::LightGrey => 7,
        VgaColor::DarkGrey => 8,
        VgaColor::LightBlue => 9,
        VgaColor::LightGreen => 10,
        VgaColor::LightCyan => 11,
        VgaColor::LightRed => 12,
        VgaColor::LightMagenta => 13,
        VgaColor::LightBrown => 14,
        VgaColor::White => 15,
    }
}

impl VgaColor {
    /// The hardware attribute value of the colour.
    pub fn value(self) -> (r: u8)
        ensures
            r == color_code(self),
    {
        match self {
            VgaColor::Black => 0,
            VgaColor::Blue => 1,
            VgaColor::Green => 2,
            VgaColor::Cyan => 3,
            VgaColor::Red => 4,
            VgaColor::Magenta => 5,
            VgaColor::Brown => 6,
            VgaColor::LightGrey => 7,
            VgaColor::DarkGrey => 8,
            VgaColor::LightBlue => 9,
            VgaColor::LightGreen => 10,
            VgaColor::LightCyan => 11,
            VgaColor::LightRed => 12,
            VgaColor::LightMagenta => 13,
            VgaColor::LightBrown => 14,
            VgaColor::White => 15,
        }
    }
}

/// Message severities, from the least to the most severe.
#[derive(Clone, Copy, Debug, PartialEq, Eq, Structural)]
pub enum LogLevel {
    Debug,
    Info,
    Warn,
    Error,
}

/// The colour messages of a level are written in.
pub open spec fn level_color_spec(level: LogLevel) -> VgaColor {
    match level {
        LogLevel::Debug => VgaColor::LightGrey,
        LogLevel::Info => VgaColor::LightCyan,
        LogLevel::Warn => VgaColor::LightRed,
        LogLevel::Error => VgaColor::Red,
    }
}

impl LogLevel {
    /// The rank of the level, 0 for `Debug` up to 3 for `Error`.
    pub fn value(self) -> (r: u8)
        ensures
            r == match self {
                LogLevel::Debug => 0u8,
                LogLevel::Info => 1u8,
                LogLevel::Warn => 2u8,
                LogLevel::Error => 3u8,
            },
    {
        match self {
            LogLevel::Debug => 0,
            LogLevel::Info => 1,
            LogLevel::Warn => 2,
            LogLevel::Error => 3,
        }
    }

    /// The colour messages of this level are written in.
    pub fn color(self) -> (c: VgaColor)
        ensures
            c == level_color_spec(self),
    {
        match self {
            LogLevel::Debug => VgaColor::LightGrey,
            LogLevel::Info => VgaColor::LightCyan,
            LogLevel::Warn => VgaColor::LightRed,
            LogLevel::Error => VgaColor::Red,
        }
    }
}

/// The text screen: four terminals, the one shown, and the colour text is
/// written in.
pub struct Screen {
    terms: Vec<Terminal>,
    active: usize,
    color: VgaColor,
}

impl Screen {
    pub closed spec fn wf(&self) -> bool {
        &&& self.terms@.len() == 4
        &&& self.active < 4
        &&& forall|i: int| 0 <= i < 4 ==> #[trigger] self.terms@[i].wf()
    }

    /// What a well-formed screen guarantees: four terminals, each within its
    /// bounds (see `term_wf`), and the one shown among them.
    pub proof fn lemma_wf(&self)
        requires
            self.wf(),
        ensures
            self.terminals().len() == 4,
            0 <= self.active() < 4,
            forall|i: int| 0 <= i < 4 ==> term_wf(#[trigger] self.terminals()[i]),
    {
        assert forall|i: int| 0 <= i < 4 implies term_wf(#[trigger] self.terminals()[i]) by {
            assert(self.terms@[i].wf());
        }
    }

    /// What the four terminals hold.
    pub closed spec fn terminals(&self) -> Seq<TermView> {
        self.terms@.map_values(|t: Terminal| t@)
    }

    /// The index of the terminal shown.
    pub closed spec fn active(&self) -> int {
        self.active as int
    }

    /// The colour text is written in.
    pub closed spec fn color(&self) -> VgaColor {
        self.color
    }

    /// The terminal shown.
    pub open spec fn active_term(&self) -> TermView {
        self.terminals()[self.active()]
    }

    /// The four terminals, the one shown replaced by `t`.
    pub open spec fn with_active(&self, t: TermView) -> Seq<TermView> {
        self.terminals().update(self.active(), t)
    }

    /// Four blank terminals, the first shown, text in white.
    pub fn new() -> (s: Self)
        ensures
            s.wf(),
            s.terminals() == seq![blank_terminal(), blank_terminal(), blank_terminal(), blank_terminal()],
            s.active() == 0,
            s.color() == VgaColor::White,
    {
        let mut terms: Vec<Terminal> = Vec::new();
        let mut i: usize = 0;
        while i < 4
            invariant
                i <= 4,
                terms@.len() == i,
                forall|k: int| 0 <= k < i ==> (#[trigger] terms@[k]).wf() && terms@[k]@ == blank_terminal(),
            decreases 4 - i,
        {
            let t = Terminal::new();
            assert(t@ == blank_terminal());
            terms.push(t);
            i = i + 1;
        }
        let s = Screen { terms, active: 0, color: VgaColor::White };
        assert forall|k: int| 0 <= k < 4 implies s.terminals()[k] == blank_terminal() by {
            assert(s.terms@[k]@ == blank_terminal());
        }
        assert(s.terminals() =~= seq![blank_terminal(), blank_terminal(), blank_terminal(), blank_terminal()]);
        s
    }

    /// Sets the colour of the text written next.
    pub fn set_color(&mut self, color: VgaColor)
        requires
            old(self).wf(),
        ensures
            final(self).wf(),
            final(self).terminals() == old(self).terminals(),
            final(self).active() == old(self).active(),
            final(self).color() == color,
    {
        self.color = color;
    }

    /// Shows terminal `active`, or the last one where there is no such
    /// terminal.
    pub fn switch_active(&mut self, active: usize)
        requires
            old(self).wf(),
        ensures
            final(self).wf(),
            final(self).terminals() == old(self).terminals(),
            final(self).active() == if active > 3 { 3 } else { active as int },
            final(self).color() == old(self).color(),
    {
        if active > 3 {
            self.active = 3;
        } else {
            self.active = active;
        }
    }

    /// The cells the hardware shows: the window of the terminal shown.
    pub fn active_window(&self) -> (w: &[u8])
        requires
            self.wf(),
        ensures
            w@ == window(self.active_term()),
    {
        self.terms[self.active].window()
    }

    /// Terminal `i`.
    pub fn terminal(&self, i: usize) -> (t: &Terminal)
        requires
            self.wf(),
            i < 4,
        ensures
            t@ == self.terminals()[i as int],
    {
        &self.terms[i]
    }

    /// The index of the terminal shown.
    pub fn active_index(&self) -> (a: usize)
        ensures
            a == self.active(),
    {
        self.active
    }

    /// The line the terminal shown is writing.
    pub fn active_line(&self) -> (l: usize)
        requires
            self.wf(),
        ensures
            l == self.active_term().line,
    {
        self.terms[self.active].line
    }

    /// Moves the window of the terminal shown up by a line.
    pub fn scroll_up(&mut self)
        requires
            old(self).wf(),
        ensures
            final(self).wf(),
            final(self).terminals() == old(self).with_active(scroll_up_spec(old(self).active_term())),
            final(self).active() == old(self).active(),
            final(self).color() == old(self).color(),
    {
        let a = self.active;
        self.terms[a].scroll_up();
        assert(self.terminals() =~= old(self).with_active(scroll_up_spec(old(self).active_term())));
    }

    /// Moves the window of the terminal shown down by a line; that terminal
    /// must have started a line.
    pub fn scroll_down(&mut self)
        requires
            old(self).wf(),
            old(self).active_term().line >= 1,
        ensures
            final(self).wf(),
            final(self).terminals() == old(self).with_active(scroll_down_spec(old(self).active_term())),
            final(self).active() == old(self).active(),
            final(self).color() == old(self).color(),
    {
        let a = self.active;
        self.terms[a].scroll_down();
        assert(self.terminals() =~= old(self).with_active(scroll_down_spec(old(self).active_term())));
    }

    /// Blanks the terminal shown.
    pub fn clear_screen(&mut self)
        requires
            old(self).wf(),
        ensures
            final(self).wf(),
            final(self).terminals() == old(self).with_active(blank_terminal()),
            final(self).active() == old(self).active(),
            final(self).color() == old(self).color(),
    {
        let a = self.active;
        self.terms[a].clear();
        assert(self.terminals() =~= old(self).with_active(blank_terminal()));
    }

    /// Starts a new line on the terminal shown (see `push_up_spec`).
    pub fn push_up(&mut self)
        requires
            old(self).wf(),
        ensures
            final(self).wf(),
            final(self).terminals() == old(self).with_active(push_up_spec(old(self).active_term())),
            final(self).active() == old(self).active(),
            final(self).color() == old(self).color(),
    {
        let a = self.active;
        self.terms[a].push_up();
        assert(self.terminals() =~= old(self).with_active(push_up_spec(old(self).active_term())));
    }

    /// Whether `write_str(s)` may be called (see `can_write_spec`).
    pub fn can_write(&self, s: &str) -> (r: bool)
        requires
            self.wf(),
        ensures
            r == can_write_spec(self.active_term(), s.spec_bytes(), color_code(self.color())),
    {
        let bytes = s.as_bytes();
        if bytes.len() > VGA_WIDTH {
            return true;
        }
        self.terms[self.active].write_fits(bytes, self.color.value())
    }

    /// Writes `s` on the terminal shown, in the current colour, and moves its
    /// window to show the current line; a string longer than a line
    /// (`VGA_WIDTH` bytes) is refused and nothing is written.
    pub fn write_str(&mut self, s: &str) -> (r: Result<(), core::fmt::Error>)
        requires
            old(self).wf(),
            can_write_spec(old(self).active_term(), s.spec_bytes(), color_code(old(self).color())),
        ensures
            final(self).wf(),
            final(self).active() == old(self).active(),
            final(self).color() == old(self).color(),
            s.spec_bytes().len() > VGA_WIDTH ==> r is Err && final(self).terminals()
                == old(self).terminals(),
            s.spec_bytes().len() <= VGA_WIDTH ==> r is Ok && final(self).terminals() == old(
                self,
            ).with_active(
                write_spec(old(self).active_term(), s.spec_bytes(), color_code(old(self).color())),
            ),
    {
        let bytes = s.as_bytes();
        if bytes.len() > VGA_WIDTH {
            return Err(crate::fixed_string::fmt_error());
        }
        let a = self.active;
        let color = self.color.value();
        self.terms[a].write_bytes(bytes, color);
        assert(self.terminals() =~= old(self).with_active(
            write_spec(old(self).active_term(), s.spec_bytes(), color_code(old(self).color())),
        ));
        Ok(())
    }
}

} // verus!

verus! {

/// Why the `SWITCH` command did not switch terminals.
#[derive(Debug)]
pub enum SwitchError {
    /// No terminal number was given.
    MissingArgument,
    /// The argument `arg` is not a number.
    Unparsable { arg: Vec<u8>, error: crate::parse::ParseError },
}

/// What `SWITCH` does with its argument: the terminal number it reads from
/// it, or why it read none.
pub open spec fn switch_cmd_spec(arg: Option<Seq<u8>>, r: Result<usize, SwitchError>) -> bool {
    match arg {
        None => r == Err::<usize, SwitchError>(SwitchError::MissingArgument),
        Some(a) => match crate::parse::parse_usize_spec(a) {
            Ok(v) => r == Ok::<usize, SwitchError>(v as usize),
            Err(e) => r matches Err(SwitchError::Unparsable { arg, error }) && arg@ == a && error
                == e,
        },
    }
}

/// Reads the argument of the `SWITCH` command as the number of the terminal
/// to show.
pub fn switch_cmd(arg: Option<&[u8]>) -> (r: Result<usize, SwitchError>)
    ensures
        switch_cmd_spec(
            match arg {
                Some(a) => Some(a@),
                None => None,
            },
            r,
        ),
{
    match arg {
        Some(a) => match crate::parse::parse_usize(a) {
            Ok(active) => Ok(active),
            Err(e) => Err(SwitchError::Unparsable { arg: vstd::slice::slice_to_vec(a), error: e }),
        },
        None => Err(SwitchError::MissingArgument),
    }
}

} // verus!
