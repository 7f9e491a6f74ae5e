//! The editor's core: the cursor and viewport over a buffer, the actions
//! that move and edit, and the pass that keeps the cursor on screen.
use crate::buffer::Buffer;
use crate::lines::{join_lines, lemma_join_split, line_start, split_line_at, split_lines};
use vstd::prelude::*;

verus! {

/// How keys are read: as commands, or as text to insert.
#[derive(Debug, Clone, Copy, PartialEq, Eq, Structural)]
pub enum Mode {
    Normal,
    Insert,
}

/// One editing or navigation command.
#[derive(Debug, Clone, Copy, PartialEq, Eq, Structural)]
pub enum Action {
    Quit,
    MoveUp,
    MoveDown,
    MoveLeft,
    MoveRight,
    EnterMode(Mode),
    InsertChar(char),
    NewLine,
    PageDown,
    PageUp,
    EndOfLine,
    StartOfLine,
    DelCharBefore,
    DelCharAtCursor,
}

/// A key, as the terminal reports it.
#[derive(Debug, Clone, Copy, PartialEq, Eq, Structural)]
pub enum KeyCode {
    Backspace,
    Enter,
    Left,
    Right,
    Up,
    Down,
    Home,
    End,
    PageUp,
    PageDown,
    Delete,
    Esc,
    Char(char),
    Other,
}

/// A key event: the key, whether Control was the one modifier held, and
/// whether the key went down (rather than up or repeating).
#[derive(Debug, Clone, Copy, PartialEq, Eq, Structural)]
pub struct KeyEvent {
    pub code: KeyCode,
    pub control_only: bool,
    pub press: bool,
}

/// An input event: a key, a new terminal size (columns, rows), or anything
/// else.
#[derive(Debug, Clone, Copy, PartialEq, Eq, Structural)]
pub enum Event {
    Key(KeyEvent),
    Resize(u16, u16),
    Other,
}

/// The action that a key press means in normal mode.
pub open spec fn normal_binding(k: KeyEvent) -> Option<Action> {
    match k.code {
        KeyCode::Char('q') => Some(Action::Quit),
        KeyCode::Up | KeyCode::Char('k') => Some(Action::MoveUp),
        KeyCode::Down | KeyCode::Char('l') => Some(Action::MoveDown),
        KeyCode::Left | KeyCode::Char('j') => Some(Action::MoveLeft),
        KeyCode::Right | KeyCode::Char(';') => Some(Action::MoveRight),
        KeyCode::Char('i') => Some(Action::EnterMode(Mode::Insert)),
        KeyCode::PageDown => Some(Action::PageDown),
        KeyCode::PageUp => Some(Action::PageUp),
        KeyCode::Char('f') => if k.control_only {
            Some(Action::PageDown)
        } else {
            None
        },
        KeyCode::Char('b') => if k.control_only {
            Some(Action::PageUp)
        } else {
            None
        },
        KeyCode::Char('$') | KeyCode::End => Some(Action::EndOfLine),
        KeyCode::Char('0') | KeyCode::Home => Some(Action::StartOfLine),
        KeyCode::Char('x') => Some(Action::DelCharAtCursor),
        _ => None,
    }
}

/// The action that a key press means in insert mode.
pub open spec fn insert_binding(k: KeyEvent) -> Option<Action> {
    match k.code {
        KeyCode::Esc => Some(Action::EnterMode(Mode::Normal)),
        KeyCode::Up => Some(Action::MoveUp),
        KeyCode::Down => Some(Action::MoveDown),
        KeyCode::Left => Some(Action::MoveLeft),
        KeyCode::Right => Some(Action::MoveRight),
        KeyCode::Enter => Some(Action::NewLine),
        KeyCode::Char(c) => Some(Action::InsertChar(c)),
        KeyCode::PageDown => Some(Action::PageDown),
        KeyCode::PageUp => Some(Action::PageUp),
        KeyCode::End => Some(Action::EndOfLine),
        KeyCode::Home => Some(Action::StartOfLine),
        KeyCode::Backspace => Some(Action::DelCharBefore),
        KeyCode::Delete => Some(Action::DelCharAtCursor),
        _ => None,
    }
}

/// The action that an event means in `mode`: key presses only.
pub open spec fn event_action(mode: Mode, ev: Event) -> Option<Action> {
    match ev {
        Event::Key(k) => if !k.press {
            None
        } else {
            match mode {
                Mode::Normal => normal_binding(k),
                Mode::Insert => insert_binding(k),
            }
        },
        _ => None,
    }
}

/// Where the viewport stands in the buffer and where the cursor stands in
/// the viewport. `cx_history` is the column that vertical moves try to
/// return to.
#[derive(Debug, Clone, Copy, PartialEq, Eq, Structural)]
pub struct Cursor {
    pub vtop: usize,
    pub vleft: usize,
    pub cx: usize,
    pub cy: usize,
    pub cx_history: usize,
}

/// Length of line `i`, or zero where there is no such line.
pub open spec fn row_len(ls: Seq<Seq<char>>, i: int) -> int {
    if 0 <= i < ls.len() {
        ls[i].len() as int
    } else {
        0
    }
}

/// The remembered column, held back to the end of a line of length `len`.
pub open spec fn restored_cx(desired: int, len: int) -> int {
    if desired <= len {
        desired
    } else {
        len
    }
}

/// The cursor with its row moved to `vtop`/`cy` and its column taken back
/// from the remembered one, as far as that row's line reaches.
pub open spec fn at_row(c: Cursor, ls: Seq<Seq<char>>, vtop: int, cy: int) -> Cursor {
    Cursor {
        vtop: vtop as usize,
        vleft: c.vleft,
        cx: restored_cx(c.cx_history as int, row_len(ls, vtop + cy)) as usize,
        cy: cy as usize,
        cx_history: c.cx_history,
    }
}

/// The cursor with column `cx`, remembered as the wanted column.
pub open spec fn at_column(c: Cursor, cx: int) -> Cursor {
    Cursor { vtop: c.vtop, vleft: c.vleft, cx: cx as usize, cy: c.cy, cx_history: cx as usize }
}

/// What an action does to the cursor, on a buffer with lines `ls` and a
/// viewport of `h` rows.
pub open spec fn cursor_after(c: Cursor, ls: Seq<Seq<char>>, h: int, a: Action) -> Cursor {
    let line = c.vtop + c.cy;
    match a {
        Action::MoveUp => if c.cy == 0 {
            if c.vtop > 0 {
                at_row(c, ls, c.vtop - 1, 0)
            } else {
                at_row(c, ls, c.vtop as int, 0)
            }
        } else {
            at_row(c, ls, c.vtop as int, c.cy - 1)
        },
        Action::MoveDown => at_row(c, ls, c.vtop as int, c.cy + 1),
        Action::MoveLeft => if c.cx == c.vleft {
            if c.cy == 0 && c.vtop > 0 {
                at_column(Cursor { vtop: (c.vtop - 1) as usize, ..c }, row_len(ls, line - 1))
            } else if c.cy > 0 {
                at_column(Cursor { cy: (c.cy - 1) as usize, ..c }, row_len(ls, line - 1))
            } else {
                at_column(c, c.cx as int)
            }
        } else {
            at_column(c, c.cx - 1)
        },
        Action::MoveRight => at_column(c, c.cx + 1),
        Action::EndOfLine => at_column(c, row_len(ls, line)),
        Action::StartOfLine => at_column(c, c.vleft as int),
        Action::DelCharBefore => if c.cx > c.vleft {
            at_column(c, c.cx - 1)
        } else {
            c
        },
        Action::DelCharAtCursor => if c.vtop + h > ls.len() {
            Cursor { cy: (c.cy + 1) as usize, ..c }
        } else {
            c
        },
        Action::NewLine => Cursor { cx: 0, cy: (c.cy + 1) as usize, ..c },
        Action::PageDown => {
            let top = if c.vtop + h <= usize::MAX {
                c.vtop + h
            } else {
                usize::MAX as int
            };
            if top + h > ls.len() {
                at_row(c, ls, top, h - 1)
            } else {
                at_row(c, ls, top, c.cy as int)
            }
        },
        Action::PageUp => if c.vtop >= h {
            at_row(c, ls, c.vtop - h, c.cy as int)
        } else {
            at_row(c, ls, 0, 0)
        },
        _ => c,
    }
}

/// What an action does to the lines of the buffer, with the cursor at `c`.
pub open spec fn lines_after(c: Cursor, ls: Seq<Seq<char>>, a: Action) -> Seq<Seq<char>> {
    let line = c.vtop + c.cy;
    match a {
        Action::InsertChar(ch) => split_lines(
            join_lines(ls).insert(line_start(ls, line) + c.cx, ch),
        ),
        Action::NewLine => split_line_at(ls, line, c.cx as int),
        Action::DelCharBefore => if c.cx > c.vleft {
            ls.update(line, ls[line].remove(c.cx - 1))
        } else {
            ls
        },
        Action::DelCharAtCursor => if c.cx < row_len(ls, line) {
            ls.update(line, ls[line].remove(c.cx as int))
        } else {
            ls
        },
        _ => ls,
    }
}

/// The cursor stands on a line of the buffer, within that line, and its
/// numbers are small enough for the next action.
pub open spec fn on_text(c: Cursor, ls: Seq<Seq<char>>) -> bool {
    &&& c.vleft == 0
    &&& c.vtop + c.cy < ls.len()
    &&& c.cx <= row_len(ls, c.vtop + c.cy)
    &&& c.cx <= 0xffff
    &&& c.cy <= 0xffff
}

/// The cursor is on screen: within a viewport of `h` rows and `w` columns,
/// on a line of the buffer and within it, and the viewport shows no rows
/// past the end that it could fill with lines.
pub open spec fn settled(c: Cursor, ls: Seq<Seq<char>>, h: int, w: int) -> bool {
    &&& on_text(c, ls)
    &&& c.cy < h
    &&& c.cx <= w
    &&& (ls.len() >= h ==> c.vtop + h <= ls.len())
    &&& (ls.len() < h ==> c.vtop == 0)
}

/// Moving down and then straight back up returns the cursor where it was,
/// column included, when it stands on its remembered column, the line below
/// exists, and both lines reach that column.
pub proof fn lemma_down_then_up(c: Cursor, ls: Seq<Seq<char>>, h: int)
    requires
        c.cx == c.cx_history,
        c.cy < usize::MAX,
        c.vtop + c.cy + 1 < ls.len(),
        ls[c.vtop + c.cy].len() >= c.cx_history,
        ls[c.vtop + c.cy + 1].len() >= c.cx_history,
    ensures
        cursor_after(cursor_after(c, ls, h, Action::MoveDown), ls, h, Action::MoveUp) == c,
{
}

/// A vertical move puts the cursor at the remembered column, or at the end
/// of the line it lands on where that line is shorter.
pub proof fn lemma_vertical_column(c: Cursor, ls: Seq<Seq<char>>, h: int, a: Action)
    requires
        a == Action::MoveUp || a == Action::MoveDown,
        c.cy < usize::MAX,
    ensures
        ({
            let d = cursor_after(c, ls, h, a);
            let len = row_len(ls, d.vtop + d.cy);
            d.cx == (if c.cx_history <= len {
                c.cx_history as int
            } else {
                len
            })
        }),
{
}

/// The boundary pass, on a buffer with lines `ls` and a viewport of `h` rows
/// and `w` columns: the viewport is pulled back so that it shows no rows past
/// the end that it could fill; a cursor below the last row scrolls the
/// viewport one line, where there is more below, and is held to the last
/// row and to the last line; a column past the line's end or the right edge
/// goes to the start of the next row (scrolling one line where there is more
/// below) and becomes the remembered column.
pub open spec fn clamped(c: Cursor, ls: Seq<Seq<char>>, h: int, w: int) -> Cursor {
    let n = ls.len() as int;
    let vtop1 = if n >= h {
        if c.vtop > n - h {
            n - h
        } else {
            c.vtop as int
        }
    } else {
        0
    };
    let below = c.cy > h - 1;
    let vtop2 = if below && n >= h && vtop1 < n - h {
        vtop1 + 1
    } else {
        vtop1
    };
    let cy1 = if below {
        h - 1
    } else {
        c.cy as int
    };
    let cy2 = if cy1 > n - 1 - vtop2 {
        n - 1 - vtop2
    } else {
        cy1
    };
    if c.cx > w || c.cx > row_len(ls, vtop2 + cy2) {
        let cy3 = if cy2 < h - 1 && cy2 < n - 1 - vtop2 {
            cy2 + 1
        } else {
            cy2
        };
        let vtop3 = if n >= h && vtop2 < n - h {
            vtop2 + 1
        } else {
            vtop2
        };
        Cursor { vtop: vtop3 as usize, vleft: c.vleft, cx: 0, cy: cy3 as usize, cx_history: 0 }
    } else {
        Cursor { vtop: vtop2 as usize, cy: cy2 as usize, ..c }
    }
}

/// Rows of text that a terminal of `size` (columns, rows) shows, with two
/// rows kept for the status line; at least one.
pub open spec fn view_height(size: (u16, u16)) -> int {
    if size.1 > 2 {
        size.1 - 2
    } else {
        1
    }
}

/// The terminal size after event `ev`.
pub open spec fn size_after(size: (u16, u16), ev: Event) -> (u16, u16) {
    match ev {
        Event::Resize(w, h) => (w, h),
        _ => size,
    }
}

/// Whatever the cursor and the lines, the boundary pass leaves the cursor
/// on screen: on a line of the buffer (the line `vtop + cy` exists), within
/// that line and the viewport.
pub proof fn lemma_clamped_settled(c: Cursor, ls: Seq<Seq<char>>, h: int, w: int)
    requires
        c.vleft == 0,
        1 <= ls.len() <= usize::MAX,
        1 <= h <= 0xffff,
        0 <= w <= 0xffff,
    ensures
        settled(clamped(c, ls, h, w), ls, h, w),
        clamped(c, ls, h, w).vtop + clamped(c, ls, h, w).cy < ls.len(),
{
}

/// The boundary pass changes nothing on a cursor that is already on
/// screen; so running it twice is running it once.
pub proof fn lemma_clamped_idempotent(c: Cursor, ls: Seq<Seq<char>>, h: int, w: int)
    requires
        c.vleft == 0,
        1 <= ls.len() <= usize::MAX,
        1 <= h <= 0xffff,
        0 <= w <= 0xffff,
    ensures
        settled(c, ls, h, w) ==> clamped(c, ls, h, w) == c,
        clamped(clamped(c, ls, h, w), ls, h, w) == clamped(c, ls, h, w),
{
    lemma_clamped_settled(c, ls, h, w);
}

/// The editor: a buffer, the terminal size as columns and rows, the cursor
/// and the mode. The two bottom rows of the terminal are kept for the
/// status line.
pub struct Editor {
    pub buffer: Buffer,
    pub size: (u16, u16),
    pub cursor: Cursor,
    pub mode: Mode,
}

impl Editor {
    /// Rows of text that the viewport shows; at least one.
    pub open spec fn height(&self) -> int {
        view_height(self.size)
    }

    /// Columns that the viewport shows.
    pub open spec fn width(&self) -> int {
        self.size.0 as int
    }

    /// An editor on `buffer` for a terminal of `size`, in normal mode, with
    /// the cursor at the start of the first line.
    pub fn new(buffer: Buffer, size: (u16, u16)) -> (e: Editor)
        ensures
            e.buffer == buffer,
            e.size == size,
            e.cursor == (Cursor { vtop: 0, vleft: 0, cx: 0, cy: 0, cx_history: 0 }),
            e.mode == Mode::Normal,
            on_text(e.cursor, e.buffer@),
    {
        proof {
            lemma_join_split(buffer.chars());
        }
        Editor {
            buffer,
            size,
            cursor: Cursor { vtop: 0, vleft: 0, cx: 0, cy: 0, cx_history: 0 },
            mode: Mode::Normal,
        }
    }

    pub fn vheight(&self) -> (r: usize)
        ensures
            r == self.height(),
            1 <= r <= 0xffff,
    {
        if self.size.1 > 2 {
            (self.size.1 - 2) as usize
        } else {
            1
        }
    }

    pub fn vwidth(&self) -> (r: usize)
        ensures
            r == self.width(),
            r <= 0xffff,
    {
        self.size.0 as usize
    }

    /// Line of the buffer that the cursor stands on.
    pub fn buffer_line(&self) -> (r: usize)
        requires
            self.cursor.vtop + self.cursor.cy <= usize::MAX,
        ensures
            r == self.cursor.vtop + self.cursor.cy,
    {
        self.cursor.vtop + self.cursor.cy
    }

    /// Length of the line that the cursor stands on; zero past the end.
    pub fn line_length(&self) -> (r: usize)
        ensures
            r == row_len(self.buffer@, self.cursor.vtop + self.cursor.cy),
    {
        let lines = self.buffer.len();
        if self.cursor.cy < lines && self.cursor.vtop < lines - self.cursor.cy {
            match self.buffer.line_len(self.cursor.vtop + self.cursor.cy) {
                Ok(n) => n,
                Err(_) => 0,
            }
        } else {
            0
        }
    }

    /// Text of the line shown at row `n` of the viewport; `None` past the
    /// end of the buffer.
    pub fn viewport_line(&self, n: usize) -> (r: Option<String>)
        ensures
            (self.cursor.vtop + n < self.buffer@.len()) <==> r.is_some(),
            r.is_some() ==> r.unwrap()@ == self.buffer@[self.cursor.vtop + n],
    {
        let lines = self.buffer.len();
        if n < lines && self.cursor.vtop < lines - n {
            self.buffer.get(self.cursor.vtop + n)
        } else {
            None
        }
    }

    /// The column that vertical moves bring the cursor to on its line.
    fn restore_column(&mut self)
        ensures
            final(self).cursor == (Cursor {
                cx: restored_cx(
                    old(self).cursor.cx_history as int,
                    row_len(old(self).buffer@, old(self).cursor.vtop + old(self).cursor.cy),
                ) as usize,
                ..old(self).cursor
            }),
            final(self).buffer == old(self).buffer,
            final(self).size == old(self).size,
            final(self).mode == old(self).mode,
    {
        let len = self.line_length();
        if self.cursor.cx_history <= len {
            self.cursor.cx = self.cursor.cx_history;
        } else {
            self.cursor.cx = len;
        }
    }
    /// Carries out `action` on the buffer and the cursor; `false` when the
    /// action ends the session. The cursor may be left off screen: the
    /// boundary pass brings it back.
    pub fn apply(&mut self, action: Action) -> (r: bool)
        requires
            on_text(old(self).cursor, old(self).buffer@),
        ensures
            r == !(action == Action::Quit),
            final(self).cursor == cursor_after(
                old(self).cursor,
                old(self).buffer@,
                old(self).height(),
                action,
            ),
            final(self).buffer@ == lines_after(old(self).cursor, old(self).buffer@, action),
            final(self).mode == (match action {
                Action::EnterMode(m) => m,
                _ => old(self).mode,
            }),
            final(self).size == old(self).size,
            final(self).buffer.path == old(self).buffer.path,
            final(self).cursor.cy <= 0x10000,
    {
        let ghost c = self.cursor;
        let ghost ls = self.buffer@;
        let h = self.vheight();
        let total = self.buffer.len();
        match action {
            Action::Quit => {
                return false;
            },
            Action::MoveUp => {
                if self.cursor.cy == 0 {
                    if self.cursor.vtop > 0 {
                        self.cursor.vtop = self.cursor.vtop - 1;
                    }
                } else {
                    self.cursor.cy = self.cursor.cy - 1;
                }
                self.restore_column();
            },
            Action::MoveDown => {
                self.cursor.cy = self.cursor.cy + 1;
                self.restore_column();
            },
            Action::MoveLeft => {
                if self.cursor.cx == self.cursor.vleft {
                    if self.cursor.cy == 0 && self.cursor.vtop > 0 {
                        self.cursor.vtop = self.cursor.vtop - 1;
                        self.cursor.cx = self.line_length();
                    } else if self.cursor.cy > 0 {
                        self.cursor.cy = self.cursor.cy - 1;
                        self.cursor.cx = self.line_length();
                    }
                } else {
                    self.cursor.cx = self.cursor.cx - 1;
                }
                self.cursor.cx_history = self.cursor.cx;
            },
            Action::MoveRight => {
                self.cursor.cx = self.cursor.cx + 1;
                self.cursor.cx_history = self.cursor.cx;
            },
            Action::EnterMode(m) => {
                self.mode = m;
            },
            Action::InsertChar(ch) => {
                proof {
                    lemma_join_split(self.buffer.chars());
                }
                let line = self.buffer_line();
                let _ = self.buffer.insert_char(line, self.cursor.cx, ch);
            },
            Action::DelCharBefore => {
                if self.cursor.cx > self.cursor.vleft {
                    let line = self.buffer_line();
                    let _ = self.buffer.remove_char(line, self.cursor.cx - 1);
                    self.cursor.cx = self.cursor.cx - 1;
                    self.cursor.cx_history = self.cursor.cx;
                }
            },
            Action::DelCharAtCursor => {
                let len = self.line_length();
                if self.cursor.cx < len && len > 0 {
                    let line = self.buffer_line();
                    let _ = self.buffer.remove_char(line, self.cursor.cx);
                }
                if h > total - self.cursor.vtop {
                    self.cursor.cy = self.cursor.cy + 1;
                }
            },
            Action::NewLine => {
                let line = self.buffer_line();
                proof {
                    reveal_strlit("\n");
                    assert("\n"@ =~= seq!['\n']);
                }
                let _ = self.buffer.insert_text(line, self.cursor.cx, "\n");
                self.cursor.cx = 0;
                self.cursor.cy = self.cursor.cy + 1;
            },
            Action::PageDown => {
                if self.cursor.vtop <= usize::MAX - h {
                    self.cursor.vtop = self.cursor.vtop + h;
                } else {
                    self.cursor.vtop = usize::MAX;
                }
                if self.cursor.vtop >= total || h > total - self.cursor.vtop {
                    self.cursor.cy = h - 1;
                }
                self.restore_column();
            },
            Action::PageUp => {
                if self.cursor.vtop >= h {
                    self.cursor.vtop = self.cursor.vtop - h;
                } else {
                    self.cursor.vtop = 0;
                    self.cursor.cy = 0;
                }
                self.restore_column();
            },
            Action::EndOfLine => {
                self.cursor.cx = self.line_length();
                self.cursor.cx_history = self.cursor.cx;
            },
            Action::StartOfLine => {
                self.cursor.cx = self.cursor.vleft;
                self.cursor.cx_history = self.cursor.cx;
            },
        }
        true
    }

    /// The action that `ev` means in insert mode.
    pub fn handle_insert_event(&self, ev: Event) -> (r: Option<Action>)
        ensures
            r == event_action(Mode::Insert, ev),
    {
        match ev {
            Event::Key(k) => {
                if !k.press {
                    return None;
                }
                match k.code {
                    KeyCode::Esc => Some(Action::EnterMode(Mode::Normal)),
                    KeyCode::Up => Some(Action::MoveUp),
                    KeyCode::Down => Some(Action::MoveDown),
                    KeyCode::Left => Some(Action::MoveLeft),
                    KeyCode::Right => Some(Action::MoveRight),
                    KeyCode::Enter => Some(Action::NewLine),
                    KeyCode::Char(c) => Some(Action::InsertChar(c)),
                    KeyCode::PageDown => Some(Action::PageDown),
                    KeyCode::PageUp => Some(Action::PageUp),
                    KeyCode::End => Some(Action::EndOfLine),
                    KeyCode::Home => Some(Action::StartOfLine),
                    KeyCode::Backspace => Some(Action::DelCharBefore),
                    KeyCode::Delete => Some(Action::DelCharAtCursor),
                    _ => None,
                }
            },
            _ => None,
        }
    }

    /// The action that `ev` means in normal mode.
    pub fn handle_normal_event(&self, ev: Event) -> (r: Option<Action>)
        ensures
            r == event_action(Mode::Normal, ev),
    {
        match ev {
            Event::Key(k) => {
                if !k.press {
                    return None;
                }
                match k.code {
                    KeyCode::Char('q') => Some(Action::Quit),
                    KeyCode::Up | KeyCode::Char('k') => Some(Action::MoveUp),
                    KeyCode::Down | KeyCode::Char('l') => Some(Action::MoveDown),
                    KeyCode::Left | KeyCode::Char('j') => Some(Action::MoveLeft),
                    KeyCode::Right | KeyCode::Char(';') => Some(Action::MoveRight),
                    KeyCode::Char('i') => Some(Action::EnterMode(Mode::Insert)),
                    KeyCode::PageDown => Some(Action::PageDown),
                    KeyCode::PageUp => Some(Action::PageUp),
                    KeyCode::Char('f') => if k.control_only {
                        Some(Action::PageDown)
                    } else {
                        None
                    },
                    KeyCode::Char('b') => if k.control_only {
                        Some(Action::PageUp)
                    } else {
                        None
                    },
                    KeyCode::Char('$') | KeyCode::End => Some(Action::EndOfLine),
                    KeyCode::Char('0') | KeyCode::Home => Some(Action::StartOfLine),
                    KeyCode::Char('x') => Some(Action::DelCharAtCursor),
                    _ => None,
                }
            },
            _ => None,
        }
    }

    /// Takes in `ev`: a resize records the new terminal size; the result is
    /// the action that `ev` means in the current mode.
    pub fn handle_event(&mut self, ev: Event) -> (r: Option<Action>)
        ensures
            r == event_action(old(self).mode, ev),
            final(self).size == (match ev {
                Event::Resize(w, h) => (w, h),
                _ => old(self).size,
            }),
            final(self).buffer == old(self).buffer,
            final(self).cursor == old(self).cursor,
            final(self).mode == old(self).mode,
    {
        if let Event::Resize(w, h) = ev {
            self.size = (w, h);
        }
        match self.mode {
            Mode::Normal => self.handle_normal_event(ev),
            Mode::Insert => self.handle_insert_event(ev),
        }
    }

    /// One turn of the editing loop: takes in `ev`, carries out the action
    /// it means, and brings the cursor back on screen. `false` when the
    /// action ends the session.
    pub fn step(&mut self, ev: Event) -> (r: bool)
        requires
            on_text(old(self).cursor, old(self).buffer@),
        ensures
            r == !(event_action(old(self).mode, ev) == Some(Action::Quit)),
            final(self).size == size_after(old(self).size, ev),
            final(self).cursor == clamped(
                match event_action(old(self).mode, ev) {
                    Some(a) => cursor_after(
                        old(self).cursor,
                        old(self).buffer@,
                        view_height(final(self).size),
                        a,
                    ),
                    None => old(self).cursor,
                },
                final(self).buffer@,
                final(self).height(),
                final(self).width(),
            ),
            final(self).buffer@ == match event_action(old(self).mode, ev) {
                Some(a) => lines_after(old(self).cursor, old(self).buffer@, a),
                None => old(self).buffer@,
            },
            final(self).mode == match event_action(old(self).mode, ev) {
                Some(Action::EnterMode(m)) => m,
                _ => old(self).mode,
            },
            on_text(final(self).cursor, final(self).buffer@),
            settled(final(self).cursor, final(self).buffer@, final(self).height(), final(self).width()),
            final(self).cursor.vtop + final(self).cursor.cy < final(self).buffer@.len(),
    {
        let r = match self.handle_event(ev) {
            Some(action) => self.apply(action),
            None => true,
        };
        self.assert_cursor_boundaries();
        r
    }

    /// Brings the cursor back on screen after an action (see `clamped`). A
    /// cursor already on screen stays.
    pub fn assert_cursor_boundaries(&mut self)
        requires
            old(self).cursor.vleft == 0,
            old(self).cursor.cy <= 0x10000,
        ensures
            final(self).cursor == clamped(
                old(self).cursor,
                old(self).buffer@,
                old(self).height(),
                old(self).width(),
            ),
            settled(final(self).cursor, final(self).buffer@, final(self).height(), final(self).width()),
            final(self).cursor.vtop + final(self).cursor.cy < final(self).buffer@.len(),
            settled(old(self).cursor, old(self).buffer@, old(self).height(), old(self).width())
                ==> final(self).cursor == old(self).cursor,
            final(self).buffer == old(self).buffer,
            final(self).size == old(self).size,
            final(self).mode == old(self).mode,
    {
        let n = self.buffer.len();
        let h = self.vheight();
        let w = self.vwidth();
        proof {
            lemma_clamped_idempotent(self.cursor, self.buffer@, h as int, w as int);
        }
        if n >= h {
            if self.cursor.vtop > n - h {
                self.cursor.vtop = n - h;
            }
        } else {
            self.cursor.vtop = 0;
        }
        let below = self.cursor.cy > h - 1;
        if below && n >= h && self.cursor.vtop < n - h {
            self.cursor.vtop = self.cursor.vtop + 1;
        }
        if below {
            self.cursor.cy = h - 1;
        }
        if self.cursor.cy > n - 1 - self.cursor.vtop {
            self.cursor.cy = n - 1 - self.cursor.vtop;
        }
        let len = self.line_length();
        if self.cursor.cx > w || self.cursor.cx > len {
            if self.cursor.cy < h - 1 && self.cursor.cy < n - 1 - self.cursor.vtop {
                self.cursor.cy = self.cursor.cy + 1;
            }
            if n >= h && self.cursor.vtop < n - h {
                self.cursor.vtop = self.cursor.vtop + 1;
            }
            self.cursor.cx = 0;
            self.cursor.cx_history = 0;
        }
    }
}

} // verus!
