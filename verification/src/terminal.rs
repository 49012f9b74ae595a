use vstd::prelude::*;
use crate::text::{chars_of, string_from_chars};

verus! {

/// What the line editor reports after a key.
#[derive(Debug, PartialEq)]
pub enum TerminalEvent {
    /// A line was entered.
    String(Box<String>),
    /// Nothing to do yet.
    Continue,
    /// The user asked to leave.
    End,
    /// The history is asked for an older line; the row so far comes along.
    Up(Box<String>),
    /// The history is asked for a newer line; the row so far comes along.
    Down(Box<String>),
}

/// The row that is being edited: its characters and the place of the
/// cursor among them.
#[derive(Debug, PartialEq)]
pub struct RowContents {
    pub content: Vec<char>,
    pub index: usize,
}

impl View for RowContents {
    type V = Seq<char>;

    open spec fn view(&self) -> Seq<char> {
        self.content@
    }
}

impl RowContents {
    /// The cursor stands in the row or at its end.
    pub open spec fn wf(&self) -> bool {
        self.index <= self.content.len()
    }

    /// The empty row.
    pub fn new() -> (row: RowContents)
        ensures
            row@ == Seq::<char>::empty(),
            row.index == 0,
            row.wf(),
    {
        RowContents { content: Vec::new(), index: 0 }
    }

    /// Puts a character at the cursor and moves the cursor behind it.
    pub fn insert(&mut self, ch: char)
        requires
            old(self).wf(),
        ensures
            final(self)@ == old(self)@.insert(old(self).index as int, ch),
            final(self).index == old(self).index + 1,
            final(self).wf(),
    {
        self.content.insert(self.index, ch);
        assert(self.index < self.content.len());
        self.index += 1;
    }

    /// Puts a text at the cursor and moves the cursor behind it.
    pub fn insert_str(&mut self, string: &str)
        requires
            old(self).wf(),
        ensures
            final(self)@ == old(self)@.subrange(0, old(self).index as int) + string@ + old(self)@.subrange(old(self).index as int, old(self)@.len() as int),
            final(self).index == old(self).index + string@.len(),
            final(self).wf(),
    {
        let chars = chars_of(string);
        let ghost before = self@;
        let ghost at = self.index as int;
        let mut i: usize = 0;
        assert(before =~= before.subrange(0, at) + chars@.subrange(0, 0) + before.subrange(
            at,
            before.len() as int,
        ));
        while i < chars.len()
            invariant
                0 <= i <= chars.len(),
                0 <= at <= before.len(),
                self.index == at + i,
                self@ == before.subrange(0, at) + chars@.subrange(0, i as int) + before.subrange(
                    at,
                    before.len() as int,
                ),
            decreases chars.len() - i,
        {
            self.content.insert(self.index, chars[i]);
            assert(self.index < self.content.len());
            self.index += 1;
            i += 1;
            assert(self@ =~= before.subrange(0, at) + chars@.subrange(0, i as int)
                + before.subrange(at, before.len() as int));
        }
        assert(chars@.subrange(0, chars.len() as int) =~= chars@);
    }

    /// Removes the character before the cursor, if there is one.
    pub fn remove(&mut self)
        requires
            old(self).wf(),
        ensures
            final(self).wf(),
            old(self).index == 0 ==> *final(self) == *old(self),
            old(self).index > 0 ==> final(self)@ == old(self)@.remove(old(self).index - 1)
                && final(self).index == old(self).index - 1,
    {
        if self.content.len() != 0 && self.index != 0 {
            self.index -= 1;
            self.content.remove(self.index);
        }
    }

    /// The place of the cursor, counted in characters.
    pub fn get_index(&self) -> (index: usize)
        ensures
            index == self.index,
    {
        self.index
    }

    /// The row as a text.
    pub fn get_content(&self) -> (text: String)
        ensures
            text@ == self@,
    {
        let text = string_from_chars(&self.content, 0, self.content.len());
        assert(self@.subrange(0, self@.len() as int) =~= self@);
        text
    }

    /// The row from position `from` on, as a text.
    pub fn rest(&self, from: usize) -> (text: String)
        ensures
            from <= self@.len() ==> text@ == self@.subrange(from as int, self@.len() as int),
            from > self@.len() ==> text@ == Seq::<char>::empty(),
    {
        if from <= self.content.len() {
            string_from_chars(&self.content, from, self.content.len())
        } else {
            String::new()
        }
    }

    /// Moves the cursor one character; tells whether it could.
    pub fn move_index(&mut self, is_left: bool) -> (moved: bool)
        requires
            old(self).wf(),
        ensures
            final(self).wf(),
            final(self)@ == old(self)@,
            is_left ==> moved == (old(self).index > 0),
            !is_left ==> moved == (old(self).index < old(self)@.len()),
            moved && is_left ==> final(self).index == old(self).index - 1,
            moved && !is_left ==> final(self).index == old(self).index + 1,
            !moved ==> final(self).index == old(self).index,
    {
        if is_left {
            if self.index == 0 {
                return false;
            }
            self.index -= 1;
        } else {
            if self.index == self.content.len() {
                return false;
            }
            self.index += 1;
        }
        true
    }

    /// Takes the row out and leaves an empty one.
    pub fn move_content(&mut self) -> (taken: Box<String>)
        ensures
            taken@ == old(self)@,
            final(self)@ == Seq::<char>::empty(),
            final(self).index == 0,
            final(self).wf(),
    {
        let taken = self.get_content();
        self.index = 0;
        self.content = Vec::new();
        Box::new(taken)
    }
}

/// A move of the cursor by one cell.
#[derive(Debug, PartialEq, Eq, Clone, Copy, Structural)]
pub enum Direction {
    Left,
    Right,
}

/// The cell of the cursor: column `cursor_x` and row `cursor_y` of a
/// window.
#[derive(Debug, PartialEq)]
pub struct CursorController {
    pub cursor_x: usize,
    pub cursor_y: usize,
}

impl CursorController {
    /// The cursor at a cell.
    pub fn at(cursor_x: usize, cursor_y: usize) -> (c: CursorController)
        ensures
            c.cursor_x == cursor_x,
            c.cursor_y == cursor_y,
    {
        CursorController { cursor_x, cursor_y }
    }

    /// Moves the cursor one cell, wrapping at the edges of the window.
    /// Gives `-1` when the window has to scroll down for it, `1` when it
    /// has to scroll up, and `0` otherwise.
    pub fn move_cursor(&mut self, direction: Direction, window_size: &(usize, usize)) -> (scroll:
        i32)
        requires
            window_size.0 >= 1,
            window_size.1 >= 1,
            old(self).cursor_x < usize::MAX,
            old(self).cursor_y < usize::MAX,
        ensures
            direction == Direction::Left && old(self).cursor_x > 0 ==> scroll == 0 && final(self).cursor_x == old(self).cursor_x - 1 && final(self).cursor_y == old(self).cursor_y,
            direction == Direction::Left && old(self).cursor_x == 0 ==> final(self).cursor_x
                == window_size.0 - 1 && if old(self).cursor_y == 0 {
                scroll == -1 && final(self).cursor_y == 0
            } else {
                scroll == 0 && final(self).cursor_y == old(self).cursor_y - 1
            },
            direction == Direction::Right && old(self).cursor_x != window_size.0 - 1 ==> scroll
                == 0 && final(self).cursor_x == old(self).cursor_x + 1 && final(self).cursor_y
                == old(self).cursor_y,
            direction == Direction::Right && old(self).cursor_x == window_size.0 - 1 ==> final(self).cursor_x == 0 && if old(self).cursor_y == window_size.1 - 1 {
                scroll == 1 && final(self).cursor_y == old(self).cursor_y
            } else {
                scroll == 0 && final(self).cursor_y == old(self).cursor_y + 1
            },
    {
        match direction {
            Direction::Left => {
                if self.cursor_x == 0 {
                    self.cursor_x = window_size.0 - 1;
                    if self.cursor_y == 0 {
                        return -1;
                    } else {
                        self.cursor_y -= 1;
                    }
                } else {
                    self.cursor_x -= 1;
                }
            },
            Direction::Right => {
                if self.cursor_x == window_size.0 - 1 {
                    self.cursor_x = 0;
                    if self.cursor_y != window_size.1 - 1 {
                        self.cursor_y += 1;
                    } else {
                        return 1;
                    }
                } else {
                    self.cursor_x += 1;
                }
            },
        }
        0
    }

    /// Moves the cursor `value` cells on, row by row, and stops in the
    /// last row of the window.
    pub fn update_from_value(&mut self, value: usize, window_size: &(usize, usize))
        requires
            window_size.0 >= 1,
            window_size.1 >= 1,
            1 <= old(self).cursor_x + value <= usize::MAX,
            old(self).cursor_y + (old(self).cursor_x + value - 1) / (window_size.0 as int)
                <= usize::MAX,
        ensures
            final(self).cursor_x == (old(self).cursor_x + value) % (window_size.0 as int),
            final(self).cursor_y == if old(self).cursor_y + (old(self).cursor_x + value - 1) / (
            window_size.0 as int) < window_size.1 - 1 {
                old(self).cursor_y + (old(self).cursor_x + value - 1) / (window_size.0 as int)
            } else {
                window_size.1 - 1
            },
    {
        self.cursor_x = self.cursor_x + value;
        let rows = (self.cursor_x - 1) / window_size.0;
        let y = self.cursor_y + rows;
        self.cursor_y = if y < window_size.1 - 1 {
            y
        } else {
            window_size.1 - 1
        };
        self.cursor_x = self.cursor_x % window_size.0;
    }

    /// Moves the cursor `value` cells back, row by row, and stops in the
    /// first row of the window.
    pub fn update_from_minus_value(&mut self, value: usize, window_size: &(usize, usize))
        requires
            window_size.0 >= 1,
        ensures
            value <= old(self).cursor_x ==> final(self).cursor_x == old(self).cursor_x - value
                && final(self).cursor_y == old(self).cursor_y,
            value > old(self).cursor_x ==> ({
                let back = value - old(self).cursor_x;
                let rows = (back - 1) / (window_size.0 as int) + 1;
                &&& final(self).cursor_x == rows * window_size.0 - back
                &&& final(self).cursor_y == if old(self).cursor_y >= rows {
                    old(self).cursor_y - rows
                } else {
                    0
                }
            }),
    {
        if value <= self.cursor_x {
            self.cursor_x = self.cursor_x - value;
        } else {
            let back: usize = value - self.cursor_x;
            let w: usize = window_size.0;
            let rows: usize = (back - 1) / w + 1;
            let inside: usize = (back - 1) % w;
            assert(rows * w - back == w - 1 - inside) by (nonlinear_arith)
                requires
                    rows == (back - 1) / (w as int) + 1,
                    inside == (back - 1) % (w as int),
                    w >= 1,
                    back >= 1,
            ;
            self.cursor_x = w - 1 - inside;
            self.cursor_y = if self.cursor_y >= rows {
                self.cursor_y - rows
            } else {
                0
            };
        }
    }

    /// The rows that the window has to scroll up so that what stands
    /// behind the cursor, `behind` cells and one more, fits below; the
    /// cursor moves up with them.
    pub fn scroll_to_fit(&mut self, behind: usize, window_size: &(usize, usize)) -> (rows: usize)
        requires
            window_size.0 >= 1,
            window_size.1 >= 1,
            old(self).cursor_x + behind + 1 <= usize::MAX,
            old(self).cursor_y + (old(self).cursor_x + behind + 1) / (window_size.0 as int)
                <= usize::MAX,
        ensures
            final(self).cursor_x == old(self).cursor_x,
            ({
                let last = old(self).cursor_y + (old(self).cursor_x + behind + 1) / (
                window_size.0 as int);
                if last >= window_size.1 {
                    &&& rows == last - window_size.1 + 1
                    &&& final(self).cursor_y == if old(self).cursor_y >= rows {
                        old(self).cursor_y - rows
                    } else {
                        0
                    }
                } else {
                    rows == 0 && final(self).cursor_y == old(self).cursor_y
                }
            }),
    {
        let x = self.cursor_x + behind;
        let y = self.cursor_y + (x + 1) / window_size.0;
        if y >= window_size.1 {
            let value = y - window_size.1 + 1;
            self.cursor_y = if self.cursor_y >= value {
                self.cursor_y - value
            } else {
                0
            };
            value
        } else {
            0
        }
    }

    /// The cell as the terminal counts it: column and row, each cut to
    /// sixteen bits.
    pub fn get_position(&self) -> (cell: (u16, u16))
        ensures
            cell.0 == self.cursor_x % 0x1_0000,
            cell.1 == self.cursor_y % 0x1_0000,
    {
        ((self.cursor_x % 0x1_0000) as u16, (self.cursor_y % 0x1_0000) as u16)
    }
}

} // verus!
