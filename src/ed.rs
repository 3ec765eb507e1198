//! The editor controller: keys become buffer edits and cursor moves, and the
//! anchor follows the cursor so that it stays in view.
use vstd::prelude::*;
use crate::buf::{
    char_deleted, char_inserted, line_broken, line_width, next_line_merged, text_of, BufCursor,
    Buffer,
};
use crate::scr::{Position, Screen, Size, Window};

verus! {

/// A decoded key press.
#[derive(Clone, Copy, Debug, PartialEq, Eq, Structural)]
pub enum Key {
    Backspace,
    Left,
    Right,
    Up,
    Down,
    Home,
    End,
    PageUp,
    PageDown,
    BackTab,
    Delete,
    Insert,
    F(u8),
    Char(char),
    Alt(char),
    Ctrl(char),
    Null,
    Esc,
}

/// The buffer and editing cursor after `key` is handled at cursor `e`.
/// Backspace at the start of a line moves to the end of the previous line and
/// joins the cursor's line to it; at the virtual line past the end there is
/// no line to join, and only the cursor moves.
pub open spec fn key_effect(lines: Seq<Seq<char>>, e: BufCursor, key: Key) -> (
    Seq<Seq<char>>,
    BufCursor,
) {
    match key {
        Key::Left => (lines, e.left_in(lines)),
        Key::Right => (lines, e.right_in(lines)),
        Key::Up => (lines, e.up_in(lines)),
        Key::Down => (lines, e.down_in(lines)),
        Key::Char(ch) => if ch == '\n' {
            let broken = line_broken(lines, e.row as int, e.col as int);
            (broken, e.down_in(broken).line_start())
        } else {
            let inserted = char_inserted(lines, ch, e.row as int, e.col as int);
            (inserted, e.right_in(inserted))
        },
        Key::Backspace => if e.col > 0 {
            let deleted = char_deleted(lines, e.row as int, e.col as int);
            (deleted, e.left_in(deleted))
        } else if e.row > 0 {
            let prev = e.up_in(lines).line_end_in(lines);
            if prev.row + 1 < lines.len() {
                (next_line_merged(lines, prev.row as int), prev)
            } else {
                (lines, prev)
            }
        } else {
            (lines, e)
        },
        _ => (lines, e),
    }
}

/// Whether the cursor `e` lies in the rectangle of `size` whose top-left
/// corner is at `anchor`.
pub open spec fn in_view(anchor: BufCursor, e: BufCursor, size: Size) -> bool {
    &&& anchor.col <= e.col < anchor.col + size.cols
    &&& anchor.row <= e.row < anchor.row + size.rows
}

/// The anchor moved by the least amount that brings `e` into view.
pub open spec fn scrolled(anchor: BufCursor, e: BufCursor, size: Size) -> BufCursor {
    let col = if e.col < anchor.col {
        e.col
    } else if e.col >= anchor.col + size.cols {
        (e.col - size.cols + 1) as usize
    } else {
        anchor.col
    };
    let row = if e.row < anchor.row {
        e.row
    } else if e.row >= anchor.row + size.rows {
        (e.row - size.rows + 1) as usize
    } else {
        anchor.row
    };
    BufCursor { col, row }
}

/// Scrolling never moves the anchor while the cursor is already in view,
/// and after scrolling the cursor is in view of a window with at least one
/// row and one column.
pub proof fn lemma_scroll_is_minimal(anchor: BufCursor, e: BufCursor, size: Size)
    ensures
        in_view(anchor, e, size) ==> scrolled(anchor, e, size) == anchor,
        size.rows > 0 && size.cols > 0 ==> in_view(scrolled(anchor, e, size), e, size),
{
}

/// The end of the part of `0..available` shown from `start` by a view of
/// `count` places; nothing is shown when `start` is past the end.
pub open spec fn shown_end(start: int, available: int, count: int) -> int {
    if start >= available {
        start
    } else if available - start < count {
        available
    } else {
        start + count
    }
}

/// The characters of `line` shown from column `start` by a view `count`
/// columns wide.
pub open spec fn shown_part(line: Seq<char>, start: int, count: int) -> Seq<char> {
    if start >= line.len() {
        Seq::empty()
    } else {
        line.subrange(start, shown_end(start, line.len() as int, count))
    }
}

/// The editing cursor, and the anchor: the buffer position shown at the
/// window's top-left cell.
pub struct BufEditor {
    editor: BufCursor,
    anchor: BufCursor,
}

impl BufEditor {
    pub closed spec fn editor_at(&self) -> BufCursor {
        self.editor
    }

    pub closed spec fn anchor_at(&self) -> BufCursor {
        self.anchor
    }

    pub fn new() -> (r: BufEditor)
        ensures
            r.editor_at() == (BufCursor { col: 0, row: 0 }),
            r.anchor_at() == (BufCursor { col: 0, row: 0 }),
    {
        BufEditor { editor: BufCursor::new(), anchor: BufCursor::new() }
    }

    /// The editing cursor.
    pub fn editor(&self) -> (r: BufCursor)
        ensures
            r == self.editor_at(),
    {
        self.editor
    }

    /// The buffer position shown at the window's top-left cell.
    pub fn anchor(&self) -> (r: BufCursor)
        ensures
            r == self.anchor_at(),
    {
        self.anchor
    }

    fn update_anchor(&mut self, size: &Size)
        requires
            size.rows > 0,
            size.cols > 0,
        ensures
            final(self).editor_at() == old(self).editor_at(),
            final(self).anchor_at() == scrolled(old(self).anchor_at(), old(self).editor_at(), *size),
            in_view(final(self).anchor_at(), final(self).editor_at(), *size),
            in_view(old(self).anchor_at(), old(self).editor_at(), *size)
                ==> final(self).anchor_at() == old(self).anchor_at(),
    {
        let cols = size.cols as usize;
        let rows = size.rows as usize;
        if self.editor.col < self.anchor.col {
            self.anchor.col = self.editor.col;
        } else if self.editor.col - self.anchor.col >= cols {
            self.anchor.col = self.editor.col - cols + 1;
        }
        if self.editor.row < self.anchor.row {
            self.anchor.row = self.editor.row;
        } else if self.editor.row - self.anchor.row >= rows {
            self.anchor.row = self.editor.row - rows + 1;
        }
    }

    /// Applies `key` to the buffer and the editing cursor, then scrolls the
    /// anchor just enough to keep the cursor inside the window, which has at
    /// least one row and one column.
    pub fn handle_key<S: Screen + ?Sized>(&mut self, buf: &mut Buffer, win: &Window<S>, key: Key)
        requires
            old(self).editor_at().valid_in(old(buf)@),
            win.extent().rows > 0,
            win.extent().cols > 0,
        ensures
            (final(buf)@, final(self).editor_at()) == key_effect(
                old(buf)@,
                old(self).editor_at(),
                key,
            ),
            final(self).anchor_at() == scrolled(
                old(self).anchor_at(),
                final(self).editor_at(),
                win.extent(),
            ),
            final(self).editor_at().valid_in(final(buf)@),
            in_view(final(self).anchor_at(), final(self).editor_at(), win.extent()),
            in_view(old(self).anchor_at(), final(self).editor_at(), win.extent())
                ==> final(self).anchor_at() == old(self).anchor_at(),
    {
        match key {
            Key::Left => self.editor.move_left(buf),
            Key::Right => self.editor.move_right(buf),
            Key::Up => self.editor.move_up(buf),
            Key::Down => self.editor.move_down(buf),
            Key::Char(ch) => {
                if ch == '\n' {
                    buf.break_line_at(&self.editor);
                    self.editor.move_to_start_of_next_line(buf);
                } else {
                    buf.insert_at(ch, &self.editor);
                    self.editor.move_right(buf);
                }
            },
            Key::Backspace => {
                if self.editor.col > 0 {
                    buf.delete_before(&self.editor);
                    self.editor.move_left(buf);
                } else if self.editor.row > 0 {
                    self.editor.move_to_end_of_prev_line(buf);
                    if self.editor.row + 1 < buf.height() {
                        buf.merge_next_line_up(&self.editor);
                    }
                }
            },
            _ => {},
        }
        let size = win.size();
        self.update_anchor(&size);
    }

    /// The buffer rows shown in a window of `size`: from the anchor's row,
    /// at most `size.rows` of them, and only rows that exist.
    pub fn line_range(&self, buf: &Buffer, size: &Size) -> (r: std::ops::Range<usize>)
        ensures
            r.start == self.anchor_at().row,
            r.end == shown_end(self.anchor_at().row as int, buf@.len() as int, size.rows as int),
    {
        let start = self.anchor.row;
        let height = buf.height();
        let len = if start >= height {
            0
        } else if height - start < size.rows as usize {
            height - start
        } else {
            size.rows as usize
        };
        start..start + len
    }

    /// The columns of buffer row `row` shown in a window of `size`: from the
    /// anchor's column, at most `size.cols` of them, and only columns that
    /// exist.
    pub fn char_range(&self, buf: &Buffer, size: &Size, row: usize) -> (r: std::ops::Range<usize>)
        requires
            row <= buf@.len(),
        ensures
            r.start == self.anchor_at().col,
            r.end == shown_end(
                self.anchor_at().col as int,
                line_width(buf@, row as int),
                size.cols as int,
            ),
    {
        let start = self.anchor.col;
        let width = buf.width(row);
        let len = if start >= width {
            0
        } else if width - start < size.cols as usize {
            width - start
        } else {
            size.cols as usize
        };
        start..start + len
    }

    /// What `draw` writes for buffer row `row`, which is shown in a window of
    /// `size`: the row's visible characters, and the window position of the
    /// start of that row.
    pub fn row_text(&self, buf: &Buffer, size: &Size, row: usize) -> (r: (String, Position))
        requires
            self.anchor_at().row <= row < buf@.len(),
            row < self.anchor_at().row + size.rows,
        ensures
            r.0@ == shown_part(buf@[row as int], self.anchor_at().col as int, size.cols as int),
            r.1 == (Position { row: (row - self.anchor_at().row) as u16, col: 0 }),
    {
        let cols = self.char_range(buf, size, row);
        let line = buf.line(row);
        let text = if cols.start < cols.end {
            text_of(&line.as_slice()[cols.start..cols.end])
        } else {
            String::new()
        };
        (text, Position { row: (row - self.anchor.row) as u16, col: 0 })
    }

    /// Writes the visible part of each shown buffer row at the start of the
    /// matching window row, as `row_text` gives them, from the first shown
    /// row down; rows past the buffer's end are not written. Stops at the
    /// first failed write.
    pub fn draw<S: Screen + ?Sized>(&self, buf: &Buffer, win: &mut Window<S>) -> (r: Result<
        (),
        std::io::Error,
    >)
        requires
            old(win).fits(),
        ensures
            final(win).origin() == old(win).origin(),
            final(win).extent() == old(win).extent(),
            self.anchor_at().row >= buf@.len() || old(win).extent().rows == 0 ==> r is Ok,
    {
        let size = win.size();
        let rows = self.line_range(buf, &size);
        let mut row = rows.start;
        while row < rows.end
            invariant
                win.origin() == old(win).origin(),
                win.extent() == old(win).extent(),
                win.fits(),
                size == win.extent(),
                rows.start <= row,
                rows.end <= buf@.len() || rows.end == rows.start,
                rows.end <= rows.start + size.rows,
                rows.start == self.anchor_at().row,
            decreases rows.end - row,
        {
            let (text, at) = self.row_text(buf, &size, row);
            match win.put_at(text.as_str(), at) {
                Ok(()) => {},
                Err(e) => {
                    return Err(e);
                },
            }
            row = row + 1;
        }
        Ok(())
    }
}

} // verus!
