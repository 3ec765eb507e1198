//! The text buffer and the cursor that addresses it.
use vstd::prelude::*;

verus! {

/// Width of line `row`; the virtual line one past the last has width 0.
pub open spec fn line_width(lines: Seq<Seq<char>>, row: int) -> int {
    if 0 <= row < lines.len() {
        lines[row].len() as int
    } else {
        0
    }
}

/// The lines after `ch` is inserted before column `col` of line `row`; at the
/// virtual line an empty line is appended first.
pub open spec fn char_inserted(lines: Seq<Seq<char>>, ch: char, row: int, col: int) -> Seq<
    Seq<char>,
> {
    let grown = if row == lines.len() {
        lines.push(Seq::empty())
    } else {
        lines
    };
    grown.update(row, grown[row].insert(col, ch))
}

/// The lines after the character just before column `col` of line `row` is removed.
pub open spec fn char_deleted(lines: Seq<Seq<char>>, row: int, col: int) -> Seq<Seq<char>> {
    lines.update(row, lines[row].remove(col - 1))
}

/// The lines after line `row + 1` is appended to line `row` and removed.
pub open spec fn next_line_merged(lines: Seq<Seq<char>>, row: int) -> Seq<Seq<char>> {
    lines.update(row, lines[row] + lines[row + 1]).remove(row + 1)
}

/// The lines after line `row` is split at `col`; at the virtual line an empty
/// line is appended instead.
pub open spec fn line_broken(lines: Seq<Seq<char>>, row: int, col: int) -> Seq<Seq<char>> {
    if row == lines.len() {
        lines.push(Seq::empty())
    } else {
        lines.update(row, lines[row].take(col)).insert(row + 1, lines[row].skip(col))
    }
}

/// The text holding `lines`, each followed by a newline.
pub open spec fn joined(lines: Seq<Seq<char>>) -> Seq<char>
    decreases lines.len(),
{
    if lines.len() == 0 {
        Seq::empty()
    } else {
        lines[0] + seq!['\n'] + joined(lines.drop_first())
    }
}

/// No line holds a newline.
pub open spec fn newline_free(lines: Seq<Seq<char>>) -> bool {
    forall|i: int, j: int|
        0 <= i < lines.len() && 0 <= j < lines[i].len() ==> #[trigger] lines[i][j] != '\n'
}

/// `text` ended by a newline, unless it is empty or already ends in one.
pub open spec fn terminated(text: Seq<char>) -> Seq<char> {
    if text.len() == 0 || text.last() == '\n' {
        text
    } else {
        text.push('\n')
    }
}

proof fn lemma_joined_push(lines: Seq<Seq<char>>, line: Seq<char>)
    ensures
        joined(lines.push(line)) == joined(lines) + line + seq!['\n'],
    decreases lines.len(),
{
    if lines.len() == 0 {
        assert(lines.push(line).drop_first() =~= Seq::<Seq<char>>::empty());
        assert(joined(lines.push(line).drop_first()) == Seq::<char>::empty());
        assert(joined(lines) == Seq::<char>::empty());
        assert(joined(lines.push(line)) =~= joined(lines) + line + seq!['\n']);
    } else {
        lemma_joined_push(lines.drop_first(), line);
        assert(lines.push(line).drop_first() =~= lines.drop_first().push(line));
        assert(joined(lines.push(line)) =~= joined(lines) + line + seq!['\n']);
    }
}

proof fn lemma_joined_ends_with_newline(lines: Seq<Seq<char>>)
    requires
        lines.len() > 0,
    ensures
        joined(lines).len() > 0,
        joined(lines).last() == '\n',
{
    let init = lines.drop_last();
    assert(init.push(lines.last()) =~= lines);
    lemma_joined_push(init, lines.last());
}

proof fn lemma_joined_injective(a: Seq<Seq<char>>, b: Seq<Seq<char>>)
    requires
        newline_free(a),
        newline_free(b),
        joined(a) == joined(b),
    ensures
        a == b,
    decreases a.len(),
{
    if a.len() == 0 {
        if b.len() > 0 {
            lemma_joined_ends_with_newline(b);
        }
        assert(a =~= b);
    } else {
        if b.len() == 0 {
            lemma_joined_ends_with_newline(a);
        } else {
            let n = a[0].len() as int;
            let m = b[0].len() as int;
            if n < m {
                assert(joined(a)[n] == '\n');
                assert(joined(b)[n] == b[0][n]);
            } else if m < n {
                assert(joined(b)[m] == '\n');
                assert(joined(a)[m] == a[0][m]);
            }
            assert(a[0] =~= b[0]) by {
                assert forall|j: int| 0 <= j < n implies a[0][j] == b[0][j] by {
                    assert(joined(a)[j] == a[0][j]);
                    assert(joined(b)[j] == b[0][j]);
                }
            }
            assert(joined(a.drop_first()) =~= joined(a).skip(n + 1));
            assert(joined(b.drop_first()) =~= joined(b).skip(n + 1));
            assert forall|i: int, j: int|
                0 <= i < a.drop_first().len() && 0 <= j < a.drop_first()[i].len() implies
                #[trigger] a.drop_first()[i][j] != '\n' by {
                assert(a.drop_first()[i] == a[i + 1]);
            }
            assert forall|i: int, j: int|
                0 <= i < b.drop_first().len() && 0 <= j < b.drop_first()[i].len() implies
                #[trigger] b.drop_first()[i][j] != '\n' by {
                assert(b.drop_first()[i] == b[i + 1]);
            }
            lemma_joined_injective(a.drop_first(), b.drop_first());
            assert(a =~= b) by {
                assert forall|i: int| 0 <= i < a.len() implies a[i] == b[i] by {
                    if i > 0 {
                        assert(a[i] == a.drop_first()[i - 1]);
                        assert(b[i] == b.drop_first()[i - 1]);
                    }
                }
            }
        }
    }
}

/// Relies on `String: FromIterator<&char>`: the string holds the characters
/// in order.
#[verifier::external_body]
pub(crate) fn text_of(chars: &[char]) -> (r: String)
    ensures
        r@ == chars@,
{
    chars.iter().collect()
}

/// The number of lines, and the length of each line, fit in a `usize`.
pub open spec fn sizes_fit(lines: Seq<Seq<char>>) -> bool {
    &&& lines.len() <= usize::MAX
    &&& forall|i: int| 0 <= i < lines.len() ==> #[trigger] lines[i].len() <= usize::MAX
}

/// A (row, column) address into a buffer.
#[derive(Clone, Copy, Debug, PartialEq, Eq, Structural)]
pub struct BufCursor {
    pub col: usize,
    pub row: usize,
}

impl BufCursor {
    /// The cursor addresses an existing position of `lines`: a row up to the
    /// virtual line, a column up to the end of that row.
    pub open spec fn valid_in(self, lines: Seq<Seq<char>>) -> bool {
        self.row <= lines.len() && self.col <= line_width(lines, self.row as int)
    }

    pub open spec fn right_in(self, lines: Seq<Seq<char>>) -> BufCursor {
        if self.row < lines.len() {
            if self.col < line_width(lines, self.row as int) {
                BufCursor { col: (self.col + 1) as usize, row: self.row }
            } else {
                BufCursor { col: 0, row: (self.row + 1) as usize }
            }
        } else {
            self
        }
    }

    pub open spec fn left_in(self, lines: Seq<Seq<char>>) -> BufCursor {
        if self.col > 0 {
            BufCursor { col: (self.col - 1) as usize, row: self.row }
        } else if self.row > 0 {
            BufCursor {
                col: line_width(lines, self.row - 1) as usize,
                row: (self.row - 1) as usize,
            }
        } else {
            self
        }
    }

    /// The column cut back to the width of the cursor's row.
    pub open spec fn clamped_in(self, lines: Seq<Seq<char>>) -> BufCursor {
        if self.col > line_width(lines, self.row as int) {
            BufCursor { col: line_width(lines, self.row as int) as usize, row: self.row }
        } else {
            self
        }
    }

    pub open spec fn up_in(self, lines: Seq<Seq<char>>) -> BufCursor {
        let row = if self.row > 0 {
            (self.row - 1) as usize
        } else {
            self.row
        };
        BufCursor { col: self.col, row }.clamped_in(lines)
    }

    pub open spec fn down_in(self, lines: Seq<Seq<char>>) -> BufCursor {
        let row = if self.row < lines.len() {
            (self.row + 1) as usize
        } else {
            self.row
        };
        BufCursor { col: self.col, row }.clamped_in(lines)
    }

    pub open spec fn line_start(self) -> BufCursor {
        BufCursor { col: 0, row: self.row }
    }

    pub open spec fn line_end_in(self, lines: Seq<Seq<char>>) -> BufCursor {
        BufCursor { col: line_width(lines, self.row as int) as usize, row: self.row }
    }

    pub fn new() -> (r: BufCursor)
        ensures
            r.row == 0,
            r.col == 0,
    {
        BufCursor { col: 0, row: 0 }
    }

    pub fn at(row: usize, col: usize) -> (r: BufCursor)
        ensures
            r.row == row,
            r.col == col,
    {
        BufCursor { col, row }
    }

    /// Whether this cursor addresses an existing position of `buf`.
    pub fn is_valid_in(&self, buf: &Buffer) -> (r: bool)
        ensures
            r == self.valid_in(buf@),
    {
        self.row <= buf.height() && self.col <= buf.width(self.row)
    }

    /// One column right; past the end of a line, to the start of the next one.
    /// At the virtual line, nothing happens.
    pub fn move_right(&mut self, buf: &Buffer)
        ensures
            *final(self) == old(self).right_in(buf@),
            old(self).valid_in(buf@) ==> final(self).valid_in(buf@),
    {
        if self.row < buf.height() {
            if self.col < buf.width(self.row) {
                self.col = self.col + 1;
            } else {
                self.row = self.row + 1;
                self.col = 0;
            }
        }
    }

    /// One column left; at the start of a line, to the end of the previous one.
    /// At the very start, nothing happens.
    pub fn move_left(&mut self, buf: &Buffer)
        requires
            old(self).row <= buf@.len(),
        ensures
            *final(self) == old(self).left_in(buf@),
            old(self).valid_in(buf@) ==> final(self).valid_in(buf@),
    {
        if self.col > 0 {
            self.col = self.col - 1;
        } else if self.row > 0 {
            self.row = self.row - 1;
            self.col = buf.width(self.row);
        }
    }

    /// One row up, with the column cut back to the new row's width.
    pub fn move_up(&mut self, buf: &Buffer)
        requires
            old(self).row <= buf@.len(),
        ensures
            *final(self) == old(self).up_in(buf@),
            final(self).valid_in(buf@),
    {
        if self.row > 0 {
            self.row = self.row - 1;
        }
        self.trim_cursor_to_end_of_line(buf);
    }

    /// One row down, at most to the virtual line, with the column cut back to
    /// the new row's width.
    pub fn move_down(&mut self, buf: &Buffer)
        requires
            old(self).row <= buf@.len(),
        ensures
            *final(self) == old(self).down_in(buf@),
            final(self).valid_in(buf@),
    {
        if self.row < buf.height() {
            self.row = self.row + 1;
        }
        self.trim_cursor_to_end_of_line(buf);
    }

    fn trim_cursor_to_end_of_line(&mut self, buf: &Buffer)
        requires
            old(self).row <= buf@.len(),
        ensures
            *final(self) == old(self).clamped_in(buf@),
            final(self).valid_in(buf@),
    {
        let width = buf.width(self.row);
        if self.col > width {
            self.col = width;
        }
    }

    pub fn move_to_start_of_line(&mut self, _buf: &Buffer)
        ensures
            *final(self) == old(self).line_start(),
            old(self).valid_in(_buf@) ==> final(self).valid_in(_buf@),
    {
        self.col = 0;
    }

    pub fn move_to_end_of_line(&mut self, buf: &Buffer)
        requires
            old(self).row <= buf@.len(),
        ensures
            *final(self) == old(self).line_end_in(buf@),
            final(self).valid_in(buf@),
    {
        self.col = buf.width(self.row);
    }

    /// Up one row, then to the end of that row.
    pub fn move_to_end_of_prev_line(&mut self, buf: &Buffer)
        requires
            old(self).row <= buf@.len(),
        ensures
            *final(self) == old(self).up_in(buf@).line_end_in(buf@),
            final(self).valid_in(buf@),
    {
        self.move_up(buf);
        self.move_to_end_of_line(buf);
    }

    /// Down one row, then to the start of that row.
    pub fn move_to_start_of_next_line(&mut self, buf: &Buffer)
        requires
            old(self).row <= buf@.len(),
        ensures
            *final(self) == old(self).down_in(buf@).line_start(),
            final(self).valid_in(buf@),
    {
        self.move_down(buf);
        self.move_to_start_of_line(buf);
    }
}

/// The lines of text being edited, each a sequence of characters.
pub struct Buffer {
    lines: Vec<Vec<char>>,
}

impl View for Buffer {
    type V = Seq<Seq<char>>;

    closed spec fn view(&self) -> Seq<Seq<char>> {
        self.lines@.map_values(|l: Vec<char>| l@)
    }
}

impl Buffer {
    /// The number of lines, and the length of each, fit in a `usize`; a
    /// caller learns it of any buffer by `use_type_invariant`.
    #[verifier::type_invariant]
    pub open spec fn well_sized(self) -> bool {
        sizes_fit(self@)
    }

    pub fn new() -> (r: Buffer)
        ensures
            r@ == Seq::<Seq<char>>::empty(),
            sizes_fit(r@),
    {
        let r = Buffer { lines: Vec::new() };
        assert(r@ =~= Seq::<Seq<char>>::empty());
        r
    }

    /// A buffer holding the given lines, in order.
    pub fn from_lines(lines: Vec<Vec<char>>) -> (r: Buffer)
        ensures
            r@ == lines@.map_values(|l: Vec<char>| l@),
            sizes_fit(r@),
    {
        let height = lines.len();
        let mut row: usize = 0;
        while row < height
            invariant
                height == lines@.len(),
                row <= height,
                forall|i: int| 0 <= i < row ==> #[trigger] lines@[i]@.len() <= usize::MAX,
            decreases height - row,
        {
            let width = lines[row].len();
            assert(lines@[row as int]@.len() == width);
            row = row + 1;
        }
        Buffer { lines }
    }

    /// The lines of `text`: the pieces between newlines, where a last empty
    /// piece (after a final newline, or of an empty text) is no line. Only
    /// `'\n'` separates lines; any other character, `'\r'` too, is kept.
    pub fn from_text(text: &str) -> (r: Buffer)
        ensures
            joined(r@) == terminated(text@),
            newline_free(r@),
            sizes_fit(r@),
    {
        broadcast use vstd::string::axiom_spec_iter;

        let mut lines: Vec<Vec<char>> = Vec::new();
        let mut line: Vec<char> = Vec::new();
        for c in it: text.chars()
            invariant
                it.seq() == text@,
                joined(lines@.map_values(|l: Vec<char>| l@)) + line@ == it.seq().take(
                    it.index() as int,
                ),
                newline_free(lines@.map_values(|l: Vec<char>| l@)),
                forall|j: int| 0 <= j < line@.len() ==> line@[j] != '\n',
                forall|k: int| 0 <= k < lines@.len() ==> #[trigger] lines@[k]@.len() <= usize::MAX,
        {
            let ghost before = lines@.map_values(|l: Vec<char>| l@);
            if c == '\n' {
                proof {
                    lemma_joined_push(before, line@);
                }
                let width = line.len();
                assert(line@.len() == width);
                lines.push(line);
                line = Vec::new();
                assert(lines@.map_values(|l: Vec<char>| l@) =~= before.push(
                    lines@[lines@.len() - 1]@,
                ));
            } else {
                line.push(c);
            }
            assert(it.seq().take(it.index() + 1) =~= it.seq().take(it.index() as int).push(c));
        }
        assert(joined(lines@.map_values(|l: Vec<char>| l@)) + line@ =~= text@);
        let ghost before = lines@.map_values(|l: Vec<char>| l@);
        if line.len() > 0 {
            proof {
                lemma_joined_push(before, line@);
            }
            let ghost last = line@;
            lines.push(line);
            assert(lines@.map_values(|l: Vec<char>| l@) =~= before.push(last));
            assert(text@.last() == last.last());
        } else {
            assert(line@ =~= Seq::<char>::empty());
            assert(joined(before) =~= text@);
            proof {
                if before.len() > 0 {
                    lemma_joined_ends_with_newline(before);
                }
            }
        }
        let height = lines.len();
        assert(lines@.map_values(|l: Vec<char>| l@).len() == height);
        Buffer { lines }
    }

    /// The text of the buffer: each line followed by a newline.
    pub fn to_text(&self) -> (r: String)
        ensures
            r@ == joined(self@),
    {
        let mut out: Vec<char> = Vec::new();
        let mut row: usize = 0;
        while row < self.lines.len()
            invariant
                row <= self.lines@.len(),
                out@ == joined(self@.take(row as int)),
            decreases self.lines@.len() - row,
        {
            let line = &self.lines[row];
            let mut col: usize = 0;
            while col < line.len()
                invariant
                    col <= line@.len(),
                    line@ == self@[row as int],
                    row < self.lines@.len(),
                    out@ == joined(self@.take(row as int)) + line@.take(col as int),
                decreases line@.len() - col,
            {
                out.push(line[col]);
                col = col + 1;
                assert(line@.take(col as int) =~= line@.take(col - 1).push(line@[col - 1]));
            }
            out.push('\n');
            proof {
                lemma_joined_push(self@.take(row as int), line@);
                assert(self@.take(row as int).push(line@) =~= self@.take(row + 1));
                assert(line@.take(col as int) =~= line@);
            }
            row = row + 1;
        }
        assert(self@.take(row as int) =~= self@);
        text_of(out.as_slice())
    }

    pub fn line(&self, row: usize) -> (r: &Vec<char>)
        requires
            row < self@.len(),
        ensures
            r@ == self@[row as int],
    {
        &self.lines[row]
    }

    pub fn height(&self) -> (r: usize)
        ensures
            r == self@.len(),
    {
        self.lines.len()
    }

    /// The width of line `row`; the virtual line at `row == height` has width 0.
    pub fn width(&self, row: usize) -> (r: usize)
        requires
            row <= self@.len(),
        ensures
            r == line_width(self@, row as int),
            row == self@.len() ==> r == 0,
    {
        if row == self.lines.len() {
            return 0;
        }
        self.lines[row].len()
    }

    pub fn char(&self, cur: &BufCursor) -> (r: char)
        requires
            cur.row < self@.len(),
            cur.col < self@[cur.row as int].len(),
        ensures
            r == self@[cur.row as int][cur.col as int],
    {
        self.lines[cur.row][cur.col]
    }

    /// Moves the lines out, leaving the buffer empty.
    fn take_lines(&mut self) -> (r: Vec<Vec<char>>)
        ensures
            r@.map_values(|l: Vec<char>| l@) == old(self)@,
            sizes_fit(old(self)@),
    {
        proof {
            use_type_invariant(&*self);
        }
        let mut other = Buffer::new();
        std::mem::swap(self, &mut other);
        let Buffer { lines } = other;
        lines
    }

    /// Inserts `ch` before the cursor's column; at the virtual line, an empty
    /// line is appended first.
    pub fn insert_at(&mut self, ch: char, cur: &BufCursor)
        requires
            cur.valid_in(old(self)@),
        ensures
            final(self)@ == char_inserted(old(self)@, ch, cur.row as int, cur.col as int),
            sizes_fit(final(self)@),
    {
        let mut lines = self.take_lines();
        if cur.row == lines.len() {
            lines.push(Vec::new());
        }
        let height = lines.len();
        let mut line = lines.remove(cur.row);
        line.insert(cur.col, ch);
        let width = line.len();
        lines.insert(cur.row, line);
        let ghost after = lines@.map_values(|l: Vec<char>| l@);
        assert(after =~= char_inserted(old(self)@, ch, cur.row as int, cur.col as int));
        assert(after.len() == height && after[cur.row as int].len() == width);
        *self = Buffer { lines };
    }

    /// Removes the character just before the cursor.
    pub fn delete_before(&mut self, cur: &BufCursor)
        requires
            cur.col > 0,
            cur.row < old(self)@.len(),
            cur.col <= old(self)@[cur.row as int].len(),
        ensures
            final(self)@ == char_deleted(old(self)@, cur.row as int, cur.col as int),
            sizes_fit(final(self)@),
    {
        let mut lines = self.take_lines();
        let mut line = lines.remove(cur.row);
        line.remove(cur.col - 1);
        lines.insert(cur.row, line);
        let ghost after = lines@.map_values(|l: Vec<char>| l@);
        assert(after =~= char_deleted(old(self)@, cur.row as int, cur.col as int));
        *self = Buffer { lines };
    }

    /// Appends the line after the cursor's row to that row.
    pub fn merge_next_line_up(&mut self, cur: &BufCursor)
        requires
            cur.row + 1 < old(self)@.len(),
        ensures
            final(self)@ == next_line_merged(old(self)@, cur.row as int),
            sizes_fit(final(self)@),
    {
        let mut lines = self.take_lines();
        let height = lines.len();
        assert(cur.row + 1 < height);
        let mut next = lines.remove(cur.row + 1);
        let mut line = lines.remove(cur.row);
        line.append(&mut next);
        let width = line.len();
        lines.insert(cur.row, line);
        let ghost after = lines@.map_values(|l: Vec<char>| l@);
        assert(after =~= next_line_merged(old(self)@, cur.row as int));
        assert(after[cur.row as int].len() == width);
        *self = Buffer { lines };
    }

    /// Splits the cursor's row at its column, the rest going to a new line
    /// below; at the virtual line, an empty line is appended instead.
    pub fn break_line_at(&mut self, cur: &BufCursor)
        requires
            cur.valid_in(old(self)@),
        ensures
            final(self)@ == line_broken(old(self)@, cur.row as int, cur.col as int),
            sizes_fit(final(self)@),
    {
        let mut lines = self.take_lines();
        if cur.row == lines.len() {
            lines.push(Vec::new());
            let height = lines.len();
            let ghost after = lines@.map_values(|l: Vec<char>| l@);
            assert(after =~= line_broken(old(self)@, cur.row as int, cur.col as int));
            assert(after.len() == height);
            *self = Buffer { lines };
            return;
        }
        let mut line = lines.remove(cur.row);
        let rest = line.split_off(cur.col);
        lines.insert(cur.row, line);
        lines.insert(cur.row + 1, rest);
        let height = lines.len();
        let ghost after = lines@.map_values(|l: Vec<char>| l@);
        assert(after =~= line_broken(old(self)@, cur.row as int, cur.col as int));
        assert(after.len() == height);
        *self = Buffer { lines };
    }
}

/// Inserting a character at the end of an existing line places it just after
/// the line's former last character and widens the line by exactly one.
pub proof fn lemma_insert_at_line_end(buf: Buffer, ch: char, row: int)
    requires
        0 <= row < buf@.len(),
    ensures
        ({
            let after = char_inserted(buf@, ch, row, line_width(buf@, row));
            &&& after[row][line_width(buf@, row)] == ch
            &&& line_width(after, row) == line_width(buf@, row) + 1
        }),
{
}

/// Deleting just after a character that was inserted at a valid cursor is
/// allowed and restores the width of that row; on an existing line it
/// restores the whole buffer.
pub proof fn lemma_delete_undoes_insert(buf: Buffer, ch: char, cur: BufCursor)
    requires
        cur.valid_in(buf@),
    ensures
        ({
            let inserted = char_inserted(buf@, ch, cur.row as int, cur.col as int);
            let after = char_deleted(inserted, cur.row as int, cur.col + 1);
            &&& cur.row < inserted.len()
            &&& cur.col + 1 <= inserted[cur.row as int].len()
            &&& line_width(after, cur.row as int) == line_width(buf@, cur.row as int)
            &&& cur.row < buf@.len() ==> after == buf@
        }),
{
    let inserted = char_inserted(buf@, ch, cur.row as int, cur.col as int);
    let after = char_deleted(inserted, cur.row as int, cur.col + 1);
    let grown = if cur.row == buf@.len() {
        buf@.push(Seq::empty())
    } else {
        buf@
    };
    assert(grown[cur.row as int].insert(cur.col as int, ch).remove(cur.col as int)
        =~= grown[cur.row as int]);
    if cur.row < buf@.len() {
        assert(after =~= buf@);
    }
}

/// Writing a buffer whose lines hold no newline as text and reading that
/// text back gives the same buffer: `read` is any buffer that reading the
/// text may give.
pub proof fn lemma_text_round_trip(buf: Buffer, read: Buffer)
    requires
        newline_free(buf@),
        joined(read@) == terminated(joined(buf@)),
        newline_free(read@),
    ensures
        read@ == buf@,
{
    if buf@.len() > 0 {
        lemma_joined_ends_with_newline(buf@);
    }
    lemma_joined_injective(read@, buf@);
}

/// Breaking an existing line and then merging the next line back up restores
/// the buffer; the merge is allowed after the break.
pub proof fn lemma_merge_undoes_break(buf: Buffer, cur: BufCursor)
    requires
        cur.valid_in(buf@),
        cur.row < buf@.len(),
    ensures
        cur.row + 1 < line_broken(buf@, cur.row as int, cur.col as int).len(),
        next_line_merged(line_broken(buf@, cur.row as int, cur.col as int), cur.row as int)
            == buf@,
{
    let r = cur.row as int;
    let line = buf@[r];
    assert(line.take(cur.col as int) + line.skip(cur.col as int) =~= line);
    assert(next_line_merged(line_broken(buf@, r, cur.col as int), r) =~= buf@);
}

} // verus!
