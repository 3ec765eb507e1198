//! Windows: rectangles claimed on a character screen, each with its own
//! coordinates.
use vstd::prelude::*;

verus! {

/// Relies on `std::io::Error` as the error of screen operations; it is only
/// carried through.
#[verifier::external_type_specification]
#[verifier::external_body]
pub struct ExIoError(std::io::Error);

/// A cell of a screen or of a window, counted from 0.
#[derive(Clone, Copy, Debug, PartialEq, Eq, Structural)]
pub struct Position {
    pub row: u16,
    pub col: u16,
}

/// A number of rows and columns.
#[derive(Clone, Copy, Debug, PartialEq, Eq, Structural)]
pub struct Size {
    pub rows: u16,
    pub cols: u16,
}

impl Position {
    /// This position moved down and right by `by`.
    pub fn offset(self, by: Position) -> (r: Position)
        requires
            self.row + by.row <= u16::MAX,
            self.col + by.col <= u16::MAX,
        ensures
            r.row == self.row + by.row,
            r.col == self.col + by.col,
    {
        Position { row: self.row + by.row, col: self.col + by.col }
    }
}

impl Size {
    /// The `i`-th cell of a grid of this size, counting row by row from the
    /// top-left cell.
    pub fn cell_at(&self, i: u32) -> (p: Position)
        requires
            self.cols > 0,
            i < self.rows * self.cols,
        ensures
            p.row == (i as int) / (self.cols as int),
            p.col == (i as int) % (self.cols as int),
    {
        let cols = self.cols as u32;
        let rows = self.rows as u32;
        assert(i / cols < rows) by (nonlinear_arith)
            requires
                i < rows * cols,
                cols > 0,
        ;
        Position { row: (i / cols) as u16, col: (i % cols) as u16 }
    }

    /// Whether `pos` is a cell of a grid of this size.
    pub fn contains(&self, pos: &Position) -> (r: bool)
        ensures
            r == (pos.row < self.rows && pos.col < self.cols),
    {
        pos.row < self.rows && pos.col < self.cols
    }
}

/// A character grid addressed by absolute positions. Its size may change
/// between calls, so it is asked again before each layout.
pub trait Screen {
    /// Writes `s` starting at `pos`; a position outside the current size is
    /// the caller's error.
    fn put_at(&mut self, s: &str, pos: Position) -> Result<(), std::io::Error>;

    fn flush(&mut self) -> Result<(), std::io::Error>;

    fn size(&self) -> Result<Size, std::io::Error>;
}

/// A rectangle of a screen, with the screen borrowed while the window lives.
pub struct Window<'a, S: Screen + ?Sized> {
    screen: &'a mut S,
    pub position: Position,
    pub size: Size,
}

impl<'a, S: Screen + ?Sized> Window<'a, S> {
    /// The window's top-left cell on the screen.
    pub closed spec fn origin(&self) -> Position {
        self.position
    }

    /// The window's number of rows and columns.
    pub closed spec fn extent(&self) -> Size {
        self.size
    }

    /// The rectangle lies within the range of screen positions.
    pub open spec fn fits(&self) -> bool {
        self.origin().row + self.extent().rows <= u16::MAX + 1 && self.origin().col
            + self.extent().cols <= u16::MAX + 1
    }

    pub fn position(&self) -> (r: Position)
        ensures
            r == self.origin(),
    {
        self.position
    }

    pub fn size(&self) -> (r: Size)
        ensures
            r == self.extent(),
    {
        self.size
    }

    /// Writes `s` at `position` within the window, that is at the window's
    /// origin plus `position` on the screen.
    pub fn put_at(&mut self, s: &str, position: Position) -> (r: Result<(), std::io::Error>)
        requires
            old(self).origin().row + position.row <= u16::MAX,
            old(self).origin().col + position.col <= u16::MAX,
        ensures
            final(self).origin() == old(self).origin(),
            final(self).extent() == old(self).extent(),
    {
        let at = self.position.offset(position);
        self.screen.put_at(s, at)
    }

    /// Fills every cell of the window with a space, one write per cell in
    /// the order of `Size::cell_at`, and stops at the first failed write.
    pub fn blank(&mut self) -> (r: Result<(), std::io::Error>)
        requires
            old(self).fits(),
        ensures
            final(self).origin() == old(self).origin(),
            final(self).extent() == old(self).extent(),
            old(self).extent().rows == 0 || old(self).extent().cols == 0 ==> r is Ok,
    {
        let size = self.size;
        let rows = size.rows as u32;
        let cols = size.cols as u32;
        assert(rows * cols <= u16::MAX * u16::MAX) by (nonlinear_arith)
            requires
                rows <= u16::MAX,
                cols <= u16::MAX,
        ;
        let count: u32 = rows * cols;
        let mut i: u32 = 0;
        while i < count
            invariant
                self.origin() == old(self).origin(),
                self.extent() == old(self).extent(),
                size == self.extent(),
                self.fits(),
                count == size.rows * size.cols,
            decreases count - i,
        {
            assert(size.cols > 0) by (nonlinear_arith)
                requires
                    i < size.rows * size.cols,
            ;
            let cell = size.cell_at(i);
            assert(cell.row < size.rows) by (nonlinear_arith)
                requires
                    cell.row == (i as int) / (size.cols as int),
                    i < size.rows * size.cols,
                    size.cols > 0,
            ;
            match self.put_at(" ", cell) {
                Ok(()) => {},
                Err(e) => {
                    return Err(e);
                },
            }
            i = i + 1;
        }
        Ok(())
    }
}

/// The windows claimed on one screen. A window is named by the number that
/// `create` returned and is used through `borrow_mut`, one at a time.
pub struct WindowManager<'a, S: Screen + ?Sized> {
    screen: &'a mut S,
    windows: Vec<(Position, Size)>,
}

impl<'a, S: Screen + ?Sized> WindowManager<'a, S> {
    /// The claimed rectangles, by window number.
    pub closed spec fn regions(&self) -> Seq<(Position, Size)> {
        self.windows@
    }

    pub fn new(screen: &'a mut S) -> (r: WindowManager<'a, S>)
        ensures
            r.regions() == Seq::<(Position, Size)>::empty(),
    {
        WindowManager { screen, windows: Vec::new() }
    }

    /// Claims the rectangle at `position` of `size`, and returns its number.
    pub fn create(&mut self, position: Position, size: Size) -> (r: usize)
        ensures
            final(self).regions() == old(self).regions().push((position, size)),
            r == old(self).regions().len(),
    {
        self.windows.push((position, size));
        self.windows.len() - 1
    }

    /// Claims the whole screen at its current size.
    pub fn create_full(&mut self) -> (r: Result<usize, std::io::Error>)
        ensures
            match r {
                Ok(id) => id == old(self).regions().len() && final(self).regions().len() == id
                    + 1 && final(self).regions().take(id as int) == old(self).regions()
                    && final(self).regions()[id as int].0 == (Position { row: 0, col: 0 }),
                Err(_) => final(self).regions() == old(self).regions(),
            },
    {
        match self.screen.size() {
            Ok(size) => {
                let id = self.create(Position { row: 0, col: 0 }, size);
                assert(self.regions().take(id as int) =~= old(self).regions());
                Ok(id)
            },
            Err(e) => Err(e),
        }
    }

    /// The window numbered `window`, borrowing the screen for as long as it
    /// is used; `None` if no window has that number.
    pub fn borrow_mut<'b>(&'b mut self, window: usize) -> (r: Option<Window<'b, S>>)
        ensures
            r.is_some() == (window < old(self).regions().len()),
            r matches Some(w) ==> w.origin() == old(self).regions()[window as int].0
                && w.extent() == old(self).regions()[window as int].1,
            final(self).regions() == old(self).regions(),
    {
        if window < self.windows.len() {
            let (position, size) = self.windows[window];
            Some(Window { screen: &mut *self.screen, position, size })
        } else {
            None
        }
    }
}

} // verus!
