//! Fixed-size storage for the cells of a grid.

use crate::cell::Cell;
use crate::window::Neighborhood;
use vstd::prelude::*;

verus! {

/// The cell storage: a two-dimensional array of the `ndarray` crate, indexed
/// by `[x, y]`.
#[verifier::external_body]
pub struct CellArray {
    inner: ndarray::Array2<Cell>,
}

/// The cells that an array holds, column by column: the entry at `[x][y]` is
/// the element at index `[x, y]`.
pub uninterp spec fn array_cells(a: CellArray) -> Seq<Seq<Cell>>;

/// Largest accepted width or height.
pub const MAX_DIM: i32 = 0x4000;

/// Why a grid or a simulation could not be made.
#[derive(Debug, Clone, Copy, PartialEq, Eq, Structural)]
pub enum ConfigError {
    /// The width or the height is zero or negative.
    EmptyGrid,
    /// The width or the height exceeds `MAX_DIM`.
    GridTooLarge,
    /// The capacity of a cell is zero or negative.
    BadCapacity,
}

/// A sequence of `width` columns of `height` cells each, all equal to `cell`.
pub open spec fn filled(width: nat, height: nat, cell: Cell) -> Seq<Seq<Cell>> {
    Seq::new(width, |x: int| Seq::new(height, |y: int| cell))
}

/// Whether `cells` has exactly `width` columns of `height` cells each.
pub open spec fn rectangular(cells: Seq<Seq<Cell>>, width: nat, height: nat) -> bool {
    &&& cells.len() == width
    &&& forall|x: int| 0 <= x < width ==> (#[trigger] cells[x]).len() == height
}

/// `ndarray::Array2::from_elem` with the shape `(width, height)`: every
/// element of the new array is the given cell.
#[verifier::external_body]
fn array_filled(width: usize, height: usize, cell: Cell) -> (a: CellArray)
    requires
        width * height <= 0x1000_0000,
    ensures
        array_cells(a) == filled(width as nat, height as nat, cell),
{
    CellArray { inner: ndarray::Array2::from_elem((width, height), cell) }
}

/// Indexing an `ndarray::Array2` by `[x, y]`: a copy of the element there.
#[verifier::external_body]
fn array_get(a: &CellArray, x: usize, y: usize) -> (c: Cell)
    requires
        x < array_cells(*a).len(),
        y < array_cells(*a)[x as int].len(),
    ensures
        c == array_cells(*a)[x as int][y as int],
{
    a.inner[[x, y]]
}

/// Assigning through the index `[x, y]` of an `ndarray::Array2`: that element
/// becomes the given cell and every other element stays.
#[verifier::external_body]
fn array_set(a: &mut CellArray, x: usize, y: usize, cell: Cell)
    requires
        x < array_cells(*old(a)).len(),
        y < array_cells(*old(a))[x as int].len(),
    ensures
        array_cells(*final(a)) == array_cells(*old(a)).update(
            x as int,
            array_cells(*old(a))[x as int].update(y as int, cell),
        ),
{
    a.inner[[x, y]] = cell;
}

/// Borrowing through the index `[x, y]` of an `ndarray::Array2`: a reference
/// to that element. What is written through it is what the array then holds
/// there; every other element stays.
#[verifier::external_body]
fn array_get_mut(a: &mut CellArray, x: usize, y: usize) -> (cell: &mut Cell)
    requires
        x < array_cells(*old(a)).len(),
        y < array_cells(*old(a))[x as int].len(),
    ensures
        *cell == array_cells(*old(a))[x as int][y as int],
        array_cells(*final(a)) == array_cells(*old(a)).update(
            x as int,
            array_cells(*old(a))[x as int].update(y as int, *final(cell)),
        ),
{
    &mut a.inner[[x, y]]
}

/// `Clone::clone_from` of `ndarray::Array2`: the target takes the shape and
/// the elements of the source.
#[verifier::external_body]
fn array_copy_from(a: &mut CellArray, source: &CellArray)
    ensures
        array_cells(*final(a)) == array_cells(*source),
{
    a.inner.clone_from(&source.inner);
}

/// What a read at `(x, y)` gives: the stored cell inside the grid, and a wall
/// everywhere else.
pub open spec fn cell_at(cells: Seq<Seq<Cell>>, x: int, y: int) -> Cell {
    if 0 <= x < cells.len() && 0 <= y < cells[x].len() {
        cells[x][y]
    } else {
        Cell::Solid
    }
}

/// Whether `(x, y)` lies inside a grid of the given size.
pub open spec fn in_bounds(width: int, height: int, x: int, y: int) -> bool {
    0 <= x < width && 0 <= y < height
}

/// `cells` with the entry at `(x, y)` replaced.
pub open spec fn with_cell(cells: Seq<Seq<Cell>>, x: int, y: int, cell: Cell) -> Seq<Seq<Cell>> {
    cells.update(x, cells[x].update(y, cell))
}

/// The window centred on `(x, y)`; positions outside the grid read as walls.
pub open spec fn window(cells: Seq<Seq<Cell>>, x: int, y: int) -> Neighborhood {
    Neighborhood {
        above_left: cell_at(cells, x - 1, y - 1),
        above: cell_at(cells, x, y - 1),
        above_right: cell_at(cells, x + 1, y - 1),
        left: cell_at(cells, x - 1, y),
        center: cell_at(cells, x, y),
        right: cell_at(cells, x + 1, y),
        below_left: cell_at(cells, x - 1, y + 1),
        below: cell_at(cells, x, y + 1),
        below_right: cell_at(cells, x + 1, y + 1),
    }
}

/// A rectangle of cells surrounded by an endless wall.
pub struct Grid {
    cells: CellArray,
    width: usize,
    height: usize,
}

impl View for Grid {
    type V = Seq<Seq<Cell>>;

    /// The cells, column by column.
    closed spec fn view(&self) -> Seq<Seq<Cell>> {
        array_cells(self.cells)
    }
}

impl Grid {
    pub closed spec fn spec_width(&self) -> int {
        self.width as int
    }

    pub closed spec fn spec_height(&self) -> int {
        self.height as int
    }

    /// The size is positive and at most `MAX_DIM` each way, and the cells form
    /// a rectangle of that size.
    pub open spec fn wf(&self) -> bool {
        &&& 0 < self.spec_width() <= MAX_DIM
        &&& 0 < self.spec_height() <= MAX_DIM
        &&& rectangular(self@, self.spec_width() as nat, self.spec_height() as nat)
    }

    /// A grid of the given size with every position holding `cell`.
    pub fn new(width: i32, height: i32, cell: Cell) -> (r: Result<Grid, ConfigError>)
        ensures
            width <= 0 || height <= 0 ==> r == Err::<Grid, ConfigError>(ConfigError::EmptyGrid),
            width > 0 && height > 0 && (width > MAX_DIM || height > MAX_DIM) ==> r == Err::<
                Grid,
                ConfigError,
            >(ConfigError::GridTooLarge),
            0 < width <= MAX_DIM && 0 < height <= MAX_DIM ==> r.is_ok() && r.unwrap().wf()
                && r.unwrap().spec_width() == width && r.unwrap().spec_height() == height
                && r.unwrap()@ == filled(width as nat, height as nat, cell),
    {
        if width <= 0 || height <= 0 {
            return Err(ConfigError::EmptyGrid);
        }
        if width > MAX_DIM || height > MAX_DIM {
            return Err(ConfigError::GridTooLarge);
        }
        let w: usize = width as usize;
        let h: usize = height as usize;
        assert(w * h <= 0x1000_0000) by (nonlinear_arith)
            requires
                0 < w <= 0x4000,
                0 < h <= 0x4000,
        ;
        let cells = array_filled(w, h, cell);
        Ok(Grid { cells, width: w, height: h })
    }

    /// Number of columns.
    pub fn width(&self) -> (w: i32)
        requires
            self.wf(),
        ensures
            w == self.spec_width(),
    {
        self.width as i32
    }

    /// Number of rows.
    pub fn height(&self) -> (h: i32)
        requires
            self.wf(),
        ensures
            h == self.spec_height(),
    {
        self.height as i32
    }

    /// The cell at `(x, y)`; a wall outside the grid.
    pub fn get(&self, x: i32, y: i32) -> (c: Cell)
        requires
            self.wf(),
        ensures
            c == cell_at(self@, x as int, y as int),
    {
        if x < 0 || y < 0 || x as usize >= self.width || y as usize >= self.height {
            Cell::Solid
        } else {
            array_get(&self.cells, x as usize, y as usize)
        }
    }

    /// Stores `cell` at `(x, y)` and returns `true`; outside the grid nothing
    /// is stored and `false` is returned.
    pub fn set(&mut self, x: i32, y: i32, cell: Cell) -> (stored: bool)
        requires
            old(self).wf(),
        ensures
            final(self).wf(),
            final(self).spec_width() == old(self).spec_width(),
            final(self).spec_height() == old(self).spec_height(),
            stored == in_bounds(old(self).spec_width(), old(self).spec_height(), x as int, y as int),
            stored ==> final(self)@ == with_cell(old(self)@, x as int, y as int, cell),
            !stored ==> final(self)@ == old(self)@,
    {
        if x < 0 || y < 0 || x as usize >= self.width || y as usize >= self.height {
            false
        } else {
            array_set(&mut self.cells, x as usize, y as usize, cell);
            true
        }
    }

    /// Mutable access to the cell at `(x, y)`; none outside the grid. What is
    /// written through the reference is what the grid then holds there.
    pub fn get_mut(&mut self, x: i32, y: i32) -> (r: Option<&mut Cell>)
        requires
            old(self).wf(),
        ensures
            final(self).wf(),
            final(self).spec_width() == old(self).spec_width(),
            final(self).spec_height() == old(self).spec_height(),
            r.is_some() == in_bounds(
                old(self).spec_width(),
                old(self).spec_height(),
                x as int,
                y as int,
            ),
            match r {
                Some(cell) => *cell == old(self)@[x as int][y as int] && final(self)@ == with_cell(
                    old(self)@,
                    x as int,
                    y as int,
                    *final(cell),
                ),
                None => final(self)@ == old(self)@,
            },
    {
        if x < 0 || y < 0 || x as usize >= self.width || y as usize >= self.height {
            None
        } else {
            Some(array_get_mut(&mut self.cells, x as usize, y as usize))
        }
    }

    /// A snapshot of the cell at `(x, y)` and its eight neighbours.
    pub fn window(&self, x: i32, y: i32) -> (nb: Neighborhood)
        requires
            self.wf(),
        ensures
            nb == window(self@, x as int, y as int),
    {
        // Beyond the ends of the number range every position is a wall, so
        // the position itself stands in for a neighbour that cannot be named.
        let xl: i32 = if x > i32::MIN {
            x - 1
        } else {
            x
        };
        let xr: i32 = if x < i32::MAX {
            x + 1
        } else {
            x
        };
        let ya: i32 = if y > i32::MIN {
            y - 1
        } else {
            y
        };
        let yb: i32 = if y < i32::MAX {
            y + 1
        } else {
            y
        };
        Neighborhood {
            above_left: self.get(xl, ya),
            above: self.get(x, ya),
            above_right: self.get(xr, ya),
            left: self.get(xl, y),
            center: self.get(x, y),
            right: self.get(xr, y),
            below_left: self.get(xl, yb),
            below: self.get(x, yb),
            below_right: self.get(xr, yb),
        }
    }

    /// Makes `target` an independent copy of this grid.
    pub fn clone_into(&self, target: &mut Grid)
        requires
            self.wf(),
        ensures
            final(target).wf(),
            final(target)@ == self@,
            final(target).spec_width() == self.spec_width(),
            final(target).spec_height() == self.spec_height(),
    {
        array_copy_from(&mut target.cells, &self.cells);
        target.width = self.width;
        target.height = self.height;
    }

    /// Exchanges this grid with `other`, without copying a cell.
    pub fn swap(&mut self, other: &mut Grid)
        ensures
            *final(self) == *old(other),
            *final(other) == *old(self),
    {
        std::mem::swap(self, other);
    }
}

/// A view of a grid through a square whose top left corner lies at
/// `(start_coord_x, start_coord_y)`: positions are counted from that corner.
pub struct SimSquareRef<'a> {
    pub sim: &'a mut Grid,
    pub start_coord_x: i32,
    pub start_coord_y: i32,
}

impl<'a> SimSquareRef<'a> {
    /// The cell at `(x, y)` of the square; a wall where the square reaches
    /// beyond the grid.
    pub fn get(&self, x: i32, y: i32) -> (c: Cell)
        requires
            self.sim.wf(),
        ensures
            c == cell_at(old(self.sim)@, self.start_coord_x + x, self.start_coord_y + y),
    {
        let gx: i64 = self.start_coord_x as i64 + x as i64;
        let gy: i64 = self.start_coord_y as i64 + y as i64;
        if gx < 0 || gy < 0 || gx > i32::MAX as i64 || gy > i32::MAX as i64 {
            Cell::Solid
        } else {
            self.sim.get(gx as i32, gy as i32)
        }
    }

    /// Mutable access to the cell at `(x, y)` of the square; none where the
    /// square reaches beyond the grid.
    pub fn get_mut(&mut self, x: i32, y: i32) -> (r: Option<&mut Cell>)
        requires
            old(self).sim.wf(),
        ensures
            *final(final(self).sim) == *final(old(self).sim),
            final(self).sim.wf(),
            final(self).sim.spec_width() == old(self).sim.spec_width(),
            final(self).sim.spec_height() == old(self).sim.spec_height(),
            final(self).start_coord_x == old(self).start_coord_x,
            final(self).start_coord_y == old(self).start_coord_y,
            r.is_some() == in_bounds(
                old(self).sim.spec_width(),
                old(self).sim.spec_height(),
                old(self).start_coord_x + x,
                old(self).start_coord_y + y,
            ),
            match r {
                Some(cell) => *cell == cell_at(
                    old(self).sim@,
                    old(self).start_coord_x + x,
                    old(self).start_coord_y + y,
                ) && final(self).sim@ == with_cell(
                    old(self).sim@,
                    old(self).start_coord_x + x,
                    old(self).start_coord_y + y,
                    *final(cell),
                ),
                None => final(self).sim@ == old(self).sim@,
            },
    {
        let gx: i64 = self.start_coord_x as i64 + x as i64;
        let gy: i64 = self.start_coord_y as i64 + y as i64;
        if gx < 0 || gy < 0 || gx > i32::MAX as i64 || gy > i32::MAX as i64 {
            None
        } else {
            self.sim.get_mut(gx as i32, gy as i32)
        }
    }
}

} // verus!
