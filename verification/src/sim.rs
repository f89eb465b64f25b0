//! The simulation: two grids of one size, of which one is live.

use crate::cell::{Cell, WaterData, FILL_CAP};
use crate::conservation::{
    column_fill, column_fills_of, fills_of, lemma_tick_conserves_fill, sum, total_fill,
};
use crate::grid::{cell_at, filled, in_bounds, rectangular, with_cell, ConfigError, Grid, MAX_DIM};
use crate::rule::coin_for;
use crate::scatter::{close, lemma_scan_end, lemma_so_far_bounds, scan, tick_of, visited};
use crate::tick::Tick;
use rand::rngs::StdRng;
use vstd::prelude::*;

verus! {

/// Why a tick did not take place.
#[derive(Debug, Clone, Copy, PartialEq, Eq, Structural)]
pub enum TickError {
    /// Some cell would hold more fill or inertia than a cell can store.
    Overflow,
}

/// Whether `(x, y)` lies in the square brush of the given radius round
/// `(cx, cy)`.
pub open spec fn in_brush(cx: int, cy: int, radius: int, x: int, y: int) -> bool {
    cx - radius <= x <= cx + radius && cy - radius <= y <= cy + radius
}

/// `cells` with every position under the brush replaced by `template`.
pub open spec fn painted(
    cells: Seq<Seq<Cell>>,
    cx: int,
    cy: int,
    radius: int,
    template: Cell,
) -> Seq<Seq<Cell>> {
    Seq::new(
        cells.len(),
        |x: int|
            Seq::new(
                cells[x].len(),
                |y: int|
                    if in_brush(cx, cy, radius, x, y) {
                        template
                    } else {
                        cells[x][y]
                    },
            ),
    )
}

/// What a seeding puts at `(x, y)`: empty water at rest where the flag of
/// the position is set, and air where it is not or where there is no flag.
/// The flags lie in row-major order.
pub open spec fn seeded_cell(wet: Seq<bool>, width: int, x: int, y: int) -> Cell {
    let k = y * width + x;
    if 0 <= k < wet.len() && wet[k] {
        Cell::Water(WaterData { fill: 0, inertia_horiz: 0, inertia_vert: 0 })
    } else {
        Cell::Air
    }
}

/// A grid of the given size as a seeding leaves it.
pub open spec fn seeded(wet: Seq<bool>, width: int, height: int) -> Seq<Seq<Cell>> {
    Seq::new(
        width as nat,
        |x: int| Seq::new(height as nat, |y: int| seeded_cell(wet, width, x, y)),
    )
}

/// A grid that advances tick by tick. It owns the live grid and a write
/// buffer of the same size; a tick fills the buffer and then makes it live.
pub struct Simulation {
    current: Grid,
    next: Grid,
    max_fill: i32,
    remain_min: i32,
}

impl View for Simulation {
    type V = Seq<Seq<Cell>>;

    /// The cells of the live grid, column by column.
    closed spec fn view(&self) -> Seq<Seq<Cell>> {
        self.current@
    }
}

impl Simulation {
    pub closed spec fn spec_width(&self) -> int {
        self.current.spec_width()
    }

    pub closed spec fn spec_height(&self) -> int {
        self.current.spec_height()
    }

    pub closed spec fn spec_max_fill(&self) -> int {
        self.max_fill as int
    }

    pub closed spec fn spec_remain_min(&self) -> int {
        self.remain_min as int
    }

    /// The tick that this simulation makes with the given coins.
    pub open spec fn tick(&self, coins: Seq<bool>) -> Tick {
        Tick {
            cells: self@,
            width: self.spec_width(),
            height: self.spec_height(),
            max_fill: self.spec_max_fill(),
            remain_min: self.spec_remain_min(),
            coins,
        }
    }

    /// Both grids are rectangles of one size, every live cell is valid and
    /// the capacity is positive.
    pub closed spec fn wf(&self) -> bool {
        &&& self.current.wf()
        &&& self.next.wf()
        &&& self.next.spec_width() == self.current.spec_width()
        &&& self.next.spec_height() == self.current.spec_height()
        &&& self.tick(Seq::empty()).wf()
    }

    /// What a well-formed simulation is, in terms of what can be seen of it.
    pub proof fn lemma_wf(&self, coins: Seq<bool>)
        requires
            self.wf(),
        ensures
            self.tick(coins).wf(),
            self.spec_width() <= MAX_DIM,
            self.spec_height() <= MAX_DIM,
    {
        assert(self.tick(Seq::empty()).wf());
    }

    /// A simulation of the given size with every position holding air.
    pub fn new(width: i32, height: i32, max_fill: i32, remain_min: i32) -> (r: Result<
        Simulation,
        ConfigError,
    >)
        ensures
            width <= 0 || height <= 0 ==> r == Err::<Simulation, ConfigError>(
                ConfigError::EmptyGrid,
            ),
            width > 0 && height > 0 && (width > MAX_DIM || height > MAX_DIM) ==> r == Err::<
                Simulation,
                ConfigError,
            >(ConfigError::GridTooLarge),
            0 < width <= MAX_DIM && 0 < height <= MAX_DIM && max_fill <= 0 ==> r == Err::<
                Simulation,
                ConfigError,
            >(ConfigError::BadCapacity),
            0 < width <= MAX_DIM && 0 < height <= MAX_DIM && max_fill > 0 ==> r.is_ok()
                && r.unwrap().wf() && r.unwrap().spec_width() == width && r.unwrap().spec_height()
                == height && r.unwrap().spec_max_fill() == max_fill
                && r.unwrap().spec_remain_min() == remain_min && r.unwrap()@ == filled(
                width as nat,
                height as nat,
                Cell::Air,
            ),
    {
        let current = match Grid::new(width, height, Cell::Air) {
            Ok(grid) => grid,
            Err(e) => {
                return Err(e);
            },
        };
        let next = match Grid::new(width, height, Cell::Air) {
            Ok(grid) => grid,
            Err(e) => {
                return Err(e);
            },
        };
        if max_fill <= 0 {
            return Err(ConfigError::BadCapacity);
        }
        Ok(Simulation { current, next, max_fill, remain_min })
    }

    /// Number of columns.
    pub fn width(&self) -> (w: i32)
        requires
            self.wf(),
        ensures
            w == self.spec_width(),
    {
        self.current.width()
    }

    /// Number of rows.
    pub fn height(&self) -> (h: i32)
        requires
            self.wf(),
        ensures
            h == self.spec_height(),
    {
        self.current.height()
    }

    /// The capacity of a cell.
    pub fn max_fill(&self) -> (m: i32)
        ensures
            m == self.spec_max_fill(),
    {
        self.max_fill
    }

    /// The bias of the sideways step.
    pub fn remain_min(&self) -> (m: i32)
        ensures
            m == self.spec_remain_min(),
    {
        self.remain_min
    }

    /// The live cell at `(x, y)`; a wall outside the grid.
    pub fn cell_at(&self, x: i32, y: i32) -> (c: Cell)
        requires
            self.wf(),
        ensures
            c == cell_at(self@, x as int, y as int),
    {
        self.current.get(x, y)
    }

    /// The live grid, for reading.
    pub fn snapshot(&self) -> (g: &Grid)
        requires
            self.wf(),
        ensures
            g.wf(),
            g@ == self@,
            g.spec_width() == self.spec_width(),
            g.spec_height() == self.spec_height(),
    {
        &self.current
    }

    /// All the fill in the live grid.
    pub fn total_fill(&self) -> (total: i64)
        requires
            self.wf(),
        ensures
            total == total_fill(self@),
    {
        let w: i32 = self.current.width();
        let h: i32 = self.current.height();
        let ghost cells = self@;
        let mut total: i64 = 0;
        let mut x: i32 = 0;
        while x < w
            invariant
                0 <= x <= w,
                self.wf(),
                cells == self@,
                w == self.spec_width(),
                h == self.spec_height(),
                0 < w <= MAX_DIM,
                0 < h <= MAX_DIM,
                total == sum(column_fills_of(cells), x as int),
                0 <= total <= x * 0x400_0000_0000,
            decreases w - x,
        {
            let mut column: i64 = 0;
            let mut y: i32 = 0;
            while y < h
                invariant
                    0 <= y <= h,
                    0 <= x < w,
                    self.wf(),
                    cells == self@,
                    w == self.spec_width(),
                    h == self.spec_height(),
                    0 < h <= MAX_DIM,
                    column == sum(fills_of(cells[x as int]), y as int),
                    0 <= column <= y * FILL_CAP,
                decreases h - y,
            {
                proof {
                    assert(self.tick(Seq::empty()).cells[x as int][y as int].valid());
                }
                match self.current.get(x, y) {
                    Cell::Water(water) => {
                        column = column + water.fill as i64;
                    },
                    _ => {},
                }
                y += 1;
            }
            proof {
                assert(cells[x as int].len() == h);
                assert(column == column_fill(cells[x as int]));
                assert(column <= 0x400_0000_0000);
            }
            total = total + column;
            x += 1;
        }
        total
    }

    /// Stores a valid cell at a position inside the grid and returns `true`.
    /// An invalid cell or a position outside is refused: nothing changes and
    /// `false` is returned.
    pub fn set(&mut self, x: i32, y: i32, cell: Cell) -> (stored: bool)
        requires
            old(self).wf(),
        ensures
            final(self).wf(),
            final(self).spec_width() == old(self).spec_width(),
            final(self).spec_height() == old(self).spec_height(),
            final(self).spec_max_fill() == old(self).spec_max_fill(),
            final(self).spec_remain_min() == old(self).spec_remain_min(),
            stored == (cell.valid() && in_bounds(
                old(self).spec_width(),
                old(self).spec_height(),
                x as int,
                y as int,
            )),
            stored ==> final(self)@ == with_cell(old(self)@, x as int, y as int, cell),
            !stored ==> final(self)@ == old(self)@,
    {
        if cell.is_valid() {
            self.current.set(x, y, cell)
        } else {
            false
        }
    }

    /// Starts the grid afresh: every position whose flag in `wet` is set
    /// becomes empty water at rest, every other position air.
    pub fn seed(&mut self, wet: &Vec<bool>)
        requires
            old(self).wf(),
        ensures
            final(self).wf(),
            final(self).spec_width() == old(self).spec_width(),
            final(self).spec_height() == old(self).spec_height(),
            final(self).spec_max_fill() == old(self).spec_max_fill(),
            final(self).spec_remain_min() == old(self).spec_remain_min(),
            final(self)@ == seeded(wet@, old(self).spec_width(), old(self).spec_height()),
    {
        let w: i32 = self.current.width();
        let h: i32 = self.current.height();
        let mut k: usize = 0;
        let mut y: i32 = 0;
        while y < h
            invariant
                0 <= y <= h,
                0 < w <= MAX_DIM,
                0 < h <= MAX_DIM,
                w == self.current.spec_width(),
                h == self.current.spec_height(),
                self.current.wf(),
                self.current.spec_width() == old(self).current.spec_width(),
                self.current.spec_height() == old(self).current.spec_height(),
                self.next == old(self).next,
                self.max_fill == old(self).max_fill,
                self.remain_min == old(self).remain_min,
                k == y * w,
                forall|px: int, py: int|
                    0 <= px < w && 0 <= py < h && py < y ==> #[trigger] self.current@[px][py]
                        == seeded_cell(wet@, w as int, px, py),
                forall|px: int, py: int|
                    0 <= px < w && 0 <= py < h ==> (#[trigger] self.current@[px][py]).valid(),
            decreases h - y,
        {
            let mut x: i32 = 0;
            while x < w
                invariant
                    0 <= x <= w,
                    0 <= y < h,
                    0 < w <= MAX_DIM,
                    0 < h <= MAX_DIM,
                    w == self.current.spec_width(),
                    h == self.current.spec_height(),
                    self.current.wf(),
                    self.current.spec_width() == old(self).current.spec_width(),
                    self.current.spec_height() == old(self).current.spec_height(),
                    self.next == old(self).next,
                    self.max_fill == old(self).max_fill,
                    self.remain_min == old(self).remain_min,
                    k == y * w + x,
                    forall|px: int, py: int|
                        0 <= px < w && 0 <= py < h && visited(px, py, x as int, y as int)
                            ==> #[trigger] self.current@[px][py] == seeded_cell(
                            wet@,
                            w as int,
                            px,
                            py,
                        ),
                    forall|px: int, py: int|
                        0 <= px < w && 0 <= py < h ==> (#[trigger] self.current@[px][py]).valid(),
                decreases w - x,
            {
                proof {
                    assert(y * w + x < 0x1000_0000) by (nonlinear_arith)
                        requires
                            0 <= x < w <= 0x4000,
                            0 <= y < 0x4000,
                    ;
                }
                let cell = if k < wet.len() && wet[k] {
                    Cell::Water(WaterData { fill: 0, inertia_horiz: 0, inertia_vert: 0 })
                } else {
                    Cell::Air
                };
                let ghost mid = self.current@;
                self.current.set(x, y, cell);
                proof {
                    assert forall|px: int, py: int|
                        0 <= px < w && 0 <= py < h implies (
                    #[trigger] self.current@[px][py]).valid() by {
                        if px == x && py == y {
                        } else {
                            assert(self.current@[px][py] == mid[px][py]);
                        }
                    }
                    assert forall|px: int, py: int|
                        0 <= px < w && 0 <= py < h && visited(
                            px,
                            py,
                            x + 1,
                            y as int,
                        ) implies #[trigger] self.current@[px][py] == seeded_cell(
                        wet@,
                        w as int,
                        px,
                        py,
                    ) by {
                        if px == x && py == y {
                        } else {
                            assert(self.current@[px][py] == mid[px][py]);
                        }
                    }
                }
                x += 1;
                k += 1;
            }
            proof {
                assert(y * w + w == (y + 1) * w) by (nonlinear_arith);
            }
            y += 1;
        }
        proof {
            let goal = seeded(wet@, w as int, h as int);
            assert(self.current@.len() == goal.len());
            assert forall|px: int| 0 <= px < w implies #[trigger] self.current@[px] == goal[px] by {
                assert(self.current@[px].len() == h);
                assert forall|py: int| 0 <= py < h implies self.current@[px][py] == goal[px][py] by {
                    assert(self.current@[px][py] == seeded_cell(wet@, w as int, px, py));
                }
                assert(self.current@[px] =~= goal[px]);
            }
            assert(self.current@ =~= goal);
        }
    }

    /// Overwrites every position under the square brush of the given radius
    /// round `(center_x, center_y)` with a copy of `template`, as far as the
    /// brush lies inside the grid, and returns `true`. An invalid template is
    /// refused: nothing changes and `false` is returned.
    pub fn paint_region(&mut self, center_x: i32, center_y: i32, radius: i32, template: Cell) -> (done:
        bool)
        requires
            old(self).wf(),
        ensures
            final(self).wf(),
            final(self).spec_width() == old(self).spec_width(),
            final(self).spec_height() == old(self).spec_height(),
            final(self).spec_max_fill() == old(self).spec_max_fill(),
            final(self).spec_remain_min() == old(self).spec_remain_min(),
            done == template.valid(),
            done ==> final(self)@ == painted(
                old(self)@,
                center_x as int,
                center_y as int,
                radius as int,
                template,
            ),
            !done ==> final(self)@ == old(self)@,
    {
        if !template.is_valid() {
            return false;
        }
        let ghost before = self.current@;
        let ghost cx = center_x as int;
        let ghost cy = center_y as int;
        let ghost rad = radius as int;
        let w: i64 = self.current.width() as i64;
        let h: i64 = self.current.height() as i64;
        let x_start: i64 = clamp(center_x as i64 - radius as i64, w);
        let x_end: i64 = clamp(center_x as i64 + radius as i64 + 1, w);
        let y_start: i64 = clamp(center_y as i64 - radius as i64, h);
        let y_end: i64 = clamp(center_y as i64 + radius as i64 + 1, h);
        let mut y: i64 = y_start;
        while y < y_end
            invariant
                y_start <= y,
                0 <= y_start <= h,
                0 <= y_end <= h,
                w == self.current.spec_width(),
                h == self.current.spec_height(),
                x_start == clamped(cx - rad, w as int),
                x_end == clamped(cx + rad + 1, w as int),
                y_start == clamped(cy - rad, h as int),
                y_end == clamped(cy + rad + 1, h as int),
                self.current.wf(),
                self.current.spec_width() == old(self).current.spec_width(),
                self.current.spec_height() == old(self).current.spec_height(),
                self.next == old(self).next,
                self.max_fill == old(self).max_fill,
                self.remain_min == old(self).remain_min,
                rectangular(before, w as nat, h as nat),
                forall|px: int, py: int|
                    0 <= px < w && 0 <= py < h ==> #[trigger] self.current@[px][py] == (if in_brush(
                        cx,
                        cy,
                        rad,
                        px,
                        py,
                    ) && py < y {
                        template
                    } else {
                        before[px][py]
                    }),
            decreases y_end - y,
        {
            let mut x: i64 = x_start;
            while x < x_end
                invariant
                    x_start <= x,
                    0 <= x_start <= w,
                    0 <= x_end <= w,
                    y_start <= y < y_end,
                    0 <= y_start <= h,
                    0 <= y_end <= h,
                    w == self.current.spec_width(),
                    h == self.current.spec_height(),
                    w <= MAX_DIM,
                    h <= MAX_DIM,
                    x_start == clamped(cx - rad, w as int),
                    x_end == clamped(cx + rad + 1, w as int),
                    y_start == clamped(cy - rad, h as int),
                    y_end == clamped(cy + rad + 1, h as int),
                    self.current.wf(),
                    self.current.spec_width() == old(self).current.spec_width(),
                    self.current.spec_height() == old(self).current.spec_height(),
                    self.next == old(self).next,
                    self.max_fill == old(self).max_fill,
                    self.remain_min == old(self).remain_min,
                    rectangular(before, w as nat, h as nat),
                    forall|px: int, py: int|
                        0 <= px < w && 0 <= py < h ==> #[trigger] self.current@[px][py]
                            == (if in_brush(cx, cy, rad, px, py) && visited(
                            px,
                            py,
                            x as int,
                            y as int,
                        ) {
                            template
                        } else {
                            before[px][py]
                        }),
                decreases x_end - x,
            {
                let ghost mid = self.current@;
                self.current.set(x as i32, y as i32, template);
                proof {
                    assert forall|px: int, py: int|
                        0 <= px < w && 0 <= py < h implies #[trigger] self.current@[px][py]
                        == (if in_brush(cx, cy, rad, px, py) && visited(px, py, x + 1, y as int) {
                        template
                    } else {
                        before[px][py]
                    }) by {
                        if px == x && py == y {
                        } else {
                            assert(self.current@[px][py] == mid[px][py]);
                        }
                    }
                }
                x += 1;
            }
            y += 1;
        }
        proof {
            let goal = painted(before, cx, cy, rad, template);
            assert(self.current@.len() == goal.len());
            assert forall|px: int| 0 <= px < w implies #[trigger] self.current@[px] == goal[px] by {
                assert(self.current@[px].len() == h);
                assert(before[px].len() == h);
                assert forall|py: int| 0 <= py < h implies self.current@[px][py] == goal[px][py] by {
                    assert(self.current@[px][py] == (if in_brush(cx, cy, rad, px, py) && py < y {
                        template
                    } else {
                        before[px][py]
                    }));
                }
                assert(self.current@[px] =~= goal[px]);
            }
            assert(self.current@ =~= goal);
            assert forall|px: int, py: int| 0 <= px < w && 0 <= py < h implies (
            #[trigger] self.current@[px][py]).valid() by {
                assert(old(self).tick(Seq::empty()).cells[px][py].valid());
            }
        }
        true
    }

    /// Whether `after` and `r` are what a tick with the given coins leaves of
    /// this simulation: the grid after the tick and success where every cell
    /// of it can be stored, and else the grid as it was and an error.
    pub open spec fn ticked(
        &self,
        coins: Seq<bool>,
        after: Seq<Seq<Cell>>,
        r: Result<(), TickError>,
    ) -> bool {
        if self.tick(coins).fits() {
            r == Ok::<(), TickError>(()) && after == self.tick(coins).grid_after()
        } else {
            r == Err::<(), TickError>(TickError::Overflow) && after == self@
        }
    }

    /// Advances the simulation by one tick, breaking the tie of the cell at
    /// `(x, y)` with the coin at index `y * width + x`.
    ///
    /// The outcome is a function of the grid, the settings and the coins.
    pub fn advance_tick_with(&mut self, coins: &Vec<bool>) -> (r: Result<(), TickError>)
        requires
            old(self).wf(),
        ensures
            final(self).wf(),
            final(self).spec_width() == old(self).spec_width(),
            final(self).spec_height() == old(self).spec_height(),
            final(self).spec_max_fill() == old(self).spec_max_fill(),
            final(self).spec_remain_min() == old(self).spec_remain_min(),
            old(self).ticked(coins@, final(self)@, r),
            total_fill(final(self)@) == total_fill(old(self)@),
            forall|x: int, y: int| (#[trigger] cell_at(final(self)@, x, y)).fill() >= 0,
    {
        let ghost t = self.tick(coins@);
        proof {
            self.lemma_wf(coins@);
            lemma_tick_conserves_fill(t);
            assert forall|x: int, y: int| (#[trigger] cell_at(self@, x, y)).fill() >= 0 by {
                if 0 <= x < t.width && 0 <= y < t.height {
                    assert(t.cells[x][y].valid());
                }
            }
        }
        self.current.clone_into(&mut self.next);
        scan(&self.current, &mut self.next, self.max_fill, self.remain_min, coins);
        let ok = close(
            &self.current,
            &mut self.next,
            self.max_fill,
            self.remain_min,
            Ghost(coins@),
        );
        if ok {
            proof {
                assert forall|x: int, y: int| 0 <= x < t.width && 0 <= y < t.height implies (
                #[trigger] self.next@[x][y]).valid() by {
                    lemma_scan_end(t, x, y);
                    lemma_so_far_bounds(t, x, y, 0, t.height);
                    assert(t.cell_fits(x, y));
                    assert(self.next@[x][y] == t.cell_after(x, y));
                    assert(t.cells[x][y].valid());
                }
                assert forall|x: int, y: int| (#[trigger] cell_at(self.next@, x, y)).fill()
                    >= 0 by {
                    if 0 <= x < t.width && 0 <= y < t.height {
                        assert(self.next@[x][y].valid());
                    }
                }
            }
            self.current.swap(&mut self.next);
            Ok(())
        } else {
            Err(TickError::Overflow)
        }
    }

    /// Draws, row by row, a coin for every cell whose rule needs one.
    fn draw_coins(&self, rng: &mut StdRng) -> (coins: Vec<bool>)
        requires
            self.wf(),
        ensures
            coins@.len() == self.spec_width() * self.spec_height(),
    {
        let w: i32 = self.current.width();
        let h: i32 = self.current.height();
        let mut coins: Vec<bool> = Vec::new();
        let mut y: i32 = 0;
        while y < h
            invariant
                0 <= y <= h,
                self.wf(),
                w == self.spec_width(),
                h == self.spec_height(),
                coins@.len() == y * w,
            decreases h - y,
        {
            let mut x: i32 = 0;
            while x < w
                invariant
                    0 <= x <= w,
                    0 <= y < h,
                    self.wf(),
                    w == self.spec_width(),
                    h == self.spec_height(),
                    coins@.len() == y * w + x,
                decreases w - x,
            {
                let nb = self.current.window(x, y);
                coins.push(coin_for(&nb, self.max_fill, self.remain_min, rng));
                x += 1;
            }
            proof {
                assert(y * w + w == (y + 1) * w) by (nonlinear_arith);
            }
            y += 1;
        }
        proof {
            assert(h * w == w * h) by (nonlinear_arith);
        }
        coins
    }

    /// Advances the simulation by one tick. Coins are drawn from `rng` in
    /// row-major order, one for each cell whose outcome depends on a coin.
    ///
    /// Whatever is drawn, the outcome is that of `advance_tick_with` for some
    /// sequence of one coin per cell.
    pub fn advance_tick(&mut self, rng: &mut StdRng) -> (r: Result<(), TickError>)
        requires
            old(self).wf(),
        ensures
            final(self).wf(),
            final(self).spec_width() == old(self).spec_width(),
            final(self).spec_height() == old(self).spec_height(),
            final(self).spec_max_fill() == old(self).spec_max_fill(),
            final(self).spec_remain_min() == old(self).spec_remain_min(),
            exists|coins: Seq<bool>|
                coins.len() == old(self).spec_width() * old(self).spec_height() && old(
                    self,
                ).ticked(coins, final(self)@, r),
            total_fill(final(self)@) == total_fill(old(self)@),
            forall|x: int, y: int| (#[trigger] cell_at(final(self)@, x, y)).fill() >= 0,
    {
        let coins = self.draw_coins(rng);
        let r = self.advance_tick_with(&coins);
        proof {
            assert(coins@.len() == old(self).spec_width() * old(self).spec_height() && old(
                self,
            ).ticked(coins@, self@, r));
        }
        r
    }
}

/// The whole number nearest to `v` in the range from zero to `hi`.
pub open spec fn clamped(v: int, hi: int) -> int {
    if v < 0 {
        0
    } else if v > hi {
        hi
    } else {
        v
    }
}

fn clamp(v: i64, hi: i64) -> (c: i64)
    requires
        0 <= hi,
    ensures
        c == clamped(v as int, hi as int),
{
    if v < 0 {
        0
    } else if v > hi {
        hi
    } else {
        v
    }
}

} // verus!
