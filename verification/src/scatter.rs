//! Accumulating the hand-overs of a tick into the write buffer.
//!
//! The scan visits the cells row by row. Each visit applies the rule to one
//! cell and adds its changes to up to five cells of the write buffer, so a
//! cell of the buffer collects what several visits hand to it.

use crate::cell::{Cell, WaterData, FILL_CAP, INERTIA_CAP};
use crate::grid::{cell_at, rectangular, with_cell, Grid};
use crate::rule::rule_with_coin;
use crate::tick::{lemma_flow_from, Tick};
use crate::window::Flow;
use vstd::prelude::*;

verus! {

/// Whether the scan, standing at `(px, py)`, has already visited `(sx, sy)`.
pub open spec fn visited(sx: int, sy: int, px: int, py: int) -> bool {
    sy < py || (sy == py && sx < px)
}

impl Tick {
    /// What the cell at `(sx, sy)` has handed out when the scan stands at
    /// `(px, py)`.
    pub open spec fn sent(self, sx: int, sy: int, px: int, py: int) -> Flow {
        if visited(sx, sy, px, py) {
            self.flow_from(sx, sy)
        } else {
            Flow::none()
        }
    }

    /// The fill collected at `(x, y)` when the scan stands at `(px, py)`.
    pub open spec fn fill_so_far(self, x: int, y: int, px: int, py: int) -> int {
        self.cell(x, y).fill() + self.sent(x - 1, y, px, py).right + self.sent(
            x + 1,
            y,
            px,
            py,
        ).left + self.sent(x, y - 1, px, py).down + self.sent(x, y + 1, px, py).up - self.sent(
            x,
            y,
            px,
            py,
        ).total()
    }

    pub open spec fn horiz_so_far(self, x: int, y: int, px: int, py: int) -> int {
        self.cell(x, y).inertia_horiz() + self.sent(x - 1, y, px, py).right - self.sent(
            x + 1,
            y,
            px,
            py,
        ).left
    }

    pub open spec fn vert_so_far(self, x: int, y: int, px: int, py: int) -> int {
        self.cell(x, y).inertia_vert() + self.sent(x, y - 1, px, py).down - self.sent(
            x,
            y + 1,
            px,
            py,
        ).up
    }

    /// The cell of the write buffer at `(x, y)` when the scan stands at
    /// `(px, py)`.
    pub open spec fn cell_so_far(self, x: int, y: int, px: int, py: int) -> Cell {
        match self.cell(x, y) {
            Cell::Water(_) => Cell::Water(
                WaterData {
                    fill: self.fill_so_far(x, y, px, py) as i32,
                    inertia_horiz: self.horiz_so_far(x, y, px, py) as i32,
                    inertia_vert: self.vert_so_far(x, y, px, py) as i32,
                },
            ),
            other => other,
        }
    }

    /// The write buffer `buffer` holds what has been collected when the scan
    /// stands at `(px, py)`.
    pub open spec fn collected(self, buffer: Seq<Seq<Cell>>, px: int, py: int) -> bool {
        &&& rectangular(buffer, self.width as nat, self.height as nat)
        &&& forall|x: int, y: int|
            0 <= x < self.width && 0 <= y < self.height ==> #[trigger] buffer[x][y]
                == self.cell_so_far(x, y, px, py)
    }
}

/// `cells` after the water cell at `(x, y)` has received `fill` units and its
/// inertia has changed by `horiz` and `vert`. A position that holds no water
/// takes nothing, and an amount of zero changes nothing.
pub open spec fn deposited(
    cells: Seq<Seq<Cell>>,
    x: int,
    y: int,
    fill: int,
    horiz: int,
    vert: int,
) -> Seq<Seq<Cell>> {
    match cell_at(cells, x, y) {
        Cell::Water(w) => if fill != 0 {
            with_cell(
                cells,
                x,
                y,
                Cell::Water(
                    WaterData {
                        fill: (w.fill + fill) as i32,
                        inertia_horiz: (w.inertia_horiz + horiz) as i32,
                        inertia_vert: (w.inertia_vert + vert) as i32,
                    },
                ),
            )
        } else {
            cells
        },
        _ => cells,
    }
}

/// What is collected at a cell stays within the machine's numbers.
pub proof fn lemma_so_far_bounds(t: Tick, x: int, y: int, px: int, py: int)
    requires
        t.wf(),
        t.inside(x, y),
    ensures
        0 <= t.fill_so_far(x, y, px, py) <= 5 * FILL_CAP,
        -INERTIA_CAP - FILL_CAP <= t.horiz_so_far(x, y, px, py) <= INERTIA_CAP + FILL_CAP,
        -INERTIA_CAP - FILL_CAP <= t.vert_so_far(x, y, px, py) <= INERTIA_CAP + FILL_CAP,
{
    lemma_flow_from(t, x, y);
    lemma_flow_from(t, x - 1, y);
    lemma_flow_from(t, x + 1, y);
    lemma_flow_from(t, x, y - 1);
    lemma_flow_from(t, x, y + 1);
    assert(t.cells[x][y].valid());
}

/// The write buffer after the scan has visited `(x, y)`: the cell there
/// loses what it hands out, and each of its four neighbours gains its part.
pub open spec fn after_visit(t: Tick, buffer: Seq<Seq<Cell>>, x: int, y: int) -> Seq<Seq<Cell>> {
    let f = t.flow_from(x, y);
    let b1 = deposited(buffer, x, y, -f.total(), 0, 0);
    let b2 = deposited(b1, x - 1, y, f.left, -f.left, 0);
    let b3 = deposited(b2, x + 1, y, f.right, f.right, 0);
    let b4 = deposited(b3, x, y - 1, f.up, 0, -f.up);
    deposited(b4, x, y + 1, f.down, 0, f.down)
}

/// A visit moves the scan one cell on.
pub proof fn lemma_visit(t: Tick, buffer: Seq<Seq<Cell>>, x: int, y: int)
    requires
        t.wf(),
        t.inside(x, y),
        t.collected(buffer, x, y),
    ensures
        t.collected(after_visit(t, buffer, x, y), x + 1, y),
{
    let f = t.flow_from(x, y);
    let b1 = deposited(buffer, x, y, -f.total(), 0, 0);
    let b2 = deposited(b1, x - 1, y, f.left, -f.left, 0);
    let b3 = deposited(b2, x + 1, y, f.right, f.right, 0);
    let b4 = deposited(b3, x, y - 1, f.up, 0, -f.up);
    let b5 = deposited(b4, x, y + 1, f.down, 0, f.down);
    lemma_flow_from(t, x, y);
    assert(rectangular(b1, t.width as nat, t.height as nat));
    assert(rectangular(b2, t.width as nat, t.height as nat));
    assert(rectangular(b3, t.width as nat, t.height as nat));
    assert(rectangular(b4, t.width as nat, t.height as nat));
    assert(rectangular(b5, t.width as nat, t.height as nat));
    assert forall|cx: int, cy: int| 0 <= cx < t.width && 0 <= cy < t.height implies #[trigger] b5[cx][cy]
        == t.cell_so_far(cx, cy, x + 1, y) by {
        lemma_so_far_bounds(t, cx, cy, x, y);
        lemma_so_far_bounds(t, cx, cy, x + 1, y);
        assert(buffer[cx][cy] == t.cell_so_far(cx, cy, x, y));
        assert(t.cell(cx, cy) == t.cells[cx][cy]);
        if cx == x && cy == y {
            assert(b1[cx][cy] == t.cell_so_far(cx, cy, x + 1, y));
            assert(b5[cx][cy] == b1[cx][cy]);
        } else if cx == x - 1 && cy == y {
            assert(b1[cx][cy] == buffer[cx][cy]);
            assert(b2[cx][cy] == t.cell_so_far(cx, cy, x + 1, y));
            assert(b5[cx][cy] == b2[cx][cy]);
        } else if cx == x + 1 && cy == y {
            assert(b2[cx][cy] == buffer[cx][cy]);
            assert(b3[cx][cy] == t.cell_so_far(cx, cy, x + 1, y));
            assert(b5[cx][cy] == b3[cx][cy]);
        } else if cx == x && cy == y - 1 {
            assert(b3[cx][cy] == buffer[cx][cy]);
            assert(b4[cx][cy] == t.cell_so_far(cx, cy, x + 1, y));
            assert(b5[cx][cy] == b4[cx][cy]);
        } else if cx == x && cy == y + 1 {
            assert(b4[cx][cy] == buffer[cx][cy]);
            assert(b5[cx][cy] == t.cell_so_far(cx, cy, x + 1, y));
        } else {
            assert(b5[cx][cy] == buffer[cx][cy]);
        }
    }
}

/// Before the scan starts the write buffer is a copy of the grid.
pub proof fn lemma_scan_start(t: Tick)
    requires
        t.wf(),
    ensures
        t.collected(t.cells, 0, 0),
{
    assert forall|x: int, y: int| 0 <= x < t.width && 0 <= y < t.height implies #[trigger] t.cells[x][y]
        == t.cell_so_far(x, y, 0, 0) by {
        lemma_flow_from(t, x, y - 1);
        lemma_flow_from(t, x - 1, y);
        assert(t.cells[x][y].valid());
    }
}

/// The end of a row is the start of the next.
pub proof fn lemma_row_end(t: Tick, buffer: Seq<Seq<Cell>>, y: int)
    requires
        t.wf(),
        0 <= y < t.height,
        t.collected(buffer, t.width, y),
    ensures
        t.collected(buffer, 0, y + 1),
{
    assert forall|cx: int, cy: int| 0 <= cx < t.width && 0 <= cy < t.height implies #[trigger] buffer[cx][cy]
        == t.cell_so_far(cx, cy, 0, y + 1) by {
        lemma_flow_from(t, cx - 1, cy);
        lemma_flow_from(t, cx + 1, cy);
        assert(buffer[cx][cy] == t.cell_so_far(cx, cy, t.width, y));
    }
}

/// After the last row the write buffer holds, for every water cell, the fill
/// after the tick and the inertia before the tick changed by what arrived.
pub proof fn lemma_scan_end(t: Tick, x: int, y: int)
    requires
        t.wf(),
        t.inside(x, y),
    ensures
        t.fill_so_far(x, y, 0, t.height) == t.fill_after(x, y),
        t.horiz_so_far(x, y, 0, t.height) == t.cell(x, y).inertia_horiz() + t.from_left(x, y)
            - t.from_right(x, y),
        t.vert_so_far(x, y, 0, t.height) == t.cell(x, y).inertia_vert() + t.from_above(x, y)
            - t.from_below(x, y),
{
    lemma_flow_from(t, x - 1, y);
    lemma_flow_from(t, x + 1, y);
    lemma_flow_from(t, x, y - 1);
    lemma_flow_from(t, x, y + 1);
}

/// Adds `fill` to the water cell at `(x, y)` and changes its inertia by
/// `horiz` and `vert`.
fn deposit(next: &mut Grid, x: i32, y: i32, fill: i64, horiz: i64, vert: i64)
    requires
        old(next).wf(),
        match cell_at(old(next)@, x as int, y as int) {
            Cell::Water(w) => {
                &&& i32::MIN <= w.fill + fill <= i32::MAX
                &&& i32::MIN <= w.inertia_horiz + horiz <= i32::MAX
                &&& i32::MIN <= w.inertia_vert + vert <= i32::MAX
            },
            _ => true,
        },
    ensures
        final(next).wf(),
        final(next).spec_width() == old(next).spec_width(),
        final(next).spec_height() == old(next).spec_height(),
        final(next)@ == deposited(
            old(next)@,
            x as int,
            y as int,
            fill as int,
            horiz as int,
            vert as int,
        ),
{
    if fill != 0 {
        match next.get(x, y) {
            Cell::Water(w) => {
                let cell = Cell::Water(
                    WaterData {
                        fill: (w.fill as i64 + fill) as i32,
                        inertia_horiz: (w.inertia_horiz as i64 + horiz) as i32,
                        inertia_vert: (w.inertia_vert as i64 + vert) as i32,
                    },
                );
                next.set(x, y, cell);
            },
            _ => {},
        }
    }
}

/// The tick that the given grid, settings and coins make.
pub open spec fn tick_of(grid: Grid, max_fill: int, remain_min: int, coins: Seq<bool>) -> Tick {
    Tick {
        cells: grid@,
        width: grid.spec_width(),
        height: grid.spec_height(),
        max_fill,
        remain_min,
        coins,
    }
}

/// Applies the rule to the cell at `(x, y)` of `current` and adds its changes
/// to `next`.
fn visit(
    current: &Grid,
    next: &mut Grid,
    x: i32,
    y: i32,
    max_fill: i32,
    remain_min: i32,
    coin: bool,
    Ghost(coins): Ghost<Seq<bool>>,
)
    requires
        current.wf(),
        old(next).wf(),
        old(next).spec_width() == current.spec_width(),
        old(next).spec_height() == current.spec_height(),
        tick_of(*current, max_fill as int, remain_min as int, coins).wf(),
        tick_of(*current, max_fill as int, remain_min as int, coins).inside(x as int, y as int),
        coin == tick_of(*current, max_fill as int, remain_min as int, coins).coin(
            x as int,
            y as int,
        ),
        tick_of(*current, max_fill as int, remain_min as int, coins).collected(
            old(next)@,
            x as int,
            y as int,
        ),
    ensures
        final(next).wf(),
        final(next).spec_width() == current.spec_width(),
        final(next).spec_height() == current.spec_height(),
        tick_of(*current, max_fill as int, remain_min as int, coins).collected(
            final(next)@,
            x + 1,
            y as int,
        ),
{
    let ghost t = tick_of(*current, max_fill as int, remain_min as int, coins);
    let ghost b0 = next@;
    let nb = current.window(x, y);
    let d = rule_with_coin(&nb, max_fill, remain_min, coin);
    proof {
        reveal(Tick::flow_from);
        lemma_flow_from(t, x as int, y as int);
        lemma_so_far_bounds(t, x as int, y as int, x as int, y as int);
        if x > 0 {
            lemma_so_far_bounds(t, x - 1, y as int, x as int, y as int);
        }
        if x + 1 < t.width {
            lemma_so_far_bounds(t, x + 1, y as int, x as int, y as int);
        }
        if y > 0 {
            lemma_so_far_bounds(t, x as int, y - 1, x as int, y as int);
        }
        if y + 1 < t.height {
            lemma_so_far_bounds(t, x as int, y + 1, x as int, y as int);
        }
        assert(b0[x as int][y as int] == t.cell_so_far(x as int, y as int, x as int, y as int));
    }
    deposit(next, x, y, d.center, 0, 0);
    let ghost b1 = next@;
    proof {
        if x > 0 {
            assert(b1[x - 1][y as int] == b0[x - 1][y as int]);
            assert(b0[x - 1][y as int] == t.cell_so_far(x - 1, y as int, x as int, y as int));
        }
    }
    deposit(next, x - 1, y, d.left, -d.left, 0);
    let ghost b2 = next@;
    proof {
        if x + 1 < t.width {
            assert(b2[x + 1][y as int] == b0[x + 1][y as int]);
            assert(b0[x + 1][y as int] == t.cell_so_far(x + 1, y as int, x as int, y as int));
        }
    }
    deposit(next, x + 1, y, d.right, d.right, 0);
    let ghost b3 = next@;
    proof {
        if y > 0 {
            assert(b3[x as int][y - 1] == b0[x as int][y - 1]);
            assert(b0[x as int][y - 1] == t.cell_so_far(x as int, y - 1, x as int, y as int));
        }
    }
    deposit(next, x, y - 1, d.above, 0, -d.above);
    let ghost b4 = next@;
    proof {
        if y + 1 < t.height {
            assert(b4[x as int][y + 1] == b0[x as int][y + 1]);
            assert(b0[x as int][y + 1] == t.cell_so_far(x as int, y + 1, x as int, y as int));
        }
    }
    deposit(next, x, y + 1, d.below, 0, d.below);
    proof {
        assert(next@ == after_visit(t, b0, x as int, y as int));
        lemma_visit(t, b0, x as int, y as int);
    }
}

/// Visits every cell of `current` row by row and collects all changes in
/// `next`, which starts as a copy of `current`.
pub(crate) fn scan(
    current: &Grid,
    next: &mut Grid,
    max_fill: i32,
    remain_min: i32,
    coins: &Vec<bool>,
)
    requires
        current.wf(),
        old(next).wf(),
        old(next).spec_width() == current.spec_width(),
        old(next).spec_height() == current.spec_height(),
        old(next)@ == current@,
        tick_of(*current, max_fill as int, remain_min as int, coins@).wf(),
    ensures
        final(next).wf(),
        final(next).spec_width() == current.spec_width(),
        final(next).spec_height() == current.spec_height(),
        tick_of(*current, max_fill as int, remain_min as int, coins@).collected(
            final(next)@,
            0,
            current.spec_height(),
        ),
{
    let ghost t = tick_of(*current, max_fill as int, remain_min as int, coins@);
    let w: i32 = current.width();
    let h: i32 = current.height();
    proof {
        lemma_scan_start(t);
    }
    let mut k: usize = 0;
    let mut y: i32 = 0;
    while y < h
        invariant
            0 <= y <= h,
            w == t.width,
            h == t.height,
            0 < w <= 0x4000,
            0 < h <= 0x4000,
            t == tick_of(*current, max_fill as int, remain_min as int, coins@),
            t.wf(),
            current.wf(),
            next.wf(),
            next.spec_width() == current.spec_width(),
            next.spec_height() == current.spec_height(),
            t.collected(next@, 0, y as int),
            k == y * w,
        decreases h - y,
    {
        let mut x: i32 = 0;
        while x < w
            invariant
                0 <= x <= w,
                0 <= y < h,
                w == t.width,
                h == t.height,
                0 < w <= 0x4000,
                0 < h <= 0x4000,
                t == tick_of(*current, max_fill as int, remain_min as int, coins@),
                t.wf(),
                current.wf(),
                next.wf(),
                next.spec_width() == current.spec_width(),
                next.spec_height() == current.spec_height(),
                t.collected(next@, x as int, y as int),
                k == y * w + x,
            decreases w - x,
        {
            proof {
                assert(y * w + x < 0x1000_0000) by (nonlinear_arith)
                    requires
                        0 <= x < w <= 0x4000,
                        0 <= y < 0x4000,
                ;
                reveal(Tick::coin);
            }
            let coin = if k < coins.len() {
                coins[k]
            } else {
                false
            };
            visit(current, next, x, y, max_fill, remain_min, coin, Ghost(coins@));
            x += 1;
            k += 1;
        }
        proof {
            lemma_row_end(t, next@, y as int);
            assert(y * w + w == (y + 1) * w) by (nonlinear_arith);
        }
        y += 1;
    }
}

impl Tick {
    /// The write buffer `buffer` when the closing pass stands at `(px, py)`:
    /// the cells passed are those after the tick and can be stored, the others
    /// still hold what the scan collected.
    pub open spec fn closing(self, buffer: Seq<Seq<Cell>>, px: int, py: int) -> bool {
        &&& rectangular(buffer, self.width as nat, self.height as nat)
        &&& forall|x: int, y: int|
            0 <= x < self.width && 0 <= y < self.height ==> #[trigger] buffer[x][y] == (if visited(
                x,
                y,
                px,
                py,
            ) {
                self.cell_after(x, y)
            } else {
                self.cell_so_far(x, y, 0, self.height)
            })
        &&& forall|x: int, y: int|
            0 <= x < self.width && 0 <= y < self.height && visited(x, y, px, py)
                ==> #[trigger] self.cell_fits(x, y)
    }
}

/// Clears the inertia of every cell whose fill the tick did not change and
/// tells whether every cell can be stored. Stops at the first cell that
/// cannot.
pub(crate) fn close(
    current: &Grid,
    next: &mut Grid,
    max_fill: i32,
    remain_min: i32,
    Ghost(coins): Ghost<Seq<bool>>,
) -> (ok: bool)
    requires
        current.wf(),
        old(next).wf(),
        old(next).spec_width() == current.spec_width(),
        old(next).spec_height() == current.spec_height(),
        tick_of(*current, max_fill as int, remain_min as int, coins).wf(),
        tick_of(*current, max_fill as int, remain_min as int, coins).collected(
            old(next)@,
            0,
            current.spec_height(),
        ),
    ensures
        final(next).wf(),
        final(next).spec_width() == current.spec_width(),
        final(next).spec_height() == current.spec_height(),
        ok == tick_of(*current, max_fill as int, remain_min as int, coins).fits(),
        ok ==> final(next)@ == tick_of(
            *current,
            max_fill as int,
            remain_min as int,
            coins,
        ).grid_after(),
{
    let ghost t = tick_of(*current, max_fill as int, remain_min as int, coins);
    let w: i32 = current.width();
    let h: i32 = current.height();
    let mut y: i32 = 0;
    while y < h
        invariant
            0 <= y <= h,
            w == t.width,
            h == t.height,
            t == tick_of(*current, max_fill as int, remain_min as int, coins),
            t.wf(),
            current.wf(),
            next.wf(),
            next.spec_width() == current.spec_width(),
            next.spec_height() == current.spec_height(),
            t.closing(next@, 0, y as int),
        decreases h - y,
    {
        let mut x: i32 = 0;
        while x < w
            invariant
                0 <= x <= w,
                0 <= y < h,
                w == t.width,
                h == t.height,
                t == tick_of(*current, max_fill as int, remain_min as int, coins),
                t.wf(),
                current.wf(),
                next.wf(),
                next.spec_width() == current.spec_width(),
                next.spec_height() == current.spec_height(),
                t.closing(next@, x as int, y as int),
            decreases w - x,
        {
            let ghost before = next@;
            proof {
                lemma_scan_end(t, x as int, y as int);
                lemma_so_far_bounds(t, x as int, y as int, 0, t.height);
                assert(before[x as int][y as int] == t.cell_so_far(x as int, y as int, 0, t.height));
                assert(t.cells[x as int][y as int].valid());
            }
            let was = current.get(x, y);
            let now = next.get(x, y);
            match (was, now) {
                (Cell::Water(a), Cell::Water(b)) => {
                    if a.fill == b.fill {
                        let rested = Cell::Water(
                            WaterData { fill: b.fill, inertia_horiz: 0, inertia_vert: 0 },
                        );
                        next.set(x, y, rested);
                    } else if b.fill > FILL_CAP || b.inertia_horiz > INERTIA_CAP || b.inertia_horiz
                        < -INERTIA_CAP || b.inertia_vert > INERTIA_CAP || b.inertia_vert
                        < -INERTIA_CAP {
                        proof {
                            assert(!t.cell_fits(x as int, y as int));
                        }
                        return false;
                    }
                },
                _ => {},
            }
            proof {
                assert(next@[x as int][y as int] == t.cell_after(x as int, y as int));
                assert(t.cell_fits(x as int, y as int));
                assert forall|cx: int, cy: int|
                    0 <= cx < t.width && 0 <= cy < t.height implies #[trigger] next@[cx][cy] == (if visited(
                    cx,
                    cy,
                    x + 1,
                    y as int,
                ) {
                    t.cell_after(cx, cy)
                } else {
                    t.cell_so_far(cx, cy, 0, t.height)
                }) by {
                    if cx == x && cy == y {
                    } else {
                        assert(next@[cx][cy] == before[cx][cy]);
                    }
                }
            }
            x += 1;
        }
        y += 1;
    }
    proof {
        let after = t.grid_after();
        assert(next@.len() == after.len());
        assert forall|cx: int| 0 <= cx < t.width implies #[trigger] next@[cx] == after[cx] by {
            assert(next@[cx].len() == t.height);
            assert forall|cy: int| 0 <= cy < t.height implies next@[cx][cy] == after[cx][cy] by {
                assert(visited(cx, cy, 0, t.height));
            }
            assert(next@[cx] =~= after[cx]);
        }
        assert(next@ =~= after);
    }
    true
}

} // verus!
