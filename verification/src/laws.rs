//! What holds of every tick.

use crate::cell::{Cell, FILL_CAP};
use crate::sim::{Simulation, TickError};
use crate::grid::window;
use crate::rule::{lemma_rule_flow_bounded, rule_flow};
use crate::scatter::{lemma_scan_end, lemma_so_far_bounds};
use crate::tick::{lemma_flow_from, Tick};
use crate::window::Flow;
use vstd::prelude::*;

verus! {

/// No tick drives a fill below zero: a cell hands out no more than it holds,
/// and what it receives is never negative.
pub proof fn lemma_fill_never_negative(t: Tick, x: int, y: int)
    requires
        t.wf(),
        t.inside(x, y),
    ensures
        0 <= t.fill_after(x, y) <= 5 * FILL_CAP,
        t.cell_after(x, y).fill() == t.fill_after(x, y),
        t.cell_after(x, y).is_water() == t.cell(x, y).is_water(),
{
    lemma_scan_end(t, x, y);
    lemma_so_far_bounds(t, x, y, 0, t.height);
    if !t.cell(x, y).is_water() {
        lemma_untouched_without_water(t, x, y);
    }
}

/// Where there is no water, a tick changes nothing: the position hands out
/// nothing and receives nothing.
pub proof fn lemma_untouched_without_water(t: Tick, x: int, y: int)
    requires
        t.wf(),
        !t.cell(x, y).is_water(),
    ensures
        t.flow_from(x, y) == Flow::none(),
        t.from_left(x, y) == 0,
        t.from_right(x, y) == 0,
        t.from_above(x, y) == 0,
        t.from_below(x, y) == 0,
        t.net(x, y) == 0,
        t.cell_after(x, y) == t.cell(x, y),
{
    reveal(Tick::flow_from);
    lemma_rule_flow_bounded(window(t.cells, x, y), t.max_fill, t.remain_min, t.coin(x, y));
    lemma_flow_from(t, x - 1, y);
    lemma_flow_from(t, x + 1, y);
    lemma_flow_from(t, x, y - 1);
    lemma_flow_from(t, x, y + 1);
}

/// After a tick whose cells can all be stored, the grid is again a rectangle
/// of valid cells; in particular no fill is negative.
pub proof fn lemma_tick_keeps_grid_valid(t: Tick)
    requires
        t.wf(),
        t.fits(),
    ensures
        (Tick { cells: t.grid_after(), ..t }).wf(),
{
    let after = Tick { cells: t.grid_after(), ..t };
    assert forall|x: int, y: int| 0 <= x < after.width && 0 <= y < after.height implies (
    #[trigger] after.cells[x][y]).valid() by {
        lemma_fill_never_negative(t, x, y);
        assert(t.cell_fits(x, y));
        assert(t.cells[x][y].valid());
    }
}

/// Nothing is handed across the edge of the grid: for a cell inside and a
/// neighbouring position outside, the change that the cell's rule makes at
/// that position is zero. The same holds of every position that holds no
/// water.
pub proof fn lemma_boundary_containment(t: Tick, x: int, y: int, dx: int, dy: int)
    requires
        t.wf(),
        t.inside(x, y),
        !(dx == 0 && dy == 0),
        !t.inside(x + dx, y + dy) || !t.cell(x + dx, y + dy).is_water(),
    ensures
        t.flow_from(x, y).delta(dx, dy) == 0,
{
    lemma_flow_from(t, x, y);
}

/// A level layer: every water cell holds `level`, which is no more than the
/// capacity, none has inertia, and none lies on top of another.
pub open spec fn at_rest(t: Tick, level: int) -> bool {
    &&& level <= t.max_fill
    &&& forall|x: int, y: int|
        t.inside(x, y) && (#[trigger] t.cell(x, y)).is_water() ==> {
            &&& t.cell(x, y).fill() == level
            &&& t.cell(x, y).inertia_horiz() == 0
            &&& t.cell(x, y).inertia_vert() == 0
            &&& !t.cell(x, y + 1).is_water()
        }
}

/// A cell of a level layer hands out nothing.
pub proof fn lemma_rest_cell(t: Tick, level: int, x: int, y: int)
    requires
        t.wf(),
        at_rest(t, level),
    ensures
        t.flow_from(x, y) == Flow::none(),
{
    reveal(Tick::flow_from);
    reveal(rule_flow);
    if t.inside(x, y) && t.cell(x, y).is_water() {
        let nb = window(t.cells, x, y);
        assert(nb.left == t.cell(x - 1, y));
        assert(nb.right == t.cell(x + 1, y));
        assert(nb.below == t.cell(x, y + 1));
        assert(nb.center == t.cell(x, y));
        if t.inside(x - 1, y) && t.cell(x - 1, y).is_water() {
            assert(t.cell(x - 1, y).fill() == level);
        }
        if t.inside(x + 1, y) && t.cell(x + 1, y).is_water() {
            assert(t.cell(x + 1, y).fill() == level);
        }
    } else {
        lemma_flow_from(t, x, y);
        if t.inside(x, y) {
            lemma_untouched_without_water(t, x, y);
        }
    }
}

/// A level layer is a fixed point: the tick leaves the grid exactly as it
/// was, whatever the coins.
pub proof fn lemma_rest_stability(t: Tick, level: int)
    requires
        t.wf(),
        at_rest(t, level),
    ensures
        t.fits(),
        t.grid_after() == t.cells,
{
    assert forall|x: int, y: int| t.inside(x, y) implies t.cell_after(x, y) == t.cells[x][y]
        && #[trigger] t.cell_fits(x, y) by {
        lemma_rest_cell(t, level, x, y);
        lemma_rest_cell(t, level, x - 1, y);
        lemma_rest_cell(t, level, x + 1, y);
        lemma_rest_cell(t, level, x, y - 1);
        lemma_rest_cell(t, level, x, y + 1);
        assert(t.cells[x][y].valid());
        assert(t.cell(x, y) == t.cells[x][y]);
    }
    let after = t.grid_after();
    assert forall|x: int| 0 <= x < t.width implies #[trigger] after[x] == t.cells[x] by {
        assert forall|y: int| 0 <= y < t.height implies after[x][y] == t.cells[x][y] by {
            assert(t.cell_fits(x, y));
        }
        assert(after[x] =~= t.cells[x]);
    }
    assert(after =~= t.cells);
}

/// A tick is a function of what it starts from: two simulations that show
/// the same grid and have the same settings, advanced with the same coins,
/// end with the same grid and the same result.
pub proof fn lemma_tick_deterministic(
    a: Simulation,
    b: Simulation,
    coins: Seq<bool>,
    after_a: Seq<Seq<Cell>>,
    after_b: Seq<Seq<Cell>>,
    result_a: Result<(), TickError>,
    result_b: Result<(), TickError>,
)
    requires
        a@ == b@,
        a.spec_width() == b.spec_width(),
        a.spec_height() == b.spec_height(),
        a.spec_max_fill() == b.spec_max_fill(),
        a.spec_remain_min() == b.spec_remain_min(),
        a.ticked(coins, after_a, result_a),
        b.ticked(coins, after_b, result_b),
    ensures
        after_a == after_b,
        result_a == result_b,
{
    assert(a.tick(coins) == b.tick(coins));
}

} // verus!
