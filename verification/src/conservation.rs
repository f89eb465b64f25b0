//! The fill of a grid as a whole, and the proof that a tick keeps it.

use crate::cell::Cell;
use crate::laws::lemma_fill_never_negative;
use crate::tick::{lemma_flow_from, Tick};
use vstd::prelude::*;

verus! {

/// The sum of `f(0)`, ..., `f(n - 1)`.
pub open spec fn sum(f: spec_fn(int) -> int, n: int) -> int
    decreases n,
{
    if n <= 0 {
        0
    } else {
        sum(f, n - 1) + f(n - 1)
    }
}

/// The fill at each place of a column.
pub open spec fn fills_of(column: Seq<Cell>) -> spec_fn(int) -> int {
    |y: int| column[y].fill()
}

/// All the fill in a column.
pub open spec fn column_fill(column: Seq<Cell>) -> int {
    sum(fills_of(column), column.len() as int)
}

/// The fill of each column of a grid.
pub open spec fn column_fills_of(cells: Seq<Seq<Cell>>) -> spec_fn(int) -> int {
    |x: int| column_fill(cells[x])
}

/// All the fill in a grid.
pub open spec fn total_fill(cells: Seq<Seq<Cell>>) -> int {
    sum(column_fills_of(cells), cells.len() as int)
}

/// One of the four ways in which fill leaves a cell.
pub enum Way {
    Left,
    Right,
    Up,
    Down,
}

/// What the cell at `(x, y)` hands out one way.
pub open spec fn part(t: Tick, way: Way, x: int, y: int) -> int {
    match way {
        Way::Left => t.flow_from(x, y).left,
        Way::Right => t.flow_from(x, y).right,
        Way::Up => t.flow_from(x, y).up,
        Way::Down => t.flow_from(x, y).down,
    }
}

pub open spec fn parts_in_column(t: Tick, way: Way, x: int) -> spec_fn(int) -> int {
    |y: int| part(t, way, x, y)
}

/// What the cells of column `x` hand out one way, taken together.
pub open spec fn column_part(t: Tick, way: Way, x: int) -> int {
    sum(parts_in_column(t, way, x), t.height)
}

pub open spec fn column_parts(t: Tick, way: Way) -> spec_fn(int) -> int {
    |x: int| column_part(t, way, x)
}

proof fn lemma_sum_zero(f: spec_fn(int) -> int, n: int)
    requires
        forall|i: int| 0 <= i < n ==> #[trigger] f(i) == 0,
    ensures
        sum(f, n) == 0,
    decreases n,
{
    if n > 0 {
        lemma_sum_zero(f, n - 1);
    }
}

/// Summing `f` one place earlier: the two sums differ by the two ends.
proof fn lemma_sum_shift_up(f: spec_fn(int) -> int, g: spec_fn(int) -> int, n: int)
    requires
        0 <= n,
        forall|i: int| 0 <= i < n ==> #[trigger] g(i) == f(i - 1),
    ensures
        sum(g, n) + f(n - 1) == sum(f, n) + f(-1),
    decreases n,
{
    if n > 0 {
        lemma_sum_shift_up(f, g, n - 1);
    }
}

/// Summing `f` one place later.
proof fn lemma_sum_shift_down(f: spec_fn(int) -> int, g: spec_fn(int) -> int, n: int)
    requires
        0 <= n,
        forall|i: int| 0 <= i < n ==> #[trigger] g(i) == f(i + 1),
    ensures
        sum(g, n) + f(0) == sum(f, n) + f(n),
    decreases n,
{
    if n > 0 {
        lemma_sum_shift_down(f, g, n - 1);
    }
}

/// Where `a` is `b` plus four gains minus four losses at every place, the
/// sums stand in the same relation.
proof fn lemma_sum_net(
    a: spec_fn(int) -> int,
    b: spec_fn(int) -> int,
    gains: (spec_fn(int) -> int, spec_fn(int) -> int, spec_fn(int) -> int, spec_fn(int) -> int),
    losses: (spec_fn(int) -> int, spec_fn(int) -> int, spec_fn(int) -> int, spec_fn(int) -> int),
    n: int,
)
    requires
        forall|i: int|
            0 <= i < n ==> #[trigger] a(i) == b(i) + (gains.0)(i) + (gains.1)(i) + (gains.2)(i) + (
            gains.3)(i) - (losses.0)(i) - (losses.1)(i) - (losses.2)(i) - (losses.3)(i),
    ensures
        sum(a, n) == sum(b, n) + sum(gains.0, n) + sum(gains.1, n) + sum(gains.2, n) + sum(
            gains.3,
            n,
        ) - sum(losses.0, n) - sum(losses.1, n) - sum(losses.2, n) - sum(losses.3, n),
    decreases n,
{
    if n > 0 {
        lemma_sum_net(a, b, gains, losses, n - 1);
    }
}

/// Nothing leaves the grid and nothing enters it: the cells on an edge hand
/// nothing outwards, and positions outside hand out nothing at all.
proof fn lemma_edges(t: Tick, x: int, y: int)
    requires
        t.wf(),
    ensures
        !t.inside(x, y) ==> part(t, Way::Left, x, y) == 0 && part(t, Way::Right, x, y) == 0
            && part(t, Way::Up, x, y) == 0 && part(t, Way::Down, x, y) == 0,
        x == 0 ==> part(t, Way::Left, x, y) == 0,
        x == t.width - 1 ==> part(t, Way::Right, x, y) == 0,
        y == 0 ==> part(t, Way::Up, x, y) == 0,
        y == t.height - 1 ==> part(t, Way::Down, x, y) == 0,
{
    lemma_flow_from(t, x, y);
}

/// A column gains what the columns beside it hand towards it and loses what
/// it hands sideways; what moves up and down stays within it.
proof fn lemma_column(t: Tick, x: int)
    requires
        t.wf(),
        0 <= x < t.width,
    ensures
        column_fill(t.grid_after()[x]) == column_fill(t.cells[x]) + column_part(
            t,
            Way::Right,
            x - 1,
        ) + column_part(t, Way::Left, x + 1) - column_part(t, Way::Left, x) - column_part(
            t,
            Way::Right,
            x,
        ),
{
    let h = t.height;
    let a = fills_of(t.grid_after()[x]);
    let b = fills_of(t.cells[x]);
    let from_left = parts_in_column(t, Way::Right, x - 1);
    let from_right = parts_in_column(t, Way::Left, x + 1);
    let down = parts_in_column(t, Way::Down, x);
    let up = parts_in_column(t, Way::Up, x);
    let left = parts_in_column(t, Way::Left, x);
    let right = parts_in_column(t, Way::Right, x);
    let from_above = |y: int| part(t, Way::Down, x, y - 1);
    let from_below = |y: int| part(t, Way::Up, x, y + 1);
    assert forall|y: int| 0 <= y < h implies #[trigger] a(y) == b(y) + from_left(y) + from_right(y)
        + from_above(y) + from_below(y) - left(y) - right(y) - up(y) - down(y) by {
        lemma_fill_never_negative(t, x, y);
        assert(t.grid_after()[x][y] == t.cell_after(x, y));
        assert(t.cell(x, y) == t.cells[x][y]);
    }
    lemma_sum_net(
        a,
        b,
        (from_left, from_right, from_above, from_below),
        (left, right, up, down),
        h,
    );
    lemma_sum_shift_up(down, from_above, h);
    lemma_sum_shift_down(up, from_below, h);
    lemma_edges(t, x, h - 1);
    lemma_edges(t, x, -1);
    lemma_edges(t, x, 0);
    lemma_edges(t, x, h);
    assert(down(h - 1) == 0);
    assert(down(-1) == 0);
    assert(up(0) == 0);
    assert(up(h) == 0);
}

/// A column on the edge hands nothing outwards, and a column outside the
/// grid hands out nothing.
proof fn lemma_edge_columns(t: Tick)
    requires
        t.wf(),
    ensures
        column_part(t, Way::Right, t.width - 1) == 0,
        column_part(t, Way::Right, -1) == 0,
        column_part(t, Way::Left, 0) == 0,
        column_part(t, Way::Left, t.width) == 0,
{
    let h = t.height;
    assert forall|y: int| 0 <= y < h implies #[trigger] parts_in_column(t, Way::Right, t.width - 1)(
        y,
    ) == 0 by {
        lemma_edges(t, t.width - 1, y);
    }
    lemma_sum_zero(parts_in_column(t, Way::Right, t.width - 1), h);
    assert forall|y: int| 0 <= y < h implies #[trigger] parts_in_column(t, Way::Right, -1)(y)
        == 0 by {
        lemma_edges(t, -1, y);
    }
    lemma_sum_zero(parts_in_column(t, Way::Right, -1), h);
    assert forall|y: int| 0 <= y < h implies #[trigger] parts_in_column(t, Way::Left, 0)(y)
        == 0 by {
        lemma_edges(t, 0, y);
    }
    lemma_sum_zero(parts_in_column(t, Way::Left, 0), h);
    assert forall|y: int| 0 <= y < h implies #[trigger] parts_in_column(t, Way::Left, t.width)(y)
        == 0 by {
        lemma_edges(t, t.width, y);
    }
    lemma_sum_zero(parts_in_column(t, Way::Left, t.width), h);
}

/// A tick keeps the fill of the grid as a whole: whatever leaves one cell
/// arrives at another, and nothing crosses the edge.
pub proof fn lemma_tick_conserves_fill(t: Tick)
    requires
        t.wf(),
    ensures
        total_fill(t.grid_after()) == total_fill(t.cells),
{
    let w = t.width;
    let a = column_fills_of(t.grid_after());
    let b = column_fills_of(t.cells);
    let left = column_parts(t, Way::Left);
    let right = column_parts(t, Way::Right);
    let from_left = |x: int| column_part(t, Way::Right, x - 1);
    let from_right = |x: int| column_part(t, Way::Left, x + 1);
    let zero = |x: int| 0int;
    assert forall|x: int| 0 <= x < w implies #[trigger] a(x) == b(x) + from_left(x) + from_right(x)
        + zero(x) + zero(x) - left(x) - right(x) - zero(x) - zero(x) by {
        lemma_column(t, x);
    }
    lemma_sum_net(a, b, (from_left, from_right, zero, zero), (left, right, zero, zero), w);
    lemma_sum_shift_up(right, from_left, w);
    lemma_sum_shift_down(left, from_right, w);
    lemma_edge_columns(t);
    assert(right(w - 1) == 0);
    assert(right(-1) == 0);
    assert(left(0) == 0);
    assert(left(w) == 0);
}

} // verus!
