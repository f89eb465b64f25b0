//! Following a straight line through the grid for as long as it runs through
//! air.

use crate::cell::Cell;
use crate::grid::{cell_at, SimSquareRef};
use vstd::prelude::*;

verus! {

/// The points that `line_drawing::Supercover` yields for the line from
/// `(x0, y0)` to `(x1, y1)`, in the order in which it yields them.
pub uninterp spec fn supercover_line(x0: i32, y0: i32, x1: i32, y1: i32) -> Seq<(i32, i32)>;

/// Largest magnitude of a coordinate of a line's end.
pub const LINE_REACH: i32 = 0x10_0000;

/// `line_drawing::Supercover::new` for the line from `(x0, y0)` to
/// `(x1, y1)`, run to its end: all the points it yields, in order.
///
/// The iterator counts its steps in single-precision floats, which is exact
/// only for lines far shorter than the number range; the bound keeps every
/// line within what it can count.
#[verifier::external_body]
fn supercover(x0: i32, y0: i32, x1: i32, y1: i32) -> (points: Vec<(i32, i32)>)
    requires
        -LINE_REACH <= x0 <= LINE_REACH,
        -LINE_REACH <= y0 <= LINE_REACH,
        -LINE_REACH <= x1 <= LINE_REACH,
        -LINE_REACH <= y1 <= LINE_REACH,
    ensures
        points@ == supercover_line(x0, y0, x1, y1),
{
    line_drawing::Supercover::new((x0, y0), (x1, y1)).collect()
}

/// The last of `points` before the first that is not air, seen through a
/// square whose corner lies at `(corner_x, corner_y)`; `start` if already the
/// first point is not air or there is no point.
pub open spec fn last_air(
    cells: Seq<Seq<Cell>>,
    corner_x: int,
    corner_y: int,
    start: (i32, i32),
    points: Seq<(i32, i32)>,
) -> (i32, i32)
    decreases points.len(),
{
    if points.len() > 0 && cell_at(cells, corner_x + points[0].0, corner_y + points[0].1)
        == Cell::Air {
        last_air(cells, corner_x, corner_y, points[0], points.drop_first())
    } else {
        start
    }
}

/// A line without its first point.
pub open spec fn after_first(line: Seq<(i32, i32)>) -> Seq<(i32, i32)> {
    if line.len() > 0 {
        line.drop_first()
    } else {
        line
    }
}

/// Walks along `points` while they are air and returns the last one that
/// was; returns `start` if the first is not.
pub fn last_air_of(start: (i32, i32), points: &Vec<(i32, i32)>, state: &SimSquareRef) -> (r: (
    i32,
    i32,
))
    requires
        state.sim.wf(),
    ensures
        r == last_air(
            old(state.sim)@,
            state.start_coord_x as int,
            state.start_coord_y as int,
            start,
            points@,
        ),
{
    let ghost cells = state.sim@;
    let ghost cx = state.start_coord_x as int;
    let ghost cy = state.start_coord_y as int;
    let mut prev = start;
    let mut i: usize = 0;
    proof {
        assert(points@.subrange(0, points@.len() as int) =~= points@);
    }
    while i < points.len()
        invariant
            i <= points.len(),
            state.sim.wf(),
            cells == state.sim@,
            cx == state.start_coord_x,
            cy == state.start_coord_y,
            last_air(cells, cx, cy, start, points@) == last_air(
                cells,
                cx,
                cy,
                prev,
                points@.subrange(i as int, points@.len() as int),
            ),
        decreases points.len() - i,
    {
        let p = points[i];
        let ghost rest = points@.subrange(i as int, points@.len() as int);
        proof {
            assert(rest[0] == p);
            assert(rest.drop_first() =~= points@.subrange(i + 1, points@.len() as int));
        }
        match state.get(p.0, p.1) {
            Cell::Air => {
                prev = p;
            },
            _ => {
                return prev;
            },
        }
        i += 1;
    }
    prev
}

/// The last air cell on the line that starts at `(x, y)` and runs `vel_x`
/// to the right and `vel_y` down, before the first cell that is not air. The
/// start itself is not looked at, and is returned if the very next cell is
/// not air.
pub fn empty_on_line(x: i32, y: i32, vel_x: i32, vel_y: i32, state: &SimSquareRef) -> (r: (
    i32,
    i32,
))
    requires
        state.sim.wf(),
        -LINE_REACH <= x <= LINE_REACH,
        -LINE_REACH <= y <= LINE_REACH,
        -LINE_REACH <= x + vel_x <= LINE_REACH,
        -LINE_REACH <= y + vel_y <= LINE_REACH,
    ensures
        r == last_air(
            old(state.sim)@,
            state.start_coord_x as int,
            state.start_coord_y as int,
            (x, y),
            after_first(supercover_line(x, y, (x + vel_x) as i32, (y + vel_y) as i32)),
        ),
{
    let mut points = supercover(x, y, x + vel_x, y + vel_y);
    if points.len() > 0 {
        points.remove(0);
        proof {
            assert(points@ =~= after_first(
                supercover_line(x, y, (x + vel_x) as i32, (y + vel_y) as i32),
            ));
        }
    }
    last_air_of((x, y), &points, state)
}

} // verus!
