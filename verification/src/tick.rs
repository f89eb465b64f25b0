//! What one tick does to a grid, as mathematics.
//!
//! Every cell applies the flow rule to its window in the grid as it stood
//! before the tick. A water cell then holds what it held, plus what its four
//! neighbours handed to it, minus what it handed out.

use crate::cell::{Cell, WaterData, FILL_CAP, INERTIA_CAP};
use crate::grid::{cell_at, window};
use crate::rule::{rule_flow, lemma_rule_flow_bounded};
use crate::window::Flow;
use vstd::prelude::*;

verus! {

/// Everything that a tick depends on.
pub struct Tick {
    /// The grid before the tick, column by column.
    pub cells: Seq<Seq<Cell>>,
    pub width: int,
    pub height: int,
    /// The capacity of a cell.
    pub max_fill: int,
    /// The bias of the sideways step.
    pub remain_min: int,
    /// The coins that break ties, one per cell in row-major order. A cell
    /// beyond the end of the sequence gets an unset coin.
    pub coins: Seq<bool>,
}

impl Tick {
    /// The grid is a rectangle of valid cells and the capacity is positive.
    pub open spec fn wf(self) -> bool {
        &&& 0 < self.width
        &&& 0 < self.height
        &&& self.max_fill > 0
        &&& self.cells.len() == self.width
        &&& forall|x: int| 0 <= x < self.width ==> (#[trigger] self.cells[x]).len() == self.height
        &&& forall|x: int, y: int|
            0 <= x < self.width && 0 <= y < self.height ==> (#[trigger] self.cells[x][y]).valid()
    }

    pub open spec fn inside(self, x: int, y: int) -> bool {
        0 <= x < self.width && 0 <= y < self.height
    }

    /// The cell at `(x, y)` before the tick.
    pub open spec fn cell(self, x: int, y: int) -> Cell {
        cell_at(self.cells, x, y)
    }

    /// The coin of the cell at `(x, y)`.
    #[verifier::opaque]
    pub open spec fn coin(self, x: int, y: int) -> bool {
        let k = y * self.width + x;
        if 0 <= k < self.coins.len() {
            self.coins[k]
        } else {
            false
        }
    }

    /// What the cell at `(x, y)` hands to its neighbours.
    #[verifier::opaque]
    pub open spec fn flow_from(self, x: int, y: int) -> Flow {
        rule_flow(window(self.cells, x, y), self.max_fill, self.remain_min, self.coin(x, y))
    }

    /// What arrives at `(x, y)` moving rightwards, that is from the left
    /// neighbour.
    pub open spec fn from_left(self, x: int, y: int) -> int {
        self.flow_from(x - 1, y).right
    }

    pub open spec fn from_right(self, x: int, y: int) -> int {
        self.flow_from(x + 1, y).left
    }

    pub open spec fn from_above(self, x: int, y: int) -> int {
        self.flow_from(x, y - 1).down
    }

    pub open spec fn from_below(self, x: int, y: int) -> int {
        self.flow_from(x, y + 1).up
    }

    /// The change of the fill at `(x, y)`: what arrives minus what leaves.
    pub open spec fn net(self, x: int, y: int) -> int {
        self.from_left(x, y) + self.from_right(x, y) + self.from_above(x, y) + self.from_below(
            x,
            y,
        ) - self.flow_from(x, y).total()
    }

    /// The fill at `(x, y)` after the tick.
    pub open spec fn fill_after(self, x: int, y: int) -> int {
        self.cell(x, y).fill() + self.net(x, y)
    }

    /// The horizontal inertia at `(x, y)` after the tick: cleared where the
    /// fill did not change, else raised by what arrived moving rightwards and
    /// lowered by what arrived moving leftwards.
    pub open spec fn inertia_horiz_after(self, x: int, y: int) -> int {
        if self.net(x, y) == 0 {
            0
        } else {
            self.cell(x, y).inertia_horiz() + self.from_left(x, y) - self.from_right(x, y)
        }
    }

    /// The vertical inertia at `(x, y)` after the tick; downwards counts
    /// positive.
    pub open spec fn inertia_vert_after(self, x: int, y: int) -> int {
        if self.net(x, y) == 0 {
            0
        } else {
            self.cell(x, y).inertia_vert() + self.from_above(x, y) - self.from_below(x, y)
        }
    }

    /// Whether the cell at `(x, y)` can be stored after the tick.
    pub open spec fn cell_fits(self, x: int, y: int) -> bool {
        self.cell(x, y).is_water() ==> {
            &&& self.fill_after(x, y) <= FILL_CAP
            &&& -INERTIA_CAP <= self.inertia_horiz_after(x, y) <= INERTIA_CAP
            &&& -INERTIA_CAP <= self.inertia_vert_after(x, y) <= INERTIA_CAP
        }
    }

    /// Whether every cell can be stored after the tick.
    pub open spec fn fits(self) -> bool {
        forall|x: int, y: int| self.inside(x, y) ==> #[trigger] self.cell_fits(x, y)
    }

    /// The cell at `(x, y)` after the tick. Water stays water, even when
    /// empty; walls and air stay as they are.
    pub open spec fn cell_after(self, x: int, y: int) -> Cell {
        match self.cell(x, y) {
            Cell::Water(_) => Cell::Water(
                WaterData {
                    fill: self.fill_after(x, y) as i32,
                    inertia_horiz: self.inertia_horiz_after(x, y) as i32,
                    inertia_vert: self.inertia_vert_after(x, y) as i32,
                },
            ),
            other => other,
        }
    }

    /// The grid after the tick.
    pub open spec fn grid_after(self) -> Seq<Seq<Cell>> {
        Seq::new(
            self.width as nat,
            |x: int| Seq::new(self.height as nat, |y: int| self.cell_after(x, y)),
        )
    }
}

/// A cell hands out nothing negative, in all no more than it holds, and only
/// to water; a position outside the grid hands out nothing.
pub proof fn lemma_flow_from(t: Tick, x: int, y: int)
    requires
        t.wf(),
    ensures
        t.flow_from(x, y).left >= 0,
        t.flow_from(x, y).right >= 0,
        t.flow_from(x, y).up >= 0,
        t.flow_from(x, y).down >= 0,
        0 <= t.flow_from(x, y).total() <= t.cell(x, y).fill() <= FILL_CAP,
        t.flow_from(x, y).left > 0 ==> t.cell(x - 1, y).is_water(),
        t.flow_from(x, y).right > 0 ==> t.cell(x + 1, y).is_water(),
        t.flow_from(x, y).up > 0 ==> t.cell(x, y - 1).is_water(),
        t.flow_from(x, y).down > 0 ==> t.cell(x, y + 1).is_water(),
        !t.inside(x, y) ==> t.flow_from(x, y) == Flow::none(),
{
    reveal(Tick::flow_from);
    lemma_rule_flow_bounded(window(t.cells, x, y), t.max_fill, t.remain_min, t.coin(x, y));
    if t.inside(x, y) {
        assert(t.cells[x][y].valid());
    }
}

} // verus!
