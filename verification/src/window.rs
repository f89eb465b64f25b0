//! The three-by-three window that the flow rule reads and the changes it
//! hands back.

use crate::cell::Cell;
use vstd::prelude::*;

verus! {

/// A snapshot of a cell and its eight neighbours. `above` is the row with the
/// smaller `y`, `left` the column with the smaller `x`.
#[derive(Debug, Clone, Copy, PartialEq, Eq, Structural)]
pub struct Neighborhood {
    pub above_left: Cell,
    pub above: Cell,
    pub above_right: Cell,
    pub left: Cell,
    pub center: Cell,
    pub right: Cell,
    pub below_left: Cell,
    pub below: Cell,
    pub below_right: Cell,
}

impl Neighborhood {
    /// The cell at the offset `(dx, dy)` from the centre; a wall for an offset
    /// outside the window.
    pub open spec fn at(self, dx: int, dy: int) -> Cell {
        if dy == -1 {
            if dx == -1 {
                self.above_left
            } else if dx == 0 {
                self.above
            } else if dx == 1 {
                self.above_right
            } else {
                Cell::Solid
            }
        } else if dy == 0 {
            if dx == -1 {
                self.left
            } else if dx == 0 {
                self.center
            } else if dx == 1 {
                self.right
            } else {
                Cell::Solid
            }
        } else if dy == 1 {
            if dx == -1 {
                self.below_left
            } else if dx == 0 {
                self.below
            } else if dx == 1 {
                self.below_right
            } else {
                Cell::Solid
            }
        } else {
            Cell::Solid
        }
    }

    /// The cell at the offset `(dx, dy)` from the centre.
    pub fn get(&self, dx: i32, dy: i32) -> (c: Cell)
        ensures
            c == self.at(dx as int, dy as int),
    {
        if dy == -1 {
            if dx == -1 {
                self.above_left
            } else if dx == 0 {
                self.above
            } else if dx == 1 {
                self.above_right
            } else {
                Cell::Solid
            }
        } else if dy == 0 {
            if dx == -1 {
                self.left
            } else if dx == 0 {
                self.center
            } else if dx == 1 {
                self.right
            } else {
                Cell::Solid
            }
        } else if dy == 1 {
            if dx == -1 {
                self.below_left
            } else if dx == 0 {
                self.below
            } else if dx == 1 {
                self.below_right
            } else {
                Cell::Solid
            }
        } else {
            Cell::Solid
        }
    }
}

/// What a cell hands to its four direct neighbours, as amounts of fill.
pub struct Flow {
    pub left: int,
    pub right: int,
    pub up: int,
    pub down: int,
}

impl Flow {
    /// Nothing moves.
    pub open spec fn none() -> Flow {
        Flow { left: 0, right: 0, up: 0, down: 0 }
    }

    /// Everything that leaves the cell.
    pub open spec fn total(self) -> int {
        self.left + self.right + self.up + self.down
    }

    /// The change that this flow makes at the offset `(dx, dy)` from the cell
    /// it leaves: the loss at the centre, the gains beside it, nothing
    /// elsewhere.
    pub open spec fn delta(self, dx: int, dy: int) -> int {
        if dx == 0 && dy == 0 {
            -self.total()
        } else if dx == -1 && dy == 0 {
            self.left
        } else if dx == 1 && dy == 0 {
            self.right
        } else if dx == 0 && dy == -1 {
            self.up
        } else if dx == 0 && dy == 1 {
            self.down
        } else {
            0
        }
    }
}

/// The signed changes of fill for a cell and its eight neighbours, laid out
/// like a `Neighborhood`.
#[derive(Debug, Clone, Copy, PartialEq, Eq, Structural)]
pub struct Deltas {
    pub above_left: i64,
    pub above: i64,
    pub above_right: i64,
    pub left: i64,
    pub center: i64,
    pub right: i64,
    pub below_left: i64,
    pub below: i64,
    pub below_right: i64,
}

impl Deltas {
    /// The change at the offset `(dx, dy)`; zero for an offset outside the
    /// window.
    pub open spec fn at(self, dx: int, dy: int) -> int {
        if dy == -1 {
            if dx == -1 {
                self.above_left as int
            } else if dx == 0 {
                self.above as int
            } else if dx == 1 {
                self.above_right as int
            } else {
                0
            }
        } else if dy == 0 {
            if dx == -1 {
                self.left as int
            } else if dx == 0 {
                self.center as int
            } else if dx == 1 {
                self.right as int
            } else {
                0
            }
        } else if dy == 1 {
            if dx == -1 {
                self.below_left as int
            } else if dx == 0 {
                self.below as int
            } else if dx == 1 {
                self.below_right as int
            } else {
                0
            }
        } else {
            0
        }
    }

    /// These changes are exactly those that `flow` makes.
    pub open spec fn carries(self, flow: Flow) -> bool {
        &&& self.above_left == 0
        &&& self.above == flow.up
        &&& self.above_right == 0
        &&& self.left == flow.left
        &&& self.center == -flow.total()
        &&& self.right == flow.right
        &&& self.below_left == 0
        &&& self.below == flow.down
        &&& self.below_right == 0
    }

    /// No change anywhere.
    pub fn zero() -> (d: Deltas)
        ensures
            d.carries(Flow::none()),
    {
        Deltas {
            above_left: 0,
            above: 0,
            above_right: 0,
            left: 0,
            center: 0,
            right: 0,
            below_left: 0,
            below: 0,
            below_right: 0,
        }
    }

    /// The change at the offset `(dx, dy)`.
    pub fn get(&self, dx: i32, dy: i32) -> (d: i64)
        ensures
            d == self.at(dx as int, dy as int),
    {
        if dy == -1 {
            if dx == -1 {
                self.above_left
            } else if dx == 0 {
                self.above
            } else if dx == 1 {
                self.above_right
            } else {
                0
            }
        } else if dy == 0 {
            if dx == -1 {
                self.left
            } else if dx == 0 {
                self.center
            } else if dx == 1 {
                self.right
            } else {
                0
            }
        } else if dy == 1 {
            if dx == -1 {
                self.below_left
            } else if dx == 0 {
                self.below
            } else if dx == 1 {
                self.below_right
            } else {
                0
            }
        } else {
            0
        }
    }

    /// Whether every change is zero.
    pub fn is_zero(&self) -> (z: bool)
        ensures
            z == (forall|dx: int, dy: int| self.at(dx, dy) == 0),
    {
        let z = self.above_left == 0 && self.above == 0 && self.above_right == 0 && self.left == 0
            && self.center == 0 && self.right == 0 && self.below_left == 0 && self.below == 0
            && self.below_right == 0;
        proof {
            if !z {
                assert(self.at(-1, -1) != 0 || self.at(0, -1) != 0 || self.at(1, -1) != 0
                    || self.at(-1, 0) != 0 || self.at(0, 0) != 0 || self.at(1, 0) != 0 || self.at(
                    -1,
                    1,
                ) != 0 || self.at(0, 1) != 0 || self.at(1, 1) != 0);
            }
        }
        z
    }
}

} // verus!
