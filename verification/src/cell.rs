//! The state of one grid position.

use vstd::prelude::*;

verus! {

/// Default capacity of a water cell.
pub const MAX_FILL: i32 = 32;

/// Largest fill a stored water cell may hold. A tick that would push a cell
/// beyond it fails and leaves the grid as it was.
pub const FILL_CAP: i32 = 0x1000_0000;

/// Largest magnitude of a stored inertia component.
pub const INERTIA_CAP: i32 = 0x1000_0000;

/// The fluid state carried by a water cell.
#[derive(Debug, Clone, Copy, PartialEq, Eq, Structural)]
pub struct WaterData {
    /// Amount of fluid held. Never negative; may exceed the capacity of the
    /// simulation when the cell is under pressure.
    pub fill: i32,
    /// Memory of recent horizontal flow; positive means rightward.
    pub inertia_horiz: i32,
    /// Memory of recent vertical flow; positive means downward.
    pub inertia_vert: i32,
}

impl WaterData {
    /// The fill is not negative and all three numbers are within their caps.
    pub open spec fn valid(self) -> bool {
        &&& 0 <= self.fill <= FILL_CAP
        &&& -INERTIA_CAP <= self.inertia_horiz <= INERTIA_CAP
        &&& -INERTIA_CAP <= self.inertia_vert <= INERTIA_CAP
    }

    /// Tells whether the record may be stored in a grid.
    pub fn is_valid(&self) -> (ok: bool)
        ensures
            ok == self.valid(),
    {
        0 <= self.fill && self.fill <= FILL_CAP && -INERTIA_CAP <= self.inertia_horiz
            && self.inertia_horiz <= INERTIA_CAP && -INERTIA_CAP <= self.inertia_vert
            && self.inertia_vert <= INERTIA_CAP
    }
}

impl Default for WaterData {
    /// An empty water cell at rest.
    fn default() -> (w: WaterData)
        ensures
            w == (WaterData { fill: 0, inertia_horiz: 0, inertia_vert: 0 }),
    {
        WaterData { fill: 0, inertia_horiz: 0, inertia_vert: 0 }
    }
}

/// One grid position: a wall, empty space, or water.
#[derive(Debug, Clone, Copy, PartialEq, Eq, Structural)]
pub enum Cell {
    Solid,
    Water(WaterData),
    Air,
}

impl Cell {
    /// Whether the cell holds water.
    pub open spec fn is_water(self) -> bool {
        self is Water
    }

    /// The fill of a water cell, and zero for any other cell.
    pub open spec fn fill(self) -> int {
        match self {
            Cell::Water(w) => w.fill as int,
            _ => 0,
        }
    }

    /// The horizontal inertia of a water cell, and zero for any other cell.
    pub open spec fn inertia_horiz(self) -> int {
        match self {
            Cell::Water(w) => w.inertia_horiz as int,
            _ => 0,
        }
    }

    /// The vertical inertia of a water cell, and zero for any other cell.
    pub open spec fn inertia_vert(self) -> int {
        match self {
            Cell::Water(w) => w.inertia_vert as int,
            _ => 0,
        }
    }

    /// A water cell is valid when its record is; other cells always are.
    pub open spec fn valid(self) -> bool {
        match self {
            Cell::Water(w) => w.valid(),
            _ => true,
        }
    }

    /// Tells whether the cell may be stored in a grid.
    pub fn is_valid(&self) -> (ok: bool)
        ensures
            ok == self.valid(),
    {
        match self {
            Cell::Water(w) => w.is_valid(),
            _ => true,
        }
    }

    /// The water record of a water cell.
    pub fn water(&self) -> (r: Option<&WaterData>)
        ensures
            match *self {
                Cell::Water(w) => r == Some(&w),
                _ => r.is_none(),
            },
    {
        match self {
            Cell::Water(water) => Some(water),
            _ => None,
        }
    }

    /// Mutable access to the water record of a water cell. Writing through the
    /// returned reference changes the record and leaves the cell water.
    pub fn water_mut(&mut self) -> (r: Option<&mut WaterData>)
        ensures
            match *old(self) {
                Cell::Water(w) => r.is_some() && *r.unwrap() == w
                    && *final(self) == Cell::Water(*final(r.unwrap())),
                _ => r.is_none() && *final(self) == *old(self),
            },
    {
        match self {
            Cell::Water(water) => Some(water),
            _ => None,
        }
    }
}

} // verus!
