//! A cellular fluid simulation on a fixed two-dimensional grid.
//!
//! Every water cell holds an integer amount of fluid. One tick lets each cell
//! look at its neighbours and hand fluid to them; all hand-overs of a tick are
//! computed from the grid as it stood before the tick and then accumulated.

pub mod cell;
pub mod conservation;
pub mod grid;
pub mod laws;
pub mod overlay;
pub mod random;
pub mod rule;
pub mod scatter;
pub mod sim;
pub mod texture;
pub mod tick;
pub mod trace;
pub mod window;

pub use cell::{Cell, WaterData, FILL_CAP, INERTIA_CAP, MAX_FILL};
pub use grid::{CellArray, ConfigError, Grid, SimSquareRef, MAX_DIM};
pub use overlay::{DebugUiBundle, FpsText};
pub use rule::{coin_for, needs_coin, rule, rule_with_coin};
pub use sim::{Simulation, TickError};
pub use texture::texture_bytes;
pub use tick::Tick;
pub use trace::{empty_on_line, last_air_of, LINE_REACH};
pub use window::{Deltas, Flow, Neighborhood};
