//! Markers for the frame-rate overlay that a front end may draw over the
//! grid. The library only names them; drawing is the front end's business.

use vstd::prelude::*;

verus! {

/// Marks the text that shows the frame rate.
#[derive(Debug, Clone, Copy, PartialEq, Eq, Structural)]
pub struct FpsText;

/// Stands for the whole overlay: the frame-rate text and what keeps it up to
/// date.
#[derive(Debug, Clone, Copy, PartialEq, Eq, Structural)]
pub struct DebugUiBundle;

} // verus!
