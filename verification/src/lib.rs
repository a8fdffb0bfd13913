//! Builds maintenance reports: given the captured outcome of each package
//! manager operation, produces the formatted report blocks and the final
//! report text.

pub mod config;
pub mod report;
pub mod text;

use vstd::prelude::*;

verus! {

/// How many trailing lines of each captured stream a report block shows.
pub const DEFAULT_TAIL_LINES: usize = 20;

} // verus!
