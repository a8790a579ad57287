use vstd::prelude::*;

pub mod grid;
pub mod trig;
pub mod pose;
pub mod raycast;
pub mod render;

verus! {

/// Number of sub-units in one world unit.
pub const UNIT: i64 = 16384;

} // verus!
