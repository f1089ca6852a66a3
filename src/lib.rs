//! Decision logic of a view-based, stake-weighted BFT consensus core: the
//! committee election by verifiable random function, the vote accumulator
//! that turns votes into certificates, and the view state machine.
use vstd::prelude::*;

pub mod accumulator;
pub mod committee;
pub mod consensus;
pub mod error;
pub mod membership;
pub mod network;

verus! {

/// Length in bytes of a committee seed and of a VRF output.
pub const H_256: usize = 32;

} // verus!
