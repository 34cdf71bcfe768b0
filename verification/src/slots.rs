//! The slot machine's coarse state.

use vstd::prelude::*;

verus! {

/// Where the slot machine stands in its spin cycle.
#[derive(Clone, Copy, PartialEq, Eq, Structural, Debug)]
pub enum SlotsState {
    Idle,
    Spinning,
    PostSpin,
}

} // verus!
