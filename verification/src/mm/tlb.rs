//! The translation lookaside buffer.
use vstd::prelude::*;

verus! {

/// First initialisation stage: nothing to do.
pub fn init_stage1() {
}

/// Second initialisation stage: nothing to do.
pub fn init_stage2() {
}

} // verus!
