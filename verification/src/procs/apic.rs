//! The local interrupt controller.
use vstd::prelude::*;

verus! {

/// Second initialisation stage: nothing to do.
pub fn init_stage2() {
}

} // verus!
