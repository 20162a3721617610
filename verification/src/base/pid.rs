//! The process id as the base utilities see it.
use vstd::prelude::*;

verus! {

/// A process id number.
#[derive(Clone, Copy, Debug, PartialEq, Eq, Structural, Hash, PartialOrd, Ord)]
pub struct ProcId(pub u32);

} // verus!
