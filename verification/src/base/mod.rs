//! The kernel's base utilities: character classes, errors, device ids,
//! number parsing, process ids, UTF-8 checks and one-shot initialisation.
use vstd::prelude::*;

pub mod atomic;
pub mod cell;
pub mod ctype;
pub mod debug;
pub mod devices;
pub mod errno;
pub mod from_str;
pub mod pid;
pub mod sync;
pub mod text;

verus! {

/// Second initialisation stage of the base utilities: nothing to do.
pub fn init_stage2() {
}

} // verus!
