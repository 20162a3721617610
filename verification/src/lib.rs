//! The logic of the Reenix kernel, verified with Verus.
//!
//! The modules follow the kernel's own subsystems:
//! - `base`: character classes, device ids, number parsing, error numbers,
//!   UTF-8 checks, one-shot initialisation and cells.
//! - `mm`: page arithmetic, page-table indices, the slab map, the light map
//!   and the allocator's decisions.
//! - `drivers`: memory devices, the device registry, the terminals (keyboard
//!   decoding, line discipline, virtual terminal, screen) and the ATA disk's
//!   requests and DMA descriptors.
//! - `fs`: vnodes, path resolution and the in-memory file system.
//! - `procs`: interrupt tables, run queue, wait queues, kernel mutexes,
//!   process reference cells, and thread and process state.
//! - `main`: the kernel shell's parsing, command table and command plans.
//!
//! Port and memory-mapped I/O, interrupt entry and the loops that wait on the
//! hardware are left to the caller, which hands the library plain values.
pub mod base;
pub mod drivers;
pub mod fs;
pub mod main;
pub mod mm;
pub mod procs;
