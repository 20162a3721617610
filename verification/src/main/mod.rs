//! The kernel's own programs: the kernel shell.
pub mod kshell;
