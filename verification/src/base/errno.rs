//! Kernel error numbers.
use vstd::prelude::*;

verus! {

/// The error numbers the kernel reports.
#[derive(Clone, Copy, Debug, PartialEq, Eq, Structural)]
pub enum Errno {
    /// No error: used by directory reads to say that the end was reached.
    EOK,
    ENOENT,
    EINTR,
    EIO,
    EBADF,
    ECHILD,
    EAGAIN,
    ENOMEM,
    EEXIST,
    ENOTDIR,
    EISDIR,
    EINVAL,
    ENOTTY,
    EFBIG,
    ENOSPC,
    EDEADLK,
    ENOMSG,
    EBADMSG,
    ENOTSUP,
}

/// The result of a kernel operation that can fail with an error number.
pub type KResult<T> = Result<T, Errno>;

} // verus!
