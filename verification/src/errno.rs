//! The error taxonomy of the layer and its total mapping to the negative
//! return-word convention.

use vstd::prelude::*;

verus! {

/// One error kind per failure class: validation failures raised at the trust
/// boundary (invalid argument, fault, range, length exceeded, unsupported
/// operation) together with the kinds the subsystems report and which the
/// layer passes through unmodified.
#[derive(Clone, Copy, PartialEq, Eq, Structural, Debug)]
pub enum Errno {
    /// No such file.
    ENOENT,
    /// No such process.
    ESRCH,
    /// No child matches the wait filter, nor ever will.
    ECHILD,
    /// The call would block; retry later.
    EAGAIN,
    /// Not an open descriptor, or the wrong kind of descriptor.
    EBADF,
    /// The subsystem is out of the resource asked for.
    ENOMEM,
    /// A caller pointer/length pair failed ownership validation.
    EFAULT,
    /// The descriptor does not name a directory.
    ENOTDIR,
    /// A malformed argument: bad enum value, negative count, unsupported
    /// file-action command.
    EINVAL,
    /// The descriptor table is full.
    ENFILE,
    /// The write would grow a file past the supported size.
    EFBIG,
    /// Seek on a descriptor that cannot seek.
    ESPIPE,
    /// The destination buffer is too small.
    ERANGE,
    /// An unterminated or oversized string, array or list.
    ENAMETOOLONG,
    /// The syscall id maps to no handler.
    ENOSYS,
    /// An offset computation left the representable range.
    EOVERFLOW,
}

/// The errno number of each error kind.
pub open spec fn errno_num(e: Errno) -> int {
    match e {
        Errno::ENOENT => 2,
        Errno::ESRCH => 3,
        Errno::ECHILD => 10,
        Errno::EAGAIN => 11,
        Errno::EBADF => 9,
        Errno::ENOMEM => 12,
        Errno::EFAULT => 14,
        Errno::ENOTDIR => 20,
        Errno::EINVAL => 22,
        Errno::ENFILE => 23,
        Errno::EFBIG => 27,
        Errno::ESPIPE => 29,
        Errno::ERANGE => 34,
        Errno::ENAMETOOLONG => 36,
        Errno::ENOSYS => 38,
        Errno::EOVERFLOW => 75,
    }
}

/// The return word that stands for an error: always strictly negative, so
/// the caller can tell it from every success value.
pub open spec fn retval_of(e: Errno) -> int {
    -errno_num(e)
}

/// Total mapper from an error kind to its return word.
pub fn as_retval(e: Errno) -> (r: i64)
    ensures
        r == retval_of(e),
        r < 0,
{
    match e {
        Errno::ENOENT => -2,
        Errno::ESRCH => -3,
        Errno::ECHILD => -10,
        Errno::EAGAIN => -11,
        Errno::EBADF => -9,
        Errno::ENOMEM => -12,
        Errno::EFAULT => -14,
        Errno::ENOTDIR => -20,
        Errno::EINVAL => -22,
        Errno::ENFILE => -23,
        Errno::EFBIG => -27,
        Errno::ESPIPE => -29,
        Errno::ERANGE => -34,
        Errno::ENAMETOOLONG => -36,
        Errno::ENOSYS => -38,
        Errno::EOVERFLOW => -75,
    }
}

} // verus!
