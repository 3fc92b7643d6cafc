//! The error numbers the kernel logic returns to user space.

use vstd::prelude::*;

verus! {

#[derive(Clone, Copy, Debug, PartialEq, Eq, Structural)]
pub enum Errno {
    EPERM,
    EIO,
    ENOEXEC,
    EBADF,
    EAGAIN,
    ENOMEM,
    EACCES,
    ENODEV,
    EISDIR,
    EINVAL,
    ENOTTY,
    ENOSPC,
    ESPIPE,
    ETIME,
    ELIBBAD,
    EOPNOTSUPP,
}

impl Errno {
    /// The Linux error number.
    pub open spec fn spec_code(self) -> i32 {
        match self {
            Errno::EPERM => 1,
            Errno::EIO => 5,
            Errno::ENOEXEC => 8,
            Errno::EBADF => 9,
            Errno::EAGAIN => 11,
            Errno::ENOMEM => 12,
            Errno::EACCES => 13,
            Errno::ENODEV => 19,
            Errno::EISDIR => 21,
            Errno::EINVAL => 22,
            Errno::ENOTTY => 25,
            Errno::ENOSPC => 28,
            Errno::ESPIPE => 29,
            Errno::ETIME => 62,
            Errno::ELIBBAD => 80,
            Errno::EOPNOTSUPP => 95,
        }
    }

    pub fn code(self) -> (c: i32)
        ensures
            c == self.spec_code(),
    {
        match self {
            Errno::EPERM => 1,
            Errno::EIO => 5,
            Errno::ENOEXEC => 8,
            Errno::EBADF => 9,
            Errno::EAGAIN => 11,
            Errno::ENOMEM => 12,
            Errno::EACCES => 13,
            Errno::ENODEV => 19,
            Errno::EISDIR => 21,
            Errno::EINVAL => 22,
            Errno::ENOTTY => 25,
            Errno::ENOSPC => 28,
            Errno::ESPIPE => 29,
            Errno::ETIME => 62,
            Errno::ELIBBAD => 80,
            Errno::EOPNOTSUPP => 95,
        }
    }
}

} // verus!
