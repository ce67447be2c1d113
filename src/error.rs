use vstd::prelude::*;

verus! {

/// No such entry.
pub const ENOENT: i32 = 2;
/// A wait was interrupted.
pub const EINTR: i32 = 4;
/// Not an open port handle.
pub const EBADF: i32 = 9;
/// The queue is full; try again later.
pub const EAGAIN: i32 = 11;
/// The table is at capacity.
pub const ENOMEM: i32 = 12;
/// Access denied.
pub const EACCES: i32 = 13;
/// A bad address was given.
pub const EFAULT: i32 = 14;
/// The resource is busy.
pub const EBUSY: i32 = 16;
/// An argument is out of its domain.
pub const EINVAL: i32 = 22;
/// No more handles can be opened.
pub const EMFILE: i32 = 24;
/// The operation is not supported for this source.
pub const ENOTSUP: i32 = 48;
/// A timed retrieval ran out of time.
pub const ETIME: i32 = 62;
/// The handle is in a bad state.
pub const EBADFD: i32 = 81;

/// The closed set of failures that port operations report.
#[derive(Clone, Copy, Debug, PartialEq, Eq, Structural)]
pub enum PortError {
    NotFound,
    Interrupted,
    BadHandle,
    WouldBlock,
    OutOfMemory,
    AccessDenied,
    Fault,
    Busy,
    InvalidArgument,
    TooManyHandles,
    NotSupported,
    TimedOut,
    BadHandleState,
}

impl PortError {
    /// The numeric code of each failure.
    pub open spec fn spec_code(self) -> i32 {
        match self {
            PortError::NotFound => ENOENT,
            PortError::Interrupted => EINTR,
            PortError::BadHandle => EBADF,
            PortError::WouldBlock => EAGAIN,
            PortError::OutOfMemory => ENOMEM,
            PortError::AccessDenied => EACCES,
            PortError::Fault => EFAULT,
            PortError::Busy => EBUSY,
            PortError::InvalidArgument => EINVAL,
            PortError::TooManyHandles => EMFILE,
            PortError::NotSupported => ENOTSUP,
            PortError::TimedOut => ETIME,
            PortError::BadHandleState => EBADFD,
        }
    }

    /// Transient failures are worth retrying; the others are not.
    pub open spec fn spec_is_transient(self) -> bool {
        matches!(self, PortError::Interrupted | PortError::TimedOut | PortError::WouldBlock)
    }

    pub fn code(&self) -> (r: i32)
        ensures
            r == self.spec_code(),
    {
        match self {
            PortError::NotFound => ENOENT,
            PortError::Interrupted => EINTR,
            PortError::BadHandle => EBADF,
            PortError::WouldBlock => EAGAIN,
            PortError::OutOfMemory => ENOMEM,
            PortError::AccessDenied => EACCES,
            PortError::Fault => EFAULT,
            PortError::Busy => EBUSY,
            PortError::InvalidArgument => EINVAL,
            PortError::TooManyHandles => EMFILE,
            PortError::NotSupported => ENOTSUP,
            PortError::TimedOut => ETIME,
            PortError::BadHandleState => EBADFD,
        }
    }

    /// Whether a caller may retry after this failure (interrupted, timed out, would block).
    pub fn is_transient(&self) -> (r: bool)
        ensures
            r == self.spec_is_transient(),
    {
        match self {
            PortError::Interrupted | PortError::TimedOut | PortError::WouldBlock => true,
            _ => false,
        }
    }
}

/// The code of the failure that the result `r` of an operation reports, or 0 for
/// a success. Each caller reads the code of its own call, whatever other callers
/// do meanwhile.
pub fn errno<T>(r: &Result<T, PortError>) -> (e: i32)
    ensures
        e == match r {
            Ok(_) => 0,
            Err(x) => x.spec_code(),
        },
{
    match r {
        Ok(_) => 0,
        Err(x) => x.code(),
    }
}

} // verus!
