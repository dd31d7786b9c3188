//! Errors reported by ring construction, buffer-ring management and
//! completion retrieval.

use vstd::prelude::*;

verus! {

/// `ENOENT`: the kernel holds no object under the requested name.
pub const ENOENT: i32 = 2;

/// `EEXIST`: the kernel already holds an object under the requested name.
pub const EEXIST: i32 = 17;

/// The ways in which a ring operation can fail.
#[derive(Debug, Clone, Copy, PartialEq, Eq, Structural)]
pub enum RingError {
    /// A ring was requested with an entry count that is not a power of two.
    ConfigurationError,
    /// No free slot is left; submit or drain, then retry.
    ResourceExhausted,
    /// A kernel call returned a negative status. Carries the error number,
    /// that is the negated status.
    KernelRejected(i32),
    /// The kernel refused to register a resource. Carries the error number.
    RegistrationFailure(i32),
}

/// The error number that a negative kernel status stands for.
///
/// The one status without a positive counterpart maps to the largest code.
pub open spec fn errno_of(status: i32) -> i32 {
    if status == i32::MIN {
        i32::MAX
    } else {
        (-status) as i32
    }
}

/// What a kernel status means to the caller: a negative status is an error
/// carrying its error number, anything else is the count the kernel reported.
pub open spec fn status_outcome(status: i32) -> Result<u32, RingError> {
    if status < 0 {
        Err(RingError::KernelRejected(errno_of(status)))
    } else {
        Ok(status as u32)
    }
}

/// Computes the error number of a negative status without overflowing.
pub fn errno_from_status(status: i32) -> (code: i32)
    requires
        status < 0,
    ensures
        code == errno_of(status),
        code > 0,
{
    if status == i32::MIN {
        i32::MAX
    } else {
        -status
    }
}

/// Turns the status returned by a kernel call into a typed result.
pub fn check_status(status: i32) -> (r: Result<u32, RingError>)
    ensures
        r == status_outcome(status),
{
    if status < 0 {
        Err(RingError::KernelRejected(errno_from_status(status)))
    } else {
        Ok(status as u32)
    }
}

} // verus!
