use vstd::prelude::*;

verus! {

/// The status with which a service call fails.
#[derive(Debug, Clone, Copy, PartialEq, Eq, Structural)]
pub enum ServiceError {
    /// A caller-supplied identifier is not an integer of the store's domain.
    InvalidArgument,
    /// The identifier names no record.
    NotFound,
    /// The backing store failed; the cause is not passed on to the caller.
    Internal,
    /// The method is deliberately stubbed in this deployment.
    Unimplemented,
}

} // verus!
