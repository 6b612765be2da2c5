//! The two kinds of failure: infrastructure errors from a store, and the
//! split between business rejections and infrastructure failures that a
//! service reports.

use vstd::prelude::*;

verus! {

/// Infrastructure failures from a store. These are about plumbing (the disk,
/// the wire, serialization, concurrency), never about domain rules.
#[derive(Debug, Clone)]
pub enum StoreError {
    /// Optimistic concurrency check failed: someone else wrote to the stream.
    Conflict { stream_id: String, expected: String, actual: u64 },
    /// A payload could not be (de)serialized.
    Serialization(String),
    /// The requested item does not exist.
    NotFound(String),
    /// Any other backend error (I/O, SQL, network, ...).
    Backend(String),
}

/// The result of asking a service to do something: the domain said "no"
/// ([`ServiceError::Rejected`]), or the infrastructure failed
/// ([`ServiceError::Store`]).
#[derive(Debug)]
pub enum ServiceError<R> {
    /// The aggregate rejected the command for a business reason.
    Rejected(R),
    /// The underlying store failed.
    Store(StoreError),
}

impl<R> ServiceError<R> {
    /// `true` if this was a business-rule rejection (not infrastructure).
    pub fn is_rejection(&self) -> (b: bool)
        ensures
            b <==> self is Rejected,
    {
        match self {
            ServiceError::Rejected(_) => true,
            ServiceError::Store(_) => false,
        }
    }

    /// `true` if this was an infrastructure failure (potentially retryable).
    pub fn is_infrastructure(&self) -> (b: bool)
        ensures
            b <==> self is Store,
    {
        match self {
            ServiceError::Rejected(_) => false,
            ServiceError::Store(_) => true,
        }
    }
}

impl<R> From<StoreError> for ServiceError<R> {
    fn from(e: StoreError) -> (r: Self) {
        ServiceError::Store(e)
    }
}

impl<R> vstd::std_specs::convert::FromSpecImpl<StoreError> for ServiceError<R> {
    open spec fn obeys_from_spec() -> bool {
        true
    }

    open spec fn from_spec(v: StoreError) -> Self {
        ServiceError::Store(v)
    }
}

/// Every service error is exactly one of a rejection or an infrastructure
/// failure.
pub proof fn law_rejection_xor_infrastructure<R>(e: ServiceError<R>)
    ensures
        (e is Rejected) != (e is Store),
{
}

} // verus!
