//! Error codes with which Matter requests are answered.
use vstd::prelude::*;

verus! {

/// Why a Matter request is refused.
#[derive(Debug, Clone, Copy, PartialEq, Eq, Structural)]
pub enum ErrorCode {
    ClusterNotFound,
    CommandNotFound,
    ConstraintError,
    EndpointNotFound,
}

} // verus!
