//! Error taxonomy of the persistence subsystem.

use vstd::prelude::*;

verus! {

/// Why a raw read or write against a connector failed.
#[derive(Debug, Clone, Copy, PartialEq, Eq, Structural)]
pub enum IoFailure {
    /// A transient fault; a retry of the same call may succeed.
    Transient,
    /// The addressed object does not exist. Retrying cannot help.
    NotFound,
}

/// Why loading a part failed.
#[derive(Debug, Clone, Copy, PartialEq, Eq, Structural)]
pub enum LoadError {
    /// The underlying read failed, with its cause. A missing object
    /// surfaces as `Io(NotFound)`, never as a silently defaulted value.
    Io(IoFailure),
    /// The object was read but its bytes are not a valid encoding.
    Decode,
}

/// Why storing a part failed.
#[derive(Debug, Clone, Copy, PartialEq, Eq, Structural)]
pub enum StoreError {
    /// The underlying write failed, with its cause.
    Io(IoFailure),
    /// The value cannot be serialized: it breaks a part's well-formedness
    /// rule (for instance a descriptor holding a line break). Such a value
    /// is a caller defect, not a transient condition, and nothing is
    /// written when this is returned.
    Encode,
}

} // verus!
