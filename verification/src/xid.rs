//! Transaction ids and the decoding of version-header id fields.

use vstd::prelude::*;

verus! {

/// Transaction id that is never assigned to any transaction; a tuple
/// version whose terminating id equals it has not been terminated.
pub const INVALID_TRANSACTION_ID: u32 = 0;

/// Stable sentinel reported for a header id field whose original id was
/// discarded by freezing.  Distinct from every id an ordinary transaction
/// can hold, which start at [`FIRST_NORMAL_TRANSACTION_ID`].
pub const FROZEN_TRANSACTION_ID: u32 = 2;

/// First id that the engine hands to an ordinary transaction.
pub const FIRST_NORMAL_TRANSACTION_ID: u32 = 3;

/// A creating or terminating transaction id as decoded from a tuple
/// version header.  A frozen header has been permanently marked visible
/// and no longer carries its original id, so the two cases are kept apart
/// here instead of being re-derived downstream.
#[derive(Clone, Copy, PartialEq, Eq, Structural, Debug)]
pub enum HeaderXid {
    /// The header was frozen; the original id is gone.
    Frozen,
    /// The header still carries its id.
    Ordinary(u32),
}

impl HeaderXid {
    /// The id reported to the caller for this header field: the frozen
    /// sentinel, or the id itself.
    pub open spec fn spec_reported(self) -> u32 {
        match self {
            HeaderXid::Frozen => FROZEN_TRANSACTION_ID,
            HeaderXid::Ordinary(x) => x,
        }
    }

    /// Report this header field as a plain id.
    pub fn reported(self) -> (r: u32)
        ensures
            r == self.spec_reported(),
    {
        match self {
            HeaderXid::Frozen => FROZEN_TRANSACTION_ID,
            HeaderXid::Ordinary(x) => x,
        }
    }
}

} // verus!
