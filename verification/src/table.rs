//! The physical shape of a scanned table: attribute descriptors, tuple
//! versions, and the record surfaced for each visible version.

use vstd::prelude::*;
use crate::xid::HeaderXid;

verus! {

/// One column slot of a relation.
pub struct AttributeDescriptor {
    /// Column name; the key under which values of this column are rendered.
    pub name: String,
    /// Type identifier of the column, as the engine's catalog records it.
    pub type_id: u32,
    /// 1-based position of the column in the relation.
    pub ordinal: u32,
    /// Relation the attribute belongs to; a plain single-relation scan must
    /// only ever meet attributes of the scanned relation.
    pub owning_relid: u32,
    /// The column was removed at the logical level but its physical slot
    /// remains; such a slot is never rendered.
    pub dropped: bool,
}

/// One physical version of a logical row, with its version header already
/// decoded into plain values.
pub struct TupleVersion {
    /// Raw creating transaction id from the version header.
    pub xmin: u32,
    /// Raw terminating transaction id; [`crate::xid::INVALID_TRANSACTION_ID`]
    /// while the version is live.
    pub xmax: u32,
    /// The header was marked permanently visible; its raw ids are stale.
    pub frozen: bool,
    /// One slot per attribute of the relation, in ordinal order.  `None` is
    /// SQL null; `Some` holds the value already rendered to its canonical
    /// text by the engine's per-type output routine.
    pub values: Vec<Option<String>>,
}

/// A resolved relation: its identifier, its attributes in ordinal order,
/// and its physical tuple versions in storage order.
pub struct Table {
    pub relid: u32,
    pub attributes: Vec<AttributeDescriptor>,
    pub tuples: Vec<TupleVersion>,
}

/// The record surfaced for one visible tuple version: the reported
/// creating and terminating ids and an owned copy of the value slots.
pub struct RowRecord {
    pub xmin: u32,
    pub xmax: u32,
    pub values: Vec<Option<String>>,
}

/// A tuple version is well formed for a relation of `n_attrs` attributes
/// when it has exactly one value slot per attribute.
pub open spec fn tuple_wf(t: TupleVersion, n_attrs: int) -> bool {
    t.values@.len() == n_attrs
}

/// A table is well formed when its attributes sit at their 1-based
/// ordinal positions and every tuple has one value slot per attribute.
pub open spec fn table_wf(t: Table) -> bool {
    &&& forall|i: int|
        0 <= i < t.attributes@.len() ==> (#[trigger] t.attributes@[i]).ordinal == i + 1
    &&& forall|j: int|
        0 <= j < t.tuples@.len() ==> tuple_wf(#[trigger] t.tuples@[j], t.attributes@.len() as int)
}

/// The creating id of a version, as decoded from its header.
pub open spec fn spec_decode_xmin(t: TupleVersion) -> HeaderXid {
    if t.frozen {
        HeaderXid::Frozen
    } else {
        HeaderXid::Ordinary(t.xmin)
    }
}

/// The terminating id of a version, as decoded from its header.
pub open spec fn spec_decode_xmax(t: TupleVersion) -> HeaderXid {
    if t.frozen {
        HeaderXid::Frozen
    } else {
        HeaderXid::Ordinary(t.xmax)
    }
}

/// Decode the creating id field of a version header.
pub fn decode_xmin(t: &TupleVersion) -> (r: HeaderXid)
    ensures
        r == spec_decode_xmin(*t),
{
    if t.frozen {
        HeaderXid::Frozen
    } else {
        HeaderXid::Ordinary(t.xmin)
    }
}

/// Decode the terminating id field of a version header.  A frozen header
/// no longer carries a meaningful terminating id, so the frozen sentinel
/// is reported in its place.
pub fn decode_xmax(t: &TupleVersion) -> (r: HeaderXid)
    ensures
        r == spec_decode_xmax(*t),
{
    if t.frozen {
        HeaderXid::Frozen
    } else {
        HeaderXid::Ordinary(t.xmax)
    }
}

} // verus!
