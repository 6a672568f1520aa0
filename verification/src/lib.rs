//! Inspect the raw, version-level contents of a table in an MVCC storage
//! engine under a caller-specified visibility snapshot.
//!
//! The pipeline is: a textual snapshot specification is parsed into a
//! validated descriptor ([`snapshot_spec`]), the descriptor is turned into a
//! self-contained snapshot ([`snapshot`]), a table is scanned under that
//! snapshot surfacing only the visible tuple versions ([`scan`],
//! [`visibility`]), and each surfaced version is rendered as one compact
//! JSON object ([`render`]).

pub mod render;
pub mod scan;
pub mod snapshot;
pub mod snapshot_spec;
pub mod table;
mod text;
pub mod visibility;
pub mod xid;
