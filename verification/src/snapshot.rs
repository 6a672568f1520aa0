//! Visibility descriptors and the self-contained snapshots built from them.

use vstd::prelude::*;

verus! {

/// A validated visibility descriptor, as produced by the specification
/// parser: an inclusive lower bound, an exclusive upper bound, and the ids
/// of the transactions regarded as in progress.
///
/// The in-progress list is kept exactly as given: it is neither sorted nor
/// deduplicated, since the order in which a caller supplies the ids is not
/// assigned any meaning here.
#[derive(Debug, PartialEq, Eq)]
pub struct SnapshotDescriptor {
    /// Inclusive lower bound: every id below it is regarded as completed.
    pub xmin: u32,
    /// Exclusive upper bound: every id at or above it is regarded as not
    /// yet started.
    pub xmax: u32,
    /// Ids of transactions in progress at snapshot time.
    pub xip: Vec<u32>,
}

impl SnapshotDescriptor {
    /// Every in-progress id lies in `[xmin, xmax)`.
    pub open spec fn wf(self) -> bool {
        forall|i: int|
            0 <= i < self.xip@.len() ==> self.xmin <= #[trigger] self.xip@[i] < self.xmax
    }
}

/// The full visibility context a scan runs under.  A snapshot built from a
/// descriptor owns its in-progress list outright: it never aliases a
/// buffer whose lifetime belongs to the engine.
pub struct Snapshot {
    /// Inclusive lower bound on possibly-invisible ids.
    pub xmin: u32,
    /// Exclusive upper bound: first definitely-invisible id.
    pub xmax: u32,
    /// Owned list of in-progress transaction ids.
    pub xip: Vec<u32>,
    /// Number of ids in the in-progress list.
    pub xcnt: usize,
    /// The snapshot is a standalone copied object, not an engine-managed
    /// shared singleton.
    pub copied: bool,
}

/// The in-progress count agrees with the list it counts.
pub open spec fn snapshot_wf(s: Snapshot) -> bool {
    s.xcnt == s.xip@.len()
}

/// An owned, element-for-element copy of a transaction id list.
pub fn copy_xids(xids: &Vec<u32>) -> (r: Vec<u32>)
    ensures
        r@ == xids@,
{
    let mut out: Vec<u32> = Vec::new();
    let mut i: usize = 0;
    while i < xids.len()
        invariant
            i <= xids@.len(),
            out@ == xids@.subrange(0, i as int),
        decreases xids@.len() - i,
    {
        out.push(xids[i]);
        i = i + 1;
    }
    assert(out@ =~= xids@);
    out
}

/// Build a self-contained snapshot from a descriptor: the descriptor's
/// bounds and an owned copy of its in-progress list, with the count set to
/// that list's length and the result marked as a copied, standalone
/// object.  The model snapshot carries exactly the fields the scan reads,
/// so the descriptor determines every one of them; no validation happens
/// here beyond what the parser already performed.
pub fn build_snapshot(descriptor: &SnapshotDescriptor) -> (s: Snapshot)
    ensures
        s.xmin == descriptor.xmin,
        s.xmax == descriptor.xmax,
        s.xip@ == descriptor.xip@,
        s.xcnt == descriptor.xip@.len(),
        s.copied,
        snapshot_wf(s),
{
    let xip = copy_xids(&descriptor.xip);
    let xcnt = xip.len();
    Snapshot { xmin: descriptor.xmin, xmax: descriptor.xmax, xip, xcnt, copied: true }
}

/// Select the snapshot a scan runs under: a snapshot built from the
/// descriptor when one was given, else an owned copy of the engine's
/// current-transaction snapshot, unmodified.
pub fn select_snapshot(descriptor: &Option<SnapshotDescriptor>, current: &Snapshot) -> (s: Snapshot)
    requires
        snapshot_wf(*current),
    ensures
        snapshot_wf(s),
        match descriptor {
            Some(d) => {
                &&& s.xmin == d.xmin
                &&& s.xmax == d.xmax
                &&& s.xip@ == d.xip@
                &&& s.xcnt == d.xip@.len()
                &&& s.copied
            },
            None => {
                &&& s.xmin == current.xmin
                &&& s.xmax == current.xmax
                &&& s.xip@ == current.xip@
                &&& s.xcnt == current.xcnt
                &&& s.copied == current.copied
            },
        },
{
    match descriptor {
        Some(d) => build_snapshot(d),
        None => Snapshot {
            xmin: current.xmin,
            xmax: current.xmax,
            xip: copy_xids(&current.xip),
            xcnt: current.xcnt,
            copied: current.copied,
        },
    }
}

} // verus!
