//! The visibility rule a snapshot induces on tuple versions.
//!
//! The rule emulates the engine's MVCC check for the committed world: a
//! transaction's effects are visible under a snapshot when the transaction
//! is the viewer's own, or completed before the snapshot's lower bound, or
//! below the upper bound and not listed as in progress.  Commit-status
//! bookkeeping beyond the snapshot (hint bits, the commit log) is the
//! engine's and is not modelled: every id other than the viewer's own is
//! taken as committed.

use vstd::prelude::*;
use crate::snapshot::Snapshot;
use crate::table::TupleVersion;
use crate::xid::INVALID_TRANSACTION_ID;

verus! {

/// Effects of transaction `xid` are visible under the bounds
/// `(xmin, xmax, xip)` to a viewer whose own transaction id is `cur`.
pub open spec fn xid_visible_under(
    xmin: u32,
    xmax: u32,
    xip: Seq<u32>,
    cur: u32,
    xid: u32,
) -> bool {
    ||| xid == cur
    ||| xid < xmin
    ||| (xid < xmax && !xip.contains(xid))
}

/// A tuple version is visible when its creating transaction is visible
/// (a frozen version's creator is permanently visible) and it has not
/// been terminated by a transaction that is itself visible.
pub open spec fn tuple_visible_under(
    xmin: u32,
    xmax: u32,
    xip: Seq<u32>,
    cur: u32,
    t: TupleVersion,
) -> bool {
    &&& t.frozen || xid_visible_under(xmin, xmax, xip, cur, t.xmin)
    &&& t.xmax == INVALID_TRANSACTION_ID || !xid_visible_under(xmin, xmax, xip, cur, t.xmax)
}

/// The subsequence of `ts` visible under the bounds, in storage order.
pub open spec fn visible_tuples_under(
    ts: Seq<TupleVersion>,
    xmin: u32,
    xmax: u32,
    xip: Seq<u32>,
    cur: u32,
) -> Seq<TupleVersion>
    decreases ts.len(),
{
    if ts.len() == 0 {
        Seq::empty()
    } else {
        let rest = visible_tuples_under(ts.drop_last(), xmin, xmax, xip, cur);
        if tuple_visible_under(xmin, xmax, xip, cur, ts.last()) {
            rest.push(ts.last())
        } else {
            rest
        }
    }
}

/// [`xid_visible_under`], with the bounds taken from a snapshot.
pub open spec fn xid_visible(s: Snapshot, cur: u32, xid: u32) -> bool {
    xid_visible_under(s.xmin, s.xmax, s.xip@, cur, xid)
}

/// [`tuple_visible_under`], with the bounds taken from a snapshot.
pub open spec fn tuple_visible(s: Snapshot, cur: u32, t: TupleVersion) -> bool {
    tuple_visible_under(s.xmin, s.xmax, s.xip@, cur, t)
}

/// [`visible_tuples_under`], with the bounds taken from a snapshot.
pub open spec fn visible_tuples(ts: Seq<TupleVersion>, s: Snapshot, cur: u32) -> Seq<TupleVersion> {
    visible_tuples_under(ts, s.xmin, s.xmax, s.xip@, cur)
}

/// Whether `xid` occurs in the in-progress list.
fn xip_member(xip: &Vec<u32>, xid: u32) -> (b: bool)
    ensures
        b == xip@.contains(xid),
{
    let mut i: usize = 0;
    while i < xip.len()
        invariant
            i <= xip@.len(),
            forall|j: int| 0 <= j < i ==> xip@[j] != xid,
        decreases xip@.len() - i,
    {
        if xip[i] == xid {
            assert(xip@.contains(xid));
            return true;
        }
        i = i + 1;
    }
    false
}

/// Decide [`xid_visible`].
pub fn is_xid_visible(s: &Snapshot, cur: u32, xid: u32) -> (b: bool)
    ensures
        b == xid_visible(*s, cur, xid),
{
    if xid == cur {
        true
    } else if xid < s.xmin {
        true
    } else if xid < s.xmax {
        !xip_member(&s.xip, xid)
    } else {
        false
    }
}

/// Decide [`tuple_visible`].
pub fn is_tuple_visible(s: &Snapshot, cur: u32, t: &TupleVersion) -> (b: bool)
    ensures
        b == tuple_visible(*s, cur, *t),
{
    let creator_visible = t.frozen || is_xid_visible(s, cur, t.xmin);
    if !creator_visible {
        return false;
    }
    t.xmax == INVALID_TRANSACTION_ID || !is_xid_visible(s, cur, t.xmax)
}

/// Visibility reads only a snapshot's bounds and in-progress list: two
/// snapshots that agree on them classify every tuple version alike.  In
/// particular, a snapshot built from a specification that exactly
/// reproduces the viewer's current `(xmin, xmax, xip)` surfaces the same
/// visible-row set as the current snapshot itself, for any table state.
/// Exclusion: when the upper bound sits at or below every row's creating
/// transaction id, and no row is frozen or the viewer's own, nothing is
/// visible — the scan surfaces zero rows.
pub proof fn lemma_exclusion(ts: Seq<TupleVersion>, xmin: u32, xmax: u32, xip: Seq<u32>, cur: u32)
    requires
        xmin <= xmax,
        forall|j: int| 0 <= j < ts.len() ==> xmax <= (#[trigger] ts[j]).xmin,
        forall|j: int| 0 <= j < ts.len() ==> !(#[trigger] ts[j]).frozen,
        forall|j: int| 0 <= j < ts.len() ==> (#[trigger] ts[j]).xmin != cur,
    ensures
        visible_tuples_under(ts, xmin, xmax, xip, cur) == Seq::<TupleVersion>::empty(),
    decreases ts.len(),
{
    if ts.len() > 0 {
        lemma_exclusion(ts.drop_last(), xmin, xmax, xip, cur);
        assert(!xid_visible_under(xmin, xmax, xip, cur, ts.last().xmin));
    }
}

pub proof fn lemma_visible_tuples_from_bounds(
    ts: Seq<TupleVersion>,
    s1: Snapshot,
    s2: Snapshot,
    cur: u32,
)
    requires
        s1.xmin == s2.xmin,
        s1.xmax == s2.xmax,
        s1.xip@ == s2.xip@,
    ensures
        visible_tuples(ts, s1, cur) == visible_tuples(ts, s2, cur),
{
}

} // verus!
