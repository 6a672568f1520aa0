//! Scanning a table under a snapshot and rendering the visible versions.
//!
//! A [`TableScanner`] walks the physical tuple versions one at a time and
//! surfaces only those visible under its snapshot; [`scan_table`] drives
//! it to completion and renders each surfaced version, releasing the
//! scanner on every exit path; [`debug_scan`] is the whole operation from
//! an optional specification text to the rendered rows.

use vstd::prelude::*;
use crate::render::{
    attrs_consistent, first_offender_at, render_row, row_json, ConsistencyError,
};
use crate::snapshot::{select_snapshot, snapshot_wf, Snapshot, SnapshotDescriptor};
use crate::snapshot_spec::{parse_snapshot_spec, spec_parse, SnapshotSpecError};
use crate::table::{
    decode_xmax, decode_xmin, spec_decode_xmax, spec_decode_xmin, table_wf, AttributeDescriptor,
    RowRecord, Table, TupleVersion,
};
use crate::visibility::{
    is_tuple_visible, tuple_visible, tuple_visible_under, visible_tuples, visible_tuples_under,
};
use crate::xid::INVALID_TRANSACTION_ID;

verus! {

/// The first index at or after `from` holding a visible tuple version,
/// or the length when none is left.
pub open spec fn next_visible_index(
    ts: Seq<TupleVersion>,
    s: Snapshot,
    cur: u32,
    from: int,
) -> int
    decreases ts.len() - from when 0 <= from <= ts.len()
{
    if from < 0 || from >= ts.len() {
        ts.len() as int
    } else if tuple_visible(s, cur, ts[from]) {
        from
    } else {
        next_visible_index(ts, s, cur, from + 1)
    }
}

/// Between `from` and the next visible index everything is invisible,
/// and the next visible index itself, when in range, holds a visible
/// tuple version.
pub proof fn lemma_next_visible_index(ts: Seq<TupleVersion>, s: Snapshot, cur: u32, from: int)
    requires
        0 <= from <= ts.len(),
    ensures
        from <= next_visible_index(ts, s, cur, from) <= ts.len(),
        forall|j: int|
            from <= j < next_visible_index(ts, s, cur, from) ==> !tuple_visible(s, cur, ts[j]),
        next_visible_index(ts, s, cur, from) < ts.len() ==> tuple_visible(
            s,
            cur,
            ts[next_visible_index(ts, s, cur, from)],
        ),
    decreases ts.len() - from,
{
    if from < ts.len() && !tuple_visible(s, cur, ts[from]) {
        lemma_next_visible_index(ts, s, cur, from + 1);
    }
}

/// A stretch of invisible versions contributes nothing: the visible
/// subsequence of a prefix is unchanged by extending it over them.
pub proof fn lemma_visible_tuples_stable(ts: Seq<TupleVersion>, s: Snapshot, cur: u32, a: int, b: int)
    requires
        0 <= a <= b <= ts.len(),
        forall|j: int| a <= j < b ==> !tuple_visible(s, cur, ts[j]),
    ensures
        visible_tuples(ts.subrange(0, b), s, cur) == visible_tuples(ts.subrange(0, a), s, cur),
    decreases b - a,
{
    if b > a {
        lemma_visible_tuples_stable(ts, s, cur, a, b - 1);
        let post = ts.subrange(0, b);
        assert(post.drop_last() =~= ts.subrange(0, b - 1));
        assert(post.last() == ts[b - 1]);
    }
}

/// A prefix never has more visible versions than the whole sequence.
pub proof fn lemma_visible_prefix_len(ts: Seq<TupleVersion>, s: Snapshot, cur: u32, i: int)
    requires
        0 <= i <= ts.len(),
    ensures
        visible_tuples(ts.subrange(0, i), s, cur).len() <= visible_tuples(ts, s, cur).len(),
    decreases ts.len() - i,
{
    if i == ts.len() {
        assert(ts.subrange(0, i) =~= ts);
    } else {
        lemma_visible_prefix_len(ts, s, cur, i + 1);
        let post = ts.subrange(0, i + 1);
        assert(post.drop_last() =~= ts.subrange(0, i));
        assert(post.last() == ts[i]);
    }
}

/// An owned copy of a row's value slots.
fn copy_values(vals: &Vec<Option<String>>) -> (r: Vec<Option<String>>)
    ensures
        r@ == vals@,
{
    let mut out: Vec<Option<String>> = Vec::new();
    let mut i: usize = 0;
    while i < vals.len()
        invariant
            i <= vals@.len(),
            out@ == vals@.subrange(0, i as int),
        decreases vals@.len() - i,
    {
        let v: Option<String> = match &vals[i] {
            Option::Some(s) => Option::Some(s.clone()),
            Option::None => Option::None,
        };
        proof {
            assert(v == vals@[i as int]);
        }
        out.push(v);
        proof {
            assert(out@ =~= vals@.subrange(0, i + 1 as int));
        }
        i = i + 1;
    }
    proof {
        assert(vals@.subrange(0, vals@.len() as int) =~= vals@);
    }
    out
}

/// A scan cursor over one table: the snapshot filtering it, the viewer's
/// transaction id, and the position of the next physical version to
/// examine.  The cursor moves only forward; it is opened once, driven by
/// [`TableScanner::next`], and released by [`TableScanner::close`].
pub struct TableScanner {
    /// The visibility filter for this scan.
    pub snapshot: Snapshot,
    /// The viewer's own transaction id.
    pub cur_xid: u32,
    /// Next physical position to examine.
    pub pos: usize,
    /// The cursor has been opened and not yet closed.
    pub is_open: bool,
}

/// Open a scan cursor configured with `snapshot` as its visibility
/// filter.  The caller has already resolved and locked the table the
/// cursor will walk.
pub fn open_scan(snapshot: Snapshot, cur_xid: u32) -> (sc: TableScanner)
    ensures
        sc.is_open,
        sc.pos == 0,
        sc.snapshot == snapshot,
        sc.cur_xid == cur_xid,
{
    TableScanner { snapshot, cur_xid, pos: 0, is_open: true }
}

impl TableScanner {
    /// Advance to the next visible tuple version of `table` and surface
    /// its record: the reported creating and terminating ids and an owned
    /// copy of its value slots.  Versions invisible under the snapshot
    /// are skipped transparently; `None` means the scan is exhausted.
    #[verifier::loop_isolation(false)]
    pub fn next(&mut self, table: &Table) -> (r: Option<RowRecord>)
        requires
            old(self).is_open,
            old(self).pos <= table.tuples@.len(),
            table_wf(*table),
        ensures
            final(self).is_open,
            final(self).snapshot == old(self).snapshot,
            final(self).cur_xid == old(self).cur_xid,
            ({
                let i = next_visible_index(
                    table.tuples@,
                    old(self).snapshot,
                    old(self).cur_xid,
                    old(self).pos as int,
                );
                match r {
                    Some(rec) => {
                        &&& i < table.tuples@.len()
                        &&& final(self).pos == i + 1
                        &&& tuple_visible(old(self).snapshot, old(self).cur_xid, table.tuples@[i])
                        &&& rec.xmin == spec_decode_xmin(table.tuples@[i]).spec_reported()
                        &&& rec.xmax == spec_decode_xmax(table.tuples@[i]).spec_reported()
                        &&& rec.values@ == table.tuples@[i].values@
                    },
                    None => {
                        &&& i == table.tuples@.len()
                        &&& final(self).pos == table.tuples@.len()
                    },
                }
            }),
    {
        let ghost ts = table.tuples@;
        let ghost snap = self.snapshot;
        let ghost cur = self.cur_xid;
        let ghost start = self.pos as int;
        while self.pos < table.tuples.len()
            invariant
                self.is_open,
                self.snapshot == snap,
                self.cur_xid == cur,
                start <= self.pos <= ts.len(),
                next_visible_index(ts, snap, cur, start) == next_visible_index(
                    ts,
                    snap,
                    cur,
                    self.pos as int,
                ),
            decreases ts.len() - self.pos,
        {
            let visible = is_tuple_visible(&self.snapshot, self.cur_xid, &table.tuples[self.pos]);
            if visible {
                proof {
                    assert(next_visible_index(ts, snap, cur, self.pos as int) == self.pos as int);
                }
                let t = &table.tuples[self.pos];
                let rec = RowRecord {
                    xmin: decode_xmin(t).reported(),
                    xmax: decode_xmax(t).reported(),
                    values: copy_values(&t.values),
                };
                self.pos = self.pos + 1;
                return Some(rec);
            }
            proof {
                assert(next_visible_index(ts, snap, cur, self.pos as int) == next_visible_index(
                    ts,
                    snap,
                    cur,
                    self.pos + 1,
                ));
            }
            self.pos = self.pos + 1;
        }
        proof {
            assert(next_visible_index(ts, snap, cur, ts.len() as int) == ts.len() as int);
        }
        None
    }

    /// Release the cursor.  Runs exactly once on every exit path of a
    /// scan, including early termination.
    pub fn close(&mut self)
        ensures
            !final(self).is_open,
            final(self).snapshot == old(self).snapshot,
            final(self).cur_xid == old(self).cur_xid,
            final(self).pos == old(self).pos,
    {
        self.is_open = false;
    }
}

/// One output row of a scan: the reported creating and terminating
/// transaction ids and the row's rendered JSON object.
pub struct ScanRow {
    pub xmin: u32,
    pub xmax: u32,
    pub data: String,
}

/// `row` is the faithful rendering of tuple version `t` under the
/// attributes `attrs`: the reported header ids and the row's JSON text.
pub open spec fn row_matches(row: ScanRow, t: TupleVersion, attrs: Seq<AttributeDescriptor>) -> bool {
    &&& row.xmin == spec_decode_xmin(t).spec_reported()
    &&& row.xmax == spec_decode_xmax(t).spec_reported()
    &&& row.data@ == row_json(attrs, t.values@)
}

/// Scan `table` under `snapshot` and render every visible tuple version,
/// in storage order.  Succeeds with one row per visible version unless a
/// rendered version meets an attribute of a foreign relation, in which
/// case the whole scan aborts with that consistency error; a table whose
/// visible set is empty never reaches the attributes and always succeeds.
/// The scan cursor is released on every exit path.
#[verifier::loop_isolation(false)]
pub fn scan_table(table: &Table, snapshot: Snapshot, cur_xid: u32) -> (r: Result<
    Vec<ScanRow>,
    ConsistencyError,
>)
    requires
        table_wf(*table),
    ensures
        ({
            let vis = visible_tuples(table.tuples@, snapshot, cur_xid);
            match r {
                Ok(rows) => {
                    &&& (vis.len() > 0 ==> attrs_consistent(table.relid, table.attributes@))
                    &&& rows@.len() == vis.len()
                    &&& forall|k: int|
                        0 <= k < vis.len() ==> row_matches(
                            #[trigger] rows@[k],
                            vis[k],
                            table.attributes@,
                        )
                },
                Err(e) => {
                    &&& !attrs_consistent(table.relid, table.attributes@)
                    &&& vis.len() > 0
                    &&& exists|i: int|
                        #[trigger] first_offender_at(table.relid, table.attributes@, i) && e
                            == (ConsistencyError {
                            relation: table.relid,
                            attribute_relation: table.attributes@[i].owning_relid,
                        })
                },
            }
        }),
{
    let ghost ts = table.tuples@;
    let ghost snap = snapshot;
    let mut scanner = open_scan(snapshot, cur_xid);
    let mut rows: Vec<ScanRow> = Vec::new();
    let mut done = false;
    while !done
        invariant
            scanner.is_open,
            scanner.snapshot == snap,
            scanner.cur_xid == cur_xid,
            scanner.pos <= ts.len(),
            done ==> scanner.pos == ts.len(),
            rows@.len() == visible_tuples(ts.subrange(0, scanner.pos as int), snap, cur_xid).len(),
            forall|k: int|
                0 <= k < rows@.len() ==> row_matches(
                    #[trigger] rows@[k],
                    visible_tuples(ts.subrange(0, scanner.pos as int), snap, cur_xid)[k],
                    table.attributes@,
                ),
            rows@.len() > 0 ==> attrs_consistent(table.relid, table.attributes@),
        decreases ts.len() - scanner.pos + (if done { 0int } else { 1int }),
    {
        let ghost pre_pos = scanner.pos as int;
        let ghost pre_vis = visible_tuples(ts.subrange(0, pre_pos), snap, cur_xid);
        proof {
            lemma_next_visible_index(ts, snap, cur_xid, pre_pos);
        }
        match scanner.next(table) {
            None => {
                proof {
                    lemma_visible_tuples_stable(ts, snap, cur_xid, pre_pos, ts.len() as int);
                }
                done = true;
            },
            Some(rec) => {
                let ghost i = next_visible_index(ts, snap, cur_xid, pre_pos);
                proof {
                    lemma_visible_tuples_stable(ts, snap, cur_xid, pre_pos, i);
                    let post = ts.subrange(0, i + 1);
                    assert(post.drop_last() =~= ts.subrange(0, i));
                    assert(post.last() == ts[i]);
                    assert(visible_tuples(ts.subrange(0, i + 1), snap, cur_xid) == pre_vis.push(
                        ts[i],
                    ));
                    assert(rec.values@.len() == table.attributes@.len());
                }
                match render_row(table.relid, &table.attributes, &rec) {
                    Ok(data) => {
                        rows.push(ScanRow { xmin: rec.xmin, xmax: rec.xmax, data });
                    },
                    Err(e) => {
                        proof {
                            lemma_visible_prefix_len(ts, snap, cur_xid, i + 1);
                        }
                        scanner.close();
                        return Err(e);
                    },
                }
            },
        }
    }
    proof {
        assert(ts.subrange(0, ts.len() as int) =~= ts);
    }
    scanner.close();
    Ok(rows)
}

/// Which snapshot override a scan request carries and how it can fail.
#[derive(Clone, Copy, PartialEq, Eq, Structural, Debug)]
pub enum DebugScanError {
    /// The snapshot specification text was rejected.
    Snapshot(SnapshotSpecError),
    /// The storage metadata contradicted itself mid-scan.
    Consistency(ConsistencyError),
}

/// The outcome `r` is exactly what scanning `table` under the bounds
/// `(xmin, xmax, xip)` as viewer `cur` must produce: one faithful row per
/// visible version, or the consistency error for the earliest offending
/// attribute.
pub open spec fn scan_outcome_matches(
    table: Table,
    xmin: u32,
    xmax: u32,
    xip: Seq<u32>,
    cur: u32,
    r: Result<Vec<ScanRow>, DebugScanError>,
) -> bool {
    let vis = visible_tuples_under(table.tuples@, xmin, xmax, xip, cur);
    match r {
        Ok(rows) => {
            &&& (vis.len() > 0 ==> attrs_consistent(table.relid, table.attributes@))
            &&& rows@.len() == vis.len()
            &&& forall|k: int|
                0 <= k < vis.len() ==> row_matches(#[trigger] rows@[k], vis[k], table.attributes@)
        },
        Err(e) => match e {
            DebugScanError::Consistency(ce) => {
                &&& !attrs_consistent(table.relid, table.attributes@)
                &&& vis.len() > 0
                &&& exists|i: int|
                    #[trigger] first_offender_at(table.relid, table.attributes@, i) && ce
                        == (ConsistencyError {
                        relation: table.relid,
                        attribute_relation: table.attributes@[i].owning_relid,
                    })
            },
            DebugScanError::Snapshot(_) => false,
        },
    }
}

/// The whole diagnostic operation on an already-resolved table: parse the
/// optional specification text, build the snapshot it describes (or take
/// an owned copy of the caller's current snapshot when none was given),
/// scan, and render.  A rejected specification fails the request before
/// any scanning, with the exact error the grammar assigns to the text.
pub fn debug_scan(
    table: &Table,
    snapshot_spec_text: Option<&str>,
    current: &Snapshot,
    cur_xid: u32,
) -> (r: Result<Vec<ScanRow>, DebugScanError>)
    requires
        table_wf(*table),
        snapshot_wf(*current),
    ensures
        match snapshot_spec_text {
            None => scan_outcome_matches(
                *table,
                current.xmin,
                current.xmax,
                current.xip@,
                cur_xid,
                r,
            ),
            Some(text) => match spec_parse(text@) {
                Ok(b) => scan_outcome_matches(*table, b.0, b.1, b.2, cur_xid, r),
                Err(pe) => r == Err::<Vec<ScanRow>, DebugScanError>(DebugScanError::Snapshot(pe)),
            },
        },
{
    let descriptor: Option<SnapshotDescriptor> = match snapshot_spec_text {
        Some(text) => match parse_snapshot_spec(text) {
            Ok(d) => Some(d),
            Err(e) => {
                return Err(DebugScanError::Snapshot(e));
            },
        },
        None => None,
    };
    let snapshot = select_snapshot(&descriptor, current);
    match scan_table(table, snapshot, cur_xid) {
        Ok(rows) => Ok(rows),
        Err(e) => Err(DebugScanError::Consistency(e)),
    }
}

/// Equivalence: a specification whose bounds exactly reproduce the
/// caller's current `(xmin, xmax, xip)` yields the same visible-row set
/// as omitting the specification, for any table state and any viewer.
/// The bounds triple `b` is what [`spec_parse`] yields for such a text,
/// and the right-hand side is the visible set [`debug_scan`] answers
/// from when no specification is given.
pub proof fn lemma_matching_spec_is_default(
    table: Table,
    b: (u32, u32, Seq<u32>),
    current: Snapshot,
    cur: u32,
)
    requires
        b.0 == current.xmin,
        b.1 == current.xmax,
        b.2 == current.xip@,
    ensures
        visible_tuples_under(table.tuples@, b.0, b.1, b.2, cur) == visible_tuples(
            table.tuples@,
            current,
            cur,
        ),
{
}

/// A table holding one live tuple version created by `txid`, scanned with
/// the bounds `(txid, txid, [])` by `txid` itself, surfaces exactly that
/// version: the viewer's own row is visible even under bounds that admit
/// no other transaction, its reported creating id is `txid`, and its
/// reported terminating id is the still-live marker.
pub proof fn lemma_own_single_row(t: TupleVersion, txid: u32)
    requires
        t.xmin == txid,
        t.xmax == INVALID_TRANSACTION_ID,
        !t.frozen,
    ensures
        visible_tuples_under(seq![t], txid, txid, Seq::empty(), txid) == seq![t],
        spec_decode_xmin(t).spec_reported() == txid,
        spec_decode_xmax(t).spec_reported() == INVALID_TRANSACTION_ID,
{
    let ts = seq![t];
    assert(ts.drop_last() =~= Seq::<TupleVersion>::empty());
    assert(tuple_visible_under(txid, txid, Seq::empty(), txid, t));
    assert(visible_tuples_under(Seq::<TupleVersion>::empty(), txid, txid, Seq::empty(), txid)
        == Seq::<TupleVersion>::empty());
    assert(ts.last() == t);
    assert(Seq::<TupleVersion>::empty().push(t) =~= ts);
    assert(visible_tuples_under(ts, txid, txid, Seq::empty(), txid) =~= ts);
}

} // verus!
