//! The history of saved scans: which entries are kept, which belong to a
//! directory, and how the latest scan of a directory differs from the one
//! before.
use crate::scanner::ScanSummary;
use vstd::prelude::*;

verus! {

/// A moment in UTC: seconds since the Unix epoch and the nanoseconds past
/// that second.
#[derive(Debug, Clone, Copy, PartialEq, Eq, Structural)]
pub struct Timestamp {
    pub secs: i64,
    pub nanos: u32,
}

/// One saved scan.
#[derive(Debug, Clone)]
pub struct HistoryEntry {
    pub timestamp: Timestamp,
    pub root: String,
    pub summary: ScanSummary,
}

/// How many entries the history keeps.
pub const HISTORY_LIMIT: usize = 100;

/// The history after saving `entry`: the entry is appended, and only the
/// last `HISTORY_LIMIT` entries are kept.
pub open spec fn recorded(entries: Seq<HistoryEntry>, entry: HistoryEntry) -> Seq<HistoryEntry> {
    let all = entries.push(entry);
    if all.len() > HISTORY_LIMIT {
        all.skip(all.len() - HISTORY_LIMIT)
    } else {
        all
    }
}

/// Saving a scan keeps the newest entries, oldest first, with the new entry
/// last: at most 100 of them, and all of them while there are fewer.
pub proof fn lemma_recorded_keeps_newest(entries: Seq<HistoryEntry>, entry: HistoryEntry)
    ensures
        recorded(entries, entry).len() == if entries.len() + 1 <= 100 {
            entries.len() + 1
        } else {
            100
        },
        recorded(entries, entry).last() == entry,
        forall|k: int|
            0 <= k < recorded(entries, entry).len() - 1 ==> #[trigger] recorded(entries, entry)[k]
                == entries[entries.len() - (recorded(entries, entry).len() - 1) + k],
{
}

/// Appends `entry` to the history and drops the oldest entries beyond
/// `HISTORY_LIMIT`.
pub fn record_entry(entries: &mut Vec<HistoryEntry>, entry: HistoryEntry)
    ensures
        final(entries)@ == recorded(old(entries)@, entry),
        final(entries)@.len() <= HISTORY_LIMIT,
        final(entries)@.last() == entry,
{
    entries.push(entry);
    if entries.len() > HISTORY_LIMIT {
        let drop = entries.len() - HISTORY_LIMIT;
        let kept = entries.split_off(drop);
        *entries = kept;
    }
}

/// The positions of the entries for `root`, oldest first.
pub open spec fn positions_for(entries: Seq<HistoryEntry>, root: Seq<char>, n: int) -> Seq<usize>
    decreases n,
{
    if n <= 0 {
        Seq::empty()
    } else {
        let prev = positions_for(entries, root, n - 1);
        if entries[n - 1].root@ == root {
            prev.push((n - 1) as usize)
        } else {
            prev
        }
    }
}

/// The positions of the entries for `root`, oldest first.
pub open spec fn entries_for(entries: Seq<HistoryEntry>, root: Seq<char>) -> Seq<usize> {
    positions_for(entries, root, entries.len() as int)
}

proof fn lemma_positions_bounds(entries: Seq<HistoryEntry>, root: Seq<char>, n: int)
    requires
        0 <= n <= entries.len(),
        entries.len() <= usize::MAX,
    ensures
        forall|k: int|
            0 <= k < positions_for(entries, root, n).len() ==> #[trigger] positions_for(
                entries,
                root,
                n,
            )[k] < n && entries[positions_for(entries, root, n)[k] as int].root@ == root,
    decreases n,
{
    if n > 0 {
        lemma_positions_bounds(entries, root, n - 1);
        let prev = positions_for(entries, root, n - 1);
        let cur = positions_for(entries, root, n);
        assert forall|k: int| 0 <= k < cur.len() implies #[trigger] cur[k] < n && entries[cur[k] as int].root@ == root by {
            if k < prev.len() {
                assert(cur[k] == prev[k]);
            } else {
                assert(cur[k] == (n - 1) as usize);
            }
        }
    }
}

/// The positions of the entries for `root`, oldest first.
pub fn history_for_root(entries: &Vec<HistoryEntry>, root: &str) -> (r: Vec<usize>)
    ensures
        r@ == entries_for(entries@, root@),
        forall|k: int|
            0 <= k < r@.len() ==> #[trigger] r@[k] < entries@.len() && entries@[r@[k] as int].root@
                == root@,
{
    let target = root.to_owned();
    let mut r: Vec<usize> = Vec::new();
    let mut i: usize = 0;
    while i < entries.len()
        invariant
            i <= entries@.len(),
            target@ == root@,
            r@ == positions_for(entries@, root@, i as int),
        decreases entries@.len() - i,
    {
        if entries[i].root == target {
            r.push(i);
        }
        i = i + 1;
    }
    proof {
        assert(entries@.len() == entries.len());
        lemma_positions_bounds(entries@, root@, entries@.len() as int);
    }
    r
}

/// Whether the line totals of the entries for `root` fit in a `usize`.
pub open spec fn root_totals_fit(entries: Seq<HistoryEntry>, root: Seq<char>) -> bool {
    forall|i: int|
        0 <= i < entries.len() && #[trigger] entries[i].root@ == root
            ==> entries[i].summary.total_counts.spec_total() <= usize::MAX
}

/// Whether the change between the last two entries for `root`, each count
/// taken as an `i64` (wrapping as `as` does), fits in an `i64`.
pub open spec fn change_fits(entries: Seq<HistoryEntry>, root: Seq<char>) -> bool {
    match change_for(entries, root) {
        Some((t, c)) => i64::MIN <= t <= i64::MAX && i64::MIN <= c <= i64::MAX,
        None => true,
    }
}

/// Whether the history of `root` can be shown: the totals of its entries
/// fit in a `usize`, and the change between the last two fits in an `i64`.
pub fn history_totals_fit(entries: &Vec<HistoryEntry>, root: &str) -> (r: bool)
    ensures
        r == (root_totals_fit(entries@, root@) && change_fits(entries@, root@)),
{
    let target = root.to_owned();
    let mut i: usize = 0;
    while i < entries.len()
        invariant
            i <= entries@.len(),
            target@ == root@,
            forall|m: int|
                0 <= m < i && #[trigger] entries@[m].root@ == root@
                    ==> entries@[m].summary.total_counts.spec_total() <= usize::MAX,
        decreases entries@.len() - i,
    {
        if entries[i].root == target {
            let c = entries[i].summary.total_counts;
            let total = match c.code.checked_add(c.comments) {
                Some(a) => a.checked_add(c.blank),
                None => None,
            };
            if total.is_none() {
                return false;
            }
        }
        i = i + 1;
    }
    let m = history_for_root(entries, root);
    if m.len() < 2 {
        return true;
    }
    assert(entries@[m@[m@.len() - 2] as int].root@ == root@);
    assert(entries@[m@[m@.len() - 1] as int].root@ == root@);
    let prev = entries[m[m.len() - 2]].summary.total_counts;
    let curr = entries[m[m.len() - 1]].summary.total_counts;
    let t = (curr.total() as i64).checked_sub(prev.total() as i64);
    let c = (curr.code as i64).checked_sub(prev.code as i64);
    t.is_some() && c.is_some()
}

/// How the latest scan of a directory differs from the scan before it, in
/// all lines and in code lines.
#[derive(Debug, Clone, Copy, PartialEq, Eq, Structural)]
pub struct HistoryChange {
    pub total: i64,
    pub code: i64,
}

/// The change between the last two entries for `root`, if there are two.
pub open spec fn change_for(entries: Seq<HistoryEntry>, root: Seq<char>) -> Option<(int, int)> {
    let m = entries_for(entries, root);
    if m.len() < 2 {
        None
    } else {
        let prev = entries[m[m.len() - 2] as int].summary.total_counts;
        let curr = entries[m[m.len() - 1] as int].summary.total_counts;
        Some(
            (
                (curr.spec_total() as usize) as i64 - (prev.spec_total() as usize) as i64,
                (curr.code as i64) - (prev.code as i64),
            ),
        )
    }
}

/// Entries for other directories leave the positions unchanged.
proof fn lemma_positions_skip(entries: Seq<HistoryEntry>, root: Seq<char>, a: int, b: int)
    requires
        0 <= a <= b <= entries.len(),
        forall|k: int| a <= k < b ==> #[trigger] entries[k].root@ != root,
    ensures
        positions_for(entries, root, b) == positions_for(entries, root, a),
    decreases b - a,
{
    if a < b {
        lemma_positions_skip(entries, root, a, b - 1);
    }
}

/// The change between the scans of a directory is taken between its last
/// two entries, `prev` at `i` and `curr` at `j`: the total change is the
/// difference of their full line totals (code, comment and blank lines), the
/// code change the difference of their code lines, each line count taken as
/// an `i64` as a cast does (exactly, where it fits).
pub proof fn lemma_change_between_last_two(
    entries: Seq<HistoryEntry>,
    root: Seq<char>,
    i: int,
    j: int,
)
    requires
        0 <= i < j < entries.len(),
        entries.len() <= usize::MAX,
        entries[i].root@ == root,
        entries[j].root@ == root,
        forall|k: int| i < k < entries.len() && k != j ==> #[trigger] entries[k].root@ != root,
    ensures
        ({
            let prev = entries[i].summary.total_counts;
            let curr = entries[j].summary.total_counts;
            let pt = prev.code + prev.comments + prev.blank;
            let ct = curr.code + curr.comments + curr.blank;
            &&& change_for(entries, root) == Some(
                (
                    (ct as usize) as i64 - (pt as usize) as i64,
                    (curr.code as i64) - (prev.code as i64),
                ),
            )
            &&& (ct <= usize::MAX && pt <= usize::MAX && ct <= i64::MAX && pt <= i64::MAX)
                ==> change_for(entries, root) == Some(
                (ct - pt, curr.code - prev.code),
            )
        }),
{
    lemma_positions_skip(entries, root, j + 1, entries.len() as int);
    lemma_positions_skip(entries, root, i + 1, j);
    let before = positions_for(entries, root, i);
    assert(positions_for(entries, root, i + 1) == before.push(i as usize));
    assert(positions_for(entries, root, j + 1) == before.push(i as usize).push(j as usize));
    let m = entries_for(entries, root);
    assert(m[m.len() - 1] == j as usize);
    assert(m[m.len() - 2] == i as usize);
    let prev = entries[i].summary.total_counts;
    let curr = entries[j].summary.total_counts;
    let pt = prev.code + prev.comments + prev.blank;
    let ct = curr.code + curr.comments + curr.blank;
    if ct <= usize::MAX && pt <= usize::MAX && ct <= i64::MAX && pt <= i64::MAX {
        lemma_cast_keeps(ct);
        lemma_cast_keeps(pt);
        lemma_cast_keeps(curr.code as int);
        lemma_cast_keeps(prev.code as int);
        assert((curr.code as int) as usize == curr.code);
    }
}

/// A count that fits in a `usize` and an `i64` keeps its value through the
/// casts.
proof fn lemma_cast_keeps(x: int)
    requires
        0 <= x <= usize::MAX,
        x <= i64::MAX,
    ensures
        (x as usize) as i64 == x,
{
    let u = x as usize;
    assert(u == x);
    let w = u as u64;
    assert(w == u);
    assert((w as i64) == w) by (bit_vector)
        requires
            w <= 0x7fff_ffff_ffff_ffffu64,
    ;
    assert((u as i64) == (w as i64));
}

/// With fewer than two entries for a directory there is no change to show.
pub proof fn lemma_no_change_without_two(entries: Seq<HistoryEntry>, root: Seq<char>, j: int)
    requires
        0 <= j <= entries.len(),
        forall|k: int| 0 <= k < entries.len() && k != j ==> #[trigger] entries[k].root@ != root,
    ensures
        change_for(entries, root) is None,
{
    if j < entries.len() {
        lemma_positions_skip(entries, root, 0, j);
        lemma_positions_skip(entries, root, j + 1, entries.len() as int);
        assert(positions_for(entries, root, j + 1).len() <= 1);
    } else {
        lemma_positions_skip(entries, root, 0, entries.len() as int);
    }
}

/// The change between the last two entries for `root`: how many more lines
/// and code lines the latest scan counted, each count taken as an `i64`.
/// Totals of the entries for `root` must fit in a `usize`, and the change in
/// an `i64`.
pub fn history_change(entries: &Vec<HistoryEntry>, root: &str) -> (r: Option<HistoryChange>)
    requires
        root_totals_fit(entries@, root@),
        change_fits(entries@, root@),
    ensures
        match change_for(entries@, root@) {
            None => r is None,
            Some((t, c)) => r == Some(HistoryChange { total: t as i64, code: c as i64 }),
        },
{
    let m = history_for_root(entries, root);
    if m.len() < 2 {
        return None;
    }
    assert(entries@[m@[m@.len() - 2] as int].root@ == root@);
    assert(entries@[m@[m@.len() - 1] as int].root@ == root@);
    let prev = entries[m[m.len() - 2]].summary.total_counts;
    let curr = entries[m[m.len() - 1]].summary.total_counts;
    let prev_total = prev.total() as i64;
    let curr_total = curr.total() as i64;
    let prev_code = prev.code as i64;
    let curr_code = curr.code as i64;
    Some(HistoryChange { total: curr_total - prev_total, code: curr_code - prev_code })
}

} // verus!
