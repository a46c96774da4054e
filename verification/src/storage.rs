use vstd::prelude::*;

use crate::plan::KeyRange;
use crate::value::{bytes_compare, clone_bytes, clone_row, dview, lex_le, lex_lt, Datum, DatumV,
    Row};

verus! {

/// Counters of storage work done on behalf of one request.
#[derive(Clone, Copy, PartialEq, Eq, Structural, Debug)]
pub struct StorageStats {
    pub rows_fetched: u64,
    pub ranges_opened: u64,
}

impl StorageStats {
    pub fn new() -> (r: StorageStats)
        ensures
            r.rows_fetched == 0,
            r.ranges_opened == 0,
    {
        StorageStats { rows_fetched: 0, ranges_opened: 0 }
    }

    pub fn add(&mut self, other: &StorageStats)
        ensures
            final(self).rows_fetched as int == if old(self).rows_fetched + other.rows_fetched
                <= u64::MAX {
                old(self).rows_fetched + other.rows_fetched
            } else {
                u64::MAX as int
            },
            final(self).ranges_opened as int == if old(self).ranges_opened + other.ranges_opened
                <= u64::MAX {
                old(self).ranges_opened + other.ranges_opened
            } else {
                u64::MAX as int
            },
    {
        self.rows_fetched = saturating_add_u64(self.rows_fetched, other.rows_fetched);
        self.ranges_opened = saturating_add_u64(self.ranges_opened, other.ranges_opened);
    }
}

/// The saturating sum of two counters.
pub open spec fn saturating_total(a: int, b: int) -> int {
    if a + b <= u64::MAX {
        a + b
    } else {
        u64::MAX as int
    }
}

pub fn saturating_add_u64(a: u64, b: u64) -> (r: u64)
    ensures
        r as int == if a + b <= u64::MAX {
            a + b
        } else {
            u64::MAX as int
        },
{
    if a <= u64::MAX - b {
        a + b
    } else {
        u64::MAX
    }
}

/// One stored row: its key and its decoded column data.
pub struct StorageEntry {
    pub key: Vec<u8>,
    pub row: Row,
}

/// The mathematical value of a stored row.
pub struct EntryV {
    pub key: Seq<u8>,
    pub row: Seq<DatumV>,
}

pub open spec fn eview(e: StorageEntry) -> EntryV {
    EntryV { key: e.key@, row: crate::value::row_view(e.row@) }
}

pub open spec fn entries_view(s: Seq<StorageEntry>) -> Seq<EntryV> {
    s.map_values(|e: StorageEntry| eview(e))
}

/// Whether a stored key lies in a half-open key range.
pub open spec fn key_in_range(k: Seq<u8>, start: Seq<u8>, end: Seq<u8>) -> bool {
    lex_le(start, k) && lex_lt(k, end)
}

/// The stored rows of a range, in stored order.
pub open spec fn filter_range(s: Seq<EntryV>, start: Seq<u8>, end: Seq<u8>) -> Seq<EntryV>
    decreases s.len(),
{
    if s.len() == 0 {
        Seq::empty()
    } else {
        filter_range(s.drop_last(), start, end) + (if key_in_range(s.last().key, start, end) {
            seq![s.last()]
        } else {
            Seq::empty()
        })
    }
}

/// The number of stored rows in a range.
pub open spec fn count_in_range(s: Seq<EntryV>, start: Seq<u8>, end: Seq<u8>) -> nat {
    filter_range(s, start, end).len()
}

/// The in-memory storage collaborator: an ordered list of rows, each under
/// its key, with counters of the work done.
pub struct MemStorage {
    pub entries: Vec<StorageEntry>,
    pub stats: StorageStats,
}

impl MemStorage {
    pub fn new(entries: Vec<StorageEntry>) -> (r: MemStorage)
        ensures
            r.entries == entries,
            r.stats.rows_fetched == 0,
            r.stats.ranges_opened == 0,
    {
        MemStorage { entries, stats: StorageStats::new() }
    }

    /// Reads every stored row of one key range, in stored order, counting the
    /// work done.
    pub fn fetch_range(&mut self, range: &KeyRange) -> (out: Vec<StorageEntry>)
        ensures
            final(self).entries == old(self).entries,
            entries_view(out@) == filter_range(
                entries_view(old(self).entries@),
                range.start@,
                range.end@,
            ),
            final(self).stats.ranges_opened as int == if old(self).stats.ranges_opened + 1
                <= u64::MAX {
                old(self).stats.ranges_opened + 1
            } else {
                u64::MAX as int
            },
            final(self).stats.rows_fetched as int == if old(self).stats.rows_fetched + out@.len()
                <= u64::MAX {
                old(self).stats.rows_fetched + out@.len()
            } else {
                u64::MAX as int
            },
    {
        let ghost all = entries_view(self.entries@);
        let mut out: Vec<StorageEntry> = Vec::new();
        let mut i: usize = 0;
        while i < self.entries.len()
            invariant
                i <= self.entries@.len(),
                all == entries_view(self.entries@),
                entries_view(out@) == filter_range(all.take(i as int), range.start@, range.end@),
            decreases self.entries@.len() - i,
        {
            let e = &self.entries[i];
            let ge_start = match bytes_compare(&range.start, &e.key) {
                core::cmp::Ordering::Greater => false,
                _ => true,
            };
            let lt_end = match bytes_compare(&e.key, &range.end) {
                core::cmp::Ordering::Less => true,
                _ => false,
            };
            proof {
                assert(all.take(i + 1).drop_last() =~= all.take(i as int));
                assert(all.take(i + 1).last() == all[i as int]);
                assert(all[i as int] == eview(self.entries@[i as int]));
            }
            if ge_start && lt_end {
                let ghost out_pre = entries_view(out@);
                out.push(StorageEntry { key: clone_bytes(&e.key), row: clone_row(&e.row) });
                proof {
                    assert(entries_view(out@) =~= out_pre + seq![eview(self.entries@[i as int])])
                        by {
                        assert(forall|j: int|
                            0 <= j < out@.len() - 1 ==> entries_view(out@)[j] == out_pre[j]);
                        assert(eview(out@.last()) =~= eview(self.entries@[i as int]));
                    }
                }
            }
            i = i + 1;
        }
        proof {
            assert(all.take(i as int) =~= all);
        }
        let n = out.len() as u64;
        self.stats.rows_fetched = saturating_add_u64(self.stats.rows_fetched, n);
        self.stats.ranges_opened = saturating_add_u64(self.stats.ranges_opened, 1);
        out
    }

    /// Hands the accumulated storage counters to the caller and resets them.
    pub fn take_stats(&mut self) -> (r: StorageStats)
        ensures
            r == old(self).stats,
            final(self).entries == old(self).entries,
            final(self).stats.rows_fetched == 0,
            final(self).stats.ranges_opened == 0,
    {
        let r = self.stats;
        self.stats = StorageStats::new();
        r
    }
}

/// The unconsumed remainder of the key range a scan is working through, for
/// resuming a streaming request.
pub struct IntervalRange {
    pub lower_inclusive: Vec<u8>,
    pub upper_exclusive: Vec<u8>,
}

} // verus!
