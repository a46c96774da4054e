use vstd::prelude::*;

use crate::errors::{Error, EvalErrorKind, Warning};
use crate::eval::{eval_expr, wrap_from_u64, datum_truthy, EvalContext, EvalWarnings};
use crate::expr::Expr;
use crate::plan::{AggExpr, AggFunc, KeyRange, OrderBy};
use crate::stats::{ExecSummary, ExecuteStats};
use crate::storage::{count_in_range, entries_view, EntryV, filter_range, IntervalRange,
    MemStorage, saturating_add_u64, StorageEntry, StorageStats};
use crate::value::{bytes_compare, clone_bytes, clone_row, Datum, DatumV, Row, rows_equal};

verus! {

/// The rows still to come from the ranges a scan has not opened yet.
pub open spec fn sum_counts(entries: Seq<EntryV>, ranges: Seq<KeyRange>, from: int) -> nat
    decreases ranges.len() - from,
{
    if from < 0 || from >= ranges.len() {
        0
    } else {
        count_in_range(entries, ranges[from].start@, ranges[from].end@) + sum_counts(
            entries,
            ranges,
            from + 1,
        )
    }
}

/// The leaf of every pipeline: reads the stored rows of each key range, in
/// range order, and serves them one by one. A unique index scan serves at
/// most one row per range.
pub struct ScanExecutor {
    pub storage: MemStorage,
    pub ranges: Vec<KeyRange>,
    pub cursor_range: usize,
    pub buffered: Vec<StorageEntry>,
    pub cursor_row: usize,
    pub scanned: Vec<u64>,
    pub unique: bool,
    pub is_index: bool,
    pub summary: ExecSummary,
    pub with_summary: bool,
    pub slot: usize,
}

impl ScanExecutor {
    pub open spec fn wf(self) -> bool {
        &&& self.cursor_row <= self.buffered@.len()
        &&& self.cursor_range <= self.ranges@.len()
    }

    /// The rows one key range yields, in stored order; a unique index scan
    /// serves at most the first of them.
    pub open spec fn range_output(self, entries: Seq<EntryV>, i: int) -> Seq<Seq<DatumV>> {
        let rows = filter_range(
            entries,
            self.ranges@[i].start@,
            self.ranges@[i].end@,
        ).map_values(|e: EntryV| e.row);
        if self.unique && self.is_index && rows.len() > 1 {
            rows.take(1)
        } else {
            rows
        }
    }

    /// The rows of the ranges this scan has not opened yet, in range order.
    pub open spec fn future_rows(self, from: int) -> Seq<Seq<DatumV>>
        decreases self.ranges@.len() - from,
    {
        if from < 0 || from >= self.ranges@.len() {
            Seq::empty()
        } else {
            self.range_output(entries_view(self.storage.entries@), from) + self.future_rows(
                from + 1,
            )
        }
    }

    /// The unserved rows of the opened range.
    pub open spec fn buffer_rows(self) -> Seq<Seq<DatumV>> {
        if self.cursor_row < self.buffered@.len() {
            if self.unique && self.is_index {
                seq![crate::storage::eview(self.buffered@[self.cursor_row as int]).row]
            } else {
                Seq::new(
                    (self.buffered@.len() - self.cursor_row) as nat,
                    |i: int| crate::storage::eview(self.buffered@[self.cursor_row + i]).row,
                )
            }
        } else {
            Seq::empty()
        }
    }

    /// Exactly the rows this scan will serve from here on, in order.
    pub open spec fn pending(self) -> Seq<Seq<DatumV>> {
        self.buffer_rows() + self.future_rows(self.cursor_range as int)
    }

    /// The per-range row counts of the ranges not yet opened.
    pub open spec fn future_counts(self, from: int) -> Seq<u64>
        decreases self.ranges@.len() - from,
    {
        if from < 0 || from >= self.ranges@.len() {
            Seq::empty()
        } else {
            seq![
                count_in_range(
                    entries_view(self.storage.entries@),
                    self.ranges@[from].start@,
                    self.ranges@[from].end@,
                ) as u64,
            ] + self.future_counts(from + 1)
        }
    }

    /// The per-range counts this scan will have recorded once it has opened
    /// every range.
    pub open spec fn counts_at_exhaustion(self) -> Seq<u64> {
        self.scanned@ + self.future_counts(self.cursor_range as int)
    }

    /// An upper bound on the rows this scan can still serve.
    pub open spec fn rem(self) -> nat {
        (sum_counts(entries_view(self.storage.entries@), self.ranges@, self.cursor_range as int)
            + if self.cursor_row <= self.buffered@.len() {
            self.buffered@.len() - self.cursor_row
        } else {
            0int
        }) as nat
    }

    pub fn table_scan(
        storage: MemStorage,
        ranges: Vec<KeyRange>,
        with_summary: bool,
    ) -> (r: ScanExecutor)
        ensures
            r.wf(),
            r.is_index == false,
            r.unique == false,
            r.storage == storage,
            r.ranges == ranges,
            r.cursor_range == 0,
            r.cursor_row == 0,
            r.buffered@.len() == 0,
            r.scanned@.len() == 0,
            r.with_summary == with_summary,
            r.slot == 0,
    {
        ScanExecutor {
            storage,
            ranges,
            cursor_range: 0,
            buffered: Vec::new(),
            cursor_row: 0,
            scanned: Vec::new(),
            unique: false,
            is_index: false,
            summary: ExecSummary::new(),
            with_summary,
            slot: 0,
        }
    }

    pub fn index_scan(
        storage: MemStorage,
        ranges: Vec<KeyRange>,
        unique: bool,
        with_summary: bool,
    ) -> (r: ScanExecutor)
        ensures
            r.wf(),
            r.is_index == true,
            r.unique == unique,
            r.storage == storage,
            r.ranges == ranges,
            r.cursor_range == 0,
            r.cursor_row == 0,
            r.buffered@.len() == 0,
            r.scanned@.len() == 0,
            r.with_summary == with_summary,
            r.slot == 0,
    {
        ScanExecutor {
            storage,
            ranges,
            cursor_range: 0,
            buffered: Vec::new(),
            cursor_row: 0,
            scanned: Vec::new(),
            unique,
            is_index: true,
            summary: ExecSummary::new(),
            with_summary,
            slot: 0,
        }
    }

    /// Serves the next stored row, opening ranges as needed: exactly the
    /// head of `pending`, which shrinks by that one row.
    #[verifier::loop_isolation(false)]
    pub fn next(&mut self) -> (r: Result<Option<Row>, Error>)
        requires
            old(self).wf(),
        ensures
            final(self).wf(),
            final(self).rem() <= old(self).rem(),
            r matches Ok(Some(_)) ==> final(self).rem() < old(self).rem(),
            r matches Ok(Some(row)) ==> (old(self).pending().len() > 0 && crate::value::row_view(
                row@,
            ) == old(self).pending()[0] && final(self).pending() == old(
                self,
            ).pending().drop_first()),
            r matches Ok(None) ==> (old(self).pending().len() == 0 && final(self).pending()
                == old(self).pending() && final(self).rem() == 0),
            final(self).counts_at_exhaustion() == old(self).counts_at_exhaustion(),
            r matches Ok(None) ==> final(self).scanned@ == old(self).counts_at_exhaustion(),
            r is Err ==> false,
    {
        loop
            invariant
                self.wf(),
                self.rem() <= old(self).rem(),
                self.pending() == old(self).pending(),
                self.counts_at_exhaustion() == old(self).counts_at_exhaustion(),
            decreases self.ranges@.len() - self.cursor_range, self.buffered@.len()
                - self.cursor_row,
        {
            if self.cursor_row < self.buffered.len() {
                let ghost pre = *self;
                let entry = &self.buffered[self.cursor_row];
                let row = clone_row(&entry.row);
                if self.unique && self.is_index {
                    // a unique index matches at most once per range
                    self.cursor_row = self.buffered.len();
                } else {
                    self.cursor_row = self.cursor_row + 1;
                }
                self.summary = bump_summary(&self.summary, true);
                proof {
                    assert(crate::value::row_view(row@) == pre.buffer_rows()[0]);
                    assert(pre.pending()[0] == pre.buffer_rows()[0]);
                    assert(self.buffer_rows() =~= pre.buffer_rows().drop_first());
                    lemma_future_rows_agree(*self, pre, self.cursor_range as int);
                    assert(self.pending() =~= pre.pending().drop_first());
                    lemma_future_counts_agree(*self, pre, self.cursor_range as int);
                    assert(self.counts_at_exhaustion() =~= pre.counts_at_exhaustion());
                }
                return Ok(Some(row));
            }
            if self.cursor_range < self.ranges.len() {
                let ghost pre = *self;
                let ghost entries = entries_view(self.storage.entries@);
                let range_idx = self.cursor_range;
                let fetched = fetch_into(&mut self.storage, &self.ranges, range_idx);
                let n = fetched.len() as u64;
                self.buffered = fetched;
                self.cursor_row = 0;
                self.cursor_range = self.cursor_range + 1;
                self.scanned.push(n);
                proof {
                    let start = self.ranges@[range_idx as int].start@;
                    let end = self.ranges@[range_idx as int].end@;
                    assert(self.buffered@.len() == count_in_range(entries, start, end));
                    assert(sum_counts(entries, self.ranges@, range_idx as int) == count_in_range(
                        entries,
                        start,
                        end,
                    ) + sum_counts(entries, self.ranges@, range_idx + 1));
                    assert(self.rem() == pre.rem());
                    // the freshly opened buffer serves exactly the range's rows
                    let rows = filter_range(entries, start, end).map_values(|e: EntryV| e.row);
                    assert(entries_view(self.buffered@) == filter_range(entries, start, end));
                    assert(rows.len() == self.buffered@.len());
                    assert(forall|i: int|
                        0 <= i < rows.len() ==> #[trigger] rows[i] == crate::storage::eview(
                            self.buffered@[i],
                        ).row);
                    if self.buffered@.len() == 0 {
                        assert(self.buffer_rows() =~= self.range_output(entries, range_idx as int));
                    } else if self.unique && self.is_index {
                        assert(self.buffer_rows() =~= self.range_output(entries, range_idx as int))
                            by {
                            if rows.len() > 1 {
                                assert(rows.take(1) =~= seq![rows[0]]);
                            } else {
                                assert(rows =~= seq![rows[0]]);
                            }
                        }
                    } else {
                        assert(self.buffer_rows() =~= self.range_output(entries, range_idx as int));
                    }
                    assert(pre.future_rows(range_idx as int) == pre.range_output(
                        entries,
                        range_idx as int,
                    ) + pre.future_rows(range_idx + 1));
                    assert(self.range_output(entries, range_idx as int) == pre.range_output(
                        entries,
                        range_idx as int,
                    ));
                    assert(self.future_rows(range_idx + 1) == pre.future_rows(range_idx + 1)) by {
                        lemma_future_rows_agree(*self, pre, range_idx + 1);
                    }
                    assert(pre.buffer_rows() =~= Seq::<Seq<DatumV>>::empty());
                    assert(self.pending() =~= pre.pending());
                    assert(self.future_counts(range_idx + 1) == pre.future_counts(range_idx + 1))
                        by {
                        lemma_future_counts_agree(*self, pre, range_idx + 1);
                    }
                    assert(pre.future_counts(range_idx as int) == seq![
                        count_in_range(entries, start, end) as u64,
                    ] + pre.future_counts(range_idx + 1));
                    assert(n == count_in_range(entries, start, end) as u64);
                    assert(self.counts_at_exhaustion() =~= pre.counts_at_exhaustion());
                }
            } else {
                proof {
                    assert(self.buffer_rows() =~= Seq::<Seq<DatumV>>::empty());
                    assert(self.future_rows(self.cursor_range as int) =~= Seq::<
                        Seq<DatumV>,
                    >::empty());
                    assert(self.pending() =~= Seq::<Seq<DatumV>>::empty());
                    assert(self.future_counts(self.cursor_range as int) =~= Seq::<u64>::empty());
                    assert(self.counts_at_exhaustion() =~= self.scanned@);
                }
                self.summary = bump_summary(&self.summary, false);
                return Ok(None);
            }
        }
    }

    /// The unconsumed remainder of the range being served, the next whole
    /// range when the current one is finished, or the empty interval when
    /// every range is done.
    pub fn take_scanned_range(&mut self) -> (r: IntervalRange)
        requires
            old(self).wf(),
        ensures
            *final(self) == *old(self),
            r.lower_inclusive@ == spec_interval(*old(self)).0,
            r.upper_exclusive@ == spec_interval(*old(self)).1,
    {
        if self.cursor_row < self.buffered.len() && self.cursor_range >= 1 {
            IntervalRange {
                lower_inclusive: clone_bytes(&self.buffered[self.cursor_row].key),
                upper_exclusive: clone_bytes(&self.ranges[self.cursor_range - 1].end),
            }
        } else if self.cursor_range < self.ranges.len() {
            IntervalRange {
                lower_inclusive: clone_bytes(&self.ranges[self.cursor_range].start),
                upper_exclusive: clone_bytes(&self.ranges[self.cursor_range].end),
            }
        } else {
            IntervalRange { lower_inclusive: Vec::new(), upper_exclusive: Vec::new() }
        }
    }
}

/// The unconsumed remainder of a scan's active key range: the rest of the
/// range being served, the next whole range when the current one is
/// finished, or the empty interval when every range is done.
pub open spec fn spec_interval(s: ScanExecutor) -> (Seq<u8>, Seq<u8>) {
    if s.cursor_row < s.buffered@.len() && s.cursor_range >= 1 {
        (s.buffered@[s.cursor_row as int].key@, s.ranges@[s.cursor_range - 1].end@)
    } else if s.cursor_range < s.ranges@.len() {
        (s.ranges@[s.cursor_range as int].start@, s.ranges@[s.cursor_range as int].end@)
    } else {
        (Seq::<u8>::empty(), Seq::<u8>::empty())
    }
}

/// Two scan states with the same store, ranges and scan kind see the same
/// future rows.
proof fn lemma_future_rows_agree(a: ScanExecutor, b: ScanExecutor, from: int)
    requires
        a.storage.entries == b.storage.entries,
        a.ranges == b.ranges,
        a.unique == b.unique,
        a.is_index == b.is_index,
    ensures
        a.future_rows(from) == b.future_rows(from),
    decreases a.ranges@.len() - from,
{
    if 0 <= from < a.ranges@.len() {
        lemma_future_rows_agree(a, b, from + 1);
    }
}

/// Two scan states with the same store and ranges see the same per-range
/// counts ahead.
proof fn lemma_future_counts_agree(a: ScanExecutor, b: ScanExecutor, from: int)
    requires
        a.storage.entries == b.storage.entries,
        a.ranges == b.ranges,
    ensures
        a.future_counts(from) == b.future_counts(from),
    decreases a.ranges@.len() - from,
{
    if 0 <= from < a.ranges@.len() {
        lemma_future_counts_agree(a, b, from + 1);
    }
}

/// Opens one range of the storage: reads all its rows and counts them.
fn fetch_into(storage: &mut MemStorage, ranges: &Vec<KeyRange>, idx: usize) -> (out: Vec<
    StorageEntry,
>)
    requires
        idx < ranges@.len(),
    ensures
        final(storage).entries == old(storage).entries,
        entries_view(out@) == filter_range(
            entries_view(old(storage).entries@),
            ranges@[idx as int].start@,
            ranges@[idx as int].end@,
        ),
        out@.len() == count_in_range(
            entries_view(old(storage).entries@),
            ranges@[idx as int].start@,
            ranges@[idx as int].end@,
        ),
{
    let out = storage.fetch_range(&ranges[idx]);
    proof {
        assert(entries_view(out@).len() == out@.len());
    }
    out
}

/// Adds one pull, and one produced row when it yielded one, to a summary.
fn bump_summary(s: &ExecSummary, produced: bool) -> (r: ExecSummary)
    ensures
        r.num_iterations as int == if s.num_iterations + 1 <= u64::MAX {
            s.num_iterations + 1
        } else {
            u64::MAX as int
        },
        produced ==> r.num_produced_rows as int == if s.num_produced_rows + 1 <= u64::MAX {
            s.num_produced_rows + 1
        } else {
            u64::MAX as int
        },
        !produced ==> r.num_produced_rows == s.num_produced_rows,
        r.time_processed_ns == s.time_processed_ns,
{
    ExecSummary {
        num_iterations: saturating_add_u64(s.num_iterations, 1),
        num_produced_rows: if produced {
            saturating_add_u64(s.num_produced_rows, 1)
        } else {
            s.num_produced_rows
        },
        time_processed_ns: s.time_processed_ns,
    }
}

/// Whether a row satisfies every condition of a filter.
pub open spec fn row_passes(conds: Seq<Expr>, row: Seq<crate::value::DatumV>) -> bool {
    forall|i: int|
        0 <= i < conds.len() ==> ((#[trigger] crate::eval::spec_eval(conds[i], row)) matches Ok(d)
            && crate::eval::spec_truthy(d))
}

/// The rows of a sequence that a filter lets through.
pub open spec fn filter_passing(conds: Seq<Expr>, rows: Seq<Seq<DatumV>>) -> Seq<Seq<DatumV>>
    decreases rows.len(),
{
    if rows.len() == 0 {
        Seq::empty()
    } else {
        (if row_passes(conds, rows[0]) {
            seq![rows[0]]
        } else {
            Seq::empty()
        }) + filter_passing(conds, rows.drop_first())
    }
}

/// A prefix of up to `n` rows.
pub open spec fn take_up_to(rows: Seq<Seq<DatumV>>, n: int) -> Seq<Seq<DatumV>> {
    if n < 0 {
        Seq::empty()
    } else if n <= rows.len() {
        rows.take(n)
    } else {
        rows
    }
}

/// A filter stage: serves the rows of its source on which every condition
/// is true.
pub struct SelectionExecutor {
    pub src: Box<Executor>,
    pub conditions: Vec<Expr>,
    pub ctx: EvalContext,
    pub summary: ExecSummary,
    pub with_summary: bool,
    pub slot: usize,
}

/// One running aggregate of one group.
pub enum AggAcc {
    Count(u64),
    Sum { total: i64, seen: bool },
    First { set: bool, value: Datum },
}

/// Every group carries one accumulator per aggregate function.
pub open spec fn groups_wf(groups: Seq<GroupState>, n: int) -> bool {
    forall|i: int| 0 <= i < groups.len() ==> (#[trigger] groups[i]).accs@.len() == n
}

/// One group under construction: its key values and its running aggregates.
pub struct GroupState {
    pub key: Vec<Datum>,
    pub accs: Vec<AggAcc>,
}

/// A grouping stage tolerant of arbitrary input order: it drains its source
/// completely, groups rows by their key values, then serves one row per
/// group in first-seen order.
pub struct HashAggExecutor {
    pub src: Box<Executor>,
    pub group_by: Vec<Expr>,
    pub agg_funcs: Vec<AggExpr>,
    pub ctx: EvalContext,
    pub built: bool,
    pub groups: Vec<GroupState>,
    pub summary: ExecSummary,
    pub with_summary: bool,
    pub slot: usize,
}

/// A grouping stage that needs its input already ordered by group key: it
/// serves each group as soon as the key changes.
pub struct StreamAggExecutor {
    pub src: Box<Executor>,
    pub group_by: Vec<Expr>,
    pub agg_funcs: Vec<AggExpr>,
    pub ctx: EvalContext,
    pub cur: Option<GroupState>,
    pub src_done: bool,
    pub summary: ExecSummary,
    pub with_summary: bool,
    pub slot: usize,
}

/// One buffered row of a bounded sort, with its evaluated sort keys.
pub struct TopNItem {
    pub keys: Vec<Datum>,
    pub row: Row,
}

/// A bounded sort: keeps the best `limit` rows of its source and serves
/// them in sort order.
pub struct TopNExecutor {
    pub src: Box<Executor>,
    pub order_by: Vec<OrderBy>,
    pub limit: u64,
    pub ctx: EvalContext,
    pub built: bool,
    pub buffer: Vec<TopNItem>,
    pub summary: ExecSummary,
    pub with_summary: bool,
    pub slot: usize,
}

/// A row-count cutoff.
pub struct LimitExecutor {
    pub src: Box<Executor>,
    pub limit: u64,
    pub cursor: u64,
    pub summary: ExecSummary,
    pub with_summary: bool,
    pub slot: usize,
}

/// One stage of the pull-based pipeline: the leaf scan, or a stage wrapping
/// the chain below it.
pub enum Executor {
    Scan(ScanExecutor),
    Selection(SelectionExecutor),
    HashAgg(HashAggExecutor),
    StreamAgg(StreamAggExecutor),
    TopN(TopNExecutor),
    Limit(LimitExecutor),
}

impl Executor {
    /// How many stages stand below this one.
    pub open spec fn depth(self) -> nat
        decreases self,
    {
        match self {
            Executor::Scan(_) => 0,
            Executor::Selection(x) => 1 + x.src.depth(),
            Executor::HashAgg(x) => 1 + x.src.depth(),
            Executor::StreamAgg(x) => 1 + x.src.depth(),
            Executor::TopN(x) => 1 + x.src.depth(),
            Executor::Limit(x) => 1 + x.src.depth(),
        }
    }

    /// An upper bound on the rows this chain can still serve; every served
    /// row strictly decreases it.
    pub open spec fn remaining(self) -> nat
        decreases self,
    {
        match self {
            Executor::Scan(s) => s.rem(),
            Executor::Selection(x) => x.src.remaining(),
            Executor::HashAgg(x) => x.src.remaining() + x.groups@.len(),
            Executor::StreamAgg(x) => x.src.remaining() + if x.cur is Some {
                1nat
            } else {
                0nat
            },
            Executor::TopN(x) => x.src.remaining() + x.buffer@.len(),
            Executor::Limit(x) => if (x.limit - x.cursor) as nat <= x.src.remaining() {
                (x.limit - x.cursor) as nat
            } else {
                x.src.remaining()
            },
        }
    }

    /// The structural invariants every stage keeps.
    pub open spec fn wf(self) -> bool
        decreases self,
    {
        match self {
            Executor::Scan(s) => s.wf(),
            Executor::Selection(x) => x.src.wf(),
            Executor::HashAgg(x) => x.src.wf() && groups_wf(x.groups@, x.agg_funcs@.len() as int)
                && (x.built ==> x.src.remaining() == 0),
            Executor::StreamAgg(x) => x.src.wf() && (x.cur matches Some(g) ==> g.accs@.len()
                == x.agg_funcs@.len()) && (x.src_done ==> x.src.remaining() == 0),
            Executor::TopN(x) => x.buffer@.len() <= x.limit && x.src.wf() && (x.built
                ==> x.src.remaining() == 0),
            Executor::Limit(x) => x.cursor <= x.limit && x.src.wf(),
        }
    }

    /// The leaf scan at the bottom of the chain.
    pub open spec fn scan_of(self) -> ScanExecutor
        decreases self,
    {
        match self {
            Executor::Scan(s) => s,
            Executor::Selection(x) => x.src.scan_of(),
            Executor::HashAgg(x) => x.src.scan_of(),
            Executor::StreamAgg(x) => x.src.scan_of(),
            Executor::TopN(x) => x.src.scan_of(),
            Executor::Limit(x) => x.src.scan_of(),
        }
    }

    /// The per-range scan counts not yet drained into a response.
    pub open spec fn pending_scanned(self) -> Seq<u64> {
        self.scan_of().scanned@
    }

    /// The per-range counts the leaf will have recorded once it has opened
    /// every range.
    pub open spec fn scan_counts_at_exhaustion(self) -> Seq<u64> {
        self.scan_of().counts_at_exhaustion()
    }

    /// Whether `pending_rows` pins this chain's output row for row: it does
    /// for scans, filters and cutoffs; the reordering stages (aggregation
    /// and bounded sort) are bounded but not modeled.
    pub open spec fn output_modeled(self) -> bool
        decreases self,
    {
        match self {
            Executor::Scan(_) => true,
            Executor::Selection(x) => x.src.output_modeled(),
            Executor::Limit(x) => x.src.output_modeled(),
            Executor::HashAgg(_) => false,
            Executor::StreamAgg(_) => false,
            Executor::TopN(_) => false,
        }
    }

    /// The rows a modeled chain will serve from here on, in order.
    pub open spec fn pending_rows(self) -> Seq<Seq<DatumV>>
        decreases self,
    {
        match self {
            Executor::Scan(s) => s.pending(),
            Executor::Selection(x) => filter_passing(x.conditions@, x.src.pending_rows()),
            Executor::Limit(x) => take_up_to(x.src.pending_rows(), x.limit - x.cursor),
            Executor::HashAgg(_) => Seq::empty(),
            Executor::StreamAgg(_) => Seq::empty(),
            Executor::TopN(_) => Seq::empty(),
        }
    }

    /// The warnings the chain's stages hold, leaf first.
    pub open spec fn chain_warnings(self) -> Seq<Warning>
        decreases self,
    {
        match self {
            Executor::Scan(_) => Seq::empty(),
            Executor::Selection(x) => x.src.chain_warnings() + x.ctx.warnings@,
            Executor::HashAgg(x) => x.src.chain_warnings() + x.ctx.warnings@,
            Executor::StreamAgg(x) => x.src.chain_warnings() + x.ctx.warnings@,
            Executor::TopN(x) => x.src.chain_warnings() + x.ctx.warnings@,
            Executor::Limit(x) => x.src.chain_warnings(),
        }
    }

    /// The running warning count of the chain's stages, saturating as the
    /// per-stage counters do.
    pub open spec fn chain_warning_total(self) -> int
        decreases self,
    {
        match self {
            Executor::Scan(_) => 0,
            Executor::Selection(x) => crate::storage::saturating_total(
                x.src.chain_warning_total(),
                x.ctx.warning_cnt as int,
            ),
            Executor::HashAgg(x) => crate::storage::saturating_total(
                x.src.chain_warning_total(),
                x.ctx.warning_cnt as int,
            ),
            Executor::StreamAgg(x) => crate::storage::saturating_total(
                x.src.chain_warning_total(),
                x.ctx.warning_cnt as int,
            ),
            Executor::TopN(x) => crate::storage::saturating_total(
                x.src.chain_warning_total(),
                x.ctx.warning_cnt as int,
            ),
            Executor::Limit(x) => x.src.chain_warning_total(),
        }
    }

    /// Serves the next row of the chain, or `None` on exhaustion, which
    /// leaves nothing behind. The bound on the rows still to come never
    /// grows and strictly shrinks with every served row; for a chain whose
    /// output is modeled, the served row is exactly the head of
    /// `pending_rows`.
    pub fn next(&mut self) -> (r: Result<Option<Row>, Error>)
        requires
            old(self).wf(),
        ensures
            final(self).wf(),
            final(self).depth() == old(self).depth(),
            final(self).remaining() <= old(self).remaining(),
            r matches Ok(Some(_)) ==> final(self).remaining() < old(self).remaining(),
            r matches Ok(None) ==> final(self).remaining() == 0,
            r matches Err(e) ==> e is Evaluate,
            (*final(self)) is Scan == (*old(self)) is Scan,
            (*old(self)) is Scan ==> !(r is Err),
            final(self).scan_counts_at_exhaustion() == old(self).scan_counts_at_exhaustion(),
            (*old(self)) is Scan ==> (r matches Ok(None) ==> final(self).pending_scanned()
                == old(self).scan_counts_at_exhaustion()),
            final(self).output_modeled() == old(self).output_modeled(),
            old(self).output_modeled() ==> (r matches Ok(Some(row)) ==> (old(
                self,
            ).pending_rows().len() > 0 && crate::value::row_view(row@) == old(
                self,
            ).pending_rows()[0] && final(self).pending_rows() == old(
                self,
            ).pending_rows().drop_first())),
            old(self).output_modeled() ==> (r matches Ok(None) ==> (old(self).pending_rows().len()
                == 0 && final(self).pending_rows() == old(self).pending_rows())),
            (*old(self)) matches Executor::Selection(x) ==> (r matches Ok(Some(row))
                ==> row_passes(x.conditions@, crate::value::row_view(row@))),
        decreases old(self).depth(), 1int,
    {
        match self {
            Executor::Scan(s) => s.next(),
            Executor::Selection(x) => x.next(),
            Executor::HashAgg(x) => x.next(),
            Executor::StreamAgg(x) => x.next(),
            Executor::TopN(x) => x.next(),
            Executor::Limit(x) => x.next(),
        }
    }
}

/// The saturating merge of two stage summaries.
pub open spec fn merge_summary(a: ExecSummary, b: ExecSummary) -> ExecSummary {
    ExecSummary {
        num_iterations: crate::storage::saturating_total(
            a.num_iterations as int,
            b.num_iterations as int,
        ) as u64,
        num_produced_rows: crate::storage::saturating_total(
            a.num_produced_rows as int,
            b.num_produced_rows as int,
        ) as u64,
        time_processed_ns: crate::storage::saturating_total(
            a.time_processed_ns as int,
            b.time_processed_ns as int,
        ) as u64,
    }
}

/// One summary added into its slot; slots outside the allocated summaries
/// (summaries not requested) are dropped.
pub open spec fn spec_add_at(ss: Seq<ExecSummary>, slot: int, s: ExecSummary) -> Seq<ExecSummary> {
    if 0 <= slot < ss.len() {
        ss.update(slot, merge_summary(ss[slot], s))
    } else {
        ss
    }
}

/// Adds one stage's summary into its slot of the request counters.
fn add_summary_slot(dest: &mut ExecuteStats, slot: usize, s: &ExecSummary)
    ensures
        final(dest).scanned_rows_per_range@ == old(dest).scanned_rows_per_range@,
        final(dest).summary_per_executor@ == spec_add_at(
            old(dest).summary_per_executor@,
            slot as int,
            *s,
        ),
{
    if slot < dest.summary_per_executor.len() {
        let ghost before = dest.summary_per_executor@;
        let prev = dest.summary_per_executor.remove(slot);
        let merged = ExecSummary {
            num_iterations: saturating_add_u64(prev.num_iterations, s.num_iterations),
            num_produced_rows: saturating_add_u64(prev.num_produced_rows, s.num_produced_rows),
            time_processed_ns: saturating_add_u64(prev.time_processed_ns, s.time_processed_ns),
        };
        dest.summary_per_executor.insert(slot, merged);
        proof {
            assert(dest.summary_per_executor@ =~= before.update(
                slot as int,
                merge_summary(before[slot as int], *s),
            ));
        }
    }
}

/// The warnings an optional drain carries.
pub open spec fn opt_warnings(o: Option<EvalWarnings>) -> Seq<Warning> {
    match o {
        Some(w) => w.warnings@,
        None => Seq::empty(),
    }
}

/// The running count an optional drain carries.
pub open spec fn opt_warning_cnt(o: Option<EvalWarnings>) -> int {
    match o {
        Some(w) => w.warning_cnt as int,
        None => 0,
    }
}

/// Merges the warnings of a stage with those gathered below it.
fn merge_warnings(a: Option<EvalWarnings>, b: Option<EvalWarnings>) -> (r: Option<EvalWarnings>)
    ensures
        r is None <==> a is None && b is None,
        r matches Some(w) ==> (w.warnings@ == opt_warnings(a) + opt_warnings(b)
            && w.warning_cnt as int == crate::storage::saturating_total(
            opt_warning_cnt(a),
            opt_warning_cnt(b),
        )),
{
    match (a, b) {
        (None, None) => None,
        (Some(x), None) => {
            proof {
                assert(x.warnings@ + Seq::<Warning>::empty() =~= x.warnings@);
            }
            Some(x)
        }
        (None, Some(y)) => {
            proof {
                assert(Seq::<Warning>::empty() + y.warnings@ =~= y.warnings@);
            }
            Some(y)
        }
        (Some(mut x), Some(y)) => {
            let mut rest = y.warnings;
            x.warnings.append(&mut rest);
            Some(
                EvalWarnings {
                    warnings: x.warnings,
                    warning_cnt: saturating_add_u64(x.warning_cnt, y.warning_cnt),
                },
            )
        }
    }
}

impl Executor {
    /// The request summaries after this chain's stage summaries, leaf first,
    /// are added into their slots; stages without a collector add nothing.
    pub open spec fn apply_summaries(self, ss: Seq<ExecSummary>) -> Seq<ExecSummary>
        decreases self,
    {
        match self {
            Executor::Scan(s) => if s.with_summary {
                spec_add_at(ss, s.slot as int, s.summary)
            } else {
                ss
            },
            Executor::Selection(x) => if x.with_summary {
                spec_add_at(x.src.apply_summaries(ss), x.slot as int, x.summary)
            } else {
                x.src.apply_summaries(ss)
            },
            Executor::HashAgg(x) => if x.with_summary {
                spec_add_at(x.src.apply_summaries(ss), x.slot as int, x.summary)
            } else {
                x.src.apply_summaries(ss)
            },
            Executor::StreamAgg(x) => if x.with_summary {
                spec_add_at(x.src.apply_summaries(ss), x.slot as int, x.summary)
            } else {
                x.src.apply_summaries(ss)
            },
            Executor::TopN(x) => if x.with_summary {
                spec_add_at(x.src.apply_summaries(ss), x.slot as int, x.summary)
            } else {
                x.src.apply_summaries(ss)
            },
            Executor::Limit(x) => if x.with_summary {
                spec_add_at(x.src.apply_summaries(ss), x.slot as int, x.summary)
            } else {
                x.src.apply_summaries(ss)
            },
        }
    }

    /// Whether every collected stage summary has been drained.
    pub open spec fn summaries_drained(self) -> bool
        decreases self,
    {
        match self {
            Executor::Scan(s) => s.with_summary ==> s.summary == ExecSummary::zero(),
            Executor::Selection(x) => (x.with_summary ==> x.summary == ExecSummary::zero())
                && x.src.summaries_drained(),
            Executor::HashAgg(x) => (x.with_summary ==> x.summary == ExecSummary::zero())
                && x.src.summaries_drained(),
            Executor::StreamAgg(x) => (x.with_summary ==> x.summary == ExecSummary::zero())
                && x.src.summaries_drained(),
            Executor::TopN(x) => (x.with_summary ==> x.summary == ExecSummary::zero())
                && x.src.summaries_drained(),
            Executor::Limit(x) => (x.with_summary ==> x.summary == ExecSummary::zero())
                && x.src.summaries_drained(),
        }
    }

    /// Drains the chain's execution counters into the request counters: the
    /// per-range scan counts are appended, and each stage's summary is added
    /// into its slot.
    pub fn collect_exec_stats(&mut self, dest: &mut ExecuteStats)
        requires
            old(self).wf(),
        ensures
            final(self).wf(),
            final(self).depth() == old(self).depth(),
            final(self).remaining() == old(self).remaining(),
            final(self).output_modeled() == old(self).output_modeled(),
            final(self).pending_rows() == old(self).pending_rows(),
            final(self).chain_warnings() == old(self).chain_warnings(),
            final(self).chain_warning_total() == old(self).chain_warning_total(),
            spec_interval(final(self).scan_of()) == spec_interval(old(self).scan_of()),
            final(dest).scanned_rows_per_range@ == old(dest).scanned_rows_per_range@ + old(
                self,
            ).pending_scanned(),
            final(self).pending_scanned() == Seq::<u64>::empty(),
            final(dest).summary_per_executor@ == old(self).apply_summaries(
                old(dest).summary_per_executor@,
            ),
            final(self).summaries_drained(),
            final(dest).summary_per_executor@.len() == old(dest).summary_per_executor@.len(),
        decreases old(self).depth(), 1int,
    {
        match self {
            Executor::Scan(s) => {
                let ghost pre = *s;
                let mut drained: Vec<u64> = Vec::new();
                core::mem::swap(&mut s.scanned, &mut drained);
                let mut i: usize = 0;
                while i < drained.len()
                    invariant
                        i <= drained@.len(),
                        dest.scanned_rows_per_range@ == old(dest).scanned_rows_per_range@
                            + drained@.subrange(0, i as int),
                        dest.summary_per_executor@ == old(dest).summary_per_executor@,
                    decreases drained@.len() - i,
                {
                    dest.scanned_rows_per_range.push(drained[i]);
                    proof {
                        assert(old(dest).scanned_rows_per_range@ + drained@.subrange(0, i as int)
                            + seq![drained@[i as int]] =~= old(dest).scanned_rows_per_range@
                            + drained@.subrange(0, i + 1));
                    }
                    i = i + 1;
                }
                proof {
                    assert(drained@.subrange(0, drained@.len() as int) =~= drained@);
                }
                if s.with_summary {
                    add_summary_slot(dest, s.slot, &s.summary);
                    s.summary = ExecSummary::new();
                }
                proof {
                    lemma_future_rows_agree(*s, pre, s.cursor_range as int);
                    assert(s.pending() == pre.pending());
                }
            }
            Executor::Selection(x) => {
                x.src.collect_exec_stats(dest);
                if x.with_summary {
                    add_summary_slot(dest, x.slot, &x.summary);
                    x.summary = ExecSummary::new();
                }
            }
            Executor::HashAgg(x) => {
                x.src.collect_exec_stats(dest);
                if x.with_summary {
                    add_summary_slot(dest, x.slot, &x.summary);
                    x.summary = ExecSummary::new();
                }
            }
            Executor::StreamAgg(x) => {
                x.src.collect_exec_stats(dest);
                if x.with_summary {
                    add_summary_slot(dest, x.slot, &x.summary);
                    x.summary = ExecSummary::new();
                }
            }
            Executor::TopN(x) => {
                x.src.collect_exec_stats(dest);
                if x.with_summary {
                    add_summary_slot(dest, x.slot, &x.summary);
                    x.summary = ExecSummary::new();
                }
            }
            Executor::Limit(x) => {
                x.src.collect_exec_stats(dest);
                if x.with_summary {
                    add_summary_slot(dest, x.slot, &x.summary);
                    x.summary = ExecSummary::new();
                }
            }
        }
    }

    /// Drains the evaluation warnings gathered by every stage of the chain:
    /// exactly the stored warnings, leaf first, with the running total.
    pub fn take_eval_warnings(&mut self) -> (r: Option<EvalWarnings>)
        requires
            old(self).wf(),
        ensures
            final(self).wf(),
            final(self).depth() == old(self).depth(),
            final(self).remaining() == old(self).remaining(),
            final(self).pending_scanned() == old(self).pending_scanned(),
            final(self).output_modeled() == old(self).output_modeled(),
            final(self).pending_rows() == old(self).pending_rows(),
            spec_interval(final(self).scan_of()) == spec_interval(old(self).scan_of()),
            opt_warnings(r) == old(self).chain_warnings(),
            opt_warning_cnt(r) == old(self).chain_warning_total(),
            final(self).chain_warnings() == Seq::<Warning>::empty(),
            final(self).chain_warning_total() == 0,
        decreases old(self).depth(), 1int,
    {
        match self {
            Executor::Scan(_) => None,
            Executor::Selection(x) => {
                let below = x.src.take_eval_warnings();
                let mine = x.ctx.take_warnings();
                let merged = merge_warnings(below, mine);
                proof {
                    assert(opt_warnings(merged) =~= opt_warnings(below) + opt_warnings(mine));
                }
                merged
            }
            Executor::HashAgg(x) => {
                let below = x.src.take_eval_warnings();
                let mine = x.ctx.take_warnings();
                let merged = merge_warnings(below, mine);
                proof {
                    assert(opt_warnings(merged) =~= opt_warnings(below) + opt_warnings(mine));
                }
                merged
            }
            Executor::StreamAgg(x) => {
                let below = x.src.take_eval_warnings();
                let mine = x.ctx.take_warnings();
                let merged = merge_warnings(below, mine);
                proof {
                    assert(opt_warnings(merged) =~= opt_warnings(below) + opt_warnings(mine));
                }
                merged
            }
            Executor::TopN(x) => {
                let below = x.src.take_eval_warnings();
                let mine = x.ctx.take_warnings();
                let merged = merge_warnings(below, mine);
                proof {
                    assert(opt_warnings(merged) =~= opt_warnings(below) + opt_warnings(mine));
                }
                merged
            }
            Executor::Limit(x) => x.src.take_eval_warnings(),
        }
    }

    /// The unconsumed remainder of the leaf scan's active key range.
    pub fn take_scanned_range(&mut self) -> (r: IntervalRange)
        requires
            old(self).wf(),
        ensures
            *final(self) == *old(self),
            final(self).wf(),
            r.lower_inclusive@ == spec_interval(old(self).scan_of()).0,
            r.upper_exclusive@ == spec_interval(old(self).scan_of()).1,
        decreases old(self).depth(), 1int,
    {
        match self {
            Executor::Scan(s) => s.take_scanned_range(),
            Executor::Selection(x) => x.src.take_scanned_range(),
            Executor::HashAgg(x) => x.src.take_scanned_range(),
            Executor::StreamAgg(x) => x.src.take_scanned_range(),
            Executor::TopN(x) => x.src.take_scanned_range(),
            Executor::Limit(x) => x.src.take_scanned_range(),
        }
    }

    /// Drains the storage counters of the leaf scan into the caller's.
    pub fn collect_storage_stats(&mut self, dest: &mut StorageStats)
        requires
            old(self).wf(),
        ensures
            final(self).wf(),
            final(self).depth() == old(self).depth(),
            final(self).remaining() == old(self).remaining(),
            final(self).pending_scanned() == old(self).pending_scanned(),
            final(self).output_modeled() == old(self).output_modeled(),
            final(self).pending_rows() == old(self).pending_rows(),
            spec_interval(final(self).scan_of()) == spec_interval(old(self).scan_of()),
            final(dest).rows_fetched as int == crate::storage::saturating_total(
                old(dest).rows_fetched as int,
                old(self).scan_of().storage.stats.rows_fetched as int,
            ),
            final(dest).ranges_opened as int == crate::storage::saturating_total(
                old(dest).ranges_opened as int,
                old(self).scan_of().storage.stats.ranges_opened as int,
            ),
            final(self).scan_of().storage.stats.rows_fetched == 0,
            final(self).scan_of().storage.stats.ranges_opened == 0,
        decreases old(self).depth(), 1int,
    {
        match self {
            Executor::Scan(s) => {
                let ghost pre = *s;
                let st = s.storage.take_stats();
                dest.add(&st);
                proof {
                    lemma_future_rows_agree(*s, pre, s.cursor_range as int);
                    assert(s.pending() == pre.pending());
                }
            }
            Executor::Selection(x) => x.src.collect_storage_stats(dest),
            Executor::HashAgg(x) => x.src.collect_storage_stats(dest),
            Executor::StreamAgg(x) => x.src.collect_storage_stats(dest),
            Executor::TopN(x) => x.src.collect_storage_stats(dest),
            Executor::Limit(x) => x.src.collect_storage_stats(dest),
        }
    }
}

impl SelectionExecutor {
    #[verifier::loop_isolation(false)]
    pub fn next(&mut self) -> (r: Result<Option<Row>, Error>)
        requires
            old(self).src.wf(),
        ensures
            final(self).src.wf(),
            final(self).src.depth() == old(self).src.depth(),
            final(self).src.remaining() <= old(self).src.remaining(),
            final(self).src.scan_counts_at_exhaustion() == old(
                self,
            ).src.scan_counts_at_exhaustion(),
            final(self).conditions@ == old(self).conditions@,
            r matches Ok(Some(_)) ==> final(self).src.remaining() < old(self).src.remaining(),
            r matches Ok(None) ==> final(self).src.remaining() == 0,
            r matches Err(e) ==> e is Evaluate,
            r matches Ok(Some(row)) ==> row_passes(
                old(self).conditions@,
                crate::value::row_view(row@),
            ),
            final(self).src.output_modeled() == old(self).src.output_modeled(),
            old(self).src.output_modeled() ==> (r matches Ok(Some(row)) ==> (filter_passing(
                old(self).conditions@,
                old(self).src.pending_rows(),
            ).len() > 0 && crate::value::row_view(row@) == filter_passing(
                old(self).conditions@,
                old(self).src.pending_rows(),
            )[0] && filter_passing(final(self).conditions@, final(self).src.pending_rows())
                == filter_passing(
                old(self).conditions@,
                old(self).src.pending_rows(),
            ).drop_first())),
            old(self).src.output_modeled() ==> (r matches Ok(None) ==> (filter_passing(
                old(self).conditions@,
                old(self).src.pending_rows(),
            ).len() == 0 && filter_passing(final(self).conditions@, final(self).src.pending_rows())
                == filter_passing(old(self).conditions@, old(self).src.pending_rows()))),
        decreases old(self).src.depth() + 1, 0int,
    {
        let ghost conds = self.conditions@;
        loop
            invariant
                self.src.wf(),
                self.src.depth() == old(self).src.depth(),
                self.src.remaining() <= old(self).src.remaining(),
                self.src.scan_counts_at_exhaustion() == old(self).src.scan_counts_at_exhaustion(),
                self.conditions@ == conds,
                self.src.output_modeled() == old(self).src.output_modeled(),
                old(self).src.output_modeled() ==> filter_passing(conds, self.src.pending_rows())
                    == filter_passing(conds, old(self).src.pending_rows()),
            decreases self.src.remaining(),
        {
            let ghost sp_pre = self.src.pending_rows();
            let pulled = self.src.next();
            match pulled {
                Err(e) => {
                    self.summary = bump_summary(&self.summary, false);
                    return Err(e);
                }
                Ok(None) => {
                    self.summary = bump_summary(&self.summary, false);
                    proof {
                        if old(self).src.output_modeled() {
                            assert(sp_pre.len() == 0);
                            assert(filter_passing(conds, sp_pre).len() == 0);
                        }
                    }
                    return Ok(None);
                }
                Ok(Some(row)) => {
                    let ghost src_snap = self.src;
                    let ghost rv = crate::value::row_view(row@);
                    proof {
                        if old(self).src.output_modeled() {
                            assert(rv == sp_pre[0]);
                            assert(self.src.pending_rows() == sp_pre.drop_first());
                        }
                    }
                    let mut pass = true;
                    let mut i: usize = 0;
                    while i < self.conditions.len() && pass
                        invariant
                            i <= self.conditions@.len(),
                            self.src == src_snap,
                            self.conditions@ == conds,
                            rv == crate::value::row_view(row@),
                            pass ==> forall|j: int|
                                0 <= j < i ==> ((#[trigger] crate::eval::spec_eval(
                                    conds[j],
                                    rv,
                                )) matches Ok(d) && crate::eval::spec_truthy(d)),
                            !pass ==> !row_passes(conds, rv),
                        decreases self.conditions@.len() - i,
                    {
                        let cond = eval_expr(&mut self.ctx, &self.conditions[i], &row);
                        match cond {
                            Err(k) => {
                                return Err(Error::Evaluate(k));
                            }
                            Ok(d) => {
                                match datum_truthy(&d) {
                                    Err(k) => {
                                        return Err(Error::Evaluate(k));
                                    }
                                    Ok(t) => {
                                        if !t {
                                            proof {
                                                assert(!((crate::eval::spec_eval(
                                                    conds[i as int],
                                                    rv,
                                                )) matches Ok(dd)
                                                    && crate::eval::spec_truthy(dd)));
                                            }
                                            pass = false;
                                        }
                                    }
                                }
                            }
                        }
                        i = i + 1;
                    }
                    if pass {
                        self.summary = bump_summary(&self.summary, true);
                        proof {
                            if old(self).src.output_modeled() {
                                assert(row_passes(conds, sp_pre[0]));
                                assert(filter_passing(conds, sp_pre) == seq![rv] + filter_passing(
                                    conds,
                                    sp_pre.drop_first(),
                                ));
                                assert(filter_passing(conds, sp_pre)[0] == rv);
                                assert(filter_passing(conds, sp_pre).drop_first()
                                    =~= filter_passing(conds, sp_pre.drop_first()));
                            }
                        }
                        return Ok(Some(row));
                    }
                    // the row is filtered out: pull the next one
                    proof {
                        if old(self).src.output_modeled() {
                            assert(!row_passes(conds, sp_pre[0]));
                            assert(filter_passing(conds, sp_pre) =~= filter_passing(
                                conds,
                                sp_pre.drop_first(),
                            ));
                        }
                    }
                }
            }
        }
    }
}

impl LimitExecutor {
    pub fn next(&mut self) -> (r: Result<Option<Row>, Error>)
        requires
            old(self).cursor <= old(self).limit,
            old(self).src.wf(),
        ensures
            final(self).cursor <= final(self).limit,
            final(self).src.wf(),
            final(self).limit == old(self).limit,
            final(self).src.depth() == old(self).src.depth(),
            final(self).limit - final(self).cursor <= old(self).limit - old(self).cursor,
            final(self).src.remaining() <= old(self).src.remaining(),
            final(self).src.scan_counts_at_exhaustion() == old(
                self,
            ).src.scan_counts_at_exhaustion(),
            r matches Ok(Some(_)) ==> (final(self).limit - final(self).cursor < old(self).limit
                - old(self).cursor && final(self).src.remaining() < old(self).src.remaining()),
            r matches Ok(None) ==> (final(self).cursor == final(self).limit
                || final(self).src.remaining() == 0),
            r matches Err(e) ==> e is Evaluate,
            final(self).src.output_modeled() == old(self).src.output_modeled(),
            old(self).src.output_modeled() ==> (r matches Ok(Some(row)) ==> (take_up_to(
                old(self).src.pending_rows(),
                old(self).limit - old(self).cursor,
            ).len() > 0 && crate::value::row_view(row@) == take_up_to(
                old(self).src.pending_rows(),
                old(self).limit - old(self).cursor,
            )[0] && take_up_to(
                final(self).src.pending_rows(),
                final(self).limit - final(self).cursor,
            ) == take_up_to(
                old(self).src.pending_rows(),
                old(self).limit - old(self).cursor,
            ).drop_first())),
            old(self).src.output_modeled() ==> (r matches Ok(None) ==> (take_up_to(
                old(self).src.pending_rows(),
                old(self).limit - old(self).cursor,
            ).len() == 0 && take_up_to(
                final(self).src.pending_rows(),
                final(self).limit - final(self).cursor,
            ) == take_up_to(old(self).src.pending_rows(), old(self).limit - old(self).cursor))),
        decreases old(self).src.depth() + 1, 0int,
    {
        if self.cursor >= self.limit {
            self.summary = bump_summary(&self.summary, false);
            return Ok(None);
        }
        let ghost sp_pre = self.src.pending_rows();
        let ghost n = self.limit - self.cursor;
        let pulled = self.src.next();
        match pulled {
            Err(e) => {
                self.summary = bump_summary(&self.summary, false);
                Err(e)
            }
            Ok(None) => {
                self.summary = bump_summary(&self.summary, false);
                proof {
                    if old(self).src.output_modeled() {
                        assert(sp_pre.len() == 0);
                        assert(take_up_to(sp_pre, n as int) =~= sp_pre);
                    }
                }
                Ok(None)
            }
            Ok(Some(row)) => {
                self.cursor = self.cursor + 1;
                self.summary = bump_summary(&self.summary, true);
                proof {
                    if old(self).src.output_modeled() {
                        let taken = take_up_to(sp_pre, n as int);
                        assert(sp_pre.len() > 0);
                        assert(n >= 1);
                        assert(taken.len() > 0);
                        assert(taken[0] == sp_pre[0]);
                        assert(take_up_to(self.src.pending_rows(), (n - 1) as int)
                            =~= taken.drop_first());
                    }
                }
                Ok(Some(row))
            }
        }
    }
}

/// Evaluates a list of expressions over a row into their data, each the
/// specified value of its expression.
fn eval_exprs(ctx: &mut EvalContext, exprs: &Vec<Expr>, row: &Row) -> (r: Result<
    Vec<Datum>,
    Error,
>)
    ensures
        r matches Err(e) ==> e is Evaluate,
        r matches Ok(v) ==> (v@.len() == exprs@.len() && forall|i: int|
            0 <= i < exprs@.len() ==> ((#[trigger] crate::eval::spec_eval(
                exprs@[i],
                crate::value::row_view(row@),
            )) matches Ok(d) && crate::value::dview(v@[i]) == d)),
{
    let ghost rv = crate::value::row_view(row@);
    let mut out: Vec<Datum> = Vec::new();
    let mut i: usize = 0;
    while i < exprs.len()
        invariant
            i <= exprs@.len(),
            out@.len() == i,
            rv == crate::value::row_view(row@),
            forall|j: int|
                0 <= j < i ==> ((#[trigger] crate::eval::spec_eval(exprs@[j], rv)) matches Ok(d)
                    && crate::value::dview(out@[j]) == d),
        decreases exprs@.len() - i,
    {
        match eval_expr(ctx, &exprs[i], row) {
            Err(k) => {
                return Err(Error::Evaluate(k));
            }
            Ok(d) => {
                out.push(d);
            }
        }
        i = i + 1;
    }
    Ok(out)
}

/// Fresh accumulators for a new group.
fn new_accs(agg_funcs: &Vec<AggExpr>) -> (r: Vec<AggAcc>)
    ensures
        r@.len() == agg_funcs@.len(),
{
    let mut out: Vec<AggAcc> = Vec::new();
    let mut i: usize = 0;
    while i < agg_funcs.len()
        invariant
            i <= agg_funcs@.len(),
            out@.len() == i,
        decreases agg_funcs@.len() - i,
    {
        let acc = match agg_funcs[i].func {
            AggFunc::Count => AggAcc::Count(0),
            AggFunc::Sum => AggAcc::Sum { total: 0, seen: false },
            AggFunc::First => AggAcc::First { set: false, value: Datum::Null },
        };
        out.push(acc);
        i = i + 1;
    }
    out
}

/// Folds one row into a group's accumulators.
fn fold_row(
    ctx: &mut EvalContext,
    agg_funcs: &Vec<AggExpr>,
    accs: &mut Vec<AggAcc>,
    row: &Row,
) -> (r: Result<(), Error>)
    requires
        old(accs)@.len() == agg_funcs@.len(),
    ensures
        final(accs)@.len() == agg_funcs@.len(),
        r matches Err(e) ==> e is Evaluate,
{
    let mut i: usize = 0;
    while i < agg_funcs.len()
        invariant
            i <= agg_funcs@.len(),
            accs@.len() == agg_funcs@.len(),
        decreases agg_funcs@.len() - i,
    {
        let arg = match eval_expr(ctx, &agg_funcs[i].expr, row) {
            Err(k) => {
                return Err(Error::Evaluate(k));
            }
            Ok(d) => d,
        };
        let next_acc = match &accs[i] {
            AggAcc::Count(c) => {
                let isn = match &arg {
                    Datum::Null => true,
                    _ => false,
                };
                AggAcc::Count(if isn { *c } else { saturating_add_u64(*c, 1) })
            }
            AggAcc::Sum { total, seen } => {
                match &arg {
                    Datum::Null => AggAcc::Sum { total: *total, seen: *seen },
                    Datum::Int(v) => {
                        let added = checked_add_i64(*total, *v);
                        match added {
                            None => {
                                return Err(Error::Evaluate(EvalErrorKind::Overflow));
                            }
                            Some(t) => AggAcc::Sum { total: t, seen: true },
                        }
                    }
                    Datum::Bytes(_) => {
                        return Err(Error::Evaluate(EvalErrorKind::TypeMismatch));
                    }
                }
            }
            AggAcc::First { set, value } => {
                if *set {
                    AggAcc::First { set: true, value: value.deep_clone() }
                } else {
                    AggAcc::First { set: true, value: arg }
                }
            }
        };
        // replace the accumulator in place
        let _ = accs.remove(i);
        accs.insert(i, next_acc);
        i = i + 1;
    }
    Ok(())
}

/// Signed addition with an overflow check.
fn checked_add_i64(a: i64, b: i64) -> (r: Option<i64>)
    ensures
        -0x8000000000000000 <= a + b < 0x8000000000000000 ==> r == Some((a + b) as i64),
        !(-0x8000000000000000 <= a + b < 0x8000000000000000) ==> r is None,
{
    let s = (a as i128) + (b as i128);
    if s < -0x8000000000000000i128 || s >= 0x8000000000000000i128 {
        None
    } else {
        Some(s as i64)
    }
}

/// The output row of a finished group: the aggregate results, then the
/// group's key values.
fn group_output(g: &GroupState) -> (r: Row) {
    let mut out: Vec<Datum> = Vec::new();
    let mut i: usize = 0;
    while i < g.accs.len()
        invariant
            i <= g.accs@.len(),
        decreases g.accs@.len() - i,
    {
        let d = match &g.accs[i] {
            AggAcc::Count(c) => Datum::Int(wrap_from_u64(*c)),
            AggAcc::Sum { total, seen } => {
                if *seen {
                    Datum::Int(*total)
                } else {
                    Datum::Null
                }
            }
            AggAcc::First { set: _, value } => value.deep_clone(),
        };
        out.push(d);
        i = i + 1;
    }
    let mut j: usize = 0;
    while j < g.key.len()
        invariant
            j <= g.key@.len(),
        decreases g.key@.len() - j,
    {
        out.push(g.key[j].deep_clone());
        j = j + 1;
    }
    out
}

impl HashAggExecutor {
    #[verifier::loop_isolation(false)]
    pub fn next(&mut self) -> (r: Result<Option<Row>, Error>)
        requires
            old(self).src.wf(),
            groups_wf(old(self).groups@, old(self).agg_funcs@.len() as int),
            old(self).built ==> old(self).src.remaining() == 0,
        ensures
            final(self).src.wf(),
            groups_wf(final(self).groups@, final(self).agg_funcs@.len() as int),
            final(self).agg_funcs@.len() == old(self).agg_funcs@.len(),
            final(self).src.depth() == old(self).src.depth(),
            final(self).built ==> final(self).src.remaining() == 0,
            final(self).src.scan_counts_at_exhaustion() == old(
                self,
            ).src.scan_counts_at_exhaustion(),
            final(self).src.remaining() + final(self).groups@.len() <= old(self).src.remaining()
                + old(self).groups@.len(),
            r matches Ok(Some(_)) ==> final(self).src.remaining() + final(self).groups@.len()
                < old(self).src.remaining() + old(self).groups@.len(),
            r matches Ok(None) ==> final(self).src.remaining() == 0 && final(self).groups@.len()
                == 0,
            r matches Err(e) ==> e is Evaluate,
        decreases old(self).src.depth() + 1, 0int,
    {
        if !self.built {
            loop
                invariant
                    self.src.wf(),
                    !self.built,
                    self.src.depth() == old(self).src.depth(),
                    self.src.scan_counts_at_exhaustion() == old(
                        self,
                    ).src.scan_counts_at_exhaustion(),
                    self.agg_funcs@ == old(self).agg_funcs@,
                    groups_wf(self.groups@, self.agg_funcs@.len() as int),
                    self.src.remaining() + self.groups@.len() <= old(self).src.remaining() + old(
                        self,
                    ).groups@.len(),
                decreases self.src.remaining(),
            {
                let pulled = self.src.next();
                match pulled {
                    Err(e) => {
                        self.summary = bump_summary(&self.summary, false);
                        return Err(e);
                    }
                    Ok(None) => {
                        break;
                    }
                    Ok(Some(row)) => {
                        let key = match eval_exprs(&mut self.ctx, &self.group_by, &row) {
                            Err(e) => {
                                self.summary = bump_summary(&self.summary, false);
                                return Err(e);
                            }
                            Ok(k) => k,
                        };
                        let mut found: Option<usize> = None;
                        let mut gi: usize = 0;
                        while gi < self.groups.len()
                            invariant
                                gi <= self.groups@.len(),
                                found matches Some(f) ==> f < self.groups@.len(),
                            decreases self.groups@.len() - gi,
                        {
                            if found.is_none() && rows_equal(&self.groups[gi].key, &key) {
                                found = Some(gi);
                            }
                            gi = gi + 1;
                        }
                        match found {
                            Some(f) => {
                                let mut g = self.groups.remove(f);
                                let folded = fold_row(
                                    &mut self.ctx,
                                    &self.agg_funcs,
                                    &mut g.accs,
                                    &row,
                                );
                                self.groups.insert(f, g);
                                match folded {
                                    Err(e) => {
                                        self.summary = bump_summary(&self.summary, false);
                                        return Err(e);
                                    }
                                    Ok(()) => {}
                                }
                            }
                            None => {
                                let mut g = GroupState { key, accs: new_accs(&self.agg_funcs) };
                                let folded = fold_row(
                                    &mut self.ctx,
                                    &self.agg_funcs,
                                    &mut g.accs,
                                    &row,
                                );
                                match folded {
                                    Err(e) => {
                                        self.summary = bump_summary(&self.summary, false);
                                        return Err(e);
                                    }
                                    Ok(()) => {}
                                }
                                self.groups.push(g);
                            }
                        }
                    }
                }
            }
            self.built = true;
        }
        if self.groups.len() > 0 {
            let g = self.groups.remove(0);
            let row = group_output(&g);
            self.summary = bump_summary(&self.summary, true);
            Ok(Some(row))
        } else {
            self.summary = bump_summary(&self.summary, false);
            Ok(None)
        }
    }
}

impl StreamAggExecutor {
    #[verifier::loop_isolation(false)]
    pub fn next(&mut self) -> (r: Result<Option<Row>, Error>)
        requires
            old(self).src.wf(),
            old(self).cur matches Some(g) ==> g.accs@.len() == old(self).agg_funcs@.len(),
            old(self).src_done ==> old(self).src.remaining() == 0,
        ensures
            final(self).src.wf(),
            final(self).cur matches Some(g) ==> g.accs@.len() == final(self).agg_funcs@.len(),
            final(self).agg_funcs@.len() == old(self).agg_funcs@.len(),
            final(self).src.depth() == old(self).src.depth(),
            final(self).src_done ==> final(self).src.remaining() == 0,
            final(self).src.scan_counts_at_exhaustion() == old(
                self,
            ).src.scan_counts_at_exhaustion(),
            r matches Ok(None) ==> final(self).src.remaining() == 0 && final(self).cur is None,
            r matches Err(e) ==> e is Evaluate,
            final(self).src.remaining() + stream_open(final(self).cur) <= old(
                self,
            ).src.remaining() + stream_open(old(self).cur),
            r matches Ok(Some(_)) ==> final(self).src.remaining() + stream_open(final(self).cur)
                < old(self).src.remaining() + stream_open(old(self).cur),
        decreases old(self).src.depth() + 1, 0int,
    {
        if self.src_done {
            let mut cur: Option<GroupState> = None;
            core::mem::swap(&mut self.cur, &mut cur);
            match cur {
                None => {
                    self.summary = bump_summary(&self.summary, false);
                    return Ok(None);
                }
                Some(g) => {
                    let row = group_output(&g);
                    self.summary = bump_summary(&self.summary, true);
                    return Ok(Some(row));
                }
            }
        }
        loop
            invariant
                self.src.wf(),
                !self.src_done,
                self.src.depth() == old(self).src.depth(),
                self.src.scan_counts_at_exhaustion() == old(self).src.scan_counts_at_exhaustion(),
                self.agg_funcs@ == old(self).agg_funcs@,
                self.cur matches Some(g) ==> g.accs@.len() == self.agg_funcs@.len(),
                self.src.remaining() + stream_open(self.cur) <= old(self).src.remaining()
                    + stream_open(old(self).cur),
            decreases self.src.remaining(),
        {
            let pulled = self.src.next();
            match pulled {
                Err(e) => {
                    self.summary = bump_summary(&self.summary, false);
                    return Err(e);
                }
                Ok(None) => {
                    self.src_done = true;
                    let mut cur: Option<GroupState> = None;
                    core::mem::swap(&mut self.cur, &mut cur);
                    match cur {
                        None => {
                            self.summary = bump_summary(&self.summary, false);
                            return Ok(None);
                        }
                        Some(g) => {
                            let row = group_output(&g);
                            self.summary = bump_summary(&self.summary, true);
                            return Ok(Some(row));
                        }
                    }
                }
                Ok(Some(row)) => {
                    let key = match eval_exprs(&mut self.ctx, &self.group_by, &row) {
                        Err(e) => {
                            self.summary = bump_summary(&self.summary, false);
                            return Err(e);
                        }
                        Ok(k) => k,
                    };
                    let mut cur: Option<GroupState> = None;
                    core::mem::swap(&mut self.cur, &mut cur);
                    match cur {
                        None => {
                            let mut g = GroupState { key, accs: new_accs(&self.agg_funcs) };
                            let folded = fold_row(&mut self.ctx, &self.agg_funcs, &mut g.accs, &row);
                            self.cur = Some(g);
                            match folded {
                                Err(e) => {
                                    self.summary = bump_summary(&self.summary, false);
                                    return Err(e);
                                }
                                Ok(()) => {}
                            }
                        }
                        Some(mut g) => {
                            if rows_equal(&g.key, &key) {
                                let folded = fold_row(
                                    &mut self.ctx,
                                    &self.agg_funcs,
                                    &mut g.accs,
                                    &row,
                                );
                                self.cur = Some(g);
                                match folded {
                                    Err(e) => {
                                        self.summary = bump_summary(&self.summary, false);
                                        return Err(e);
                                    }
                                    Ok(()) => {}
                                }
                            } else {
                                // the key changed: serve the finished group,
                                // the new one starts with this row
                                let out = group_output(&g);
                                let mut ng = GroupState { key, accs: new_accs(&self.agg_funcs) };
                                let folded = fold_row(
                                    &mut self.ctx,
                                    &self.agg_funcs,
                                    &mut ng.accs,
                                    &row,
                                );
                                self.cur = Some(ng);
                                match folded {
                                    Err(e) => {
                                        self.summary = bump_summary(&self.summary, false);
                                        return Err(e);
                                    }
                                    Ok(()) => {}
                                }
                                self.summary = bump_summary(&self.summary, true);
                                return Ok(Some(out));
                            }
                        }
                    }
                }
            }
        }
    }
}

/// Whether a streaming aggregation has a group open.
pub open spec fn stream_open(cur: Option<GroupState>) -> nat {
    if cur is Some {
        1
    } else {
        0
    }
}

/// Orders two rows by their evaluated sort keys, honoring each key's
/// direction; data of different kinds order null first, then integers,
/// then byte strings.
fn cmp_sort_keys(a: &Vec<Datum>, b: &Vec<Datum>, order_by: &Vec<OrderBy>) -> (r:
    core::cmp::Ordering)
{
    let mut i: usize = 0;
    let n = if a.len() < b.len() {
        a.len()
    } else {
        b.len()
    };
    let m = if n < order_by.len() {
        n
    } else {
        order_by.len()
    };
    while i < m
        invariant
            i <= m,
            m <= a@.len(),
            m <= b@.len(),
            m <= order_by@.len(),
        decreases m - i,
    {
        let ord = cmp_datum(&a[i], &b[i]);
        let ord = if order_by[i].desc {
            reverse_ordering(ord)
        } else {
            ord
        };
        match ord {
            core::cmp::Ordering::Equal => {}
            _ => {
                return ord;
            }
        }
        i = i + 1;
    }
    core::cmp::Ordering::Equal
}

fn reverse_ordering(o: core::cmp::Ordering) -> core::cmp::Ordering {
    match o {
        core::cmp::Ordering::Less => core::cmp::Ordering::Greater,
        core::cmp::Ordering::Greater => core::cmp::Ordering::Less,
        core::cmp::Ordering::Equal => core::cmp::Ordering::Equal,
    }
}

/// Null sorts before integers, integers before byte strings.
fn cmp_datum(a: &Datum, b: &Datum) -> core::cmp::Ordering {
    match (a, b) {
        (Datum::Null, Datum::Null) => core::cmp::Ordering::Equal,
        (Datum::Null, _) => core::cmp::Ordering::Less,
        (_, Datum::Null) => core::cmp::Ordering::Greater,
        (Datum::Int(x), Datum::Int(y)) => {
            if *x < *y {
                core::cmp::Ordering::Less
            } else if *x > *y {
                core::cmp::Ordering::Greater
            } else {
                core::cmp::Ordering::Equal
            }
        }
        (Datum::Int(_), Datum::Bytes(_)) => core::cmp::Ordering::Less,
        (Datum::Bytes(_), Datum::Int(_)) => core::cmp::Ordering::Greater,
        (Datum::Bytes(x), Datum::Bytes(y)) => bytes_compare(x, y),
    }
}

impl TopNExecutor {
    #[verifier::loop_isolation(false)]
    pub fn next(&mut self) -> (r: Result<Option<Row>, Error>)
        requires
            old(self).src.wf(),
            old(self).buffer@.len() <= old(self).limit,
            old(self).built ==> old(self).src.remaining() == 0,
        ensures
            final(self).src.wf(),
            final(self).buffer@.len() <= final(self).limit,
            final(self).limit == old(self).limit,
            final(self).src.depth() == old(self).src.depth(),
            final(self).built ==> final(self).src.remaining() == 0,
            final(self).src.scan_counts_at_exhaustion() == old(
                self,
            ).src.scan_counts_at_exhaustion(),
            r matches Ok(None) ==> final(self).src.remaining() == 0 && final(self).buffer@.len()
                == 0,
            r matches Err(e) ==> e is Evaluate,
            final(self).src.remaining() + final(self).buffer@.len() <= old(self).src.remaining()
                + old(self).buffer@.len(),
            r matches Ok(Some(_)) ==> final(self).src.remaining() + final(self).buffer@.len()
                < old(self).src.remaining() + old(self).buffer@.len(),
        decreases old(self).src.depth() + 1, 0int,
    {
        if !self.built {
            loop
                invariant
                    self.src.wf(),
                    !self.built,
                    self.src.depth() == old(self).src.depth(),
                    self.src.scan_counts_at_exhaustion() == old(
                        self,
                    ).src.scan_counts_at_exhaustion(),
                    self.limit == old(self).limit,
                    self.buffer@.len() <= self.limit,
                    self.src.remaining() + self.buffer@.len() <= old(self).src.remaining() + old(
                        self,
                    ).buffer@.len(),
                decreases self.src.remaining(),
            {
                let pulled = self.src.next();
                match pulled {
                    Err(e) => {
                        self.summary = bump_summary(&self.summary, false);
                        return Err(e);
                    }
                    Ok(None) => {
                        break;
                    }
                    Ok(Some(row)) => {
                        let keys = match eval_order_keys(
                            &mut self.ctx,
                            &self.order_by,
                            &row,
                        ) {
                            Err(e) => {
                                self.summary = bump_summary(&self.summary, false);
                                return Err(e);
                            }
                            Ok(k) => k,
                        };
                        let item = TopNItem { keys, row };
                        if (self.buffer.len() as u64) < self.limit {
                            self.buffer.push(item);
                        } else if self.buffer.len() > 0 {
                            // the buffer is full: replace the worst row when
                            // the new one sorts before it
                            let mut worst: usize = 0;
                            let mut gi: usize = 1;
                            while gi < self.buffer.len()
                                invariant
                                    gi <= self.buffer@.len(),
                                    worst < self.buffer@.len(),
                                    self.buffer@.len() > 0,
                                decreases self.buffer@.len() - gi,
                            {
                                let o = cmp_sort_keys(
                                    &self.buffer[gi].keys,
                                    &self.buffer[worst].keys,
                                    &self.order_by,
                                );
                                match o {
                                    core::cmp::Ordering::Greater => {
                                        worst = gi;
                                    }
                                    _ => {}
                                }
                                gi = gi + 1;
                            }
                            let o = cmp_sort_keys(
                                &item.keys,
                                &self.buffer[worst].keys,
                                &self.order_by,
                            );
                            match o {
                                core::cmp::Ordering::Less => {
                                    self.buffer.remove(worst);
                                    self.buffer.push(item);
                                }
                                _ => {}
                            }
                        }
                    }
                }
            }
            self.built = true;
        }
        if self.buffer.len() > 0 {
            // serve the least remaining row
            let mut best: usize = 0;
            let mut gi: usize = 1;
            while gi < self.buffer.len()
                invariant
                    gi <= self.buffer@.len(),
                    best < self.buffer@.len(),
                    self.buffer@.len() > 0,
                decreases self.buffer@.len() - gi,
            {
                let o = cmp_sort_keys(
                    &self.buffer[gi].keys,
                    &self.buffer[best].keys,
                    &self.order_by,
                );
                match o {
                    core::cmp::Ordering::Less => {
                        best = gi;
                    }
                    _ => {}
                }
                gi = gi + 1;
            }
            let item = self.buffer.remove(best);
            self.summary = bump_summary(&self.summary, true);
            Ok(Some(item.row))
        } else {
            self.summary = bump_summary(&self.summary, false);
            Ok(None)
        }
    }
}

/// Evaluates the sort-key expressions of a bounded sort over a row.
fn eval_order_keys(ctx: &mut EvalContext, order_by: &Vec<OrderBy>, row: &Row) -> (r: Result<
    Vec<Datum>,
    Error,
>)
    ensures
        r matches Err(e) ==> e is Evaluate,
{
    let mut out: Vec<Datum> = Vec::new();
    let mut i: usize = 0;
    while i < order_by.len()
        invariant
            i <= order_by@.len(),
        decreases order_by@.len() - i,
    {
        match eval_expr(ctx, &order_by[i].expr, row) {
            Err(k) => {
                return Err(Error::Evaluate(k));
            }
            Ok(d) => {
                out.push(d);
            }
        }
        i = i + 1;
    }
    Ok(out)
}

} // verus!
