use vstd::prelude::*;

use crate::deadline::{Clock, Deadline};
use crate::errors::{BuildErrorKind, Error};
use crate::eval::{wrap_from_u64, EvalConfig, EvalContext};
use crate::executor::{Executor, HashAggExecutor, LimitExecutor, ScanExecutor, SelectionExecutor,
    StreamAggExecutor, TopNExecutor};
use crate::plan::{DagRequest, ExecDescriptor, ExecType, is_scan_descriptor,
    is_wrapping_descriptor, KeyRange, valid_plan};
use crate::response::{Chunk, ExecutorExecutionSummary, SelectResponse, StreamResponse};
use crate::rowcodec::row_binary;
use crate::stats::ExecuteStats;
use crate::storage::{saturating_total, IntervalRange, MemStorage, StorageStats};

verus! {

/// The wire tags of a built chain, leaf first.
pub open spec fn chain_tags(e: Executor) -> Seq<ExecType>
    decreases e,
{
    match e {
        Executor::Scan(s) => seq![
            if s.is_index {
                ExecType::TypeIndexScan
            } else {
                ExecType::TypeTableScan
            },
        ],
        Executor::Selection(x) => chain_tags(*x.src).push(ExecType::TypeSelection),
        Executor::HashAgg(x) => chain_tags(*x.src).push(ExecType::TypeAggregation),
        Executor::StreamAgg(x) => chain_tags(*x.src).push(ExecType::TypeStreamAgg),
        Executor::TopN(x) => chain_tags(*x.src).push(ExecType::TypeTopN),
        Executor::Limit(x) => chain_tags(*x.src).push(ExecType::TypeLimit),
    }
}

/// How many rows a chunk sequence carries in all.
pub open spec fn total_rows(chunks: Seq<Chunk>) -> nat
    decreases chunks.len(),
{
    if chunks.len() == 0 {
        0
    } else {
        total_rows(chunks.drop_last()) + chunks.last().rows@.len()
    }
}

/// Every encoded row of a chunk sequence, in order.
pub open spec fn chunks_row_list(chunks: Seq<Chunk>) -> Seq<Vec<u8>>
    decreases chunks.len(),
{
    if chunks.len() == 0 {
        Seq::empty()
    } else {
        chunks_row_list(chunks.drop_last()) + chunks.last().rows@
    }
}

/// The chunks carry, in pull order, the wire projections of exactly the
/// given rows: nothing dropped, duplicated or reordered.
pub open spec fn chunks_encode(
    chunks: Seq<Chunk>,
    rows: Seq<Seq<crate::value::DatumV>>,
    offsets: Seq<u32>,
) -> bool {
    &&& chunks_row_list(chunks).len() == rows.len()
    &&& forall|i: int|
        0 <= i < rows.len() ==> ((#[trigger] crate::rowcodec::spec_row_binary(rows[i], offsets))
            matches Ok(b) && chunks_row_list(chunks)[i]@ == b)
}

/// The wire tags of a descriptor sequence.
pub open spec fn descriptor_tags(ds: Seq<ExecDescriptor>) -> Seq<ExecType> {
    ds.map_values(|d: ExecDescriptor| d.spec_tp())
}

/// The summary slots of a built chain, leaf first.
pub open spec fn chain_slots(e: Executor) -> Seq<usize>
    decreases e,
{
    match e {
        Executor::Scan(s) => seq![s.slot],
        Executor::Selection(x) => chain_slots(*x.src).push(x.slot),
        Executor::HashAgg(x) => chain_slots(*x.src).push(x.slot),
        Executor::StreamAgg(x) => chain_slots(*x.src).push(x.slot),
        Executor::TopN(x) => chain_slots(*x.src).push(x.slot),
        Executor::Limit(x) => chain_slots(*x.src).push(x.slot),
    }
}

/// Two responses that both encode the same pending rows over the same
/// output offsets carry identical row bytes: any two strategies whose
/// chains agree return the same row set, however they chunk it.
pub proof fn lemma_strategy_row_agreement(
    c1: Seq<Chunk>,
    c2: Seq<Chunk>,
    rows: Seq<Seq<crate::value::DatumV>>,
    offsets: Seq<u32>,
)
    requires
        chunks_encode(c1, rows, offsets),
        chunks_encode(c2, rows, offsets),
    ensures
        chunks_row_list(c1).len() == chunks_row_list(c2).len(),
        forall|i: int|
            0 <= i < chunks_row_list(c1).len() ==> (#[trigger] chunks_row_list(c1)[i])@
                == chunks_row_list(c2)[i]@,
{
    assert forall|i: int|
        0 <= i < chunks_row_list(c1).len() implies (#[trigger] chunks_row_list(c1)[i])@
        == chunks_row_list(c2)[i]@ by {
        assert(crate::rowcodec::spec_row_binary(rows[i], offsets) matches Ok(b)
            && chunks_row_list(c1)[i]@ == b);
        assert(crate::rowcodec::spec_row_binary(rows[i], offsets) matches Ok(b)
            && chunks_row_list(c2)[i]@ == b);
    }
}

/// A run whose deadline cannot expire: a manual clock that stands still at
/// a reading within the bound.
pub open spec fn unexpiring_run(r: ExecutorsRunner) -> bool {
    r.clock matches Clock::Manual { now, step } && step == 0 && now <= r.deadline.deadline_ns
}

/// A run that must miss its deadline at the first served row: a bare scan
/// with rows still pending, read under a manual clock whose first reading
/// already lies past the bound.
pub open spec fn expired_scan_run(r: ExecutorsRunner) -> bool {
    &&& r.executor is Scan
    &&& r.executor.pending_rows().len() > 0
    &&& (r.clock matches Clock::Manual { now, step } && now > r.deadline.deadline_ns)
}

/// The leaf a builder must produce: a fresh scan over exactly the given
/// storage and ranges, with the descriptor's scan kind and unique hint.
pub open spec fn leaf_built_from(
    s: crate::executor::ScanExecutor,
    first: ExecDescriptor,
    storage: MemStorage,
    ranges: Vec<KeyRange>,
    with_summary: bool,
) -> bool {
    &&& s.storage == storage
    &&& s.ranges == ranges
    &&& s.cursor_range == 0
    &&& s.cursor_row == 0
    &&& s.buffered@.len() == 0
    &&& s.scanned@.len() == 0
    &&& s.with_summary == with_summary
    &&& s.slot == 0
    &&& s.is_index == (first is IndexScan)
    &&& (first matches ExecDescriptor::IndexScan(d) ==> s.unique == d.unique)
    &&& (first is TableScan ==> s.unique == false)
}

impl EvalConfig {
    pub fn from_request(req: &DagRequest) -> (r: EvalConfig)
        ensures
            r.max_warning_cnt == req.max_warning_cnt,
    {
        EvalConfig { max_warning_cnt: req.max_warning_cnt }
    }
}

/// Builds the inner-most executor of a pipeline, which produces rows from
/// storage and never receives rows from another executor: it must be a table
/// scan or an index scan.
fn build_first_executor(
    first: ExecDescriptor,
    storage: MemStorage,
    ranges: Vec<KeyRange>,
    is_streaming: bool,
    with_summary: bool,
) -> (r: Result<Executor, Error>)
    ensures
        r is Ok <==> is_scan_descriptor(first),
        !is_scan_descriptor(first) ==> r == Err::<Executor, Error>(
            Error::Build(BuildErrorKind::UnexpectedFirstScanner),
        ),
        r matches Ok(e) ==> e.wf() && chain_tags(e) == seq![first.spec_tp()]
            && e.pending_scanned().len() == 0 && e is Scan && leaf_built_from(
            e.scan_of(),
            first,
            storage,
            ranges,
            with_summary,
        ),
{
    match first {
        ExecDescriptor::TableScan(_) => {
            let e = Executor::Scan(ScanExecutor::table_scan(storage, ranges, with_summary));
            proof {
                assert(chain_tags(e) =~= seq![first.spec_tp()]);
            }
            Ok(e)
        }
        ExecDescriptor::IndexScan(scan) => {
            let e = Executor::Scan(
                ScanExecutor::index_scan(storage, ranges, scan.unique, with_summary),
            );
            proof {
                assert(chain_tags(e) =~= seq![first.spec_tp()]);
            }
            Ok(e)
        }
        _ => Err(Error::Build(BuildErrorKind::UnexpectedFirstScanner)),
    }
}

/// Assembles a descriptor sequence into one executor chain. The first
/// descriptor must be a scan; each following descriptor must be a wrapping
/// stage and is attached, in order, around the chain built so far.
#[verifier::loop_isolation(false)]
pub fn build_executors(
    exec_descriptors: Vec<ExecDescriptor>,
    storage: MemStorage,
    ranges: Vec<KeyRange>,
    config: EvalConfig,
    is_streaming: bool,
    with_summary: bool,
) -> (r: Result<Executor, Error>)
    ensures
        r is Ok <==> valid_plan(exec_descriptors@),
        exec_descriptors@.len() == 0 ==> r == Err::<Executor, Error>(
            Error::Build(BuildErrorKind::NoExecutor),
        ),
        exec_descriptors@.len() >= 1 && !is_scan_descriptor(exec_descriptors@[0]) ==> r == Err::<
            Executor,
            Error,
        >(Error::Build(BuildErrorKind::UnexpectedFirstScanner)),
        exec_descriptors@.len() >= 1 && is_scan_descriptor(exec_descriptors@[0]) && !valid_plan(
            exec_descriptors@,
        ) ==> r == Err::<Executor, Error>(
            Error::Build(BuildErrorKind::UnexpectedNonFirstExecutor),
        ),
        r matches Ok(e) ==> e.wf() && chain_tags(e) == descriptor_tags(exec_descriptors@)
            && e.pending_scanned().len() == 0 && chain_slots(e) == Seq::new(
            exec_descriptors@.len(),
            |i: int| i as usize,
        ) && leaf_built_from(
            e.scan_of(),
            exec_descriptors@[0],
            storage,
            ranges,
            with_summary,
        ),
{
    let ghost ds = exec_descriptors@;
    let mut exec_descriptors = exec_descriptors;
    if exec_descriptors.len() == 0 {
        return Err(Error::Build(BuildErrorKind::NoExecutor));
    }
    let n = exec_descriptors.len();
    let first = exec_descriptors.remove(0);
    let mut src = match build_first_executor(first, storage, ranges, is_streaming, with_summary) {
        Err(e) => {
            return Err(e);
        }
        Ok(e) => e,
    };
    let ghost leaf0 = src.scan_of();
    let mut summary_slot_index: usize = 0;
    proof {
        assert(chain_slots(src) =~= Seq::new(1, |i: int| i as usize));
    }
    loop
        invariant
            exec_descriptors@.len() == ds.len() - 1 - summary_slot_index,
            summary_slot_index < n,
            n as int == ds.len(),
            exec_descriptors@ == ds.skip(summary_slot_index + 1),
            src.wf(),
            src.pending_scanned().len() == 0,
            src.scan_of() == leaf0,
            leaf_built_from(leaf0, ds[0], storage, ranges, with_summary),
            chain_slots(src) == Seq::new((summary_slot_index + 1) as nat, |i: int| i as usize),
            chain_tags(src) == descriptor_tags(ds.take(summary_slot_index + 1)),
            is_scan_descriptor(ds[0]),
            forall|j: int|
                1 <= j <= summary_slot_index ==> is_wrapping_descriptor(#[trigger] ds[j]),
        decreases exec_descriptors@.len(),
    {
        if exec_descriptors.len() == 0 {
            proof {
                assert(ds.take(summary_slot_index + 1) =~= ds);
                assert(forall|j: int|
                    1 <= j < ds.len() ==> is_wrapping_descriptor(#[trigger] ds[j]));
                assert(valid_plan(ds));
            }
            return Ok(src);
        }
        let exec = exec_descriptors.remove(0);
        proof {
            assert(ds.skip(summary_slot_index + 1)[0] == ds[summary_slot_index + 1]);
            assert(ds.skip(summary_slot_index + 1).drop_first() =~= ds.skip(
                summary_slot_index + 2,
            ));
        }
        summary_slot_index = summary_slot_index + 1;
        let slot = summary_slot_index;
        let curr: Executor = match exec {
            ExecDescriptor::Selection(sel) => Executor::Selection(
                SelectionExecutor {
                    src: Box::new(src),
                    conditions: sel.conditions,
                    ctx: EvalContext::new(config),
                    summary: crate::stats::ExecSummary::new(),
                    with_summary,
                    slot,
                },
            ),
            ExecDescriptor::Aggregation(agg) => Executor::HashAgg(
                HashAggExecutor {
                    src: Box::new(src),
                    group_by: agg.group_by,
                    agg_funcs: agg.agg_funcs,
                    ctx: EvalContext::new(config),
                    built: false,
                    groups: Vec::new(),
                    summary: crate::stats::ExecSummary::new(),
                    with_summary,
                    slot,
                },
            ),
            ExecDescriptor::StreamAgg(agg) => Executor::StreamAgg(
                StreamAggExecutor {
                    src: Box::new(src),
                    group_by: agg.group_by,
                    agg_funcs: agg.agg_funcs,
                    ctx: EvalContext::new(config),
                    cur: None,
                    src_done: false,
                    summary: crate::stats::ExecSummary::new(),
                    with_summary,
                    slot,
                },
            ),
            ExecDescriptor::TopN(topn) => Executor::TopN(
                TopNExecutor {
                    src: Box::new(src),
                    order_by: topn.order_by,
                    limit: topn.limit,
                    ctx: EvalContext::new(config),
                    built: false,
                    buffer: Vec::new(),
                    summary: crate::stats::ExecSummary::new(),
                    with_summary,
                    slot,
                },
            ),
            ExecDescriptor::Limit(limit) => Executor::Limit(
                LimitExecutor {
                    src: Box::new(src),
                    limit: limit.limit,
                    cursor: 0,
                    summary: crate::stats::ExecSummary::new(),
                    with_summary,
                    slot,
                },
            ),
            _ => {
                proof {
                    assert(!is_wrapping_descriptor(ds[slot as int]));
                    assert(!valid_plan(ds));
                }
                return Err(Error::Build(BuildErrorKind::UnexpectedNonFirstExecutor));
            }
        };
        proof {
            assert(descriptor_tags(ds.take(slot + 1)) =~= descriptor_tags(ds.take(slot as int)).push(
                ds[slot as int].spec_tp(),
            ));
            assert(Seq::new((slot + 1) as nat, |i: int| i as usize) =~= Seq::new(
                slot as nat,
                |i: int| i as usize,
            ).push(slot));
        }
        src = curr;
    }
}

/// Drives a built chain: pulls rows one by one under the deadline, packs
/// them into bounded chunks, and assembles responses, draining the
/// accumulated statistics into each.
pub struct ExecutorsRunner {
    pub deadline: Deadline,
    pub clock: Clock,
    pub executor: Executor,
    pub output_offsets: Vec<u32>,
    pub batch_row_limit: usize,
    pub collect_exec_summary: bool,
    pub exec_stats: ExecuteStats,
}

impl ExecutorsRunner {
    pub open spec fn wf(self) -> bool {
        &&& self.executor.wf()
        &&& self.batch_row_limit >= 1
    }

    /// Builds a runner from a request: assembles the pipeline and sizes the
    /// statistics. Fails exactly when the plan shape is invalid.
    pub fn from_request(
        req: DagRequest,
        ranges: Vec<KeyRange>,
        storage: MemStorage,
        deadline: Deadline,
        clock: Clock,
        batch_row_limit: usize,
        is_streaming: bool,
    ) -> (r: Result<ExecutorsRunner, Error>)
        requires
            batch_row_limit >= 1,
        ensures
            r is Ok <==> valid_plan(req.executors@),
            r matches Ok(runner) ==> runner.wf() && runner.batch_row_limit == batch_row_limit
                && runner.collect_exec_summary == req.collect_execution_summaries
                && runner.deadline == deadline && runner.clock == clock
                && runner.output_offsets@ == req.output_offsets@ && chain_tags(runner.executor)
                == descriptor_tags(req.executors@) && chain_slots(runner.executor) == Seq::new(
                req.executors@.len(),
                |i: int| i as usize,
            ) && leaf_built_from(
                runner.executor.scan_of(),
                req.executors@[0],
                storage,
                ranges,
                req.collect_execution_summaries,
            ) && runner.exec_stats.is_clear()
                && runner.exec_stats.summary_per_executor@.len() == (
            if req.collect_execution_summaries {
                req.executors@.len() as int
            } else {
                0int
            }),
    {
        let executors_len = req.executors.len();
        let collect_exec_summary = req.collect_execution_summaries;
        let config = EvalConfig::from_request(&req);
        let executor = match build_executors(
            req.executors,
            storage,
            ranges,
            config,
            is_streaming,
            collect_exec_summary,
        ) {
            Err(e) => {
                return Err(e);
            }
            Ok(e) => e,
        };
        let exec_stats = ExecuteStats::new(
            if collect_exec_summary {
                executors_len
            } else {
                // no allocation for summaries nobody asked for
                0
            },
        );
        Ok(
            ExecutorsRunner {
                deadline,
                clock,
                executor,
                output_offsets: req.output_offsets,
                batch_row_limit,
                collect_exec_summary,
                exec_stats,
            },
        )
    }

    /// Assembles one streaming answer around a finished chunk: statistics
    /// are drained into it and reset.
    fn make_stream_response(&mut self, chunk: Chunk) -> (r: Result<StreamResponse, Error>)
        requires
            old(self).wf(),
        ensures
            final(self).wf(),
            final(self).batch_row_limit == old(self).batch_row_limit,
            final(self).executor.output_modeled() == old(self).executor.output_modeled(),
            final(self).executor.pending_rows() == old(self).executor.pending_rows(),
            final(self).executor.remaining() == old(self).executor.remaining(),
            crate::executor::spec_interval(final(self).executor.scan_of())
                == crate::executor::spec_interval(old(self).executor.scan_of()),
            r matches Ok(resp) ==> (resp.data.rows@ == chunk.rows@
                && final(self).executor.chain_warnings() == Seq::<
                crate::errors::Warning,
            >::empty() && final(self).executor.chain_warning_total() == 0
                && final(self).exec_stats.is_clear()),
            r matches Ok(resp) ==> {
                let counts = old(self).exec_stats.scanned_rows_per_range@ + old(
                    self,
                ).executor.pending_scanned();
                &&& resp.output_counts@.len() == counts.len()
                &&& forall|i: int|
                    0 <= i < counts.len() ==> #[trigger] resp.output_counts@[i]
                        == crate::eval::wrap_repr(counts[i] as int)
            },
            r is Err ==> false,
    {
        self.executor.collect_exec_stats(&mut self.exec_stats);
        let mut s_resp = StreamResponse::new();
        s_resp.data = chunk;
        match self.executor.take_eval_warnings() {
            Some(w) => {
                s_resp.warnings = w.warnings;
                s_resp.warning_count = wrap_from_u64(w.warning_cnt);
            }
            None => {}
        }
        s_resp.output_counts = counts_to_wire(&self.exec_stats.scanned_rows_per_range);
        self.exec_stats.clear();
        Ok(s_resp)
    }

    /// Drives the chain to exhaustion and packages every produced row into
    /// bounded chunks: no chunk ever exceeds the configured row limit, every
    /// chunk but the last is exactly full, and the statistics are drained
    /// into the response and cleared. For a chain whose output is modeled
    /// (scans, filters, cutoffs) the chunks hold, in pull order, the wire
    /// projections of exactly the rows the chain serves.
    #[verifier::loop_isolation(false)]
    pub fn handle_request(&mut self) -> (r: Result<SelectResponse, Error>)
        requires
            old(self).wf(),
        ensures
            final(self).wf(),
            final(self).batch_row_limit == old(self).batch_row_limit,
            final(self).output_offsets@ == old(self).output_offsets@,
            final(self).collect_exec_summary == old(self).collect_exec_summary,
            r matches Ok(resp) ==> {
                &&& forall|i: int|
                    0 <= i < resp.chunks@.len() ==> (#[trigger] resp.chunks@[i]).rows@.len()
                        <= old(self).batch_row_limit
                &&& forall|i: int|
                    0 <= i < resp.chunks@.len() - 1 ==> (#[trigger] resp.chunks@[i]).rows@.len()
                        == old(self).batch_row_limit
                &&& resp.chunks@.len() >= 1 ==> resp.chunks@.last().rows@.len() >= 1
                &&& total_rows(resp.chunks@) <= old(self).executor.remaining()
                &&& final(self).executor.remaining() == 0
                &&& final(self).executor.chain_warnings() == Seq::<crate::errors::Warning>::empty()
                &&& final(self).executor.chain_warning_total() == 0
                &&& final(self).exec_stats.is_clear()
                &&& resp.error is None
                &&& old(self).collect_exec_summary ==> resp.execution_summaries@.len() == old(
                    self,
                ).exec_stats.summary_per_executor@.len()
                &&& !old(self).collect_exec_summary ==> resp.execution_summaries@.len() == 0
            },
            old(self).executor.output_modeled() ==> (r matches Ok(resp) ==> chunks_encode(
                resp.chunks@,
                old(self).executor.pending_rows(),
                old(self).output_offsets@,
            )),
            expired_scan_run(*old(self)) ==> r == Err::<SelectResponse, Error>(
                Error::DeadlineExceeded,
            ),
            unexpiring_run(*old(self)) ==> r != Err::<SelectResponse, Error>(
                Error::DeadlineExceeded,
            ),
            old(self).executor is Scan ==> (r matches Ok(resp) ==> {
                let counts = old(self).exec_stats.scanned_rows_per_range@ + old(
                    self,
                ).executor.scan_counts_at_exhaustion();
                &&& resp.output_counts@.len() == counts.len()
                &&& forall|i: int|
                    0 <= i < counts.len() ==> #[trigger] resp.output_counts@[i]
                        == crate::eval::wrap_repr(counts[i] as int)
            }),
            old(self).executor is Scan ==> (r matches Ok(resp) ==> (resp.warnings@.len() == 0
                && resp.warning_count == 0)),
    {
        let ghost pend = old(self).executor.pending_rows();
        let ghost offs = old(self).output_offsets@;
        let mut record_cnt: usize = 0;
        let mut chunks: Vec<Chunk> = Vec::new();
        proof {
            assert(total_rows(chunks@) == 0);
            assert(chunks_row_list(chunks@) =~= Seq::<Vec<u8>>::empty());
            assert(pend.skip(0) =~= pend);
        }
        loop
            invariant
                self.wf(),
                self.batch_row_limit == old(self).batch_row_limit,
                self.output_offsets@ == old(self).output_offsets@,
                self.collect_exec_summary == old(self).collect_exec_summary,
                self.exec_stats.summary_per_executor@.len() == old(
                    self,
                ).exec_stats.summary_per_executor@.len(),
                record_cnt <= self.batch_row_limit,
                chunks@.len() == 0 ==> record_cnt == 0,
                chunks@.len() >= 1 ==> 1 <= record_cnt && chunks@.last().rows@.len() == record_cnt,
                forall|i: int|
                    0 <= i < chunks@.len() - 1 ==> (#[trigger] chunks@[i]).rows@.len()
                        == self.batch_row_limit,
                total_rows(chunks@) + self.executor.remaining() <= old(self).executor.remaining(),
                self.executor.output_modeled() == old(self).executor.output_modeled(),
                old(self).executor.output_modeled() ==> {
                    let served = chunks_row_list(chunks@);
                    &&& served.len() <= pend.len()
                    &&& self.executor.pending_rows() == pend.skip(served.len() as int)
                    &&& forall|i: int|
                        0 <= i < served.len() ==> ((#[trigger] crate::rowcodec::spec_row_binary(
                            pend[i],
                            offs,
                        )) matches Ok(b) && served[i]@ == b)
                },
                self.deadline == old(self).deadline,
                self.executor is Scan == old(self).executor is Scan,
                self.executor.scan_counts_at_exhaustion() == old(
                    self,
                ).executor.scan_counts_at_exhaustion(),
                self.exec_stats.scanned_rows_per_range@ == old(
                    self,
                ).exec_stats.scanned_rows_per_range@,
                expired_scan_run(*old(self)) ==> (self.executor.pending_rows() == pend
                    && self.clock == old(self).clock),
                unexpiring_run(*old(self)) ==> self.clock == old(self).clock,
            decreases self.executor.remaining(),
        {
            let ghost served_pre = chunks_row_list(chunks@);
            let pulled = self.executor.next();
            match pulled {
                Err(e) => {
                    return Err(e);
                }
                Ok(Some(row)) => {
                    proof {
                        if old(self).executor.output_modeled() {
                            assert(pend.skip(served_pre.len() as int)[0] == pend[
                                served_pre.len() as int]);
                            assert(pend.skip(served_pre.len() as int).drop_first() =~= pend.skip(
                                served_pre.len() as int + 1));
                        }
                    }
                    let now = self.clock.now();
                    match self.deadline.check(now) {
                        Err(e) => {
                            proof {
                                // a standing reading within the bound passes
                                assert(!unexpiring_run(*old(self)));
                            }
                            return Err(e);
                        }
                        Ok(()) => {}
                    }
                    proof {
                        // a first reading past the bound cannot pass the check
                        assert(!expired_scan_run(*old(self)));
                    }
                    let value = match row_binary(&row, &self.output_offsets) {
                        Err(k) => {
                            return Err(Error::Evaluate(k));
                        }
                        Ok(v) => v,
                    };
                    if chunks.len() == 0 || record_cnt >= self.batch_row_limit {
                        let ghost before = chunks@;
                        chunks.push(Chunk::new());
                        record_cnt = 0;
                        proof {
                            assert(chunks@.drop_last() =~= before);
                            assert(total_rows(chunks@) == total_rows(before));
                            assert(chunks_row_list(chunks@) =~= chunks_row_list(before));
                        }
                    }
                    let ghost pre_pop = chunks@;
                    let mut chunk = match chunks.pop() {
                        Some(c) => c,
                        None => Chunk::new(),
                    };
                    record_cnt = record_cnt + 1;
                    chunk.append_row(value);
                    chunks.push(chunk);
                    proof {
                        assert(chunks@.drop_last() =~= pre_pop.drop_last());
                        assert(total_rows(chunks@) == total_rows(pre_pop) + 1);
                        assert(chunks@.last().rows@.len() == record_cnt);
                        assert(forall|i: int|
                            0 <= i < chunks@.len() - 1 ==> (#[trigger] chunks@[i]).rows@.len()
                                == self.batch_row_limit);
                        assert(chunks_row_list(chunks@) =~= chunks_row_list(pre_pop).push(value));
                        assert(chunks_row_list(chunks@) =~= served_pre.push(value));
                    }
                }
                Ok(None) => {
                    proof {
                        if old(self).executor.output_modeled() {
                            assert(pend.skip(chunks_row_list(chunks@).len() as int).len() == 0);
                            assert(chunks_row_list(chunks@).len() == pend.len());
                        }
                    }
                    self.executor.collect_exec_stats(&mut self.exec_stats);
                    let mut sel_resp = SelectResponse::new();
                    sel_resp.chunks = chunks;
                    match self.executor.take_eval_warnings() {
                        Some(w) => {
                            sel_resp.warnings = w.warnings;
                            sel_resp.warning_count = wrap_from_u64(w.warning_cnt);
                        }
                        None => {}
                    }
                    sel_resp.output_counts = counts_to_wire(
                        &self.exec_stats.scanned_rows_per_range,
                    );
                    if self.collect_exec_summary {
                        let mut summaries: Vec<ExecutorExecutionSummary> = Vec::new();
                        let mut i: usize = 0;
                        while i < self.exec_stats.summary_per_executor.len()
                            invariant
                                i <= self.exec_stats.summary_per_executor@.len(),
                                summaries@.len() == i,
                                forall|j: int|
                                    0 <= j < i ==> (#[trigger] summaries@[j]).num_iterations
                                        == self.exec_stats.summary_per_executor@[j].num_iterations
                                        && summaries@[j].num_produced_rows
                                        == self.exec_stats.summary_per_executor@[
                                        j].num_produced_rows && summaries@[j].time_processed_ns
                                        == self.exec_stats.summary_per_executor@[
                                        j].time_processed_ns,
                            decreases self.exec_stats.summary_per_executor@.len() - i,
                        {
                            let s = &self.exec_stats.summary_per_executor[i];
                            summaries.push(
                                ExecutorExecutionSummary {
                                    num_iterations: s.num_iterations,
                                    num_produced_rows: s.num_produced_rows,
                                    time_processed_ns: s.time_processed_ns,
                                },
                            );
                            i = i + 1;
                        }
                        sel_resp.execution_summaries = summaries;
                    }
                    // the runner may be driven again: reset the counters
                    self.exec_stats.clear();
                    return Ok(sel_resp);
                }
            }
        }
    }

    /// Pulls rows into one chunk until the row limit or exhaustion. With no
    /// row and an exhausted source the answer is `(None, true)`; otherwise
    /// the chunk holds between one and the limit of rows, the finished flag
    /// is false whenever the limit cut the pull short, and the returned
    /// range is the unconsumed remainder of the leaf scan's active key
    /// range. For a modeled chain the chunk holds the wire projections of
    /// exactly the next pending rows.
    #[verifier::loop_isolation(false)]
    #[verifier::rlimit(60)]
    pub fn handle_streaming_request(&mut self) -> (r: Result<
        (Option<(StreamResponse, IntervalRange)>, bool),
        Error,
    >)
        requires
            old(self).wf(),
        ensures
            final(self).wf(),
            final(self).batch_row_limit == old(self).batch_row_limit,
            r matches Ok((None, f)) ==> f == true && final(self).executor.remaining() == 0,
            r matches Ok((Some((resp, _range)), f)) ==> (1 <= resp.data.rows@.len()
                <= old(self).batch_row_limit && (!f ==> resp.data.rows@.len() == old(
                self,
            ).batch_row_limit) && (f ==> final(self).executor.remaining() == 0)
                && resp.data.rows@.len() <= old(self).executor.remaining()
                && final(self).exec_stats.is_clear()),
            r matches Ok((Some((_resp, range)), _f)) ==> (range.lower_inclusive@
                == crate::executor::spec_interval(final(self).executor.scan_of()).0
                && range.upper_exclusive@ == crate::executor::spec_interval(
                final(self).executor.scan_of(),
            ).1),
            old(self).executor.output_modeled() ==> (r matches Ok((None, _f)) ==> old(
                self,
            ).executor.pending_rows().len() == 0),
            expired_scan_run(*old(self)) ==> r == Err::<
                (Option<(StreamResponse, IntervalRange)>, bool),
                Error,
            >(Error::DeadlineExceeded),
            unexpiring_run(*old(self)) ==> r != Err::<
                (Option<(StreamResponse, IntervalRange)>, bool),
                Error,
            >(Error::DeadlineExceeded),
            old(self).executor.output_modeled() ==> (r matches Ok((Some((resp, _range)), f)) ==> {
                let pend = old(self).executor.pending_rows();
                let m = resp.data.rows@.len();
                &&& m <= pend.len()
                &&& forall|i: int|
                    0 <= i < m ==> ((#[trigger] crate::rowcodec::spec_row_binary(
                        pend[i],
                        old(self).output_offsets@,
                    )) matches Ok(b) && resp.data.rows@[i]@ == b)
                &&& final(self).executor.pending_rows() == pend.skip(m as int)
                &&& (f ==> m == pend.len())
            }),
    {
        let ghost pend = old(self).executor.pending_rows();
        let ghost offs = old(self).output_offsets@;
        let mut record_cnt: usize = 0;
        let mut finished = false;
        let mut chunk = Chunk::new();
        proof {
            assert(pend.skip(0) =~= pend);
        }
        while record_cnt < self.batch_row_limit && !finished
            invariant
                self.wf(),
                self.batch_row_limit == old(self).batch_row_limit,
                self.output_offsets@ == old(self).output_offsets@,
                record_cnt <= self.batch_row_limit,
                chunk.rows@.len() == record_cnt,
                record_cnt + self.executor.remaining() <= old(self).executor.remaining(),
                finished ==> self.executor.remaining() == 0,
                self.deadline == old(self).deadline,
                self.executor is Scan == old(self).executor is Scan,
                self.exec_stats.scanned_rows_per_range@ == old(
                    self,
                ).exec_stats.scanned_rows_per_range@,
                self.executor.scan_counts_at_exhaustion() == old(
                    self,
                ).executor.scan_counts_at_exhaustion(),
                old(self).executor is Scan && finished ==> self.executor.pending_scanned()
                    == old(self).executor.scan_counts_at_exhaustion(),
                expired_scan_run(*old(self)) ==> (self.executor.pending_rows() == pend
                    && self.clock == old(self).clock && record_cnt == 0 && !finished),
                unexpiring_run(*old(self)) ==> self.clock == old(self).clock,
                self.executor.output_modeled() == old(self).executor.output_modeled(),
                old(self).executor.output_modeled() ==> {
                    &&& record_cnt <= pend.len()
                    &&& self.executor.pending_rows() == pend.skip(record_cnt as int)
                    &&& forall|i: int|
                        0 <= i < record_cnt ==> ((#[trigger] crate::rowcodec::spec_row_binary(
                            pend[i],
                            offs,
                        )) matches Ok(b) && chunk.rows@[i]@ == b)
                    &&& (finished ==> record_cnt == pend.len())
                },
            decreases self.executor.remaining() + (if finished {
                0int
            } else {
                1int
            }),
        {
            let ghost k = record_cnt as int;
            let pulled = self.executor.next();
            match pulled {
                Err(e) => {
                    return Err(e);
                }
                Ok(Some(row)) => {
                    proof {
                        if old(self).executor.output_modeled() {
                            assert(pend.skip(k)[0] == pend[k]);
                            assert(pend.skip(k).drop_first() =~= pend.skip(k + 1));
                        }
                    }
                    let now = self.clock.now();
                    match self.deadline.check(now) {
                        Err(e) => {
                            proof {
                                // a standing reading within the bound passes
                                assert(!unexpiring_run(*old(self)));
                            }
                            return Err(e);
                        }
                        Ok(()) => {}
                    }
                    proof {
                        // a first reading past the bound cannot pass the check
                        assert(!expired_scan_run(*old(self)));
                    }
                    let value = match row_binary(&row, &self.output_offsets) {
                        Err(k) => {
                            return Err(Error::Evaluate(k));
                        }
                        Ok(v) => v,
                    };
                    record_cnt = record_cnt + 1;
                    chunk.append_row(value);
                }
                Ok(None) => {
                    proof {
                        if old(self).executor.output_modeled() {
                            assert(pend.skip(k).len() == 0);
                        }
                        if old(self).executor is Scan {
                            assert(self.executor.pending_scanned() == old(
                                self,
                            ).executor.scan_counts_at_exhaustion());
                        }
                    }
                    finished = true;
                }
            }
        }
        if record_cnt > 0 {
            let range = self.executor.take_scanned_range();
            match self.make_stream_response(chunk) {
                Err(e) => Err(e),
                Ok(resp) => Ok((Some((resp, range)), finished)),
            }
        } else {
            Ok((None, true))
        }
    }

    /// Drains the leaf scan's storage counters into the caller's.
    pub fn collect_storage_stats(&mut self, dest: &mut StorageStats)
        requires
            old(self).wf(),
        ensures
            final(self).wf(),
            final(self).batch_row_limit == old(self).batch_row_limit,
            final(dest).rows_fetched as int == saturating_total(
                old(dest).rows_fetched as int,
                old(self).executor.scan_of().storage.stats.rows_fetched as int,
            ),
            final(dest).ranges_opened as int == saturating_total(
                old(dest).ranges_opened as int,
                old(self).executor.scan_of().storage.stats.ranges_opened as int,
            ),
            final(self).executor.scan_of().storage.stats.rows_fetched == 0,
            final(self).executor.scan_of().storage.stats.ranges_opened == 0,
    {
        self.executor.collect_storage_stats(dest);
    }
}

/// The per-range scan counts in wire form.
fn counts_to_wire(counts: &Vec<u64>) -> (r: Vec<i64>)
    ensures
        r@.len() == counts@.len(),
        forall|i: int|
            0 <= i < counts@.len() ==> #[trigger] r@[i] == crate::eval::wrap_repr(
                counts@[i] as int,
            ),
{
    let mut out: Vec<i64> = Vec::new();
    let mut i: usize = 0;
    while i < counts.len()
        invariant
            i <= counts@.len(),
            out@.len() == i,
            forall|j: int|
                0 <= j < i ==> #[trigger] out@[j] == crate::eval::wrap_repr(counts@[j] as int),
        decreases counts@.len() - i,
    {
        out.push(wrap_from_u64(counts[i]));
        i = i + 1;
    }
    out
}

} // verus!
