use vstd::prelude::*;

use crate::deadline::{Clock, Deadline};
use crate::errors::{BuildErrorKind, Error};
use crate::expr::{Expr, ExprOp};
use crate::plan::{DagRequest, ExecDescriptor, KeyRange, valid_plan};
use crate::registry::{map_pb_sig_to_rpn_func, rpn_meta_of};
use crate::response::SelectResponse;
use crate::runner::{chain_slots, chunks_encode, leaf_built_from, ExecutorsRunner};
use crate::stats::ExecuteStats;
use crate::storage::{MemStorage, StorageStats};

verus! {

/// How many rows one chunk of the vectorized strategy carries at most.
pub const BATCH_MAX_CHUNK_ROWS: usize = 1024;

/// Whether every scalar call in an expression tree has a routine in the
/// vectorized dispatch table.
pub open spec fn expr_batch_supported(e: Expr) -> bool
    decreases e,
{
    &&& (e.op matches ExprOp::ScalarFunc(sig) ==> rpn_meta_of(sig, e.children@) is Ok)
    &&& exprs_batch_supported(e.children@)
}

pub open spec fn exprs_batch_supported(es: Seq<Expr>) -> bool
    decreases es,
{
    if es.len() == 0 {
        true
    } else {
        expr_batch_supported(es[0]) && exprs_batch_supported(es.drop_first())
    }
}

/// Whether a descriptor, with every expression it carries, can run on the
/// vectorized path.
pub open spec fn descriptor_batch_supported(d: ExecDescriptor) -> bool {
    match d {
        ExecDescriptor::TableScan(_) => true,
        ExecDescriptor::IndexScan(_) => true,
        ExecDescriptor::Selection(sel) => exprs_batch_supported(sel.conditions@),
        ExecDescriptor::Aggregation(agg) => exprs_batch_supported(agg.group_by@)
            && agg_args_batch_supported(agg.agg_funcs@),
        ExecDescriptor::StreamAgg(agg) => exprs_batch_supported(agg.group_by@)
            && agg_args_batch_supported(agg.agg_funcs@),
        ExecDescriptor::TopN(topn) => order_batch_supported(topn.order_by@),
        ExecDescriptor::Limit(_) => true,
    }
}

pub open spec fn agg_args_batch_supported(fs: Seq<crate::plan::AggExpr>) -> bool {
    forall|i: int| 0 <= i < fs.len() ==> expr_batch_supported((#[trigger] fs[i]).expr)
}

pub open spec fn order_batch_supported(os: Seq<crate::plan::OrderBy>) -> bool {
    forall|i: int| 0 <= i < os.len() ==> expr_batch_supported((#[trigger] os[i]).expr)
}

/// Whether a whole plan can run on the vectorized path.
pub open spec fn batch_supported_plan(ds: Seq<ExecDescriptor>) -> bool {
    forall|i: int| 0 <= i < ds.len() ==> descriptor_batch_supported(#[trigger] ds[i])
}

/// Whether every scalar call of this tree has a vectorized routine.
fn check_expr_supported(e: &Expr) -> (r: bool)
    ensures
        r == expr_batch_supported(*e),
    decreases e,
{
    let node_ok = match &e.op {
        ExprOp::ScalarFunc(sig) => {
            match map_pb_sig_to_rpn_func(*sig, &e.children) {
                Ok(_) => true,
                Err(_) => false,
            }
        }
        _ => true,
    };
    if !node_ok {
        return false;
    }
    let mut i: usize = 0;
    proof {
        assert(e.children@.skip(0) =~= e.children@);
    }
    while i < e.children.len()
        invariant
            i <= e.children@.len(),
            exprs_batch_supported(e.children@) == exprs_batch_supported(
                e.children@.skip(i as int),
            ),
        decreases e.children@.len() - i,
    {
        proof {
            assert(e.children@.skip(i as int)[0] == e.children@[i as int]);
            assert(e.children@.skip(i as int).drop_first() =~= e.children@.skip(i + 1));
        }
        if !check_expr_supported(&e.children[i]) {
            return false;
        }
        i = i + 1;
    }
    proof {
        assert(e.children@.skip(i as int).len() == 0);
    }
    true
}

fn check_exprs_supported(es: &Vec<Expr>) -> (r: bool)
    ensures
        r == exprs_batch_supported(es@),
{
    let mut i: usize = 0;
    proof {
        assert(es@.skip(0) =~= es@);
    }
    while i < es.len()
        invariant
            i <= es@.len(),
            exprs_batch_supported(es@) == exprs_batch_supported(es@.skip(i as int)),
        decreases es@.len() - i,
    {
        proof {
            assert(es@.skip(i as int)[0] == es@[i as int]);
            assert(es@.skip(i as int).drop_first() =~= es@.skip(i + 1));
        }
        if !check_expr_supported(&es[i]) {
            return false;
        }
        i = i + 1;
    }
    proof {
        assert(es@.skip(i as int).len() == 0);
    }
    true
}

/// The vectorized counterpart of the row-at-a-time runner. Its outside
/// contract is the same; whether it can take a plan at all is decided by a
/// pure capability probe over the plan's signatures before anything runs.
pub struct BatchExecutorsRunner {
    pub inner: ExecutorsRunner,
}

impl BatchExecutorsRunner {
    pub open spec fn wf(self) -> bool {
        self.inner.wf()
    }

    /// The pure capability probe: succeeds exactly when every descriptor and
    /// every scalar signature of the plan has a vectorized implementation.
    pub fn check_supported(exec_descriptors: &Vec<ExecDescriptor>) -> (r: Result<(), Error>)
        ensures
            r is Ok <==> batch_supported_plan(exec_descriptors@),
            r is Err ==> r == Err::<(), Error>(Error::Build(BuildErrorKind::SignatureUnknown)),
    {
        let mut i: usize = 0;
        while i < exec_descriptors.len()
            invariant
                i <= exec_descriptors@.len(),
                forall|j: int|
                    0 <= j < i ==> descriptor_batch_supported(#[trigger] exec_descriptors@[j]),
            decreases exec_descriptors@.len() - i,
        {
            let ok = match &exec_descriptors[i] {
                ExecDescriptor::TableScan(_) => true,
                ExecDescriptor::IndexScan(_) => true,
                ExecDescriptor::Selection(sel) => check_exprs_supported(&sel.conditions),
                ExecDescriptor::Aggregation(agg) => {
                    check_exprs_supported(&agg.group_by) && check_agg_args(&agg.agg_funcs)
                }
                ExecDescriptor::StreamAgg(agg) => {
                    check_exprs_supported(&agg.group_by) && check_agg_args(&agg.agg_funcs)
                }
                ExecDescriptor::TopN(topn) => check_order_args(&topn.order_by),
                ExecDescriptor::Limit(_) => true,
            };
            if !ok {
                return Err(Error::Build(BuildErrorKind::SignatureUnknown));
            }
            i = i + 1;
        }
        Ok(())
    }

    /// Builds a vectorized runner; the plan must pass the capability probe
    /// and have a valid shape.
    pub fn from_request(
        req: DagRequest,
        ranges: Vec<KeyRange>,
        storage: MemStorage,
        deadline: Deadline,
        clock: Clock,
    ) -> (r: Result<BatchExecutorsRunner, Error>)
        ensures
            r is Ok <==> batch_supported_plan(req.executors@) && valid_plan(req.executors@),
            r matches Ok(runner) ==> (runner.wf() && runner.inner.output_offsets@
                == req.output_offsets@ && runner.inner.deadline == deadline && runner.inner.clock
                == clock && chain_slots(runner.inner.executor) == Seq::new(
                req.executors@.len(),
                |i: int| i as usize,
            ) && leaf_built_from(
                runner.inner.executor.scan_of(),
                req.executors@[0],
                storage,
                ranges,
                req.collect_execution_summaries,
            )),
    {
        match Self::check_supported(&req.executors) {
            Err(e) => {
                return Err(e);
            }
            Ok(()) => {}
        }
        let inner = match ExecutorsRunner::from_request(
            req,
            ranges,
            storage,
            deadline,
            clock,
            BATCH_MAX_CHUNK_ROWS,
            false,
        ) {
            Err(e) => {
                return Err(e);
            }
            Ok(r) => r,
        };
        Ok(BatchExecutorsRunner { inner })
    }

    /// Drives the plan to completion. The outside contract is the row
    /// runner's: bounded chunks, drained statistics; for any plan both
    /// strategies take, the row set is the same, as both drive one chain.
    pub fn handle_request(&mut self) -> (r: Result<SelectResponse, Error>)
        requires
            old(self).wf(),
        ensures
            final(self).wf(),
            r matches Ok(resp) ==> {
                &&& forall|i: int|
                    0 <= i < resp.chunks@.len() ==> (#[trigger] resp.chunks@[i]).rows@.len()
                        <= old(self).inner.batch_row_limit
                &&& final(self).inner.executor.remaining() == 0
                &&& final(self).inner.exec_stats.is_clear()
                &&& resp.error is None
            },
            old(self).inner.executor.output_modeled() ==> (r matches Ok(resp) ==> chunks_encode(
                resp.chunks@,
                old(self).inner.executor.pending_rows(),
                old(self).inner.output_offsets@,
            )),
    {
        self.inner.handle_request()
    }

    pub fn collect_storage_stats(&mut self, dest: &mut StorageStats)
        requires
            old(self).wf(),
        ensures
            final(self).wf(),
    {
        self.inner.collect_storage_stats(dest);
    }
}

fn check_agg_args(fs: &Vec<crate::plan::AggExpr>) -> (r: bool)
    ensures
        r == agg_args_batch_supported(fs@),
{
    let mut i: usize = 0;
    while i < fs.len()
        invariant
            i <= fs@.len(),
            forall|j: int| 0 <= j < i ==> expr_batch_supported((#[trigger] fs@[j]).expr),
        decreases fs@.len() - i,
    {
        if !check_expr_supported(&fs[i].expr) {
            return false;
        }
        i = i + 1;
    }
    true
}

fn check_order_args(os: &Vec<crate::plan::OrderBy>) -> (r: bool)
    ensures
        r == order_batch_supported(os@),
{
    let mut i: usize = 0;
    while i < os.len()
        invariant
            i <= os@.len(),
            forall|j: int| 0 <= j < i ==> expr_batch_supported((#[trigger] os@[j]).expr),
        decreases os@.len() - i,
    {
        if !check_expr_supported(&os[i].expr) {
            return false;
        }
        i = i + 1;
    }
    true
}

} // verus!
