use vstd::prelude::*;

use crate::batch::{batch_supported_plan, BatchExecutorsRunner};
use crate::deadline::{Clock, Deadline};
use crate::errors::Error;
use crate::plan::{DagRequest, KeyRange, valid_plan};
use crate::response::{Response, ResponsePayload, SelectResponse, StreamResponse};
use crate::runner::{chain_slots, chunks_encode, leaf_built_from, ExecutorsRunner};
use crate::storage::{IntervalRange, MemStorage, StorageStats};

verus! {

/// The row-at-a-time handler: one runner driving one pipeline.
pub struct DAGHandler(pub ExecutorsRunner);

impl DAGHandler {
    pub open spec fn wf(self) -> bool {
        self.0.wf()
    }

    pub fn new(
        req: DagRequest,
        ranges: Vec<KeyRange>,
        storage: MemStorage,
        deadline: Deadline,
        clock: Clock,
        batch_row_limit: usize,
        is_streaming: bool,
    ) -> (r: Result<DAGHandler, Error>)
        requires
            batch_row_limit >= 1,
        ensures
            r is Ok <==> valid_plan(req.executors@),
            r matches Ok(h) ==> (h.wf() && h.0.batch_row_limit == batch_row_limit
                && h.0.output_offsets@ == req.output_offsets@ && h.0.deadline == deadline
                && h.0.clock == clock && chain_slots(h.0.executor) == Seq::new(
                req.executors@.len(),
                |i: int| i as usize,
            ) && leaf_built_from(
                h.0.executor.scan_of(),
                req.executors@[0],
                storage,
                ranges,
                req.collect_execution_summaries,
            )),
    {
        match ExecutorsRunner::from_request(
            req,
            ranges,
            storage,
            deadline,
            clock,
            batch_row_limit,
            is_streaming,
        ) {
            Err(e) => Err(e),
            Ok(runner) => Ok(DAGHandler(runner)),
        }
    }

    pub fn handle_request(&mut self) -> (r: Result<Response, Error>)
        requires
            old(self).wf(),
        ensures
            final(self).wf(),
            r matches Ok(resp) ==> resp.payload is Select,
            r matches Ok(resp) ==> (resp.payload matches ResponsePayload::Select(sp) ==> forall|
                i: int,
            |
                0 <= i < sp.chunks@.len() ==> (#[trigger] sp.chunks@[i]).rows@.len() <= old(
                    self,
                ).0.batch_row_limit),
            r matches Ok(resp) ==> (resp.payload matches ResponsePayload::Select(sp) ==> (
            sp.error matches Some(_) ==> sp.chunks@.len() == 0)),
            r matches Ok(resp) ==> (resp.payload matches ResponsePayload::Select(sp) ==> (sp.error
                is None ==> (final(self).0.executor.remaining() == 0
                && final(self).0.exec_stats.is_clear()))),
            old(self).0.executor.output_modeled() ==> (r matches Ok(resp) ==> (resp.payload
                matches ResponsePayload::Select(sp) ==> (sp.error is None ==> chunks_encode(
                sp.chunks@,
                old(self).0.executor.pending_rows(),
                old(self).0.output_offsets@,
            )))),
    {
        handle_qe_response(self.0.handle_request())
    }

    pub fn handle_streaming_request(&mut self) -> (r: Result<(Option<Response>, bool), Error>)
        requires
            old(self).wf(),
        ensures
            final(self).wf(),
            r matches Ok((None, f)) ==> f == true,
            r matches Ok((Some(out), f)) ==> (out.payload matches ResponsePayload::Stream(sp) ==> (
            sp.error is None ==> (1 <= sp.data.rows@.len() <= old(self).0.batch_row_limit && (!f
                ==> sp.data.rows@.len() == old(self).0.batch_row_limit) && (out.range matches Some(
                rg,
            ) && rg.lower_inclusive@ == crate::executor::spec_interval(
                final(self).0.executor.scan_of(),
            ).0 && rg.upper_exclusive@ == crate::executor::spec_interval(
                final(self).0.executor.scan_of(),
            ).1)))),
            old(self).0.executor.output_modeled() ==> (r matches Ok((None, _f)) ==> old(
                self,
            ).0.executor.pending_rows().len() == 0),
            old(self).0.executor.output_modeled() ==> (r matches Ok((Some(out), f)) ==> (
            out.payload matches ResponsePayload::Stream(sp) ==> (sp.error is None ==> {
                let pend = old(self).0.executor.pending_rows();
                let m = sp.data.rows@.len();
                &&& m <= pend.len()
                &&& forall|i: int|
                    0 <= i < m ==> ((#[trigger] crate::rowcodec::spec_row_binary(
                        pend[i],
                        old(self).0.output_offsets@,
                    )) matches Ok(b) && sp.data.rows@[i]@ == b)
                &&& final(self).0.executor.pending_rows() == pend.skip(m as int)
                &&& (f ==> m == pend.len())
            }))),
    {
        handle_qe_stream_response(self.0.handle_streaming_request())
    }

    pub fn collect_scan_statistics(&mut self, dest: &mut StorageStats)
        requires
            old(self).wf(),
        ensures
            final(self).wf(),
    {
        self.0.collect_storage_stats(dest);
    }
}

/// The vectorized handler, holding the batch runner.
pub struct BatchDAGHandler(pub BatchExecutorsRunner);

impl BatchDAGHandler {
    pub open spec fn wf(self) -> bool {
        self.0.wf()
    }

    pub fn new(
        req: DagRequest,
        ranges: Vec<KeyRange>,
        storage: MemStorage,
        deadline: Deadline,
        clock: Clock,
    ) -> (r: Result<BatchDAGHandler, Error>)
        ensures
            r is Ok <==> batch_supported_plan(req.executors@) && valid_plan(req.executors@),
            r matches Ok(h) ==> (h.wf() && h.0.inner.output_offsets@ == req.output_offsets@
                && h.0.inner.deadline == deadline && h.0.inner.clock == clock && chain_slots(
                h.0.inner.executor,
            ) == Seq::new(req.executors@.len(), |i: int| i as usize) && leaf_built_from(
                h.0.inner.executor.scan_of(),
                req.executors@[0],
                storage,
                ranges,
                req.collect_execution_summaries,
            )),
    {
        match BatchExecutorsRunner::from_request(req, ranges, storage, deadline, clock) {
            Err(e) => Err(e),
            Ok(runner) => Ok(BatchDAGHandler(runner)),
        }
    }

    pub fn handle_request(&mut self) -> (r: Result<Response, Error>)
        requires
            old(self).wf(),
        ensures
            final(self).wf(),
            r matches Ok(resp) ==> resp.payload is Select,
            r matches Ok(resp) ==> (resp.payload matches ResponsePayload::Select(sp) ==> (
            sp.error matches Some(_) ==> sp.chunks@.len() == 0)),
            old(self).0.inner.executor.output_modeled() ==> (r matches Ok(resp) ==> (resp.payload
                matches ResponsePayload::Select(sp) ==> (sp.error is None ==> chunks_encode(
                sp.chunks@,
                old(self).0.inner.executor.pending_rows(),
                old(self).0.inner.output_offsets@,
            )))),
    {
        handle_qe_response(self.0.handle_request())
    }

    pub fn collect_scan_statistics(&mut self, dest: &mut StorageStats)
        requires
            old(self).wf(),
        ensures
            final(self).wf(),
    {
        self.0.collect_storage_stats(dest);
    }
}

/// One request's committed strategy: the vectorized runner when the
/// capability probe passed, the row-at-a-time runner otherwise.
pub enum RequestHandler {
    Dag(DAGHandler),
    Batch(BatchDAGHandler),
}

impl RequestHandler {
    pub open spec fn wf(self) -> bool {
        match self {
            RequestHandler::Dag(h) => h.wf(),
            RequestHandler::Batch(h) => h.wf(),
        }
    }

    /// The one runner driving this request, whichever strategy carries it.
    pub open spec fn runner_of(self) -> ExecutorsRunner {
        match self {
            RequestHandler::Dag(h) => h.0,
            RequestHandler::Batch(h) => h.0.inner,
        }
    }

    pub fn handle_request(&mut self) -> (r: Result<Response, Error>)
        requires
            old(self).wf(),
        ensures
            final(self).wf(),
            r matches Ok(resp) ==> resp.payload is Select,
            r matches Ok(resp) ==> (resp.payload matches ResponsePayload::Select(sp) ==> (
            sp.error matches Some(_) ==> sp.chunks@.len() == 0)),
            (*old(self)).runner_of().executor.output_modeled() ==> (r matches Ok(resp) ==> (
            resp.payload matches ResponsePayload::Select(sp) ==> (sp.error is None
                ==> chunks_encode(
                sp.chunks@,
                (*old(self)).runner_of().executor.pending_rows(),
                (*old(self)).runner_of().output_offsets@,
            )))),
    {
        match self {
            RequestHandler::Dag(h) => h.handle_request(),
            RequestHandler::Batch(h) => h.handle_request(),
        }
    }

    /// Streaming runs only on the row-at-a-time strategy; the vectorized
    /// handler is never picked for a streaming request.
    pub fn handle_streaming_request(&mut self) -> (r: Result<(Option<Response>, bool), Error>)
        requires
            old(self).wf(),
        ensures
            final(self).wf(),
            *old(self) is Batch ==> (r matches Ok((None, f)) && f == true),
            r matches Ok((None, f)) ==> f == true,
            (*old(self)) matches RequestHandler::Dag(h) ==> (h.0.executor.output_modeled() ==> (
            r matches Ok((None, _f)) ==> h.0.executor.pending_rows().len() == 0)),
            (*old(self)) matches RequestHandler::Dag(h) ==> (h.0.executor.output_modeled() ==> (
            r matches Ok((Some(out), f)) ==> (out.payload matches ResponsePayload::Stream(sp)
                ==> (sp.error is None ==> {
                let pend = h.0.executor.pending_rows();
                let m = sp.data.rows@.len();
                &&& 1 <= m <= h.0.batch_row_limit
                &&& m <= pend.len()
                &&& forall|i: int|
                    0 <= i < m ==> ((#[trigger] crate::rowcodec::spec_row_binary(
                        pend[i],
                        h.0.output_offsets@,
                    )) matches Ok(b) && sp.data.rows@[i]@ == b)
                &&& (f ==> m == pend.len())
                &&& (!f ==> m == h.0.batch_row_limit)
            })))),
    {
        match self {
            RequestHandler::Dag(h) => h.handle_streaming_request(),
            RequestHandler::Batch(_) => Ok((None, true)),
        }
    }

    pub fn collect_scan_statistics(&mut self, dest: &mut StorageStats)
        requires
            old(self).wf(),
        ensures
            final(self).wf(),
    {
        match self {
            RequestHandler::Dag(h) => h.collect_scan_statistics(dest),
            RequestHandler::Batch(h) => h.collect_scan_statistics(dest),
        }
    }
}

/// Decides the strategy for one request and builds its handler: the
/// vectorized runner exactly when it is asked for, the request does not
/// stream, and the pure capability probe passes; otherwise the check's
/// failure is silently swallowed and the row-at-a-time runner serves the
/// request.
pub fn build_handler(
    req: DagRequest,
    ranges: Vec<KeyRange>,
    storage: MemStorage,
    deadline: Deadline,
    clock: Clock,
    batch_row_limit: usize,
    is_streaming: bool,
    enable_batch_if_possible: bool,
) -> (r: Result<RequestHandler, Error>)
    requires
        batch_row_limit >= 1,
    ensures
        r is Ok <==> valid_plan(req.executors@),
        r matches Ok(h) ==> h.wf() && (h is Batch <==> enable_batch_if_possible && !is_streaming
            && batch_supported_plan(req.executors@)),
{
    let mut is_batch = false;
    if enable_batch_if_possible && !is_streaming {
        match BatchExecutorsRunner::check_supported(&req.executors) {
            Err(_) => {
                // not supported: fall back to the normal strategy
            }
            Ok(()) => {
                is_batch = true;
            }
        }
    }
    if is_batch {
        match BatchDAGHandler::new(req, ranges, storage, deadline, clock) {
            Err(e) => Err(e),
            Ok(h) => Ok(RequestHandler::Batch(h)),
        }
    } else {
        match DAGHandler::new(req, ranges, storage, deadline, clock, batch_row_limit, is_streaming)
        {
            Err(e) => Err(e),
            Ok(h) => Ok(RequestHandler::Dag(h)),
        }
    }
}

/// Packages the runner's outcome for the transport layer: an evaluation
/// failure travels inside an otherwise successful response, as data; a
/// storage failure, a missed deadline or a build failure fails the request.
pub fn handle_qe_response(result: Result<SelectResponse, Error>) -> (r: Result<Response, Error>)
    ensures
        result matches Ok(resp) ==> (r matches Ok(out) && out.payload
            == ResponsePayload::Select(resp) && out.range is None),
        result matches Err(e) ==> (e matches Error::Evaluate(k) ==> (r matches Ok(out)
            && out.payload matches ResponsePayload::Select(sp) && sp.error == Some(k)
            && sp.chunks@.len() == 0)),
        result matches Err(e) ==> (!(e is Evaluate) ==> r == Err::<Response, Error>(e)),
{
    match result {
        Ok(sel_resp) => Ok(Response { payload: ResponsePayload::Select(sel_resp), range: None }),
        Err(Error::Evaluate(k)) => {
            let mut sel_resp = SelectResponse::new();
            sel_resp.error = Some(k);
            Ok(Response { payload: ResponsePayload::Select(sel_resp), range: None })
        }
        Err(e) => Err(e),
    }
}

/// Packages one streaming pull the same way: an evaluation failure ends the
/// stream with an error payload; anything else fatal fails the request.
pub fn handle_qe_stream_response(
    result: Result<(Option<(StreamResponse, IntervalRange)>, bool), Error>,
) -> (r: Result<(Option<Response>, bool), Error>)
    ensures
        result matches Ok((Some((resp, range)), f)) ==> (r matches Ok((out, g)) && g == f
            && (out matches Some(o) && o.payload == ResponsePayload::Stream(resp)
            && (o.range matches Some(rg) && rg.lower_inclusive@ == range.lower_inclusive@
            && rg.upper_exclusive@ == range.upper_exclusive@))),
        result matches Ok((None, f)) ==> r == Ok::<(Option<Response>, bool), Error>((None, f)),
        result matches Err(e) ==> (e matches Error::Evaluate(k) ==> (r matches Ok((out, g)) && g
            == true && (out matches Some(o) && (o.payload matches ResponsePayload::Stream(sp)
            && sp.error == Some(k) && sp.data.rows@.len() == 0)))),
        result matches Err(e) ==> (!(e is Evaluate) ==> r == Err::<
            (Option<Response>, bool),
            Error,
        >(e)),
{
    match result {
        Ok((Some((s_resp, range)), finished)) => {
            let out = Response { payload: ResponsePayload::Stream(s_resp), range: Some(range) };
            Ok((Some(out), finished))
        }
        Ok((None, finished)) => Ok((None, finished)),
        Err(Error::Evaluate(k)) => {
            let mut s_resp = StreamResponse::new();
            s_resp.error = Some(k);
            let out = Response { payload: ResponsePayload::Stream(s_resp), range: None };
            Ok((Some(out), true))
        }
        Err(e) => Err(e),
    }
}

} // verus!
