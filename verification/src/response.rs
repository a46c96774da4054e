use vstd::prelude::*;

use crate::errors::{EvalErrorKind, Warning};
use crate::storage::IntervalRange;

verus! {

/// A bounded batch of encoded output rows: one element per row.
#[derive(Debug)]
pub struct Chunk {
    pub rows: Vec<Vec<u8>>,
}

impl Chunk {
    pub fn new() -> (r: Chunk)
        ensures
            r.rows@.len() == 0,
    {
        Chunk { rows: Vec::new() }
    }

    pub fn append_row(&mut self, encoded: Vec<u8>)
        ensures
            final(self).rows@ == old(self).rows@.push(encoded),
    {
        self.rows.push(encoded);
    }

    pub fn num_rows(&self) -> (r: usize)
        ensures
            r == self.rows@.len(),
    {
        self.rows.len()
    }

    /// The wire form of the chunk: every encoded row, back to back.
    pub fn rows_data(&self) -> (r: Vec<u8>)
        ensures
            r@ == flatten_rows(self.rows@),
    {
        let mut out: Vec<u8> = Vec::new();
        let mut i: usize = 0;
        while i < self.rows.len()
            invariant
                i <= self.rows@.len(),
                out@ == flatten_rows(self.rows@.take(i as int)),
            decreases self.rows@.len() - i,
        {
            let row = &self.rows[i];
            let mut j: usize = 0;
            let ghost pre = out@;
            while j < row.len()
                invariant
                    j <= row@.len(),
                    out@ == pre + row@.subrange(0, j as int),
                decreases row@.len() - j,
            {
                out.push(row[j]);
                j = j + 1;
            }
            proof {
                assert(self.rows@.take(i + 1).drop_last() =~= self.rows@.take(i as int));
                assert(self.rows@.take(i + 1).last() == self.rows@[i as int]);
                assert(row@.subrange(0, row@.len() as int) =~= row@);
                assert(out@ =~= flatten_rows(self.rows@.take(i + 1)));
            }
            i = i + 1;
        }
        proof {
            assert(self.rows@.take(self.rows@.len() as int) =~= self.rows@);
        }
        out
    }
}

/// The concatenation of encoded rows.
pub open spec fn flatten_rows(rows: Seq<Vec<u8>>) -> Seq<u8>
    decreases rows.len(),
{
    if rows.len() == 0 {
        Seq::empty()
    } else {
        flatten_rows(rows.drop_last()) + rows.last()@
    }
}

/// One stage's summary in wire form.
#[derive(Clone, Copy, PartialEq, Eq, Structural, Debug)]
pub struct ExecutorExecutionSummary {
    pub num_iterations: u64,
    pub num_produced_rows: u64,
    pub time_processed_ns: u64,
}

/// The complete answer to a non-streaming request. An evaluation failure is
/// carried inside, as data, in the `error` field.
#[derive(Debug)]
pub struct SelectResponse {
    pub chunks: Vec<Chunk>,
    pub warnings: Vec<Warning>,
    pub warning_count: i64,
    pub output_counts: Vec<i64>,
    pub execution_summaries: Vec<ExecutorExecutionSummary>,
    pub error: Option<EvalErrorKind>,
}

impl SelectResponse {
    pub fn new() -> (r: SelectResponse)
        ensures
            r.chunks@.len() == 0,
            r.warnings@.len() == 0,
            r.warning_count == 0,
            r.output_counts@.len() == 0,
            r.execution_summaries@.len() == 0,
            r.error is None,
    {
        SelectResponse {
            chunks: Vec::new(),
            warnings: Vec::new(),
            warning_count: 0,
            output_counts: Vec::new(),
            execution_summaries: Vec::new(),
            error: None,
        }
    }
}

/// One bounded batch of a streaming request's answer.
pub struct StreamResponse {
    pub data: Chunk,
    pub warnings: Vec<Warning>,
    pub warning_count: i64,
    pub output_counts: Vec<i64>,
    pub error: Option<EvalErrorKind>,
}

impl StreamResponse {
    pub fn new() -> (r: StreamResponse)
        ensures
            r.data.rows@.len() == 0,
            r.warnings@.len() == 0,
            r.warning_count == 0,
            r.output_counts@.len() == 0,
            r.error is None,
    {
        StreamResponse {
            data: Chunk::new(),
            warnings: Vec::new(),
            warning_count: 0,
            output_counts: Vec::new(),
            error: None,
        }
    }
}

/// What a handler hands back to the transport layer.
pub enum ResponsePayload {
    Select(SelectResponse),
    Stream(StreamResponse),
}

/// The transport-level answer: a payload, and, for a resumable streaming
/// call, the unconsumed remainder of the active key range.
pub struct Response {
    pub payload: ResponsePayload,
    pub range: Option<IntervalRange>,
}

} // verus!
