use vstd::prelude::*;

verus! {

/// What one pipeline stage did: how often it was pulled, how many rows it
/// handed out, and how long that took.
#[derive(Clone, Copy, PartialEq, Eq, Structural, Debug)]
pub struct ExecSummary {
    pub num_iterations: u64,
    pub num_produced_rows: u64,
    pub time_processed_ns: u64,
}

impl ExecSummary {
    pub fn new() -> (r: ExecSummary)
        ensures
            r == ExecSummary::zero(),
    {
        ExecSummary { num_iterations: 0, num_produced_rows: 0, time_processed_ns: 0 }
    }

    pub open spec fn zero() -> ExecSummary {
        ExecSummary { num_iterations: 0, num_produced_rows: 0, time_processed_ns: 0 }
    }
}

/// Per-request execution counters: rows scanned per key range, and, when
/// summaries were requested, one summary slot per descriptor.
pub struct ExecuteStats {
    pub scanned_rows_per_range: Vec<u64>,
    pub summary_per_executor: Vec<ExecSummary>,
}

impl ExecuteStats {
    /// Fresh counters with `executors_len` summary slots.
    pub fn new(executors_len: usize) -> (r: ExecuteStats)
        ensures
            r.scanned_rows_per_range@.len() == 0,
            r.summary_per_executor@.len() == executors_len,
            forall|i: int|
                0 <= i < executors_len ==> r.summary_per_executor@[i] == ExecSummary::zero(),
    {
        let mut summaries: Vec<ExecSummary> = Vec::new();
        let mut i: usize = 0;
        while i < executors_len
            invariant
                i <= executors_len,
                summaries@.len() == i,
                forall|j: int| 0 <= j < i ==> summaries@[j] == ExecSummary::zero(),
            decreases executors_len - i,
        {
            summaries.push(ExecSummary::new());
            i = i + 1;
        }
        ExecuteStats { scanned_rows_per_range: Vec::new(), summary_per_executor: summaries }
    }

    /// Whether the counters carry nothing: cleared and ready for reuse.
    pub open spec fn is_clear(self) -> bool {
        &&& self.scanned_rows_per_range@.len() == 0
        &&& forall|i: int|
            0 <= i < self.summary_per_executor@.len() ==> self.summary_per_executor@[i]
                == ExecSummary::zero()
    }

    /// Resets the counters after they were drained into a response, so the
    /// runner can be driven again.
    pub fn clear(&mut self)
        ensures
            final(self).is_clear(),
            final(self).summary_per_executor@.len() == old(self).summary_per_executor@.len(),
    {
        self.scanned_rows_per_range = Vec::new();
        let n = self.summary_per_executor.len();
        let mut summaries: Vec<ExecSummary> = Vec::new();
        let mut i: usize = 0;
        while i < n
            invariant
                i <= n,
                summaries@.len() == i,
                forall|j: int| 0 <= j < i ==> summaries@[j] == ExecSummary::zero(),
            decreases n - i,
        {
            summaries.push(ExecSummary::new());
            i = i + 1;
        }
        self.summary_per_executor = summaries;
    }
}

} // verus!
