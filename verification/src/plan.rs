use vstd::prelude::*;

use crate::expr::Expr;

verus! {

/// A half-open interval of the encoded key space. A request carries an
/// ordered sequence of these; scans walk them in order.
pub struct KeyRange {
    pub start: Vec<u8>,
    pub end: Vec<u8>,
}

/// The wire tag of an executor descriptor.
#[derive(Clone, Copy, PartialEq, Eq, Structural, Debug)]
pub enum ExecType {
    TypeTableScan,
    TypeIndexScan,
    TypeSelection,
    TypeAggregation,
    TypeStreamAgg,
    TypeTopN,
    TypeLimit,
}

/// Table scan configuration. Rows arrive from storage already decoded into
/// columns, so nothing further is configured here.
pub struct TableScan {}

/// Index scan configuration: a unique index lets the scan stop after the
/// first match of each point range.
pub struct IndexScan {
    pub unique: bool,
}

/// Filter configuration: a row passes when every condition is true.
pub struct Selection {
    pub conditions: Vec<Expr>,
}

/// An aggregate function over one argument expression.
#[derive(Clone, Copy, PartialEq, Eq, Structural, Debug)]
pub enum AggFunc {
    Count,
    Sum,
    First,
}

pub struct AggExpr {
    pub func: AggFunc,
    pub expr: Expr,
}

/// Grouping configuration, shared by the hash and the streaming variant.
pub struct Aggregation {
    pub group_by: Vec<Expr>,
    pub agg_funcs: Vec<AggExpr>,
}

/// One sort key of a top-n stage.
pub struct OrderBy {
    pub expr: Expr,
    pub desc: bool,
}

/// Bounded sort configuration.
pub struct TopN {
    pub order_by: Vec<OrderBy>,
    pub limit: u64,
}

/// Row-count cutoff configuration.
pub struct Limit {
    pub limit: u64,
}

/// One operator descriptor of the plan, consumed once during pipeline
/// construction.
pub enum ExecDescriptor {
    TableScan(TableScan),
    IndexScan(IndexScan),
    Selection(Selection),
    Aggregation(Aggregation),
    StreamAgg(Aggregation),
    TopN(TopN),
    Limit(Limit),
}

impl ExecDescriptor {
    pub open spec fn spec_tp(self) -> ExecType {
        match self {
            ExecDescriptor::TableScan(_) => ExecType::TypeTableScan,
            ExecDescriptor::IndexScan(_) => ExecType::TypeIndexScan,
            ExecDescriptor::Selection(_) => ExecType::TypeSelection,
            ExecDescriptor::Aggregation(_) => ExecType::TypeAggregation,
            ExecDescriptor::StreamAgg(_) => ExecType::TypeStreamAgg,
            ExecDescriptor::TopN(_) => ExecType::TypeTopN,
            ExecDescriptor::Limit(_) => ExecType::TypeLimit,
        }
    }

    pub fn get_tp(&self) -> (r: ExecType)
        ensures
            r == self.spec_tp(),
    {
        match self {
            ExecDescriptor::TableScan(_) => ExecType::TypeTableScan,
            ExecDescriptor::IndexScan(_) => ExecType::TypeIndexScan,
            ExecDescriptor::Selection(_) => ExecType::TypeSelection,
            ExecDescriptor::Aggregation(_) => ExecType::TypeAggregation,
            ExecDescriptor::StreamAgg(_) => ExecType::TypeStreamAgg,
            ExecDescriptor::TopN(_) => ExecType::TypeTopN,
            ExecDescriptor::Limit(_) => ExecType::TypeLimit,
        }
    }
}

/// Whether a descriptor may stand first in a plan: only the two scans may.
pub open spec fn is_scan_descriptor(d: ExecDescriptor) -> bool {
    d is TableScan || d is IndexScan
}

/// Whether a descriptor may wrap an already built chain.
pub open spec fn is_wrapping_descriptor(d: ExecDescriptor) -> bool {
    d is Selection || d is Aggregation || d is StreamAgg || d is TopN || d is Limit
}

/// A plan the builder accepts: nonempty, a scan first, wrapping stages after.
pub open spec fn valid_plan(ds: Seq<ExecDescriptor>) -> bool {
    &&& ds.len() >= 1
    &&& is_scan_descriptor(ds[0])
    &&& forall|i: int| 1 <= i < ds.len() ==> is_wrapping_descriptor(#[trigger] ds[i])
}

/// A query-plan request: the descriptor chain, which columns of the root's
/// rows are sent back, and evaluation settings.
pub struct DagRequest {
    pub executors: Vec<ExecDescriptor>,
    pub output_offsets: Vec<u32>,
    pub collect_execution_summaries: bool,
    pub max_warning_cnt: usize,
}

} // verus!
