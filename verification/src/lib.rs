//! Pushdown query execution engine for a distributed key-value store.
//!
//! Given a linear chain of relational operator descriptors and a set of key
//! ranges, the engine scans raw rows, evaluates scalar expressions, applies
//! filtering, aggregation, sorting and limiting, and packages encoded result
//! rows into bounded chunks, all under a caller-supplied deadline.

pub mod batch;
pub mod dag;
pub mod deadline;
pub mod errors;
pub mod eval;
pub mod executor;
pub mod expr;
pub mod keycodec;
pub mod plan;
pub mod registry;
pub mod response;
pub mod rowcodec;
pub mod runner;
pub mod split_table;
pub mod stats;
pub mod storage;
pub mod value;
