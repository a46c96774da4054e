use vstd::prelude::*;

verus! {

/// Why a plan could not be assembled into an executor pipeline.
#[derive(Clone, Copy, PartialEq, Eq, Structural, Debug)]
pub enum BuildErrorKind {
    /// The request carried no executor descriptor at all.
    NoExecutor,
    /// The first descriptor is not one of the two scan kinds.
    UnexpectedFirstScanner,
    /// A descriptor after the first is not a recognized wrapping stage.
    UnexpectedNonFirstExecutor,
    /// A signedness-dispatched signature was used with other than two operands.
    SignatureArity,
    /// A signature with no routine in the dispatch table.
    SignatureUnknown,
}

/// Why evaluating an expression over a row failed.
#[derive(Clone, Copy, PartialEq, Eq, Structural, Debug)]
pub enum EvalErrorKind {
    /// An operand held data of a type the operation cannot take.
    TypeMismatch,
    /// An arithmetic result fell outside its 64-bit range.
    Overflow,
    /// A column or output offset lay outside the row.
    ColumnOffset,
    /// The routine for this signature is not carried by this engine.
    UnsupportedRoutine,
}

/// Everything the engine can fail with. Build errors are fatal before any row
/// is produced; storage errors and a missed deadline are fatal to the request;
/// evaluation errors are packaged into an otherwise successful response.
#[derive(Clone, Copy, PartialEq, Eq, Structural, Debug)]
pub enum Error {
    Build(BuildErrorKind),
    Storage,
    Evaluate(EvalErrorKind),
    DeadlineExceeded,
}

/// A non-fatal anomaly noted during evaluation and returned as data.
#[derive(Clone, Copy, PartialEq, Eq, Structural, Debug)]
pub enum Warning {
    DivisionByZero,
}

} // verus!
