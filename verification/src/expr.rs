use vstd::prelude::*;

use crate::value::Datum;

verus! {

/// The declared type information of an expression node that dispatch cares
/// about: whether an integer operand is unsigned.
#[derive(Clone, Copy, PartialEq, Eq, Structural)]
pub struct FieldType {
    pub unsigned: bool,
}

/// The wire identifier of a scalar function: the operation plus the logical
/// type family of its operands, independent of signedness.
#[derive(Clone, Copy, PartialEq, Eq, Structural, Debug)]
pub enum ScalarFuncSig {
    LTInt,
    LTReal,
    LTDecimal,
    LTString,
    LTTime,
    LTDuration,
    LTJson,
    LEInt,
    LEReal,
    LEDecimal,
    LEString,
    LETime,
    LEDuration,
    LEJson,
    GTInt,
    GTReal,
    GTDecimal,
    GTString,
    GTTime,
    GTDuration,
    GTJson,
    GEInt,
    GEReal,
    GEDecimal,
    GEString,
    GETime,
    GEDuration,
    GEJson,
    NEInt,
    NEReal,
    NEDecimal,
    NEString,
    NETime,
    NEDuration,
    NEJson,
    EQInt,
    EQReal,
    EQDecimal,
    EQString,
    EQTime,
    EQDuration,
    EQJson,
    NullEQInt,
    NullEQReal,
    NullEQDecimal,
    NullEQString,
    NullEQTime,
    NullEQDuration,
    NullEQJson,
    IntIsNull,
    RealIsNull,
    DecimalIsNull,
    StringIsNull,
    TimeIsNull,
    DurationIsNull,
    JsonIsNull,
    IntIsTrue,
    RealIsTrue,
    DecimalIsTrue,
    IntIsFalse,
    RealIsFalse,
    DecimalIsFalse,
    LogicalAnd,
    LogicalOr,
    UnaryNotInt,
    UnaryNotDecimal,
    UnaryNotReal,
    PlusInt,
    PlusReal,
    PlusDecimal,
    MinusInt,
    MinusReal,
    MinusDecimal,
    MultiplyInt,
    MultiplyIntUnsigned,
    MultiplyReal,
    MultiplyDecimal,
    ModInt,
    ModReal,
    ModDecimal,
    DivideReal,
    DivideDecimal,
    IntDivideInt,
    IntDivideDecimal,
    LikeSig,
    IfNullInt,
    IfNullReal,
    IfNullString,
    IfNullDecimal,
    IfNullTime,
    IfNullDuration,
    IfNullJson,
    CaseWhenInt,
    CaseWhenReal,
    CaseWhenString,
    CaseWhenDecimal,
    CaseWhenTime,
    CaseWhenDuration,
    CaseWhenJson,
    DateFormatSig,
    AbsInt,
    AbsUInt,
    AbsReal,
    AbsDecimal,
    CoalesceInt,
    CoalesceReal,
    CoalesceString,
    CoalesceDecimal,
    CoalesceTime,
    CoalesceDuration,
    CoalesceJson,
    InInt,
    InReal,
    InString,
    InDecimal,
    InTime,
    InDuration,
    InJson,
    IfInt,
    IfReal,
    IfString,
    IfDecimal,
    IfTime,
    IfDuration,
    IfJson,
    JsonTypeSig,
    BitAndSig,
    BitOrSig,
    BitXorSig,
    BitNegSig,
    LeftShiftSig,
    RightShiftSig,
}

/// What an expression node is: a literal, a column of the input row, or a
/// scalar function call over child expressions.
pub enum ExprOp {
    Constant(Datum),
    ColumnRef(usize),
    ScalarFunc(ScalarFuncSig),
}

/// An expression tree node as carried by the plan.
pub struct Expr {
    pub op: ExprOp,
    pub children: Vec<Expr>,
    pub field_type: FieldType,
}

impl Expr {
    /// A literal leaf.
    pub fn constant(d: Datum) -> (r: Expr)
        ensures
            r.op == ExprOp::Constant(d),
            r.children@.len() == 0,
            r.field_type == (FieldType { unsigned: false }),
    {
        Expr { op: ExprOp::Constant(d), children: Vec::new(), field_type: FieldType { unsigned: false } }
    }

    /// A reference to column `offset` of the input row.
    pub fn column(offset: usize) -> (r: Expr)
        ensures
            r.op == ExprOp::ColumnRef(offset),
            r.children@.len() == 0,
            r.field_type == (FieldType { unsigned: false }),
    {
        Expr {
            op: ExprOp::ColumnRef(offset),
            children: Vec::new(),
            field_type: FieldType { unsigned: false },
        }
    }

    /// A scalar function call.
    pub fn call(sig: ScalarFuncSig, children: Vec<Expr>) -> (r: Expr)
        ensures
            r.op == ExprOp::ScalarFunc(sig),
            r.children == children,
            r.field_type == (FieldType { unsigned: false }),
    {
        Expr { op: ExprOp::ScalarFunc(sig), children, field_type: FieldType { unsigned: false } }
    }

    /// The same node declared with an unsigned field type.
    pub fn unsigned(self) -> (r: Expr)
        ensures
            r.op == self.op,
            r.children == self.children,
            r.field_type == (FieldType { unsigned: true }),
    {
        Expr { op: self.op, children: self.children, field_type: FieldType { unsigned: true } }
    }
}

} // verus!
