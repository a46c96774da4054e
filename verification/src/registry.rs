use vstd::prelude::*;

use crate::errors::BuildErrorKind;
use crate::expr::{Expr, FieldType, ScalarFuncSig};

verus! {

/// Whether an integer operand is read as signed or unsigned.
#[derive(Clone, Copy, PartialEq, Eq, Structural, Debug)]
pub enum IntSign {
    Signed,
    Unsigned,
}

/// The logical type family of a routine's operands.
#[derive(Clone, Copy, PartialEq, Eq, Structural, Debug)]
pub enum EvalType {
    Int,
    Real,
    Decimal,
    Bytes,
    DateTime,
    Duration,
    Json,
}

/// A comparison operation.
#[derive(Clone, Copy, PartialEq, Eq, Structural, Debug)]
pub enum CmpOp {
    LT,
    LE,
    GT,
    GE,
    NE,
    EQ,
    NullEQ,
}

/// An arithmetic operation.
#[derive(Clone, Copy, PartialEq, Eq, Structural, Debug)]
pub enum ArithOp {
    Plus,
    Minus,
    Multiply,
    Mod,
}

/// One concrete, statically typed evaluation routine of the vectorized path.
/// Integer comparison and arithmetic carry the signedness of each operand:
/// mixed-signedness operands need numerically different code.
#[derive(Clone, Copy, PartialEq, Eq, Structural, Debug)]
pub enum RpnFnMeta {
    CompareInt(IntSign, IntSign, CmpOp),
    Compare(EvalType, CmpOp),
    IsNull(EvalType),
    IntIsTrue,
    RealIsTrue,
    DecimalIsTrue,
    IntIsFalse,
    RealIsFalse,
    DecimalIsFalse,
    LogicalAnd,
    LogicalOr,
    UnaryNot,
    ArithmeticInt(IntSign, IntSign, ArithOp),
    Arithmetic(EvalType, ArithOp),
    ArithmeticWithCtx(EvalType, ArithOp),
    DivideWithCtx(EvalType),
    IntDivide(IntSign, IntSign),
    IntDivideDecimal,
    Like,
    IfNull(EvalType),
    CaseWhen(EvalType),
    DateFormat,
    AbsInt,
    AbsUint,
    AbsReal,
    AbsDecimal,
    Coalesce(EvalType),
    CompareIn(EvalType),
    IfCondition(EvalType),
    JsonType,
}

/// Which dispatch family a signedness-specialized signature belongs to.
#[derive(Clone, Copy, PartialEq, Eq, Structural, Debug)]
pub enum IntSigKind {
    Compare(CmpOp),
    Plus,
    Minus,
    Multiply,
    Mod,
    Divide,
}

/// The signedness an expression's declared field type gives its value.
pub open spec fn spec_sign(ft: FieldType) -> IntSign {
    if ft.unsigned {
        IntSign::Unsigned
    } else {
        IntSign::Signed
    }
}

/// Signedness dispatch for a two-operand integer signature: exactly two
/// children, and the routine is picked by each child's unsigned flag.
pub open spec fn spec_int_sig(children: Seq<Expr>, kind: IntSigKind) -> Result<
    RpnFnMeta,
    BuildErrorKind,
> {
    if children.len() != 2 {
        Err(BuildErrorKind::SignatureArity)
    } else {
        let l = spec_sign(children[0].field_type);
        let r = spec_sign(children[1].field_type);
        Ok(
            match kind {
                IntSigKind::Compare(op) => RpnFnMeta::CompareInt(l, r, op),
                IntSigKind::Plus => RpnFnMeta::ArithmeticInt(l, r, ArithOp::Plus),
                IntSigKind::Minus => RpnFnMeta::ArithmeticInt(l, r, ArithOp::Minus),
                IntSigKind::Multiply => RpnFnMeta::ArithmeticInt(l, r, ArithOp::Multiply),
                IntSigKind::Mod => RpnFnMeta::ArithmeticInt(l, r, ArithOp::Mod),
                IntSigKind::Divide => RpnFnMeta::IntDivide(l, r),
            },
        )
    }
}

/// The routine of the vectorized path for a signature, given the call's child
/// expressions; an error when the signature has no routine there.
pub open spec fn rpn_meta_of(sig: ScalarFuncSig, children: Seq<Expr>) -> Result<
    RpnFnMeta,
    BuildErrorKind,
> {
    match sig {
        ScalarFuncSig::LTInt => spec_int_sig(children, IntSigKind::Compare(CmpOp::LT)),
        ScalarFuncSig::LTReal => Ok(RpnFnMeta::Compare(EvalType::Real, CmpOp::LT)),
        ScalarFuncSig::LTDecimal => Ok(RpnFnMeta::Compare(EvalType::Decimal, CmpOp::LT)),
        ScalarFuncSig::LTString => Ok(RpnFnMeta::Compare(EvalType::Bytes, CmpOp::LT)),
        ScalarFuncSig::LTTime => Ok(RpnFnMeta::Compare(EvalType::DateTime, CmpOp::LT)),
        ScalarFuncSig::LTDuration => Ok(RpnFnMeta::Compare(EvalType::Duration, CmpOp::LT)),
        ScalarFuncSig::LTJson => Ok(RpnFnMeta::Compare(EvalType::Json, CmpOp::LT)),
        ScalarFuncSig::LEInt => spec_int_sig(children, IntSigKind::Compare(CmpOp::LE)),
        ScalarFuncSig::LEReal => Ok(RpnFnMeta::Compare(EvalType::Real, CmpOp::LE)),
        ScalarFuncSig::LEDecimal => Ok(RpnFnMeta::Compare(EvalType::Decimal, CmpOp::LE)),
        ScalarFuncSig::LEString => Ok(RpnFnMeta::Compare(EvalType::Bytes, CmpOp::LE)),
        ScalarFuncSig::LETime => Ok(RpnFnMeta::Compare(EvalType::DateTime, CmpOp::LE)),
        ScalarFuncSig::LEDuration => Ok(RpnFnMeta::Compare(EvalType::Duration, CmpOp::LE)),
        ScalarFuncSig::LEJson => Ok(RpnFnMeta::Compare(EvalType::Json, CmpOp::LE)),
        ScalarFuncSig::GTInt => spec_int_sig(children, IntSigKind::Compare(CmpOp::GT)),
        ScalarFuncSig::GTReal => Ok(RpnFnMeta::Compare(EvalType::Real, CmpOp::GT)),
        ScalarFuncSig::GTDecimal => Ok(RpnFnMeta::Compare(EvalType::Decimal, CmpOp::GT)),
        ScalarFuncSig::GTString => Ok(RpnFnMeta::Compare(EvalType::Bytes, CmpOp::GT)),
        ScalarFuncSig::GTTime => Ok(RpnFnMeta::Compare(EvalType::DateTime, CmpOp::GT)),
        ScalarFuncSig::GTDuration => Ok(RpnFnMeta::Compare(EvalType::Duration, CmpOp::GT)),
        ScalarFuncSig::GTJson => Ok(RpnFnMeta::Compare(EvalType::Json, CmpOp::GT)),
        ScalarFuncSig::GEInt => spec_int_sig(children, IntSigKind::Compare(CmpOp::GE)),
        ScalarFuncSig::GEReal => Ok(RpnFnMeta::Compare(EvalType::Real, CmpOp::GE)),
        ScalarFuncSig::GEDecimal => Ok(RpnFnMeta::Compare(EvalType::Decimal, CmpOp::GE)),
        ScalarFuncSig::GEString => Ok(RpnFnMeta::Compare(EvalType::Bytes, CmpOp::GE)),
        ScalarFuncSig::GETime => Ok(RpnFnMeta::Compare(EvalType::DateTime, CmpOp::GE)),
        ScalarFuncSig::GEDuration => Ok(RpnFnMeta::Compare(EvalType::Duration, CmpOp::GE)),
        ScalarFuncSig::GEJson => Ok(RpnFnMeta::Compare(EvalType::Json, CmpOp::GE)),
        ScalarFuncSig::NEInt => spec_int_sig(children, IntSigKind::Compare(CmpOp::NE)),
        ScalarFuncSig::NEReal => Ok(RpnFnMeta::Compare(EvalType::Real, CmpOp::NE)),
        ScalarFuncSig::NEDecimal => Ok(RpnFnMeta::Compare(EvalType::Decimal, CmpOp::NE)),
        ScalarFuncSig::NEString => Ok(RpnFnMeta::Compare(EvalType::Bytes, CmpOp::NE)),
        ScalarFuncSig::NETime => Ok(RpnFnMeta::Compare(EvalType::DateTime, CmpOp::NE)),
        ScalarFuncSig::NEDuration => Ok(RpnFnMeta::Compare(EvalType::Duration, CmpOp::NE)),
        ScalarFuncSig::NEJson => Ok(RpnFnMeta::Compare(EvalType::Json, CmpOp::NE)),
        ScalarFuncSig::EQInt => spec_int_sig(children, IntSigKind::Compare(CmpOp::EQ)),
        ScalarFuncSig::EQReal => Ok(RpnFnMeta::Compare(EvalType::Real, CmpOp::EQ)),
        ScalarFuncSig::EQDecimal => Ok(RpnFnMeta::Compare(EvalType::Decimal, CmpOp::EQ)),
        ScalarFuncSig::EQString => Ok(RpnFnMeta::Compare(EvalType::Bytes, CmpOp::EQ)),
        ScalarFuncSig::EQTime => Ok(RpnFnMeta::Compare(EvalType::DateTime, CmpOp::EQ)),
        ScalarFuncSig::EQDuration => Ok(RpnFnMeta::Compare(EvalType::Duration, CmpOp::EQ)),
        ScalarFuncSig::EQJson => Ok(RpnFnMeta::Compare(EvalType::Json, CmpOp::EQ)),
        ScalarFuncSig::NullEQInt => spec_int_sig(children, IntSigKind::Compare(CmpOp::NullEQ)),
        ScalarFuncSig::NullEQReal => Ok(RpnFnMeta::Compare(EvalType::Real, CmpOp::NullEQ)),
        ScalarFuncSig::NullEQDecimal => Ok(RpnFnMeta::Compare(EvalType::Decimal, CmpOp::NullEQ)),
        ScalarFuncSig::NullEQString => Ok(RpnFnMeta::Compare(EvalType::Bytes, CmpOp::NullEQ)),
        ScalarFuncSig::NullEQTime => Ok(RpnFnMeta::Compare(EvalType::DateTime, CmpOp::NullEQ)),
        ScalarFuncSig::NullEQDuration => Ok(
            RpnFnMeta::Compare(EvalType::Duration, CmpOp::NullEQ),
        ),
        ScalarFuncSig::NullEQJson => Ok(RpnFnMeta::Compare(EvalType::Json, CmpOp::NullEQ)),
        ScalarFuncSig::IntIsNull => Ok(RpnFnMeta::IsNull(EvalType::Int)),
        ScalarFuncSig::RealIsNull => Ok(RpnFnMeta::IsNull(EvalType::Real)),
        ScalarFuncSig::DecimalIsNull => Ok(RpnFnMeta::IsNull(EvalType::Decimal)),
        ScalarFuncSig::StringIsNull => Ok(RpnFnMeta::IsNull(EvalType::Bytes)),
        ScalarFuncSig::TimeIsNull => Ok(RpnFnMeta::IsNull(EvalType::DateTime)),
        ScalarFuncSig::DurationIsNull => Ok(RpnFnMeta::IsNull(EvalType::Duration)),
        ScalarFuncSig::JsonIsNull => Ok(RpnFnMeta::IsNull(EvalType::Json)),
        ScalarFuncSig::IntIsTrue => Ok(RpnFnMeta::IntIsTrue),
        ScalarFuncSig::RealIsTrue => Ok(RpnFnMeta::RealIsTrue),
        ScalarFuncSig::DecimalIsTrue => Ok(RpnFnMeta::DecimalIsTrue),
        ScalarFuncSig::IntIsFalse => Ok(RpnFnMeta::IntIsFalse),
        ScalarFuncSig::RealIsFalse => Ok(RpnFnMeta::RealIsFalse),
        ScalarFuncSig::DecimalIsFalse => Ok(RpnFnMeta::DecimalIsFalse),
        ScalarFuncSig::LogicalAnd => Ok(RpnFnMeta::LogicalAnd),
        ScalarFuncSig::LogicalOr => Ok(RpnFnMeta::LogicalOr),
        ScalarFuncSig::UnaryNotInt => Ok(RpnFnMeta::UnaryNot),
        ScalarFuncSig::UnaryNotDecimal => Ok(RpnFnMeta::UnaryNot),
        ScalarFuncSig::UnaryNotReal => Ok(RpnFnMeta::UnaryNot),
        ScalarFuncSig::PlusInt => spec_int_sig(children, IntSigKind::Plus),
        ScalarFuncSig::PlusReal => Ok(RpnFnMeta::Arithmetic(EvalType::Real, ArithOp::Plus)),
        ScalarFuncSig::PlusDecimal => Ok(RpnFnMeta::Arithmetic(EvalType::Decimal, ArithOp::Plus)),
        ScalarFuncSig::MinusInt => spec_int_sig(children, IntSigKind::Minus),
        ScalarFuncSig::MinusReal => Ok(RpnFnMeta::Arithmetic(EvalType::Real, ArithOp::Minus)),
        ScalarFuncSig::MinusDecimal => Ok(
            RpnFnMeta::Arithmetic(EvalType::Decimal, ArithOp::Minus),
        ),
        ScalarFuncSig::MultiplyDecimal => Ok(
            RpnFnMeta::Arithmetic(EvalType::Decimal, ArithOp::Multiply),
        ),
        ScalarFuncSig::MultiplyInt => spec_int_sig(children, IntSigKind::Multiply),
        ScalarFuncSig::MultiplyIntUnsigned => Ok(
            RpnFnMeta::ArithmeticInt(IntSign::Unsigned, IntSign::Unsigned, ArithOp::Multiply),
        ),
        ScalarFuncSig::MultiplyReal => Ok(
            RpnFnMeta::Arithmetic(EvalType::Real, ArithOp::Multiply),
        ),
        ScalarFuncSig::ModReal => Ok(RpnFnMeta::Arithmetic(EvalType::Real, ArithOp::Mod)),
        ScalarFuncSig::ModDecimal => Ok(RpnFnMeta::Arithmetic(EvalType::Decimal, ArithOp::Mod)),
        ScalarFuncSig::DivideDecimal => Ok(RpnFnMeta::DivideWithCtx(EvalType::Decimal)),
        ScalarFuncSig::DivideReal => Ok(RpnFnMeta::DivideWithCtx(EvalType::Real)),
        ScalarFuncSig::ModInt => spec_int_sig(children, IntSigKind::Mod),
        ScalarFuncSig::LikeSig => Ok(RpnFnMeta::Like),
        ScalarFuncSig::IfNullInt => Ok(RpnFnMeta::IfNull(EvalType::Int)),
        ScalarFuncSig::IfNullReal => Ok(RpnFnMeta::IfNull(EvalType::Real)),
        ScalarFuncSig::IfNullString => Ok(RpnFnMeta::IfNull(EvalType::Bytes)),
        ScalarFuncSig::IfNullDecimal => Ok(RpnFnMeta::IfNull(EvalType::Decimal)),
        ScalarFuncSig::IfNullTime => Ok(RpnFnMeta::IfNull(EvalType::DateTime)),
        ScalarFuncSig::IfNullDuration => Ok(RpnFnMeta::IfNull(EvalType::Duration)),
        ScalarFuncSig::IfNullJson => Ok(RpnFnMeta::IfNull(EvalType::Json)),
        ScalarFuncSig::IntDivideInt => spec_int_sig(children, IntSigKind::Divide),
        ScalarFuncSig::IntDivideDecimal => Ok(RpnFnMeta::IntDivideDecimal),
        ScalarFuncSig::CaseWhenInt => Ok(RpnFnMeta::CaseWhen(EvalType::Int)),
        ScalarFuncSig::CaseWhenReal => Ok(RpnFnMeta::CaseWhen(EvalType::Real)),
        ScalarFuncSig::CaseWhenString => Ok(RpnFnMeta::CaseWhen(EvalType::Bytes)),
        ScalarFuncSig::CaseWhenDecimal => Ok(RpnFnMeta::CaseWhen(EvalType::Decimal)),
        ScalarFuncSig::CaseWhenTime => Ok(RpnFnMeta::CaseWhen(EvalType::DateTime)),
        ScalarFuncSig::CaseWhenDuration => Ok(RpnFnMeta::CaseWhen(EvalType::Duration)),
        ScalarFuncSig::CaseWhenJson => Ok(RpnFnMeta::CaseWhen(EvalType::Json)),
        ScalarFuncSig::DateFormatSig => Ok(RpnFnMeta::DateFormat),
        ScalarFuncSig::AbsInt => Ok(RpnFnMeta::AbsInt),
        ScalarFuncSig::AbsUInt => Ok(RpnFnMeta::AbsUint),
        ScalarFuncSig::AbsReal => Ok(RpnFnMeta::AbsReal),
        ScalarFuncSig::AbsDecimal => Ok(RpnFnMeta::AbsDecimal),
        ScalarFuncSig::CoalesceInt => Ok(RpnFnMeta::Coalesce(EvalType::Int)),
        ScalarFuncSig::CoalesceReal => Ok(RpnFnMeta::Coalesce(EvalType::Real)),
        ScalarFuncSig::CoalesceString => Ok(RpnFnMeta::Coalesce(EvalType::Bytes)),
        ScalarFuncSig::CoalesceDecimal => Ok(RpnFnMeta::Coalesce(EvalType::Decimal)),
        ScalarFuncSig::CoalesceTime => Ok(RpnFnMeta::Coalesce(EvalType::DateTime)),
        ScalarFuncSig::CoalesceDuration => Ok(RpnFnMeta::Coalesce(EvalType::Duration)),
        ScalarFuncSig::CoalesceJson => Ok(RpnFnMeta::Coalesce(EvalType::Json)),
        ScalarFuncSig::InInt => Ok(RpnFnMeta::CompareIn(EvalType::Int)),
        ScalarFuncSig::InReal => Ok(RpnFnMeta::CompareIn(EvalType::Real)),
        ScalarFuncSig::InString => Ok(RpnFnMeta::CompareIn(EvalType::Bytes)),
        ScalarFuncSig::InDecimal => Ok(RpnFnMeta::CompareIn(EvalType::Decimal)),
        ScalarFuncSig::InTime => Ok(RpnFnMeta::CompareIn(EvalType::DateTime)),
        ScalarFuncSig::InDuration => Ok(RpnFnMeta::CompareIn(EvalType::Duration)),
        ScalarFuncSig::InJson => Ok(RpnFnMeta::CompareIn(EvalType::Json)),
        ScalarFuncSig::IfReal => Ok(RpnFnMeta::IfCondition(EvalType::Real)),
        ScalarFuncSig::IfJson => Ok(RpnFnMeta::IfCondition(EvalType::Json)),
        ScalarFuncSig::IfInt => Ok(RpnFnMeta::IfCondition(EvalType::Int)),
        ScalarFuncSig::IfDuration => Ok(RpnFnMeta::IfCondition(EvalType::Duration)),
        ScalarFuncSig::IfString => Ok(RpnFnMeta::IfCondition(EvalType::Bytes)),
        ScalarFuncSig::IfTime => Ok(RpnFnMeta::IfCondition(EvalType::DateTime)),
        ScalarFuncSig::IfDecimal => Ok(RpnFnMeta::IfCondition(EvalType::Decimal)),
        ScalarFuncSig::JsonTypeSig => Ok(RpnFnMeta::JsonType),
        _ => Err(BuildErrorKind::SignatureUnknown),
    }
}

/// Picks the comparison routine by operand signedness.
pub fn compare_mapper(lhs_is_unsigned: bool, rhs_is_unsigned: bool, op: CmpOp) -> (r: RpnFnMeta)
    ensures
        r == RpnFnMeta::CompareInt(
            spec_sign(FieldType { unsigned: lhs_is_unsigned }),
            spec_sign(FieldType { unsigned: rhs_is_unsigned }),
            op,
        ),
{
    match (lhs_is_unsigned, rhs_is_unsigned) {
        (false, false) => RpnFnMeta::CompareInt(IntSign::Signed, IntSign::Signed, op),
        (false, true) => RpnFnMeta::CompareInt(IntSign::Signed, IntSign::Unsigned, op),
        (true, false) => RpnFnMeta::CompareInt(IntSign::Unsigned, IntSign::Signed, op),
        (true, true) => RpnFnMeta::CompareInt(IntSign::Unsigned, IntSign::Unsigned, op),
    }
}

/// Picks the addition routine by operand signedness.
pub fn plus_mapper(lhs_is_unsigned: bool, rhs_is_unsigned: bool) -> (r: RpnFnMeta)
    ensures
        r == RpnFnMeta::ArithmeticInt(
            spec_sign(FieldType { unsigned: lhs_is_unsigned }),
            spec_sign(FieldType { unsigned: rhs_is_unsigned }),
            ArithOp::Plus,
        ),
{
    match (lhs_is_unsigned, rhs_is_unsigned) {
        (false, false) => RpnFnMeta::ArithmeticInt(IntSign::Signed, IntSign::Signed, ArithOp::Plus),
        (false, true) => RpnFnMeta::ArithmeticInt(
            IntSign::Signed,
            IntSign::Unsigned,
            ArithOp::Plus,
        ),
        (true, false) => RpnFnMeta::ArithmeticInt(
            IntSign::Unsigned,
            IntSign::Signed,
            ArithOp::Plus,
        ),
        (true, true) => RpnFnMeta::ArithmeticInt(
            IntSign::Unsigned,
            IntSign::Unsigned,
            ArithOp::Plus,
        ),
    }
}

/// Picks the subtraction routine by operand signedness.
pub fn minus_mapper(lhs_is_unsigned: bool, rhs_is_unsigned: bool) -> (r: RpnFnMeta)
    ensures
        r == RpnFnMeta::ArithmeticInt(
            spec_sign(FieldType { unsigned: lhs_is_unsigned }),
            spec_sign(FieldType { unsigned: rhs_is_unsigned }),
            ArithOp::Minus,
        ),
{
    match (lhs_is_unsigned, rhs_is_unsigned) {
        (false, false) => RpnFnMeta::ArithmeticInt(
            IntSign::Signed,
            IntSign::Signed,
            ArithOp::Minus,
        ),
        (false, true) => RpnFnMeta::ArithmeticInt(
            IntSign::Signed,
            IntSign::Unsigned,
            ArithOp::Minus,
        ),
        (true, false) => RpnFnMeta::ArithmeticInt(
            IntSign::Unsigned,
            IntSign::Signed,
            ArithOp::Minus,
        ),
        (true, true) => RpnFnMeta::ArithmeticInt(
            IntSign::Unsigned,
            IntSign::Unsigned,
            ArithOp::Minus,
        ),
    }
}

/// Picks the multiplication routine by operand signedness.
pub fn multiply_mapper(lhs_is_unsigned: bool, rhs_is_unsigned: bool) -> (r: RpnFnMeta)
    ensures
        r == RpnFnMeta::ArithmeticInt(
            spec_sign(FieldType { unsigned: lhs_is_unsigned }),
            spec_sign(FieldType { unsigned: rhs_is_unsigned }),
            ArithOp::Multiply,
        ),
{
    match (lhs_is_unsigned, rhs_is_unsigned) {
        (false, false) => RpnFnMeta::ArithmeticInt(
            IntSign::Signed,
            IntSign::Signed,
            ArithOp::Multiply,
        ),
        (false, true) => RpnFnMeta::ArithmeticInt(
            IntSign::Signed,
            IntSign::Unsigned,
            ArithOp::Multiply,
        ),
        (true, false) => RpnFnMeta::ArithmeticInt(
            IntSign::Unsigned,
            IntSign::Signed,
            ArithOp::Multiply,
        ),
        (true, true) => RpnFnMeta::ArithmeticInt(
            IntSign::Unsigned,
            IntSign::Unsigned,
            ArithOp::Multiply,
        ),
    }
}

/// Picks the modulo routine by operand signedness.
pub fn mod_mapper(lhs_is_unsigned: bool, rhs_is_unsigned: bool) -> (r: RpnFnMeta)
    ensures
        r == RpnFnMeta::ArithmeticInt(
            spec_sign(FieldType { unsigned: lhs_is_unsigned }),
            spec_sign(FieldType { unsigned: rhs_is_unsigned }),
            ArithOp::Mod,
        ),
{
    match (lhs_is_unsigned, rhs_is_unsigned) {
        (false, false) => RpnFnMeta::ArithmeticInt(IntSign::Signed, IntSign::Signed, ArithOp::Mod),
        (false, true) => RpnFnMeta::ArithmeticInt(
            IntSign::Signed,
            IntSign::Unsigned,
            ArithOp::Mod,
        ),
        (true, false) => RpnFnMeta::ArithmeticInt(
            IntSign::Unsigned,
            IntSign::Signed,
            ArithOp::Mod,
        ),
        (true, true) => RpnFnMeta::ArithmeticInt(
            IntSign::Unsigned,
            IntSign::Unsigned,
            ArithOp::Mod,
        ),
    }
}

/// Picks the integer division routine by operand signedness.
pub fn divide_mapper(lhs_is_unsigned: bool, rhs_is_unsigned: bool) -> (r: RpnFnMeta)
    ensures
        r == RpnFnMeta::IntDivide(
            spec_sign(FieldType { unsigned: lhs_is_unsigned }),
            spec_sign(FieldType { unsigned: rhs_is_unsigned }),
        ),
{
    match (lhs_is_unsigned, rhs_is_unsigned) {
        (false, false) => RpnFnMeta::IntDivide(IntSign::Signed, IntSign::Signed),
        (false, true) => RpnFnMeta::IntDivide(IntSign::Signed, IntSign::Unsigned),
        (true, false) => RpnFnMeta::IntDivide(IntSign::Unsigned, IntSign::Signed),
        (true, true) => RpnFnMeta::IntDivide(IntSign::Unsigned, IntSign::Unsigned),
    }
}

/// Signedness dispatch: the plan erases signedness from integer signatures,
/// so the routine is picked here from the two children's unsigned flags.
pub fn map_int_sig(value: ScalarFuncSig, children: &Vec<Expr>, kind: IntSigKind) -> (r: Result<
    RpnFnMeta,
    BuildErrorKind,
>)
    ensures
        r == spec_int_sig(children@, kind),
{
    if children.len() != 2 {
        return Err(BuildErrorKind::SignatureArity);
    }
    let lhs_is_unsigned = children[0].field_type.unsigned;
    let rhs_is_unsigned = children[1].field_type.unsigned;
    Ok(
        match kind {
            IntSigKind::Compare(op) => compare_mapper(lhs_is_unsigned, rhs_is_unsigned, op),
            IntSigKind::Plus => plus_mapper(lhs_is_unsigned, rhs_is_unsigned),
            IntSigKind::Minus => minus_mapper(lhs_is_unsigned, rhs_is_unsigned),
            IntSigKind::Multiply => multiply_mapper(lhs_is_unsigned, rhs_is_unsigned),
            IntSigKind::Mod => mod_mapper(lhs_is_unsigned, rhs_is_unsigned),
            IntSigKind::Divide => divide_mapper(lhs_is_unsigned, rhs_is_unsigned),
        },
    )
}

/// Maps a wire signature plus its child expressions to the one vectorized
/// routine that evaluates it, or fails for a signature with no routine there.
#[verifier::rlimit(50)]
pub fn map_pb_sig_to_rpn_func(value: ScalarFuncSig, children: &Vec<Expr>) -> (r: Result<
    RpnFnMeta,
    BuildErrorKind,
>)
    ensures
        r == rpn_meta_of(value, children@),
{
    match value {
        ScalarFuncSig::LTInt => map_int_sig(value, children, IntSigKind::Compare(CmpOp::LT)),
        ScalarFuncSig::LTReal => Ok(RpnFnMeta::Compare(EvalType::Real, CmpOp::LT)),
        ScalarFuncSig::LTDecimal => Ok(RpnFnMeta::Compare(EvalType::Decimal, CmpOp::LT)),
        ScalarFuncSig::LTString => Ok(RpnFnMeta::Compare(EvalType::Bytes, CmpOp::LT)),
        ScalarFuncSig::LTTime => Ok(RpnFnMeta::Compare(EvalType::DateTime, CmpOp::LT)),
        ScalarFuncSig::LTDuration => Ok(RpnFnMeta::Compare(EvalType::Duration, CmpOp::LT)),
        ScalarFuncSig::LTJson => Ok(RpnFnMeta::Compare(EvalType::Json, CmpOp::LT)),
        ScalarFuncSig::LEInt => map_int_sig(value, children, IntSigKind::Compare(CmpOp::LE)),
        ScalarFuncSig::LEReal => Ok(RpnFnMeta::Compare(EvalType::Real, CmpOp::LE)),
        ScalarFuncSig::LEDecimal => Ok(RpnFnMeta::Compare(EvalType::Decimal, CmpOp::LE)),
        ScalarFuncSig::LEString => Ok(RpnFnMeta::Compare(EvalType::Bytes, CmpOp::LE)),
        ScalarFuncSig::LETime => Ok(RpnFnMeta::Compare(EvalType::DateTime, CmpOp::LE)),
        ScalarFuncSig::LEDuration => Ok(RpnFnMeta::Compare(EvalType::Duration, CmpOp::LE)),
        ScalarFuncSig::LEJson => Ok(RpnFnMeta::Compare(EvalType::Json, CmpOp::LE)),
        ScalarFuncSig::GTInt => map_int_sig(value, children, IntSigKind::Compare(CmpOp::GT)),
        ScalarFuncSig::GTReal => Ok(RpnFnMeta::Compare(EvalType::Real, CmpOp::GT)),
        ScalarFuncSig::GTDecimal => Ok(RpnFnMeta::Compare(EvalType::Decimal, CmpOp::GT)),
        ScalarFuncSig::GTString => Ok(RpnFnMeta::Compare(EvalType::Bytes, CmpOp::GT)),
        ScalarFuncSig::GTTime => Ok(RpnFnMeta::Compare(EvalType::DateTime, CmpOp::GT)),
        ScalarFuncSig::GTDuration => Ok(RpnFnMeta::Compare(EvalType::Duration, CmpOp::GT)),
        ScalarFuncSig::GTJson => Ok(RpnFnMeta::Compare(EvalType::Json, CmpOp::GT)),
        ScalarFuncSig::GEInt => map_int_sig(value, children, IntSigKind::Compare(CmpOp::GE)),
        ScalarFuncSig::GEReal => Ok(RpnFnMeta::Compare(EvalType::Real, CmpOp::GE)),
        ScalarFuncSig::GEDecimal => Ok(RpnFnMeta::Compare(EvalType::Decimal, CmpOp::GE)),
        ScalarFuncSig::GEString => Ok(RpnFnMeta::Compare(EvalType::Bytes, CmpOp::GE)),
        ScalarFuncSig::GETime => Ok(RpnFnMeta::Compare(EvalType::DateTime, CmpOp::GE)),
        ScalarFuncSig::GEDuration => Ok(RpnFnMeta::Compare(EvalType::Duration, CmpOp::GE)),
        ScalarFuncSig::GEJson => Ok(RpnFnMeta::Compare(EvalType::Json, CmpOp::GE)),
        ScalarFuncSig::NEInt => map_int_sig(value, children, IntSigKind::Compare(CmpOp::NE)),
        ScalarFuncSig::NEReal => Ok(RpnFnMeta::Compare(EvalType::Real, CmpOp::NE)),
        ScalarFuncSig::NEDecimal => Ok(RpnFnMeta::Compare(EvalType::Decimal, CmpOp::NE)),
        ScalarFuncSig::NEString => Ok(RpnFnMeta::Compare(EvalType::Bytes, CmpOp::NE)),
        ScalarFuncSig::NETime => Ok(RpnFnMeta::Compare(EvalType::DateTime, CmpOp::NE)),
        ScalarFuncSig::NEDuration => Ok(RpnFnMeta::Compare(EvalType::Duration, CmpOp::NE)),
        ScalarFuncSig::NEJson => Ok(RpnFnMeta::Compare(EvalType::Json, CmpOp::NE)),
        ScalarFuncSig::EQInt => map_int_sig(value, children, IntSigKind::Compare(CmpOp::EQ)),
        ScalarFuncSig::EQReal => Ok(RpnFnMeta::Compare(EvalType::Real, CmpOp::EQ)),
        ScalarFuncSig::EQDecimal => Ok(RpnFnMeta::Compare(EvalType::Decimal, CmpOp::EQ)),
        ScalarFuncSig::EQString => Ok(RpnFnMeta::Compare(EvalType::Bytes, CmpOp::EQ)),
        ScalarFuncSig::EQTime => Ok(RpnFnMeta::Compare(EvalType::DateTime, CmpOp::EQ)),
        ScalarFuncSig::EQDuration => Ok(RpnFnMeta::Compare(EvalType::Duration, CmpOp::EQ)),
        ScalarFuncSig::EQJson => Ok(RpnFnMeta::Compare(EvalType::Json, CmpOp::EQ)),
        ScalarFuncSig::NullEQInt => map_int_sig(
            value,
            children,
            IntSigKind::Compare(CmpOp::NullEQ),
        ),
        ScalarFuncSig::NullEQReal => Ok(RpnFnMeta::Compare(EvalType::Real, CmpOp::NullEQ)),
        ScalarFuncSig::NullEQDecimal => Ok(RpnFnMeta::Compare(EvalType::Decimal, CmpOp::NullEQ)),
        ScalarFuncSig::NullEQString => Ok(RpnFnMeta::Compare(EvalType::Bytes, CmpOp::NullEQ)),
        ScalarFuncSig::NullEQTime => Ok(RpnFnMeta::Compare(EvalType::DateTime, CmpOp::NullEQ)),
        ScalarFuncSig::NullEQDuration => Ok(
            RpnFnMeta::Compare(EvalType::Duration, CmpOp::NullEQ),
        ),
        ScalarFuncSig::NullEQJson => Ok(RpnFnMeta::Compare(EvalType::Json, CmpOp::NullEQ)),
        ScalarFuncSig::IntIsNull => Ok(RpnFnMeta::IsNull(EvalType::Int)),
        ScalarFuncSig::RealIsNull => Ok(RpnFnMeta::IsNull(EvalType::Real)),
        ScalarFuncSig::DecimalIsNull => Ok(RpnFnMeta::IsNull(EvalType::Decimal)),
        ScalarFuncSig::StringIsNull => Ok(RpnFnMeta::IsNull(EvalType::Bytes)),
        ScalarFuncSig::TimeIsNull => Ok(RpnFnMeta::IsNull(EvalType::DateTime)),
        ScalarFuncSig::DurationIsNull => Ok(RpnFnMeta::IsNull(EvalType::Duration)),
        ScalarFuncSig::JsonIsNull => Ok(RpnFnMeta::IsNull(EvalType::Json)),
        ScalarFuncSig::IntIsTrue => Ok(RpnFnMeta::IntIsTrue),
        ScalarFuncSig::RealIsTrue => Ok(RpnFnMeta::RealIsTrue),
        ScalarFuncSig::DecimalIsTrue => Ok(RpnFnMeta::DecimalIsTrue),
        ScalarFuncSig::IntIsFalse => Ok(RpnFnMeta::IntIsFalse),
        ScalarFuncSig::RealIsFalse => Ok(RpnFnMeta::RealIsFalse),
        ScalarFuncSig::DecimalIsFalse => Ok(RpnFnMeta::DecimalIsFalse),
        ScalarFuncSig::LogicalAnd => Ok(RpnFnMeta::LogicalAnd),
        ScalarFuncSig::LogicalOr => Ok(RpnFnMeta::LogicalOr),
        ScalarFuncSig::UnaryNotInt | ScalarFuncSig::UnaryNotDecimal | ScalarFuncSig::UnaryNotReal
            => Ok(RpnFnMeta::UnaryNot),
        ScalarFuncSig::PlusInt => map_int_sig(value, children, IntSigKind::Plus),
        ScalarFuncSig::PlusReal => Ok(RpnFnMeta::Arithmetic(EvalType::Real, ArithOp::Plus)),
        ScalarFuncSig::PlusDecimal => Ok(RpnFnMeta::Arithmetic(EvalType::Decimal, ArithOp::Plus)),
        ScalarFuncSig::MinusInt => map_int_sig(value, children, IntSigKind::Minus),
        ScalarFuncSig::MinusReal => Ok(RpnFnMeta::Arithmetic(EvalType::Real, ArithOp::Minus)),
        ScalarFuncSig::MinusDecimal => Ok(
            RpnFnMeta::Arithmetic(EvalType::Decimal, ArithOp::Minus),
        ),
        ScalarFuncSig::MultiplyDecimal => Ok(
            RpnFnMeta::Arithmetic(EvalType::Decimal, ArithOp::Multiply),
        ),
        ScalarFuncSig::MultiplyInt => map_int_sig(value, children, IntSigKind::Multiply),
        ScalarFuncSig::MultiplyIntUnsigned => Ok(
            RpnFnMeta::ArithmeticInt(IntSign::Unsigned, IntSign::Unsigned, ArithOp::Multiply),
        ),
        ScalarFuncSig::MultiplyReal => Ok(
            RpnFnMeta::Arithmetic(EvalType::Real, ArithOp::Multiply),
        ),
        ScalarFuncSig::ModReal => Ok(RpnFnMeta::Arithmetic(EvalType::Real, ArithOp::Mod)),
        ScalarFuncSig::ModDecimal => Ok(RpnFnMeta::Arithmetic(EvalType::Decimal, ArithOp::Mod)),
        ScalarFuncSig::DivideDecimal => Ok(RpnFnMeta::DivideWithCtx(EvalType::Decimal)),
        ScalarFuncSig::DivideReal => Ok(RpnFnMeta::DivideWithCtx(EvalType::Real)),
        ScalarFuncSig::ModInt => map_int_sig(value, children, IntSigKind::Mod),
        ScalarFuncSig::LikeSig => Ok(RpnFnMeta::Like),
        ScalarFuncSig::IfNullInt => Ok(RpnFnMeta::IfNull(EvalType::Int)),
        ScalarFuncSig::IfNullReal => Ok(RpnFnMeta::IfNull(EvalType::Real)),
        ScalarFuncSig::IfNullString => Ok(RpnFnMeta::IfNull(EvalType::Bytes)),
        ScalarFuncSig::IfNullDecimal => Ok(RpnFnMeta::IfNull(EvalType::Decimal)),
        ScalarFuncSig::IfNullTime => Ok(RpnFnMeta::IfNull(EvalType::DateTime)),
        ScalarFuncSig::IfNullDuration => Ok(RpnFnMeta::IfNull(EvalType::Duration)),
        ScalarFuncSig::IfNullJson => Ok(RpnFnMeta::IfNull(EvalType::Json)),
        ScalarFuncSig::IntDivideInt => map_int_sig(value, children, IntSigKind::Divide),
        ScalarFuncSig::IntDivideDecimal => Ok(RpnFnMeta::IntDivideDecimal),
        ScalarFuncSig::CaseWhenInt => Ok(RpnFnMeta::CaseWhen(EvalType::Int)),
        ScalarFuncSig::CaseWhenReal => Ok(RpnFnMeta::CaseWhen(EvalType::Real)),
        ScalarFuncSig::CaseWhenString => Ok(RpnFnMeta::CaseWhen(EvalType::Bytes)),
        ScalarFuncSig::CaseWhenDecimal => Ok(RpnFnMeta::CaseWhen(EvalType::Decimal)),
        ScalarFuncSig::CaseWhenTime => Ok(RpnFnMeta::CaseWhen(EvalType::DateTime)),
        ScalarFuncSig::CaseWhenDuration => Ok(RpnFnMeta::CaseWhen(EvalType::Duration)),
        ScalarFuncSig::CaseWhenJson => Ok(RpnFnMeta::CaseWhen(EvalType::Json)),
        ScalarFuncSig::DateFormatSig => Ok(RpnFnMeta::DateFormat),
        ScalarFuncSig::AbsInt => Ok(RpnFnMeta::AbsInt),
        ScalarFuncSig::AbsUInt => Ok(RpnFnMeta::AbsUint),
        ScalarFuncSig::AbsReal => Ok(RpnFnMeta::AbsReal),
        ScalarFuncSig::AbsDecimal => Ok(RpnFnMeta::AbsDecimal),
        ScalarFuncSig::CoalesceInt => Ok(RpnFnMeta::Coalesce(EvalType::Int)),
        ScalarFuncSig::CoalesceReal => Ok(RpnFnMeta::Coalesce(EvalType::Real)),
        ScalarFuncSig::CoalesceString => Ok(RpnFnMeta::Coalesce(EvalType::Bytes)),
        ScalarFuncSig::CoalesceDecimal => Ok(RpnFnMeta::Coalesce(EvalType::Decimal)),
        ScalarFuncSig::CoalesceTime => Ok(RpnFnMeta::Coalesce(EvalType::DateTime)),
        ScalarFuncSig::CoalesceDuration => Ok(RpnFnMeta::Coalesce(EvalType::Duration)),
        ScalarFuncSig::CoalesceJson => Ok(RpnFnMeta::Coalesce(EvalType::Json)),
        ScalarFuncSig::InInt => Ok(RpnFnMeta::CompareIn(EvalType::Int)),
        ScalarFuncSig::InReal => Ok(RpnFnMeta::CompareIn(EvalType::Real)),
        ScalarFuncSig::InString => Ok(RpnFnMeta::CompareIn(EvalType::Bytes)),
        ScalarFuncSig::InDecimal => Ok(RpnFnMeta::CompareIn(EvalType::Decimal)),
        ScalarFuncSig::InTime => Ok(RpnFnMeta::CompareIn(EvalType::DateTime)),
        ScalarFuncSig::InDuration => Ok(RpnFnMeta::CompareIn(EvalType::Duration)),
        ScalarFuncSig::InJson => Ok(RpnFnMeta::CompareIn(EvalType::Json)),
        ScalarFuncSig::IfReal => Ok(RpnFnMeta::IfCondition(EvalType::Real)),
        ScalarFuncSig::IfJson => Ok(RpnFnMeta::IfCondition(EvalType::Json)),
        ScalarFuncSig::IfInt => Ok(RpnFnMeta::IfCondition(EvalType::Int)),
        ScalarFuncSig::IfDuration => Ok(RpnFnMeta::IfCondition(EvalType::Duration)),
        ScalarFuncSig::IfString => Ok(RpnFnMeta::IfCondition(EvalType::Bytes)),
        ScalarFuncSig::IfTime => Ok(RpnFnMeta::IfCondition(EvalType::DateTime)),
        ScalarFuncSig::IfDecimal => Ok(RpnFnMeta::IfCondition(EvalType::Decimal)),
        ScalarFuncSig::JsonTypeSig => Ok(RpnFnMeta::JsonType),
        _ => Err(BuildErrorKind::SignatureUnknown),
    }
}

/// The signedness pair a two-operand call dispatches on.
pub open spec fn spec_sign_pair(children: Seq<Expr>) -> (IntSign, IntSign) {
    (spec_sign(children[0].field_type), spec_sign(children[1].field_type))
}

/// Whether a signature goes through signedness dispatch.
pub open spec fn is_int_dispatched(sig: ScalarFuncSig) -> bool {
    sig == ScalarFuncSig::LTInt || sig == ScalarFuncSig::LEInt || sig == ScalarFuncSig::GTInt
        || sig == ScalarFuncSig::GEInt || sig == ScalarFuncSig::NEInt || sig
        == ScalarFuncSig::EQInt || sig == ScalarFuncSig::NullEQInt || sig == ScalarFuncSig::PlusInt
        || sig == ScalarFuncSig::MinusInt || sig == ScalarFuncSig::MultiplyInt || sig
        == ScalarFuncSig::ModInt || sig == ScalarFuncSig::IntDivideInt
}

/// Signedness dispatch picks distinct routines for distinct signedness pairs,
/// and rejects any operand count other than two.
pub proof fn lemma_int_signature_dispatch(sig: ScalarFuncSig, a: Seq<Expr>, b: Seq<Expr>)
    requires
        is_int_dispatched(sig),
        a.len() == 2,
        b.len() == 2,
    ensures
        rpn_meta_of(sig, a) is Ok,
        rpn_meta_of(sig, b) is Ok,
        spec_sign_pair(a) != spec_sign_pair(b) ==> rpn_meta_of(sig, a) != rpn_meta_of(sig, b),
        forall|c: Seq<Expr>|
            c.len() != 2 ==> #[trigger] rpn_meta_of(sig, c) == Err::<RpnFnMeta, BuildErrorKind>(
                BuildErrorKind::SignatureArity,
            ),
{
}

} // verus!
