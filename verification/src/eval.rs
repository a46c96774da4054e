use vstd::prelude::*;

use crate::errors::{EvalErrorKind, Warning};
use crate::expr::{Expr, ExprOp, FieldType, ScalarFuncSig};
use crate::registry::{ArithOp, CmpOp, IntSign};
use crate::value::{bytes_compare, lex_le, lex_lt, Datum, DatumV, dview, Row, row_view};

verus! {

/// Request-scoped evaluation configuration, shared by every stage of a chain.
#[derive(Clone, Copy, PartialEq, Eq, Structural)]
pub struct EvalConfig {
    /// At most this many warnings are stored; the count keeps running past it.
    pub max_warning_cnt: usize,
}

/// Warnings accumulated during evaluation, with the running total, which can
/// exceed the number of stored warnings once the cap is hit.
pub struct EvalWarnings {
    pub warnings: Vec<Warning>,
    pub warning_cnt: u64,
}

/// Evaluation state of one pipeline stage: the shared configuration and the
/// warnings gathered so far.
pub struct EvalContext {
    pub cfg: EvalConfig,
    pub warnings: Vec<Warning>,
    pub warning_cnt: u64,
}

impl EvalContext {
    pub fn new(cfg: EvalConfig) -> (r: EvalContext)
        ensures
            r.cfg == cfg,
            r.warnings@.len() == 0,
            r.warning_cnt == 0,
    {
        EvalContext { cfg, warnings: Vec::new(), warning_cnt: 0 }
    }

    /// Notes a warning: stored while under the cap, counted always.
    pub fn append_warning(&mut self, w: Warning)
        ensures
            final(self).cfg == old(self).cfg,
            final(self).warning_cnt == if old(self).warning_cnt == u64::MAX {
                u64::MAX as int
            } else {
                old(self).warning_cnt + 1
            },
            final(self).warnings@ == if old(self).warnings@.len() < old(self).cfg.max_warning_cnt {
                old(self).warnings@.push(w)
            } else {
                old(self).warnings@
            },
    {
        if self.warnings.len() < self.cfg.max_warning_cnt {
            self.warnings.push(w);
        }
        if self.warning_cnt < u64::MAX {
            self.warning_cnt = self.warning_cnt + 1;
        }
    }

    /// Drains the warnings gathered so far, returning `None` when there were
    /// none at all.
    pub fn take_warnings(&mut self) -> (r: Option<EvalWarnings>)
        ensures
            final(self).cfg == old(self).cfg,
            final(self).warnings@.len() == 0,
            final(self).warning_cnt == 0,
            r is None <==> old(self).warning_cnt == 0 && old(self).warnings@.len() == 0,
            r is None ==> old(self).warnings@.len() == 0,
            r matches Some(w) ==> (w.warnings@ == old(self).warnings@ && w.warning_cnt == old(
                self,
            ).warning_cnt),
    {
        let mut taken: Vec<Warning> = Vec::new();
        core::mem::swap(&mut self.warnings, &mut taken);
        let cnt = self.warning_cnt;
        self.warning_cnt = 0;
        if cnt == 0 && taken.len() == 0 {
            None
        } else {
            Some(EvalWarnings { warnings: taken, warning_cnt: cnt })
        }
    }
}

/// The mathematical value of a 64-bit pattern under a signedness.
pub open spec fn int_of(i: i64, s: IntSign) -> int {
    if s == IntSign::Unsigned && i < 0 {
        i + 0x10000000000000000
    } else {
        i as int
    }
}

/// The 64-bit pattern of a mathematical value in `(-2^63, 2^64)`.
pub open spec fn wrap_repr(v: int) -> i64 {
    (if v >= 0x8000000000000000 {
        v - 0x10000000000000000
    } else {
        v
    }) as i64
}

pub open spec fn abs_int(x: int) -> int {
    if x < 0 {
        -x
    } else {
        x
    }
}

/// Integer division truncating toward zero.
pub open spec fn trunc_div(x: int, y: int) -> int {
    if (x < 0) != (y < 0) {
        -(abs_int(x) / abs_int(y))
    } else {
        abs_int(x) / abs_int(y)
    }
}

/// Integer remainder with the dividend's sign.
pub open spec fn trunc_mod(x: int, y: int) -> int {
    if x < 0 {
        -(abs_int(x) % abs_int(y))
    } else {
        abs_int(x) % abs_int(y)
    }
}

/// Whether a comparison holds of two mathematical values.
pub open spec fn cmp_test(op: CmpOp, a: int, b: int) -> bool {
    match op {
        CmpOp::LT => a < b,
        CmpOp::LE => a <= b,
        CmpOp::GT => a > b,
        CmpOp::GE => a >= b,
        CmpOp::NE => a != b,
        CmpOp::EQ => a == b,
        CmpOp::NullEQ => a == b,
    }
}

/// Whether a comparison holds of two byte strings, by lexicographic order.
pub open spec fn cmp_test_bytes(op: CmpOp, a: Seq<u8>, b: Seq<u8>) -> bool {
    match op {
        CmpOp::LT => lex_lt(a, b),
        CmpOp::LE => lex_le(a, b),
        CmpOp::GT => lex_lt(b, a),
        CmpOp::GE => lex_le(b, a),
        CmpOp::NE => a != b,
        CmpOp::EQ => a == b,
        CmpOp::NullEQ => a == b,
    }
}

pub open spec fn bool_v(b: bool) -> DatumV {
    DatumV::Int(
        if b {
            1
        } else {
            0
        },
    )
}

/// Whether a datum counts as true when used as a condition.
pub open spec fn spec_truthy(d: DatumV) -> bool {
    d matches DatumV::Int(i) && i != 0
}

/// Whether a datum can be used as a condition at all.
pub open spec fn spec_condition_ok(d: DatumV) -> bool {
    !(d matches DatumV::Bytes(_))
}

/// Integer comparison under the two operands' signedness.
pub open spec fn spec_cmp_int(op: CmpOp, l: DatumV, r: DatumV, ls: IntSign, rs: IntSign) -> Result<
    DatumV,
    EvalErrorKind,
> {
    match (l, r) {
        (DatumV::Bytes(_), _) => Err(EvalErrorKind::TypeMismatch),
        (_, DatumV::Bytes(_)) => Err(EvalErrorKind::TypeMismatch),
        (DatumV::Null, DatumV::Null) => if op == CmpOp::NullEQ {
            Ok(bool_v(true))
        } else {
            Ok(DatumV::Null)
        },
        (DatumV::Null, _) => if op == CmpOp::NullEQ {
            Ok(bool_v(false))
        } else {
            Ok(DatumV::Null)
        },
        (_, DatumV::Null) => if op == CmpOp::NullEQ {
            Ok(bool_v(false))
        } else {
            Ok(DatumV::Null)
        },
        (DatumV::Int(a), DatumV::Int(b)) => Ok(
            bool_v(cmp_test(op, int_of(a, ls), int_of(b, rs))),
        ),
    }
}

/// Byte-string comparison.
pub open spec fn spec_cmp_bytes(op: CmpOp, l: DatumV, r: DatumV) -> Result<
    DatumV,
    EvalErrorKind,
> {
    match (l, r) {
        (DatumV::Int(_), _) => Err(EvalErrorKind::TypeMismatch),
        (_, DatumV::Int(_)) => Err(EvalErrorKind::TypeMismatch),
        (DatumV::Null, DatumV::Null) => if op == CmpOp::NullEQ {
            Ok(bool_v(true))
        } else {
            Ok(DatumV::Null)
        },
        (DatumV::Null, _) => if op == CmpOp::NullEQ {
            Ok(bool_v(false))
        } else {
            Ok(DatumV::Null)
        },
        (_, DatumV::Null) => if op == CmpOp::NullEQ {
            Ok(bool_v(false))
        } else {
            Ok(DatumV::Null)
        },
        (DatumV::Bytes(a), DatumV::Bytes(b)) => Ok(bool_v(cmp_test_bytes(op, a, b))),
    }
}

/// The value range of a result family.
pub open spec fn fit_int(v: int, unsigned: bool) -> Result<DatumV, EvalErrorKind> {
    if unsigned {
        if 0 <= v < 0x10000000000000000 {
            Ok(DatumV::Int(wrap_repr(v)))
        } else {
            Err(EvalErrorKind::Overflow)
        }
    } else {
        if -0x8000000000000000 <= v < 0x8000000000000000 {
            Ok(DatumV::Int(wrap_repr(v)))
        } else {
            Err(EvalErrorKind::Overflow)
        }
    }
}

/// Integer addition, subtraction, multiplication and remainder under the two
/// operands' signedness; the result is unsigned when either operand is, and
/// must fit its family. A remainder by zero is null.
pub open spec fn spec_arith_int(
    op: ArithOp,
    l: DatumV,
    r: DatumV,
    ls: IntSign,
    rs: IntSign,
) -> Result<DatumV, EvalErrorKind> {
    match (l, r) {
        (DatumV::Bytes(_), _) => Err(EvalErrorKind::TypeMismatch),
        (_, DatumV::Bytes(_)) => Err(EvalErrorKind::TypeMismatch),
        (DatumV::Null, _) => Ok(DatumV::Null),
        (_, DatumV::Null) => Ok(DatumV::Null),
        (DatumV::Int(a), DatumV::Int(b)) => {
            let x = int_of(a, ls);
            let y = int_of(b, rs);
            let unsigned = ls == IntSign::Unsigned || rs == IntSign::Unsigned;
            match op {
                ArithOp::Plus => fit_int(x + y, unsigned),
                ArithOp::Minus => fit_int(x - y, unsigned),
                ArithOp::Multiply => fit_int(x * y, unsigned),
                ArithOp::Mod => if y == 0 {
                    Ok(DatumV::Null)
                } else {
                    Ok(DatumV::Int(wrap_repr(trunc_mod(x, y))))
                },
            }
        },
    }
}

/// Integer division truncating toward zero; division by zero is null.
pub open spec fn spec_int_divide(l: DatumV, r: DatumV, ls: IntSign, rs: IntSign) -> Result<
    DatumV,
    EvalErrorKind,
> {
    match (l, r) {
        (DatumV::Bytes(_), _) => Err(EvalErrorKind::TypeMismatch),
        (_, DatumV::Bytes(_)) => Err(EvalErrorKind::TypeMismatch),
        (DatumV::Null, _) => Ok(DatumV::Null),
        (_, DatumV::Null) => Ok(DatumV::Null),
        (DatumV::Int(a), DatumV::Int(b)) => {
            let x = int_of(a, ls);
            let y = int_of(b, rs);
            let unsigned = ls == IntSign::Unsigned || rs == IntSign::Unsigned;
            if y == 0 {
                Ok(DatumV::Null)
            } else {
                fit_int(trunc_div(x, y), unsigned)
            }
        },
    }
}

/// Three-valued logical and: false wins over null.
pub open spec fn spec_logical_and(l: DatumV, r: DatumV) -> Result<DatumV, EvalErrorKind> {
    if l matches DatumV::Bytes(_) || r matches DatumV::Bytes(_) {
        Err(EvalErrorKind::TypeMismatch)
    } else if (l matches DatumV::Int(a) && a == 0) || (r matches DatumV::Int(b) && b == 0) {
        Ok(bool_v(false))
    } else if l is Null || r is Null {
        Ok(DatumV::Null)
    } else {
        Ok(bool_v(true))
    }
}

/// Three-valued logical or: true wins over null.
pub open spec fn spec_logical_or(l: DatumV, r: DatumV) -> Result<DatumV, EvalErrorKind> {
    if l matches DatumV::Bytes(_) || r matches DatumV::Bytes(_) {
        Err(EvalErrorKind::TypeMismatch)
    } else if (l matches DatumV::Int(a) && a != 0) || (r matches DatumV::Int(b) && b != 0) {
        Ok(bool_v(true))
    } else if l is Null || r is Null {
        Ok(DatumV::Null)
    } else {
        Ok(bool_v(false))
    }
}

/// The first non-null argument, or null.
pub open spec fn spec_coalesce(args: Seq<DatumV>) -> DatumV
    decreases args.len(),
{
    if args.len() == 0 {
        DatumV::Null
    } else if !(args[0] is Null) {
        args[0]
    } else {
        spec_coalesce(args.drop_first())
    }
}

/// Case-when over (condition, value) pairs with an optional trailing
/// else-value: the value of the first condition that holds.
pub open spec fn spec_case_when(args: Seq<DatumV>) -> Result<DatumV, EvalErrorKind>
    decreases args.len(),
{
    if args.len() == 0 {
        Ok(DatumV::Null)
    } else if args.len() == 1 {
        Ok(args[0])
    } else if !spec_condition_ok(args[0]) {
        Err(EvalErrorKind::TypeMismatch)
    } else if spec_truthy(args[0]) {
        Ok(args[1])
    } else {
        spec_case_when(args.skip(2))
    }
}

/// Membership of the first argument in the rest: true when an equal non-null
/// element exists, null when the target or any element is null, else false.
pub open spec fn spec_in(args: Seq<DatumV>) -> Result<DatumV, EvalErrorKind> {
    if args.len() < 1 {
        Err(EvalErrorKind::TypeMismatch)
    } else {
        let target = args[0];
        let rest = args.drop_first();
        if target is Null {
            Ok(DatumV::Null)
        } else if exists|j: int| 0 <= j < rest.len() && rest[j] == target {
            Ok(bool_v(true))
        } else if exists|j: int| 0 <= j < rest.len() && rest[j] is Null {
            Ok(DatumV::Null)
        } else {
            Ok(bool_v(false))
        }
    }
}

/// The field types of a call's children, which signedness dispatch reads.
pub open spec fn fts_of(children: Seq<Expr>) -> Seq<FieldType> {
    children.map_values(|c: Expr| c.field_type)
}

/// What a scalar routine returns on given argument values. Signatures whose
/// routines work on types this engine does not carry fail as unsupported.
pub open spec fn spec_apply(sig: ScalarFuncSig, fts: Seq<FieldType>, args: Seq<DatumV>) -> Result<
    DatumV,
    EvalErrorKind,
> {
    match sig {
        ScalarFuncSig::LTInt | ScalarFuncSig::LEInt | ScalarFuncSig::GTInt | ScalarFuncSig::GEInt
            | ScalarFuncSig::NEInt | ScalarFuncSig::EQInt | ScalarFuncSig::NullEQInt => {
            if args.len() == 2 && fts.len() == 2 {
                spec_cmp_int(
                    int_cmp_op(sig),
                    args[0],
                    args[1],
                    crate::registry::spec_sign(fts[0]),
                    crate::registry::spec_sign(fts[1]),
                )
            } else {
                Err(EvalErrorKind::TypeMismatch)
            }
        },
        ScalarFuncSig::LTString | ScalarFuncSig::LEString | ScalarFuncSig::GTString
            | ScalarFuncSig::GEString | ScalarFuncSig::NEString | ScalarFuncSig::EQString
            | ScalarFuncSig::NullEQString => {
            if args.len() == 2 {
                spec_cmp_bytes(str_cmp_op(sig), args[0], args[1])
            } else {
                Err(EvalErrorKind::TypeMismatch)
            }
        },
        ScalarFuncSig::IntIsNull | ScalarFuncSig::RealIsNull | ScalarFuncSig::DecimalIsNull
            | ScalarFuncSig::StringIsNull | ScalarFuncSig::TimeIsNull
            | ScalarFuncSig::DurationIsNull | ScalarFuncSig::JsonIsNull => {
            if args.len() == 1 {
                Ok(bool_v(args[0] is Null))
            } else {
                Err(EvalErrorKind::TypeMismatch)
            }
        },
        ScalarFuncSig::IntIsTrue => {
            if args.len() == 1 {
                match args[0] {
                    DatumV::Null => Ok(bool_v(false)),
                    DatumV::Int(i) => Ok(bool_v(i != 0)),
                    DatumV::Bytes(_) => Err(EvalErrorKind::TypeMismatch),
                }
            } else {
                Err(EvalErrorKind::TypeMismatch)
            }
        },
        ScalarFuncSig::IntIsFalse => {
            if args.len() == 1 {
                match args[0] {
                    DatumV::Null => Ok(bool_v(false)),
                    DatumV::Int(i) => Ok(bool_v(i == 0)),
                    DatumV::Bytes(_) => Err(EvalErrorKind::TypeMismatch),
                }
            } else {
                Err(EvalErrorKind::TypeMismatch)
            }
        },
        ScalarFuncSig::LogicalAnd => {
            if args.len() == 2 {
                spec_logical_and(args[0], args[1])
            } else {
                Err(EvalErrorKind::TypeMismatch)
            }
        },
        ScalarFuncSig::LogicalOr => {
            if args.len() == 2 {
                spec_logical_or(args[0], args[1])
            } else {
                Err(EvalErrorKind::TypeMismatch)
            }
        },
        ScalarFuncSig::UnaryNotInt | ScalarFuncSig::UnaryNotDecimal
            | ScalarFuncSig::UnaryNotReal => {
            if args.len() == 1 {
                match args[0] {
                    DatumV::Null => Ok(DatumV::Null),
                    DatumV::Int(i) => Ok(bool_v(i == 0)),
                    DatumV::Bytes(_) => Err(EvalErrorKind::TypeMismatch),
                }
            } else {
                Err(EvalErrorKind::TypeMismatch)
            }
        },
        ScalarFuncSig::PlusInt | ScalarFuncSig::MinusInt | ScalarFuncSig::MultiplyInt
            | ScalarFuncSig::ModInt => {
            if args.len() == 2 && fts.len() == 2 {
                spec_arith_int(
                    int_arith_op(sig),
                    args[0],
                    args[1],
                    crate::registry::spec_sign(fts[0]),
                    crate::registry::spec_sign(fts[1]),
                )
            } else {
                Err(EvalErrorKind::TypeMismatch)
            }
        },
        ScalarFuncSig::MultiplyIntUnsigned => {
            if args.len() == 2 {
                spec_arith_int(
                    ArithOp::Multiply,
                    args[0],
                    args[1],
                    IntSign::Unsigned,
                    IntSign::Unsigned,
                )
            } else {
                Err(EvalErrorKind::TypeMismatch)
            }
        },
        ScalarFuncSig::IntDivideInt => {
            if args.len() == 2 && fts.len() == 2 {
                spec_int_divide(
                    args[0],
                    args[1],
                    crate::registry::spec_sign(fts[0]),
                    crate::registry::spec_sign(fts[1]),
                )
            } else {
                Err(EvalErrorKind::TypeMismatch)
            }
        },
        ScalarFuncSig::AbsInt => {
            if args.len() == 1 {
                match args[0] {
                    DatumV::Null => Ok(DatumV::Null),
                    DatumV::Int(i) => if i == i64::MIN {
                        Err(EvalErrorKind::Overflow)
                    } else if i < 0 {
                        Ok(DatumV::Int((-i) as i64))
                    } else {
                        Ok(DatumV::Int(i))
                    },
                    DatumV::Bytes(_) => Err(EvalErrorKind::TypeMismatch),
                }
            } else {
                Err(EvalErrorKind::TypeMismatch)
            }
        },
        ScalarFuncSig::AbsUInt => {
            if args.len() == 1 {
                match args[0] {
                    DatumV::Null => Ok(DatumV::Null),
                    DatumV::Int(i) => Ok(DatumV::Int(i)),
                    DatumV::Bytes(_) => Err(EvalErrorKind::TypeMismatch),
                }
            } else {
                Err(EvalErrorKind::TypeMismatch)
            }
        },
        ScalarFuncSig::IfNullInt | ScalarFuncSig::IfNullReal | ScalarFuncSig::IfNullString
            | ScalarFuncSig::IfNullDecimal | ScalarFuncSig::IfNullTime
            | ScalarFuncSig::IfNullDuration | ScalarFuncSig::IfNullJson => {
            if args.len() == 2 {
                if !(args[0] is Null) {
                    Ok(args[0])
                } else {
                    Ok(args[1])
                }
            } else {
                Err(EvalErrorKind::TypeMismatch)
            }
        },
        ScalarFuncSig::CoalesceInt | ScalarFuncSig::CoalesceReal | ScalarFuncSig::CoalesceString
            | ScalarFuncSig::CoalesceDecimal | ScalarFuncSig::CoalesceTime
            | ScalarFuncSig::CoalesceDuration | ScalarFuncSig::CoalesceJson => {
            Ok(spec_coalesce(args))
        },
        ScalarFuncSig::CaseWhenInt | ScalarFuncSig::CaseWhenReal | ScalarFuncSig::CaseWhenString
            | ScalarFuncSig::CaseWhenDecimal | ScalarFuncSig::CaseWhenTime
            | ScalarFuncSig::CaseWhenDuration | ScalarFuncSig::CaseWhenJson => {
            spec_case_when(args)
        },
        ScalarFuncSig::IfInt | ScalarFuncSig::IfReal | ScalarFuncSig::IfString
            | ScalarFuncSig::IfDecimal | ScalarFuncSig::IfTime | ScalarFuncSig::IfDuration
            | ScalarFuncSig::IfJson => {
            if args.len() == 3 {
                if !spec_condition_ok(args[0]) {
                    Err(EvalErrorKind::TypeMismatch)
                } else if spec_truthy(args[0]) {
                    Ok(args[1])
                } else {
                    Ok(args[2])
                }
            } else {
                Err(EvalErrorKind::TypeMismatch)
            }
        },
        ScalarFuncSig::InInt | ScalarFuncSig::InReal | ScalarFuncSig::InString
            | ScalarFuncSig::InDecimal | ScalarFuncSig::InTime | ScalarFuncSig::InDuration
            | ScalarFuncSig::InJson => {
            spec_in(args)
        },
        ScalarFuncSig::BitAndSig => {
            if args.len() == 2 {
                spec_bit_binary(args[0], args[1], BitOpKind::And)
            } else {
                Err(EvalErrorKind::TypeMismatch)
            }
        },
        ScalarFuncSig::BitOrSig => {
            if args.len() == 2 {
                spec_bit_binary(args[0], args[1], BitOpKind::Or)
            } else {
                Err(EvalErrorKind::TypeMismatch)
            }
        },
        ScalarFuncSig::BitXorSig => {
            if args.len() == 2 {
                spec_bit_binary(args[0], args[1], BitOpKind::Xor)
            } else {
                Err(EvalErrorKind::TypeMismatch)
            }
        },
        ScalarFuncSig::BitNegSig => {
            if args.len() == 1 {
                match args[0] {
                    DatumV::Null => Ok(DatumV::Null),
                    DatumV::Int(i) => Ok(DatumV::Int(!i)),
                    DatumV::Bytes(_) => Err(EvalErrorKind::TypeMismatch),
                }
            } else {
                Err(EvalErrorKind::TypeMismatch)
            }
        },
        ScalarFuncSig::LeftShiftSig => {
            if args.len() == 2 {
                spec_bit_binary(args[0], args[1], BitOpKind::Shl)
            } else {
                Err(EvalErrorKind::TypeMismatch)
            }
        },
        ScalarFuncSig::RightShiftSig => {
            if args.len() == 2 {
                spec_bit_binary(args[0], args[1], BitOpKind::Shr)
            } else {
                Err(EvalErrorKind::TypeMismatch)
            }
        },
        _ => Err(EvalErrorKind::UnsupportedRoutine),
    }
}

/// A bitwise operation on 64-bit patterns; shifts read both operands as
/// unsigned and give zero for shifts of 64 or more.
#[derive(Clone, Copy, PartialEq, Eq, Structural)]
pub enum BitOpKind {
    And,
    Or,
    Xor,
    Shl,
    Shr,
}

pub open spec fn spec_bit_binary(l: DatumV, r: DatumV, k: BitOpKind) -> Result<
    DatumV,
    EvalErrorKind,
> {
    match (l, r) {
        (DatumV::Bytes(_), _) => Err(EvalErrorKind::TypeMismatch),
        (_, DatumV::Bytes(_)) => Err(EvalErrorKind::TypeMismatch),
        (DatumV::Null, _) => Ok(DatumV::Null),
        (_, DatumV::Null) => Ok(DatumV::Null),
        (DatumV::Int(a), DatumV::Int(b)) => Ok(
            DatumV::Int(
                match k {
                    BitOpKind::And => a & b,
                    BitOpKind::Or => a | b,
                    BitOpKind::Xor => a ^ b,
                    BitOpKind::Shl => spec_shift_left(a, b),
                    BitOpKind::Shr => spec_shift_right(a, b),
                },
            ),
        ),
    }
}

/// The 64-bit pattern of a datum read as unsigned.
pub open spec fn u64_of(i: i64) -> u64 {
    int_of(i, IntSign::Unsigned) as u64
}

pub open spec fn spec_shift_left(a: i64, b: i64) -> i64 {
    if int_of(b, IntSign::Unsigned) >= 64 {
        0
    } else {
        wrap_repr((u64_of(a) << (b as u64)) as int)
    }
}

pub open spec fn spec_shift_right(a: i64, b: i64) -> i64 {
    if int_of(b, IntSign::Unsigned) >= 64 {
        0
    } else {
        wrap_repr((u64_of(a) >> (b as u64)) as int)
    }
}

/// The comparison operation of an integer comparison signature.
pub open spec fn int_cmp_op(sig: ScalarFuncSig) -> CmpOp {
    match sig {
        ScalarFuncSig::LTInt => CmpOp::LT,
        ScalarFuncSig::LEInt => CmpOp::LE,
        ScalarFuncSig::GTInt => CmpOp::GT,
        ScalarFuncSig::GEInt => CmpOp::GE,
        ScalarFuncSig::NEInt => CmpOp::NE,
        ScalarFuncSig::EQInt => CmpOp::EQ,
        _ => CmpOp::NullEQ,
    }
}

/// The comparison operation of a byte-string comparison signature.
pub open spec fn str_cmp_op(sig: ScalarFuncSig) -> CmpOp {
    match sig {
        ScalarFuncSig::LTString => CmpOp::LT,
        ScalarFuncSig::LEString => CmpOp::LE,
        ScalarFuncSig::GTString => CmpOp::GT,
        ScalarFuncSig::GEString => CmpOp::GE,
        ScalarFuncSig::NEString => CmpOp::NE,
        ScalarFuncSig::EQString => CmpOp::EQ,
        _ => CmpOp::NullEQ,
    }
}

/// The arithmetic operation of an integer arithmetic signature.
pub open spec fn int_arith_op(sig: ScalarFuncSig) -> ArithOp {
    match sig {
        ScalarFuncSig::PlusInt => ArithOp::Plus,
        ScalarFuncSig::MinusInt => ArithOp::Minus,
        ScalarFuncSig::MultiplyInt => ArithOp::Multiply,
        _ => ArithOp::Mod,
    }
}

/// What evaluating the children of a call yields: the argument values, or
/// the first error in child order.
pub open spec fn spec_eval_args(children: Seq<Expr>, row: Seq<DatumV>) -> Result<
    Seq<DatumV>,
    EvalErrorKind,
>
    decreases children,
{
    if children.len() == 0 {
        Ok(Seq::empty())
    } else {
        match spec_eval(children[0], row) {
            Err(k) => Err(k),
            Ok(v) => match spec_eval_args(children.drop_first(), row) {
                Err(k) => Err(k),
                Ok(rest) => Ok(seq![v] + rest),
            },
        }
    }
}

/// What evaluating an expression over a row yields: a literal is itself, a
/// column reference picks from the row, and a call applies its routine to the
/// evaluated children.
pub open spec fn spec_eval(e: Expr, row: Seq<DatumV>) -> Result<DatumV, EvalErrorKind>
    decreases e,
{
    match e.op {
        ExprOp::Constant(d) => Ok(dview(d)),
        ExprOp::ColumnRef(i) => if i < row.len() {
            Ok(row[i as int])
        } else {
            Err(EvalErrorKind::ColumnOffset)
        },
        ExprOp::ScalarFunc(sig) => match spec_eval_args(e.children@, row) {
            Err(k) => Err(k),
            Ok(args) => spec_apply(sig, fts_of(e.children@), args),
        },
    }
}

/// Correspondence between an executable outcome and its specified value.
pub open spec fn res_matches(
    r: Result<Datum, EvalErrorKind>,
    s: Result<DatumV, EvalErrorKind>,
) -> bool {
    match (r, s) {
        (Ok(d), Ok(v)) => dview(d) == v,
        (Err(a), Err(b)) => a == b,
        _ => false,
    }
}

/// The mathematical value of a 64-bit pattern, widened so that both
/// signedness readings fit.
fn int_val128(i: i64, s: IntSign) -> (r: i128)
    ensures
        r as int == int_of(i, s),
{
    match s {
        IntSign::Signed => i as i128,
        IntSign::Unsigned => {
            if i < 0 {
                (i as i128) + 0x10000000000000000i128
            } else {
                i as i128
            }
        }
    }
}

/// The sign and magnitude of a 64-bit pattern under a signedness.
fn int_mag(i: i64, s: IntSign) -> (r: (bool, u64))
    ensures
        r.0 == (int_of(i, s) < 0),
        r.1 as int == abs_int(int_of(i, s)),
{
    let v = int_val128(i, s);
    if v < 0 {
        (true, (-v) as u64)
    } else {
        (false, v as u64)
    }
}

/// Packs a mathematical value into a 64-bit pattern.
fn wrap_from_i128(v: i128) -> (r: i64)
    requires
        -0x8000000000000000 <= (v as int) < 0x10000000000000000,
    ensures
        r == wrap_repr(v as int),
{
    if v >= 0x8000000000000000i128 {
        (v - 0x10000000000000000i128) as i64
    } else {
        v as i64
    }
}

/// Range-checks a mathematical value against its result family and packs it.
fn fit_from_i128(v: i128, unsigned: bool) -> (r: Result<Datum, EvalErrorKind>)
    ensures
        res_matches(r, fit_int(v as int, unsigned)),
{
    if unsigned {
        if v < 0 || v >= 0x10000000000000000i128 {
            Err(EvalErrorKind::Overflow)
        } else {
            Ok(Datum::Int(wrap_from_i128(v)))
        }
    } else {
        if v < -0x8000000000000000i128 || v >= 0x8000000000000000i128 {
            Err(EvalErrorKind::Overflow)
        } else {
            Ok(Datum::Int(v as i64))
        }
    }
}

/// Integer comparison under the operands' signedness.
fn apply_cmp_int(op: CmpOp, l: &Datum, r: &Datum, ls: IntSign, rs: IntSign) -> (res: Result<
    Datum,
    EvalErrorKind,
>)
    ensures
        res_matches(res, spec_cmp_int(op, dview(*l), dview(*r), ls, rs)),
{
    match (l, r) {
        (Datum::Bytes(_), _) => Err(EvalErrorKind::TypeMismatch),
        (_, Datum::Bytes(_)) => Err(EvalErrorKind::TypeMismatch),
        (Datum::Null, Datum::Null) => {
            if matches!(op, CmpOp::NullEQ) {
                Ok(Datum::Int(1))
            } else {
                Ok(Datum::Null)
            }
        }
        (Datum::Null, _) => {
            if matches!(op, CmpOp::NullEQ) {
                Ok(Datum::Int(0))
            } else {
                Ok(Datum::Null)
            }
        }
        (_, Datum::Null) => {
            if matches!(op, CmpOp::NullEQ) {
                Ok(Datum::Int(0))
            } else {
                Ok(Datum::Null)
            }
        }
        (Datum::Int(a), Datum::Int(b)) => {
            let x = int_val128(*a, ls);
            let y = int_val128(*b, rs);
            let holds = match op {
                CmpOp::LT => x < y,
                CmpOp::LE => x <= y,
                CmpOp::GT => x > y,
                CmpOp::GE => x >= y,
                CmpOp::NE => x != y,
                CmpOp::EQ => x == y,
                CmpOp::NullEQ => x == y,
            };
            Ok(Datum::Int(if holds { 1 } else { 0 }))
        }
    }
}

/// Byte-string comparison.
fn apply_cmp_bytes(op: CmpOp, l: &Datum, r: &Datum) -> (res: Result<Datum, EvalErrorKind>)
    ensures
        res_matches(res, spec_cmp_bytes(op, dview(*l), dview(*r))),
{
    match (l, r) {
        (Datum::Int(_), _) => Err(EvalErrorKind::TypeMismatch),
        (_, Datum::Int(_)) => Err(EvalErrorKind::TypeMismatch),
        (Datum::Null, Datum::Null) => {
            if matches!(op, CmpOp::NullEQ) {
                Ok(Datum::Int(1))
            } else {
                Ok(Datum::Null)
            }
        }
        (Datum::Null, _) => {
            if matches!(op, CmpOp::NullEQ) {
                Ok(Datum::Int(0))
            } else {
                Ok(Datum::Null)
            }
        }
        (_, Datum::Null) => {
            if matches!(op, CmpOp::NullEQ) {
                Ok(Datum::Int(0))
            } else {
                Ok(Datum::Null)
            }
        }
        (Datum::Bytes(a), Datum::Bytes(b)) => {
            let ord = bytes_compare(a, b);
            let holds = match op {
                CmpOp::LT => matches!(ord, core::cmp::Ordering::Less),
                CmpOp::LE => !matches!(ord, core::cmp::Ordering::Greater),
                CmpOp::GT => matches!(ord, core::cmp::Ordering::Greater),
                CmpOp::GE => !matches!(ord, core::cmp::Ordering::Less),
                CmpOp::NE => !matches!(ord, core::cmp::Ordering::Equal),
                CmpOp::EQ => matches!(ord, core::cmp::Ordering::Equal),
                CmpOp::NullEQ => matches!(ord, core::cmp::Ordering::Equal),
            };
            Ok(Datum::Int(if holds { 1 } else { 0 }))
        }
    }
}

/// Integer addition, subtraction, multiplication and remainder; notes a
/// warning on a remainder by zero, which yields null.
fn apply_arith_int(
    ctx: &mut EvalContext,
    op: ArithOp,
    l: &Datum,
    r: &Datum,
    ls: IntSign,
    rs: IntSign,
) -> (res: Result<Datum, EvalErrorKind>)
    ensures
        res_matches(res, spec_arith_int(op, dview(*l), dview(*r), ls, rs)),
        final(ctx).cfg == old(ctx).cfg,
        old(ctx).warnings@.is_prefix_of(final(ctx).warnings@),
        final(ctx).warning_cnt >= old(ctx).warning_cnt,
{
    match (l, r) {
        (Datum::Bytes(_), _) => Err(EvalErrorKind::TypeMismatch),
        (_, Datum::Bytes(_)) => Err(EvalErrorKind::TypeMismatch),
        (Datum::Null, _) => Ok(Datum::Null),
        (_, Datum::Null) => Ok(Datum::Null),
        (Datum::Int(a), Datum::Int(b)) => {
            let unsigned = matches!(ls, IntSign::Unsigned) || matches!(rs, IntSign::Unsigned);
            match op {
                ArithOp::Plus => {
                    let v = int_val128(*a, ls) + int_val128(*b, rs);
                    fit_from_i128(v, unsigned)
                }
                ArithOp::Minus => {
                    let v = int_val128(*a, ls) - int_val128(*b, rs);
                    fit_from_i128(v, unsigned)
                }
                ArithOp::Multiply => {
                    let (ln, lm) = int_mag(*a, ls);
                    let (rn, rm) = int_mag(*b, rs);
                    proof {
                        assert((lm as int) * (rm as int) < 0x100000000000000000000000000000000)
                            by (nonlinear_arith)
                            requires
                                lm as int <= 0xffffffffffffffff,
                                rm as int <= 0xffffffffffffffff,
                        ;
                    }
                    let p: u128 = (lm as u128) * (rm as u128);
                    let neg = (ln != rn) && p > 0;
                    proof {
                        let x = int_of(*a, ls);
                        let y = int_of(*b, rs);
                        assert(p as int == abs_int(x) * abs_int(y));
                        assert(x * y == if (x < 0) == (y < 0) {
                            abs_int(x) * abs_int(y)
                        } else {
                            -(abs_int(x) * abs_int(y))
                        }) by (nonlinear_arith);
                        assert(abs_int(x) * abs_int(y) >= 0) by (nonlinear_arith);
                    }
                    if neg {
                        if p > 0x8000000000000000u128 {
                            Err(EvalErrorKind::Overflow)
                        } else {
                            fit_from_i128(-(p as i128), unsigned)
                        }
                    } else {
                        if p >= 0x10000000000000000u128 {
                            Err(EvalErrorKind::Overflow)
                        } else {
                            fit_from_i128(p as i128, unsigned)
                        }
                    }
                }
                ArithOp::Mod => {
                    let (ln, lm) = int_mag(*a, ls);
                    let (_rn, rm) = int_mag(*b, rs);
                    if rm == 0 {
                        note_division_by_zero(ctx);
                        Ok(Datum::Null)
                    } else {
                        let m = lm % rm;
                        let v: i128 = if ln {
                            -(m as i128)
                        } else {
                            m as i128
                        };
                        proof {
                            let x = int_of(*a, ls);
                            let y = int_of(*b, rs);
                            assert(m as int == abs_int(x) % abs_int(y));
                            assert(v as int == trunc_mod(x, y));
                            assert(m <= lm) by {
                                if lm < rm {
                                    vstd::arithmetic::div_mod::lemma_small_mod(
                                        lm as nat,
                                        rm as nat,
                                    );
                                } else {
                                    assert(m < rm);
                                }
                            }
                            if ln {
                                // a negative reading only arises under the signed family
                                assert(ls == IntSign::Signed);
                                assert(lm as int <= 0x8000000000000000);
                            }
                        }
                        Ok(Datum::Int(wrap_from_i128(v)))
                    }
                }
            }
        }
    }
}

/// Integer division truncating toward zero; notes a warning on a division by
/// zero, which yields null.
fn apply_int_divide(
    ctx: &mut EvalContext,
    l: &Datum,
    r: &Datum,
    ls: IntSign,
    rs: IntSign,
) -> (res: Result<Datum, EvalErrorKind>)
    ensures
        res_matches(res, spec_int_divide(dview(*l), dview(*r), ls, rs)),
        final(ctx).cfg == old(ctx).cfg,
        old(ctx).warnings@.is_prefix_of(final(ctx).warnings@),
        final(ctx).warning_cnt >= old(ctx).warning_cnt,
{
    match (l, r) {
        (Datum::Bytes(_), _) => Err(EvalErrorKind::TypeMismatch),
        (_, Datum::Bytes(_)) => Err(EvalErrorKind::TypeMismatch),
        (Datum::Null, _) => Ok(Datum::Null),
        (_, Datum::Null) => Ok(Datum::Null),
        (Datum::Int(a), Datum::Int(b)) => {
            let unsigned = matches!(ls, IntSign::Unsigned) || matches!(rs, IntSign::Unsigned);
            let (ln, lm) = int_mag(*a, ls);
            let (rn, rm) = int_mag(*b, rs);
            if rm == 0 {
                note_division_by_zero(ctx);
                return Ok(Datum::Null);
            }
            let q = lm / rm;
            let v: i128 = if ln != rn {
                -(q as i128)
            } else {
                q as i128
            };
            proof {
                let x = int_of(*a, ls);
                let y = int_of(*b, rs);
                assert(q as int == abs_int(x) / abs_int(y));
                assert(v as int == trunc_div(x, y));
            }
            fit_from_i128(v, unsigned)
        }
    }
}

/// Notes a division-by-zero warning.
fn note_division_by_zero(ctx: &mut EvalContext)
    ensures
        final(ctx).cfg == old(ctx).cfg,
        old(ctx).warnings@.is_prefix_of(final(ctx).warnings@),
        final(ctx).warning_cnt >= old(ctx).warning_cnt,
{
    ctx.append_warning(Warning::DivisionByZero);
}

/// Prefix-of is transitive.
pub proof fn lemma_prefix_trans(a: Seq<Warning>, b: Seq<Warning>, c: Seq<Warning>)
    requires
        a.is_prefix_of(b),
        b.is_prefix_of(c),
    ensures
        a.is_prefix_of(c),
{
    assert(a =~= c.take(a.len() as int));
}

/// Whether a datum is true as a condition; byte strings cannot be one.
pub fn datum_truthy(d: &Datum) -> (r: Result<bool, EvalErrorKind>)
    ensures
        spec_condition_ok(dview(*d)) ==> r == Ok::<bool, EvalErrorKind>(spec_truthy(dview(*d))),
        !spec_condition_ok(dview(*d)) ==> r == Err::<bool, EvalErrorKind>(
            EvalErrorKind::TypeMismatch,
        ),
{
    match d {
        Datum::Null => Ok(false),
        Datum::Int(i) => Ok(*i != 0),
        Datum::Bytes(_) => Err(EvalErrorKind::TypeMismatch),
    }
}

/// The first non-null argument, or null.
fn apply_coalesce(args: &Vec<Datum>) -> (res: Datum)
    ensures
        dview(res) == spec_coalesce(row_view(args@)),
{
    let ghost vs = row_view(args@);
    let mut i: usize = 0;
    proof {
        assert(vs.skip(0) =~= vs);
    }
    while i < args.len()
        invariant
            i <= args@.len(),
            vs == row_view(args@),
            spec_coalesce(vs) == spec_coalesce(vs.skip(i as int)),
            forall|j: int| 0 <= j < i ==> vs[j] is Null,
        decreases args@.len() - i,
    {
        let keep = match &args[i] {
            Datum::Null => false,
            _ => true,
        };
        proof {
            assert(vs.skip(i as int)[0] == vs[i as int]);
            assert(vs.skip(i as int).drop_first() =~= vs.skip(i + 1));
        }
        if keep {
            return args[i].deep_clone();
        }
        i = i + 1;
    }
    proof {
        assert(vs.skip(i as int).len() == 0);
    }
    Datum::Null
}

/// Case-when over (condition, value) pairs with an optional trailing
/// else-value.
fn apply_case_when(args: &Vec<Datum>) -> (res: Result<Datum, EvalErrorKind>)
    ensures
        res_matches(res, spec_case_when(row_view(args@))),
{
    let ghost vs = row_view(args@);
    let mut i: usize = 0;
    proof {
        assert(vs.skip(0) =~= vs);
    }
    loop
        invariant
            i <= args@.len(),
            i % 2 == 0,
            vs == row_view(args@),
            spec_case_when(vs) == spec_case_when(vs.skip(i as int)),
        decreases args@.len() - i,
    {
        let ghost tail = vs.skip(i as int);
        if i == args.len() {
            return Ok(Datum::Null);
        }
        if i + 1 == args.len() {
            proof {
                assert(tail.len() == 1);
                assert(tail[0] == vs[i as int]);
            }
            return Ok(args[i].deep_clone());
        }
        proof {
            assert(tail.len() >= 2);
            assert(tail[0] == vs[i as int]);
            assert(tail[1] == vs[i + 1]);
            assert(tail.skip(2) =~= vs.skip(i + 2));
        }
        match datum_truthy(&args[i]) {
            Err(k) => {
                return Err(k);
            }
            Ok(true) => {
                return Ok(args[i + 1].deep_clone());
            }
            Ok(false) => {
                i = i + 2;
            }
        }
    }
}

/// Membership of the first argument in the rest.
fn apply_in(args: &Vec<Datum>) -> (res: Result<Datum, EvalErrorKind>)
    ensures
        res_matches(res, spec_in(row_view(args@))),
{
    let ghost vs = row_view(args@);
    if args.len() < 1 {
        return Err(EvalErrorKind::TypeMismatch);
    }
    let is_null_target = match &args[0] {
        Datum::Null => true,
        _ => false,
    };
    if is_null_target {
        return Ok(Datum::Null);
    }
    let mut found = false;
    let mut saw_null = false;
    let mut j: usize = 1;
    while j < args.len()
        invariant
            1 <= j <= args@.len(),
            vs == row_view(args@),
            !(vs[0] is Null),
            found == exists|k: int| 1 <= k < j && #[trigger] vs[k] == vs[0],
            saw_null == exists|k: int| 1 <= k < j && #[trigger] vs[k] is Null,
        decreases args@.len() - j,
    {
        let is_null_elem = match &args[j] {
            Datum::Null => true,
            _ => false,
        };
        if is_null_elem {
            saw_null = true;
            proof {
                assert(vs[j as int] is Null);
            }
        } else if args[j].equals(&args[0]) {
            found = true;
            proof {
                assert(vs[j as int] == vs[0]);
            }
        }
        j = j + 1;
    }
    let ghost rest = vs.drop_first();
    proof {
        assert(rest.len() == vs.len() - 1);
        if exists|k: int| 0 <= k < rest.len() && rest[k] == vs[0] {
            let k = choose|k: int| 0 <= k < rest.len() && rest[k] == vs[0];
            assert(vs[k + 1] == vs[0]);
            assert(found);
        }
        if found {
            let k = choose|k: int| 1 <= k < vs.len() && #[trigger] vs[k] == vs[0];
            assert(rest[k - 1] == vs[0]);
        }
        if exists|k: int| 0 <= k < rest.len() && rest[k] is Null {
            let k = choose|k: int| 0 <= k < rest.len() && rest[k] is Null;
            assert(vs[k + 1] is Null);
            assert(saw_null);
        }
        if saw_null {
            let k = choose|k: int| 1 <= k < vs.len() && #[trigger] vs[k] is Null;
            assert(rest[k - 1] is Null);
        }
    }
    if found {
        Ok(Datum::Int(1))
    } else if saw_null {
        Ok(Datum::Null)
    } else {
        Ok(Datum::Int(0))
    }
}

/// A bitwise operation over 64-bit patterns.
fn apply_bit_binary(l: &Datum, r: &Datum, k: BitOpKind) -> (res: Result<Datum, EvalErrorKind>)
    ensures
        res_matches(res, spec_bit_binary(dview(*l), dview(*r), k)),
{
    match (l, r) {
        (Datum::Bytes(_), _) => Err(EvalErrorKind::TypeMismatch),
        (_, Datum::Bytes(_)) => Err(EvalErrorKind::TypeMismatch),
        (Datum::Null, _) => Ok(Datum::Null),
        (_, Datum::Null) => Ok(Datum::Null),
        (Datum::Int(a), Datum::Int(b)) => {
            let out: i64 = match k {
                BitOpKind::And => *a & *b,
                BitOpKind::Or => *a | *b,
                BitOpKind::Xor => *a ^ *b,
                BitOpKind::Shl => shift_left_exec(*a, *b),
                BitOpKind::Shr => shift_right_exec(*a, *b),
            };
            Ok(Datum::Int(out))
        }
    }
}

/// The 64-bit pattern of a value read as unsigned.
pub fn u64_of_exec(i: i64) -> (r: u64)
    ensures
        r == u64_of(i),
        r as int == int_of(i, IntSign::Unsigned),
{
    let v = int_val128(i, IntSign::Unsigned);
    v as u64
}

/// Packs a 64-bit unsigned pattern back into the signed carrier.
pub fn wrap_from_u64(u: u64) -> (r: i64)
    ensures
        r == wrap_repr(u as int),
{
    wrap_from_i128(u as i128)
}

fn shift_left_exec(a: i64, b: i64) -> (r: i64)
    ensures
        r == spec_shift_left(a, b),
{
    let sh = int_val128(b, IntSign::Unsigned);
    if sh >= 64 {
        0
    } else {
        let ua = u64_of_exec(a);
        let amount = sh as u64;
        proof {
            assert(amount == b as u64);
        }
        wrap_from_u64(ua << amount)
    }
}

fn shift_right_exec(a: i64, b: i64) -> (r: i64)
    ensures
        r == spec_shift_right(a, b),
{
    let sh = int_val128(b, IntSign::Unsigned);
    if sh >= 64 {
        0
    } else {
        let ua = u64_of_exec(a);
        let amount = sh as u64;
        proof {
            assert(amount == b as u64);
        }
        wrap_from_u64(ua >> amount)
    }
}

/// The signedness an expression's declared field type gives it.
fn sign_of(ft: &FieldType) -> (r: IntSign)
    ensures
        r == crate::registry::spec_sign(*ft),
{
    if ft.unsigned {
        IntSign::Unsigned
    } else {
        IntSign::Signed
    }
}

/// Applies the routine of a signature to evaluated argument values.
#[verifier::rlimit(100)]
fn apply_call(
    ctx: &mut EvalContext,
    sig: ScalarFuncSig,
    children: &Vec<Expr>,
    args: &Vec<Datum>,
) -> (res: Result<Datum, EvalErrorKind>)
    ensures
        res_matches(res, spec_apply(sig, fts_of(children@), row_view(args@))),
        final(ctx).cfg == old(ctx).cfg,
        old(ctx).warnings@.is_prefix_of(final(ctx).warnings@),
        final(ctx).warning_cnt >= old(ctx).warning_cnt,
{
    let ghost vs = row_view(args@);
    let ghost fts = fts_of(children@);
    proof {
        assert(vs.len() == args@.len());
        assert(fts.len() == children@.len());
    }
    match sig {
        ScalarFuncSig::LTInt | ScalarFuncSig::LEInt | ScalarFuncSig::GTInt | ScalarFuncSig::GEInt
            | ScalarFuncSig::NEInt | ScalarFuncSig::EQInt | ScalarFuncSig::NullEQInt => {
            if args.len() != 2 || children.len() != 2 {
                return Err(EvalErrorKind::TypeMismatch);
            }
            let op = match sig {
                ScalarFuncSig::LTInt => CmpOp::LT,
                ScalarFuncSig::LEInt => CmpOp::LE,
                ScalarFuncSig::GTInt => CmpOp::GT,
                ScalarFuncSig::GEInt => CmpOp::GE,
                ScalarFuncSig::NEInt => CmpOp::NE,
                ScalarFuncSig::EQInt => CmpOp::EQ,
                _ => CmpOp::NullEQ,
            };
            let ls = sign_of(&children[0].field_type);
            let rs = sign_of(&children[1].field_type);
            apply_cmp_int(op, &args[0], &args[1], ls, rs)
        },
        ScalarFuncSig::LTString | ScalarFuncSig::LEString | ScalarFuncSig::GTString
            | ScalarFuncSig::GEString | ScalarFuncSig::NEString | ScalarFuncSig::EQString
            | ScalarFuncSig::NullEQString => {
            if args.len() != 2 {
                return Err(EvalErrorKind::TypeMismatch);
            }
            let op = match sig {
                ScalarFuncSig::LTString => CmpOp::LT,
                ScalarFuncSig::LEString => CmpOp::LE,
                ScalarFuncSig::GTString => CmpOp::GT,
                ScalarFuncSig::GEString => CmpOp::GE,
                ScalarFuncSig::NEString => CmpOp::NE,
                ScalarFuncSig::EQString => CmpOp::EQ,
                _ => CmpOp::NullEQ,
            };
            apply_cmp_bytes(op, &args[0], &args[1])
        },
        ScalarFuncSig::IntIsNull | ScalarFuncSig::RealIsNull | ScalarFuncSig::DecimalIsNull
            | ScalarFuncSig::StringIsNull | ScalarFuncSig::TimeIsNull
            | ScalarFuncSig::DurationIsNull | ScalarFuncSig::JsonIsNull => {
            if args.len() != 1 {
                return Err(EvalErrorKind::TypeMismatch);
            }
            let isn = match &args[0] {
                Datum::Null => true,
                _ => false,
            };
            Ok(Datum::Int(if isn { 1 } else { 0 }))
        },
        ScalarFuncSig::IntIsTrue => {
            if args.len() != 1 {
                return Err(EvalErrorKind::TypeMismatch);
            }
            match &args[0] {
                Datum::Null => Ok(Datum::Int(0)),
                Datum::Int(i) => Ok(Datum::Int(if *i != 0 { 1 } else { 0 })),
                Datum::Bytes(_) => Err(EvalErrorKind::TypeMismatch),
            }
        },
        ScalarFuncSig::IntIsFalse => {
            if args.len() != 1 {
                return Err(EvalErrorKind::TypeMismatch);
            }
            match &args[0] {
                Datum::Null => Ok(Datum::Int(0)),
                Datum::Int(i) => Ok(Datum::Int(if *i == 0 { 1 } else { 0 })),
                Datum::Bytes(_) => Err(EvalErrorKind::TypeMismatch),
            }
        },
        ScalarFuncSig::LogicalAnd => {
            if args.len() != 2 {
                return Err(EvalErrorKind::TypeMismatch);
            }
            match (&args[0], &args[1]) {
                (Datum::Bytes(_), _) => Err(EvalErrorKind::TypeMismatch),
                (_, Datum::Bytes(_)) => Err(EvalErrorKind::TypeMismatch),
                (Datum::Int(a), _) if *a == 0 => Ok(Datum::Int(0)),
                (_, Datum::Int(b)) if *b == 0 => Ok(Datum::Int(0)),
                (Datum::Null, _) => Ok(Datum::Null),
                (_, Datum::Null) => Ok(Datum::Null),
                _ => Ok(Datum::Int(1)),
            }
        },
        ScalarFuncSig::LogicalOr => {
            if args.len() != 2 {
                return Err(EvalErrorKind::TypeMismatch);
            }
            match (&args[0], &args[1]) {
                (Datum::Bytes(_), _) => Err(EvalErrorKind::TypeMismatch),
                (_, Datum::Bytes(_)) => Err(EvalErrorKind::TypeMismatch),
                (Datum::Int(a), _) if *a != 0 => Ok(Datum::Int(1)),
                (_, Datum::Int(b)) if *b != 0 => Ok(Datum::Int(1)),
                (Datum::Null, _) => Ok(Datum::Null),
                (_, Datum::Null) => Ok(Datum::Null),
                _ => Ok(Datum::Int(0)),
            }
        },
        ScalarFuncSig::UnaryNotInt | ScalarFuncSig::UnaryNotDecimal
            | ScalarFuncSig::UnaryNotReal => {
            if args.len() != 1 {
                return Err(EvalErrorKind::TypeMismatch);
            }
            match &args[0] {
                Datum::Null => Ok(Datum::Null),
                Datum::Int(i) => Ok(Datum::Int(if *i == 0 { 1 } else { 0 })),
                Datum::Bytes(_) => Err(EvalErrorKind::TypeMismatch),
            }
        },
        ScalarFuncSig::PlusInt | ScalarFuncSig::MinusInt | ScalarFuncSig::MultiplyInt
            | ScalarFuncSig::ModInt => {
            if args.len() != 2 || children.len() != 2 {
                return Err(EvalErrorKind::TypeMismatch);
            }
            let op = match sig {
                ScalarFuncSig::PlusInt => ArithOp::Plus,
                ScalarFuncSig::MinusInt => ArithOp::Minus,
                ScalarFuncSig::MultiplyInt => ArithOp::Multiply,
                _ => ArithOp::Mod,
            };
            let ls = sign_of(&children[0].field_type);
            let rs = sign_of(&children[1].field_type);
            apply_arith_int(ctx, op, &args[0], &args[1], ls, rs)
        },
        ScalarFuncSig::MultiplyIntUnsigned => {
            if args.len() != 2 {
                return Err(EvalErrorKind::TypeMismatch);
            }
            apply_arith_int(
                ctx,
                ArithOp::Multiply,
                &args[0],
                &args[1],
                IntSign::Unsigned,
                IntSign::Unsigned,
            )
        },
        ScalarFuncSig::IntDivideInt => {
            if args.len() != 2 || children.len() != 2 {
                return Err(EvalErrorKind::TypeMismatch);
            }
            let ls = sign_of(&children[0].field_type);
            let rs = sign_of(&children[1].field_type);
            apply_int_divide(ctx, &args[0], &args[1], ls, rs)
        },
        ScalarFuncSig::AbsInt => {
            if args.len() != 1 {
                return Err(EvalErrorKind::TypeMismatch);
            }
            match &args[0] {
                Datum::Null => Ok(Datum::Null),
                Datum::Int(i) => {
                    if *i == i64::MIN {
                        Err(EvalErrorKind::Overflow)
                    } else if *i < 0 {
                        Ok(Datum::Int(-*i))
                    } else {
                        Ok(Datum::Int(*i))
                    }
                }
                Datum::Bytes(_) => Err(EvalErrorKind::TypeMismatch),
            }
        },
        ScalarFuncSig::AbsUInt => {
            if args.len() != 1 {
                return Err(EvalErrorKind::TypeMismatch);
            }
            match &args[0] {
                Datum::Null => Ok(Datum::Null),
                Datum::Int(i) => Ok(Datum::Int(*i)),
                Datum::Bytes(_) => Err(EvalErrorKind::TypeMismatch),
            }
        },
        ScalarFuncSig::IfNullInt | ScalarFuncSig::IfNullReal | ScalarFuncSig::IfNullString
            | ScalarFuncSig::IfNullDecimal | ScalarFuncSig::IfNullTime
            | ScalarFuncSig::IfNullDuration | ScalarFuncSig::IfNullJson => {
            if args.len() != 2 {
                return Err(EvalErrorKind::TypeMismatch);
            }
            let first_null = match &args[0] {
                Datum::Null => true,
                _ => false,
            };
            if !first_null {
                Ok(args[0].deep_clone())
            } else {
                Ok(args[1].deep_clone())
            }
        },
        ScalarFuncSig::CoalesceInt | ScalarFuncSig::CoalesceReal | ScalarFuncSig::CoalesceString
            | ScalarFuncSig::CoalesceDecimal | ScalarFuncSig::CoalesceTime
            | ScalarFuncSig::CoalesceDuration | ScalarFuncSig::CoalesceJson => {
            Ok(apply_coalesce(args))
        },
        ScalarFuncSig::CaseWhenInt | ScalarFuncSig::CaseWhenReal | ScalarFuncSig::CaseWhenString
            | ScalarFuncSig::CaseWhenDecimal | ScalarFuncSig::CaseWhenTime
            | ScalarFuncSig::CaseWhenDuration | ScalarFuncSig::CaseWhenJson => {
            apply_case_when(args)
        },
        ScalarFuncSig::IfInt | ScalarFuncSig::IfReal | ScalarFuncSig::IfString
            | ScalarFuncSig::IfDecimal | ScalarFuncSig::IfTime | ScalarFuncSig::IfDuration
            | ScalarFuncSig::IfJson => {
            if args.len() != 3 {
                return Err(EvalErrorKind::TypeMismatch);
            }
            match datum_truthy(&args[0]) {
                Err(k) => Err(k),
                Ok(true) => Ok(args[1].deep_clone()),
                Ok(false) => Ok(args[2].deep_clone()),
            }
        },
        ScalarFuncSig::InInt | ScalarFuncSig::InReal | ScalarFuncSig::InString
            | ScalarFuncSig::InDecimal | ScalarFuncSig::InTime | ScalarFuncSig::InDuration
            | ScalarFuncSig::InJson => {
            apply_in(args)
        },
        ScalarFuncSig::BitAndSig => {
            if args.len() != 2 {
                return Err(EvalErrorKind::TypeMismatch);
            }
            apply_bit_binary(&args[0], &args[1], BitOpKind::And)
        },
        ScalarFuncSig::BitOrSig => {
            if args.len() != 2 {
                return Err(EvalErrorKind::TypeMismatch);
            }
            apply_bit_binary(&args[0], &args[1], BitOpKind::Or)
        },
        ScalarFuncSig::BitXorSig => {
            if args.len() != 2 {
                return Err(EvalErrorKind::TypeMismatch);
            }
            apply_bit_binary(&args[0], &args[1], BitOpKind::Xor)
        },
        ScalarFuncSig::BitNegSig => {
            if args.len() != 1 {
                return Err(EvalErrorKind::TypeMismatch);
            }
            match &args[0] {
                Datum::Null => Ok(Datum::Null),
                Datum::Int(i) => Ok(Datum::Int(!*i)),
                Datum::Bytes(_) => Err(EvalErrorKind::TypeMismatch),
            }
        },
        ScalarFuncSig::LeftShiftSig => {
            if args.len() != 2 {
                return Err(EvalErrorKind::TypeMismatch);
            }
            apply_bit_binary(&args[0], &args[1], BitOpKind::Shl)
        },
        ScalarFuncSig::RightShiftSig => {
            if args.len() != 2 {
                return Err(EvalErrorKind::TypeMismatch);
            }
            apply_bit_binary(&args[0], &args[1], BitOpKind::Shr)
        },
        _ => Err(EvalErrorKind::UnsupportedRoutine),
    }
}

/// Evaluates an expression over a row: the executable counterpart of
/// `spec_eval`. Warnings are appended to the context; its configuration is
/// untouched.
#[verifier::loop_isolation(false)]
pub fn eval_expr(ctx: &mut EvalContext, e: &Expr, row: &Row) -> (r: Result<Datum, EvalErrorKind>)
    ensures
        res_matches(r, spec_eval(*e, row_view(row@))),
        final(ctx).cfg == old(ctx).cfg,
        old(ctx).warnings@.is_prefix_of(final(ctx).warnings@),
        final(ctx).warning_cnt >= old(ctx).warning_cnt,
    decreases e,
{
    let ghost rv = row_view(row@);
    match &e.op {
        ExprOp::Constant(d) => Ok(d.deep_clone()),
        ExprOp::ColumnRef(i) => {
            if *i < row.len() {
                proof {
                    assert(rv[*i as int] == dview(row@[*i as int]));
                }
                Ok(row[*i].deep_clone())
            } else {
                Err(EvalErrorKind::ColumnOffset)
            }
        }
        ExprOp::ScalarFunc(sig) => {
            let mut args: Vec<Datum> = Vec::new();
            let mut i: usize = 0;
            proof {
                assert(e.children@.skip(0) =~= e.children@);
            }
            while i < e.children.len()
                invariant
                    i <= e.children@.len(),
                    rv == row_view(row@),
                    args@.len() == i,
                    ctx.cfg == old(ctx).cfg,
                    old(ctx).warnings@.is_prefix_of(ctx.warnings@),
                    ctx.warning_cnt >= old(ctx).warning_cnt,
                    spec_eval_args(e.children@, rv) == (match spec_eval_args(
                        e.children@.skip(i as int),
                        rv,
                    ) {
                        Ok(rest) => Ok::<Seq<DatumV>, EvalErrorKind>(row_view(args@) + rest),
                        Err(k) => Err::<Seq<DatumV>, EvalErrorKind>(k),
                    }),
                decreases e.children@.len() - i,
            {
                let ghost tail = e.children@.skip(i as int);
                let ghost ctx_mid = *ctx;
                let sub = eval_expr(ctx, &e.children[i], row);
                proof {
                    lemma_prefix_trans(old(ctx).warnings@, ctx_mid.warnings@, ctx.warnings@);
                    assert(tail[0] == e.children@[i as int]);
                    assert(tail.drop_first() =~= e.children@.skip(i + 1));
                }
                match sub {
                    Err(k) => {
                        proof {
                            assert(spec_eval_args(tail, rv) == Err::<Seq<DatumV>, EvalErrorKind>(
                                k,
                            ));
                        }
                        return Err(k);
                    }
                    Ok(v) => {
                        let ghost old_args = args@;
                        args.push(v);
                        proof {
                            assert(row_view(args@) =~= row_view(old_args).push(
                                dview(args@[i as int]),
                            ));
                            if spec_eval_args(e.children@.skip(i + 1), rv) is Ok {
                                let rest = spec_eval_args(
                                    e.children@.skip(i + 1),
                                    rv,
                                )->Ok_0;
                                assert(row_view(old_args) + (seq![
                                    dview(args@[i as int]),
                                ] + rest) =~= row_view(args@) + rest);
                            }
                        }
                    }
                }
                i = i + 1;
            }
            proof {
                assert(e.children@.skip(i as int).len() == 0);
                assert(spec_eval_args(e.children@, rv) == Ok::<Seq<DatumV>, EvalErrorKind>(
                    row_view(args@) + Seq::empty(),
                ));
                assert(row_view(args@) + Seq::<DatumV>::empty() =~= row_view(args@));
            }
            let ghost ctx_mid2 = *ctx;
            let r = apply_call(ctx, *sig, &e.children, &args);
            proof {
                lemma_prefix_trans(old(ctx).warnings@, ctx_mid2.warnings@, ctx.warnings@);
            }
            r
        }
    }
}

} // verus!
