use copr_dag::errors::{BuildErrorKind, EvalErrorKind, Warning};
use copr_dag::eval::{eval_expr, EvalConfig, EvalContext};
use copr_dag::expr::{Expr, ScalarFuncSig};
use copr_dag::registry::{
    map_pb_sig_to_rpn_func, ArithOp, CmpOp, EvalType, IntSign, RpnFnMeta,
};
use copr_dag::value::Datum;

fn signed_child() -> Expr {
    Expr::column(0)
}

fn unsigned_child() -> Expr {
    Expr::column(0).unsigned()
}

fn ctx() -> EvalContext {
    EvalContext::new(EvalConfig { max_warning_cnt: 64 })
}

fn eval(e: &Expr, row: Vec<Datum>) -> Result<Datum, EvalErrorKind> {
    let mut c = ctx();
    eval_expr(&mut c, e, &row)
}

#[test]
fn int_comparison_dispatch_is_signedness_specialized() {
    let combos = [
        (signed_child(), signed_child()),
        (signed_child(), unsigned_child()),
        (unsigned_child(), signed_child()),
        (unsigned_child(), unsigned_child()),
    ];
    let mut seen: Vec<RpnFnMeta> = Vec::new();
    for (l, r) in combos {
        let meta = map_pb_sig_to_rpn_func(ScalarFuncSig::LTInt, &vec![l, r]).unwrap();
        assert!(!seen.contains(&meta), "routine reused across signedness");
        seen.push(meta);
    }
    assert_eq!(
        seen[0],
        RpnFnMeta::CompareInt(IntSign::Signed, IntSign::Signed, CmpOp::LT)
    );
    assert_eq!(
        seen[3],
        RpnFnMeta::CompareInt(IntSign::Unsigned, IntSign::Unsigned, CmpOp::LT)
    );
}

#[test]
fn int_arithmetic_dispatch_is_signedness_specialized() {
    for (sig, op) in [
        (ScalarFuncSig::PlusInt, ArithOp::Plus),
        (ScalarFuncSig::MinusInt, ArithOp::Minus),
        (ScalarFuncSig::MultiplyInt, ArithOp::Multiply),
        (ScalarFuncSig::ModInt, ArithOp::Mod),
    ] {
        let ss = map_pb_sig_to_rpn_func(sig, &vec![signed_child(), signed_child()]).unwrap();
        let su = map_pb_sig_to_rpn_func(sig, &vec![signed_child(), unsigned_child()]).unwrap();
        let us = map_pb_sig_to_rpn_func(sig, &vec![unsigned_child(), signed_child()]).unwrap();
        let uu = map_pb_sig_to_rpn_func(sig, &vec![unsigned_child(), unsigned_child()]).unwrap();
        assert_eq!(ss, RpnFnMeta::ArithmeticInt(IntSign::Signed, IntSign::Signed, op));
        assert_eq!(su, RpnFnMeta::ArithmeticInt(IntSign::Signed, IntSign::Unsigned, op));
        assert_eq!(us, RpnFnMeta::ArithmeticInt(IntSign::Unsigned, IntSign::Signed, op));
        assert_eq!(uu, RpnFnMeta::ArithmeticInt(IntSign::Unsigned, IntSign::Unsigned, op));
    }
}

#[test]
fn int_dispatch_rejects_wrong_arity() {
    let r = map_pb_sig_to_rpn_func(ScalarFuncSig::LTInt, &vec![signed_child()]);
    assert_eq!(r.err().unwrap(), BuildErrorKind::SignatureArity);
    let r = map_pb_sig_to_rpn_func(
        ScalarFuncSig::PlusInt,
        &vec![signed_child(), signed_child(), signed_child()],
    );
    assert_eq!(r.err().unwrap(), BuildErrorKind::SignatureArity);
}

#[test]
fn non_integer_signatures_map_directly() {
    let empty: Vec<Expr> = vec![];
    assert_eq!(
        map_pb_sig_to_rpn_func(ScalarFuncSig::LTReal, &empty).unwrap(),
        RpnFnMeta::Compare(EvalType::Real, CmpOp::LT)
    );
    assert_eq!(
        map_pb_sig_to_rpn_func(ScalarFuncSig::EQString, &empty).unwrap(),
        RpnFnMeta::Compare(EvalType::Bytes, CmpOp::EQ)
    );
    assert_eq!(
        map_pb_sig_to_rpn_func(ScalarFuncSig::IntIsNull, &empty).unwrap(),
        RpnFnMeta::IsNull(EvalType::Int)
    );
    assert_eq!(
        map_pb_sig_to_rpn_func(ScalarFuncSig::MultiplyIntUnsigned, &empty).unwrap(),
        RpnFnMeta::ArithmeticInt(IntSign::Unsigned, IntSign::Unsigned, ArithOp::Multiply)
    );
    assert_eq!(
        map_pb_sig_to_rpn_func(ScalarFuncSig::CoalesceJson, &empty).unwrap(),
        RpnFnMeta::Coalesce(EvalType::Json)
    );
    // signatures outside the table are reported, not panicked on
    assert_eq!(
        map_pb_sig_to_rpn_func(ScalarFuncSig::BitAndSig, &empty).err().unwrap(),
        BuildErrorKind::SignatureUnknown
    );
}

#[test]
fn mixed_signedness_comparison_promotes_correctly() {
    // the same bit pattern -1 reads as the largest unsigned value
    let lt_ss = Expr::call(
        ScalarFuncSig::LTInt,
        vec![signed_child(), Expr::constant(Datum::Int(0))],
    );
    assert_eq!(eval(&lt_ss, vec![Datum::Int(-1)]).unwrap(), Datum::Int(1));

    let lt_us = Expr::call(
        ScalarFuncSig::LTInt,
        vec![unsigned_child(), Expr::constant(Datum::Int(0))],
    );
    assert_eq!(eval(&lt_us, vec![Datum::Int(-1)]).unwrap(), Datum::Int(0));

    // signed negative always precedes any unsigned value
    let lt_su = Expr::call(
        ScalarFuncSig::LTInt,
        vec![signed_child(), Expr::constant(Datum::Int(-1)).unsigned()],
    );
    assert_eq!(eval(&lt_su, vec![Datum::Int(-5)]).unwrap(), Datum::Int(1));
}

#[test]
fn arithmetic_overflow_is_an_error() {
    let plus = Expr::call(
        ScalarFuncSig::PlusInt,
        vec![signed_child(), Expr::constant(Datum::Int(1))],
    );
    assert_eq!(
        eval(&plus, vec![Datum::Int(i64::MAX)]).err().unwrap(),
        EvalErrorKind::Overflow
    );
    // the same sum fits in the unsigned family
    let plus_u = Expr::call(
        ScalarFuncSig::PlusInt,
        vec![unsigned_child(), Expr::constant(Datum::Int(1))],
    );
    assert_eq!(
        eval(&plus_u, vec![Datum::Int(i64::MAX)]).unwrap(),
        Datum::Int(i64::MIN)
    );
    let mul = Expr::call(
        ScalarFuncSig::MultiplyInt,
        vec![unsigned_child(), Expr::constant(Datum::Int(2)).unsigned()],
    );
    assert_eq!(
        eval(&mul, vec![Datum::Int(-1)]).err().unwrap(),
        EvalErrorKind::Overflow
    );
}

#[test]
fn exact_arithmetic_values() {
    let plus = Expr::call(
        ScalarFuncSig::PlusInt,
        vec![signed_child(), Expr::constant(Datum::Int(30))],
    );
    assert_eq!(eval(&plus, vec![Datum::Int(12)]).unwrap(), Datum::Int(42));
    let modulo = Expr::call(
        ScalarFuncSig::ModInt,
        vec![signed_child(), Expr::constant(Datum::Int(4))],
    );
    assert_eq!(eval(&modulo, vec![Datum::Int(-10)]).unwrap(), Datum::Int(-2));
    let div = Expr::call(
        ScalarFuncSig::IntDivideInt,
        vec![signed_child(), Expr::constant(Datum::Int(4))],
    );
    assert_eq!(eval(&div, vec![Datum::Int(-10)]).unwrap(), Datum::Int(-2));
}

#[test]
fn division_by_zero_yields_null_and_a_warning() {
    let modulo = Expr::call(
        ScalarFuncSig::ModInt,
        vec![signed_child(), Expr::constant(Datum::Int(0))],
    );
    let mut c = ctx();
    let r = eval_expr(&mut c, &modulo, &vec![Datum::Int(7)]).unwrap();
    assert_eq!(r, Datum::Null);
    assert_eq!(c.warning_cnt, 1);
    assert_eq!(c.warnings, vec![Warning::DivisionByZero]);
}

#[test]
fn warnings_count_past_the_storage_cap() {
    let mut c = EvalContext::new(EvalConfig { max_warning_cnt: 2 });
    c.append_warning(Warning::DivisionByZero);
    c.append_warning(Warning::DivisionByZero);
    c.append_warning(Warning::DivisionByZero);
    // stored warnings stop at the cap; the count keeps running
    assert_eq!(c.warnings.len(), 2);
    assert_eq!(c.warning_cnt, 3);
}

#[test]
fn null_logic_three_valued() {
    let and = Expr::call(
        ScalarFuncSig::LogicalAnd,
        vec![Expr::constant(Datum::Null), Expr::constant(Datum::Int(0))],
    );
    assert_eq!(eval(&and, vec![]).unwrap(), Datum::Int(0));
    let and2 = Expr::call(
        ScalarFuncSig::LogicalAnd,
        vec![Expr::constant(Datum::Null), Expr::constant(Datum::Int(1))],
    );
    assert_eq!(eval(&and2, vec![]).unwrap(), Datum::Null);
    let or = Expr::call(
        ScalarFuncSig::LogicalOr,
        vec![Expr::constant(Datum::Null), Expr::constant(Datum::Int(3))],
    );
    assert_eq!(eval(&or, vec![]).unwrap(), Datum::Int(1));
    let null_eq = Expr::call(
        ScalarFuncSig::NullEQInt,
        vec![Expr::constant(Datum::Null), Expr::constant(Datum::Null)],
    );
    assert_eq!(eval(&null_eq, vec![]).unwrap(), Datum::Int(1));
}

#[test]
fn string_comparison_is_lexicographic() {
    let lt = Expr::call(
        ScalarFuncSig::LTString,
        vec![
            Expr::constant(Datum::Bytes(b"abc".to_vec())),
            Expr::constant(Datum::Bytes(b"abd".to_vec())),
        ],
    );
    assert_eq!(eval(&lt, vec![]).unwrap(), Datum::Int(1));
    let lt_prefix = Expr::call(
        ScalarFuncSig::LTString,
        vec![
            Expr::constant(Datum::Bytes(b"ab".to_vec())),
            Expr::constant(Datum::Bytes(b"abc".to_vec())),
        ],
    );
    assert_eq!(eval(&lt_prefix, vec![]).unwrap(), Datum::Int(1));
}

#[test]
fn coalesce_case_when_if_and_in() {
    let coalesce = Expr::call(
        ScalarFuncSig::CoalesceInt,
        vec![
            Expr::constant(Datum::Null),
            Expr::constant(Datum::Int(9)),
            Expr::constant(Datum::Int(4)),
        ],
    );
    assert_eq!(eval(&coalesce, vec![]).unwrap(), Datum::Int(9));
    let case_when = Expr::call(
        ScalarFuncSig::CaseWhenInt,
        vec![
            Expr::constant(Datum::Int(0)),
            Expr::constant(Datum::Int(10)),
            Expr::constant(Datum::Int(1)),
            Expr::constant(Datum::Int(20)),
            Expr::constant(Datum::Int(30)),
        ],
    );
    assert_eq!(eval(&case_when, vec![]).unwrap(), Datum::Int(20));
    let if_cond = Expr::call(
        ScalarFuncSig::IfInt,
        vec![
            Expr::constant(Datum::Null),
            Expr::constant(Datum::Int(10)),
            Expr::constant(Datum::Int(20)),
        ],
    );
    assert_eq!(eval(&if_cond, vec![]).unwrap(), Datum::Int(20));
    let found = Expr::call(
        ScalarFuncSig::InInt,
        vec![
            Expr::constant(Datum::Int(7)),
            Expr::constant(Datum::Int(5)),
            Expr::constant(Datum::Int(7)),
        ],
    );
    assert_eq!(eval(&found, vec![]).unwrap(), Datum::Int(1));
    let with_null = Expr::call(
        ScalarFuncSig::InInt,
        vec![
            Expr::constant(Datum::Int(7)),
            Expr::constant(Datum::Null),
            Expr::constant(Datum::Int(5)),
        ],
    );
    assert_eq!(eval(&with_null, vec![]).unwrap(), Datum::Null);
}

#[test]
fn unsupported_routine_fails_as_data_error() {
    let like = Expr::call(
        ScalarFuncSig::LikeSig,
        vec![
            Expr::constant(Datum::Bytes(b"a".to_vec())),
            Expr::constant(Datum::Bytes(b"a".to_vec())),
        ],
    );
    assert_eq!(
        eval(&like, vec![]).err().unwrap(),
        EvalErrorKind::UnsupportedRoutine
    );
}

#[test]
fn bit_operations_run_on_the_normal_path() {
    let band = Expr::call(
        ScalarFuncSig::BitAndSig,
        vec![Expr::constant(Datum::Int(0b1100)), Expr::constant(Datum::Int(0b1010))],
    );
    assert_eq!(eval(&band, vec![]).unwrap(), Datum::Int(0b1000));
    let shl = Expr::call(
        ScalarFuncSig::LeftShiftSig,
        vec![Expr::constant(Datum::Int(1)), Expr::constant(Datum::Int(70))],
    );
    assert_eq!(eval(&shl, vec![]).unwrap(), Datum::Int(0));
}
