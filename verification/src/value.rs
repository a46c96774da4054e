use vstd::prelude::*;

verus! {

/// A scalar datum flowing through the pipeline. Integer data is stored as the
/// raw 64-bit pattern; whether it is read as signed or unsigned is decided by
/// the declared field type of the expression that produced it.
#[derive(Debug, PartialEq)]
pub enum Datum {
    Null,
    Int(i64),
    Bytes(Vec<u8>),
}

/// One row: a tuple of column data.
pub type Row = Vec<Datum>;

/// The mathematical value of a datum: byte strings as sequences.
pub enum DatumV {
    Null,
    Int(i64),
    Bytes(Seq<u8>),
}

/// The view of a datum.
pub open spec fn dview(d: Datum) -> DatumV {
    match d {
        Datum::Null => DatumV::Null,
        Datum::Int(i) => DatumV::Int(i),
        Datum::Bytes(b) => DatumV::Bytes(b@),
    }
}

/// The view of a row.
pub open spec fn row_view(r: Seq<Datum>) -> Seq<DatumV> {
    r.map_values(|d: Datum| dview(d))
}

/// Deep equality of two data, comparing byte strings by contents.
pub open spec fn datum_eq(a: Datum, b: Datum) -> bool {
    match (a, b) {
        (Datum::Null, Datum::Null) => true,
        (Datum::Int(x), Datum::Int(y)) => x == y,
        (Datum::Bytes(x), Datum::Bytes(y)) => x@ == y@,
        _ => false,
    }
}

/// Deep equality of two rows.
pub open spec fn row_eq(a: Seq<Datum>, b: Seq<Datum>) -> bool {
    a.len() == b.len() && forall|i: int| 0 <= i < a.len() ==> datum_eq(a[i], b[i])
}

impl Datum {
    pub fn deep_clone(&self) -> (r: Datum)
        ensures
            datum_eq(*self, r),
            dview(r) == dview(*self),
    {
        match self {
            Datum::Null => Datum::Null,
            Datum::Int(x) => Datum::Int(*x),
            Datum::Bytes(b) => {
                let mut out: Vec<u8> = Vec::new();
                let mut i: usize = 0;
                while i < b.len()
                    invariant
                        i <= b.len(),
                        out@ == b@.subrange(0, i as int),
                    decreases b.len() - i,
                {
                    out.push(b[i]);
                    i = i + 1;
                }
                proof {
                    assert(out@ == b@);
                }
                Datum::Bytes(out)
            }
        }
    }

    /// Deep equality test, the executable counterpart of `datum_eq`.
    pub fn equals(&self, other: &Datum) -> (r: bool)
        ensures
            r == datum_eq(*self, *other),
            r == (dview(*self) == dview(*other)),
    {
        match (self, other) {
            (Datum::Null, Datum::Null) => true,
            (Datum::Int(x), Datum::Int(y)) => *x == *y,
            (Datum::Bytes(x), Datum::Bytes(y)) => bytes_equal(x, y),
            _ => false,
        }
    }
}

/// Byte-string equality by contents.
pub fn bytes_equal(a: &Vec<u8>, b: &Vec<u8>) -> (r: bool)
    ensures
        r == (a@ == b@),
{
    if a.len() != b.len() {
        proof {
            assert(a@ != b@) by {
                assert(a@.len() != b@.len());
            }
        }
        return false;
    }
    let mut i: usize = 0;
    while i < a.len()
        invariant
            i <= a.len(),
            a.len() == b.len(),
            forall|j: int| 0 <= j < i ==> a@[j] == b@[j],
        decreases a.len() - i,
    {
        if a[i] != b[i] {
            return false;
        }
        i = i + 1;
    }
    proof {
        assert(a@ =~= b@);
    }
    true
}

pub fn clone_bytes(a: &Vec<u8>) -> (out: Vec<u8>)
    ensures
        out@ == a@,
{
    let mut out: Vec<u8> = Vec::new();
    let mut i: usize = 0;
    while i < a.len()
        invariant
            i <= a.len(),
            out@ == a@.subrange(0, i as int),
        decreases a.len() - i,
    {
        out.push(a[i]);
        i = i + 1;
    }
    proof {
        assert(out@ == a@);
    }
    out
}

/// Lexicographic order is antisymmetric.
pub proof fn lemma_lex_le_antisym(a: Seq<u8>, b: Seq<u8>)
    requires
        lex_le(a, b),
        lex_le(b, a),
    ensures
        a == b,
{
    lemma_lex_lt_asym(a, b);
}

/// Non-strict lexicographic order is transitive.
pub proof fn lemma_lex_le_trans(a: Seq<u8>, b: Seq<u8>, c: Seq<u8>)
    requires
        lex_le(a, b),
        lex_le(b, c),
    ensures
        lex_le(a, c),
{
    if lex_lt(a, b) && lex_lt(b, c) {
        lemma_lex_lt_trans(a, b, c);
    }
}

pub fn clone_row(r: &Row) -> (out: Row)
    ensures
        row_eq(out@, r@),
        row_view(out@) == row_view(r@),
{
    let mut out: Vec<Datum> = Vec::new();
    let mut i: usize = 0;
    while i < r.len()
        invariant
            i <= r.len(),
            out@.len() == i,
            forall|j: int| 0 <= j < i ==> datum_eq(out@[j], r@[j]),
            forall|j: int| 0 <= j < i ==> dview(#[trigger] out@[j]) == dview(r@[j]),
        decreases r.len() - i,
    {
        out.push(r[i].deep_clone());
        i = i + 1;
    }
    proof {
        assert(row_view(out@) =~= row_view(r@));
    }
    out
}

pub fn rows_equal(a: &Row, b: &Row) -> (r: bool)
    ensures
        r == row_eq(a@, b@),
{
    if a.len() != b.len() {
        return false;
    }
    let mut i: usize = 0;
    while i < a.len()
        invariant
            i <= a.len(),
            a.len() == b.len(),
            forall|j: int| 0 <= j < i ==> datum_eq(a@[j], b@[j]),
        decreases a.len() - i,
    {
        if !a[i].equals(&b[i]) {
            return false;
        }
        i = i + 1;
    }
    true
}

/// Strict lexicographic order on byte strings: a proper prefix comes first,
/// otherwise the first differing byte decides.
pub open spec fn lex_lt(a: Seq<u8>, b: Seq<u8>) -> bool
    decreases a.len(),
{
    if b.len() == 0 {
        false
    } else if a.len() == 0 {
        true
    } else if a[0] < b[0] {
        true
    } else if a[0] > b[0] {
        false
    } else {
        lex_lt(a.drop_first(), b.drop_first())
    }
}

pub open spec fn lex_le(a: Seq<u8>, b: Seq<u8>) -> bool {
    lex_lt(a, b) || a == b
}

/// Three-way lexicographic comparison on byte strings.
pub fn bytes_compare(a: &Vec<u8>, b: &Vec<u8>) -> (r: core::cmp::Ordering)
    ensures
        r == core::cmp::Ordering::Less <==> lex_lt(a@, b@),
        r == core::cmp::Ordering::Greater <==> lex_lt(b@, a@),
        r == core::cmp::Ordering::Equal <==> a@ == b@,
{
    let r = bytes_compare_from(a, b, 0);
    proof {
        assert(a@.skip(0) =~= a@);
        assert(b@.skip(0) =~= b@);
    }
    r
}

/// Compares the suffixes of two byte strings starting at index `i`.
fn bytes_compare_from(a: &Vec<u8>, b: &Vec<u8>, i: usize) -> (r: core::cmp::Ordering)
    requires
        i <= a.len(),
        i <= b.len(),
    ensures
        r == core::cmp::Ordering::Less <==> lex_lt(a@.skip(i as int), b@.skip(i as int)),
        r == core::cmp::Ordering::Greater <==> lex_lt(b@.skip(i as int), a@.skip(i as int)),
        r == core::cmp::Ordering::Equal <==> a@.skip(i as int) == b@.skip(i as int),
    decreases a.len() - i,
{
    let ghost sa = a@.skip(i as int);
    let ghost sb = b@.skip(i as int);
    if i == b.len() {
        if i == a.len() {
            proof {
                assert(sa =~= sb);
            }
            core::cmp::Ordering::Equal
        } else {
            proof {
                lemma_lex_prefix_end(sa, sb);
                assert(sa.len() > 0);
            }
            core::cmp::Ordering::Greater
        }
    } else if i == a.len() {
        proof {
            lemma_lex_prefix_end(sa, sb);
            assert(sb.len() > 0);
        }
        core::cmp::Ordering::Less
    } else if a[i] < b[i] {
        proof {
            lemma_lex_first_byte(sa, sb);
        }
        core::cmp::Ordering::Less
    } else if a[i] > b[i] {
        proof {
            lemma_lex_first_byte(sb, sa);
        }
        core::cmp::Ordering::Greater
    } else {
        let r = bytes_compare_from(a, b, i + 1);
        proof {
            lemma_lex_step(sa, sb);
            assert(sa.drop_first() =~= a@.skip(i + 1));
            assert(sb.drop_first() =~= b@.skip(i + 1));
            if a@.skip(i + 1) == b@.skip(i + 1) {
                lemma_head_tail_eq(sa, sb);
            }
            if sa == sb {
                assert(sa.drop_first() =~= sb.drop_first());
            }
        }
        r
    }
}

/// Two nonempty sequences with equal heads and equal tails are equal.
pub proof fn lemma_head_tail_eq(a: Seq<u8>, b: Seq<u8>)
    requires
        a.len() > 0,
        b.len() > 0,
        a[0] == b[0],
        a.drop_first() == b.drop_first(),
    ensures
        a == b,
{
    assert(a.len() == b.len()) by {
        assert(a.drop_first().len() == a.len() - 1);
        assert(b.drop_first().len() == b.len() - 1);
    }
    assert forall|k: int| 0 <= k < a.len() implies a[k] == b[k] by {
        if k > 0 {
            assert(a.drop_first()[k - 1] == a[k]);
            assert(b.drop_first()[k - 1] == b[k]);
        }
    }
    assert(a =~= b);
}

/// When the first bytes differ, the smaller first byte decides the order.
pub proof fn lemma_lex_first_byte(a: Seq<u8>, b: Seq<u8>)
    requires
        a.len() > 0,
        b.len() > 0,
        a[0] < b[0],
    ensures
        lex_lt(a, b),
        !lex_lt(b, a),
        a != b,
{
    assert(a[0] != b[0]);
}

/// When the first bytes agree, the order is decided by the remainders.
pub proof fn lemma_lex_step(a: Seq<u8>, b: Seq<u8>)
    requires
        a.len() > 0,
        b.len() > 0,
        a[0] == b[0],
    ensures
        lex_lt(a, b) == lex_lt(a.drop_first(), b.drop_first()),
        lex_lt(b, a) == lex_lt(b.drop_first(), a.drop_first()),
{
}

/// When one string is exhausted, order is decided by length alone.
pub proof fn lemma_lex_prefix_end(a: Seq<u8>, b: Seq<u8>)
    requires
        a.len() == 0 || b.len() == 0,
    ensures
        lex_lt(a, b) == (a.len() < b.len()),
        lex_lt(b, a) == (b.len() < a.len()),
{
}

/// Lexicographic order is transitive.
pub proof fn lemma_lex_lt_trans(a: Seq<u8>, b: Seq<u8>, c: Seq<u8>)
    requires
        lex_lt(a, b),
        lex_lt(b, c),
    ensures
        lex_lt(a, c),
    decreases a.len(),
{
    if b.len() == 0 {
        // lex_lt(a, b) would be false
    } else if c.len() == 0 {
        // lex_lt(b, c) would be false
    } else if a.len() == 0 {
    } else {
        if a[0] < b[0] {
            if b[0] <= c[0] {
            }
        } else {
            // a[0] == b[0]
            if b[0] < c[0] {
            } else {
                lemma_lex_lt_trans(a.drop_first(), b.drop_first(), c.drop_first());
            }
        }
    }
}

/// Lexicographic order is irreflexive and asymmetric.
pub proof fn lemma_lex_lt_asym(a: Seq<u8>, b: Seq<u8>)
    ensures
        !(lex_lt(a, b) && lex_lt(b, a)),
        !lex_lt(a, a),
    decreases a.len(),
{
    if a.len() > 0 && b.len() > 0 && a[0] == b[0] {
        lemma_lex_lt_asym(a.drop_first(), b.drop_first());
    }
    if a.len() > 0 {
        lemma_lex_lt_asym(a.drop_first(), a.drop_first());
    }
}

/// Any two byte strings are ordered one way, the other way, or equal.
pub proof fn lemma_lex_total(a: Seq<u8>, b: Seq<u8>)
    ensures
        lex_lt(a, b) || lex_lt(b, a) || a == b,
    decreases a.len(),
{
    if a.len() > 0 && b.len() > 0 && a[0] == b[0] {
        lemma_lex_total(a.drop_first(), b.drop_first());
        if a.drop_first() == b.drop_first() {
            lemma_head_tail_eq(a, b);
        }
    } else if a.len() == 0 && b.len() == 0 {
        assert(a =~= b);
    }
}

} // verus!
