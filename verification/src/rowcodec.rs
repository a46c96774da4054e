use vstd::prelude::*;

use crate::errors::EvalErrorKind;
use crate::eval::int_of;
use crate::registry::IntSign;
use crate::value::{Datum, DatumV, dview, row_view, Row};

verus! {

// The wire form of an output row: for each selected column, a tag byte
// followed by the column's data. Integers travel as eight little-endian
// bytes of their 64-bit pattern; byte strings as an eight-byte length and
// the bytes themselves.

pub const TAG_NULL: u8 = 0x00;

pub const TAG_INT: u8 = 0x01;

pub const TAG_BYTES: u8 = 0x02;

/// Byte `i` of a value's little-endian form.
pub open spec fn byte_at(v: int, i: int) -> u8
    decreases i,
{
    if i <= 0 {
        (v % 256) as u8
    } else {
        byte_at(v / 256, i - 1)
    }
}

/// The eight little-endian bytes of a 64-bit value.
pub open spec fn le_bytes(v: int) -> Seq<u8> {
    Seq::new(8, |i: int| byte_at(v, i))
}

/// The wire form of one datum.
pub open spec fn encode_datum(d: DatumV) -> Seq<u8> {
    match d {
        DatumV::Null => seq![TAG_NULL],
        DatumV::Int(i) => seq![TAG_INT] + le_bytes(int_of(i, IntSign::Unsigned)),
        DatumV::Bytes(b) => seq![TAG_BYTES] + le_bytes(b.len() as int) + b,
    }
}

/// The wire form of a row's projection: the selected columns, in offset
/// order, or an error when an offset lies outside the row.
pub open spec fn spec_row_binary(row: Seq<DatumV>, offsets: Seq<u32>) -> Result<
    Seq<u8>,
    EvalErrorKind,
>
    decreases offsets.len(),
{
    if offsets.len() == 0 {
        Ok(Seq::empty())
    } else if offsets[0] >= row.len() {
        Err(EvalErrorKind::ColumnOffset)
    } else {
        match spec_row_binary(row, offsets.drop_first()) {
            Err(k) => Err(k),
            Ok(rest) => Ok(encode_datum(row[offsets[0] as int]) + rest),
        }
    }
}

/// Appends the eight little-endian bytes of a 64-bit pattern.
fn push_le_bytes(out: &mut Vec<u8>, v: u64)
    ensures
        final(out)@ == old(out)@ + le_bytes(v as int),
{
    let mut x = v;
    let mut i: usize = 0;
    while i < 8
        invariant
            i <= 8,
            out@.len() == old(out)@.len() + i,
            forall|j: int| 0 <= j < old(out)@.len() ==> out@[j] == old(out)@[j],
            forall|j: int|
                0 <= j < i ==> out@[old(out)@.len() + j] == byte_at(v as int, j),
            x as int == shift_down(v as int, i as int),
        decreases 8 - i,
    {
        out.push((x % 256) as u8);
        proof {
            lemma_byte_at_shift(v as int, i as int);
        }
        x = x / 256;
        i = i + 1;
    }
    proof {
        assert(out@ =~= old(out)@ + le_bytes(v as int));
    }
}

/// The value with its low `i` bytes dropped.
pub open spec fn shift_down(v: int, i: int) -> int
    decreases i,
{
    if i <= 0 {
        v
    } else {
        shift_down(v, i - 1) / 256
    }
}

/// Byte `i` is the low byte of the value shifted down by `i` bytes.
proof fn lemma_byte_at_shift(v: int, i: int)
    requires
        i >= 0,
    ensures
        byte_at(v, i) == (shift_down(v, i) % 256) as u8,
    decreases i,
{
    if i > 0 {
        lemma_byte_at_shift(v / 256, i - 1);
        lemma_shift_down_step(v, i);
    }
}

/// Shifting down distributes over the first division.
proof fn lemma_shift_down_step(v: int, i: int)
    requires
        i >= 1,
    ensures
        shift_down(v, i) == shift_down(v / 256, i - 1),
    decreases i,
{
    if i == 1 {
        assert(shift_down(v, 1) == shift_down(v, 0) / 256);
        assert(shift_down(v / 256, 0) == v / 256);
    } else {
        lemma_shift_down_step(v, i - 1);
        assert(shift_down(v, i) == shift_down(v, i - 1) / 256);
        assert(shift_down(v, i - 1) == shift_down(v / 256, i - 2));
        assert(shift_down(v / 256, i - 1) == shift_down(v / 256, i - 2) / 256);
    }
}

/// Appends the wire form of one datum.
fn push_datum(out: &mut Vec<u8>, d: &Datum)
    ensures
        final(out)@ == old(out)@ + encode_datum(dview(*d)),
{
    match d {
        Datum::Null => {
            out.push(TAG_NULL);
            proof {
                assert(out@ =~= old(out)@ + encode_datum(dview(*d)));
            }
        }
        Datum::Int(i) => {
            out.push(TAG_INT);
            let u = crate::eval::u64_of_exec(*i);
            push_le_bytes(out, u);
            proof {
                assert(out@ =~= old(out)@ + encode_datum(dview(*d)));
            }
        }
        Datum::Bytes(b) => {
            out.push(TAG_BYTES);
            push_le_bytes(out, b.len() as u64);
            let mut j: usize = 0;
            let ghost pre = out@;
            while j < b.len()
                invariant
                    j <= b@.len(),
                    out@ == pre + b@.subrange(0, j as int),
                decreases b@.len() - j,
            {
                out.push(b[j]);
                j = j + 1;
            }
            proof {
                assert(out@ =~= old(out)@ + encode_datum(dview(*d)));
            }
        }
    }
}

/// The wire form of a row's projection by the output offsets.
pub fn row_binary(row: &Row, output_offsets: &Vec<u32>) -> (r: Result<Vec<u8>, EvalErrorKind>)
    ensures
        match (r, spec_row_binary(row_view(row@), output_offsets@)) {
            (Ok(v), Ok(s)) => v@ == s,
            (Err(a), Err(b)) => a == b,
            _ => false,
        },
{
    let ghost rv = row_view(row@);
    let ghost offs = output_offsets@;
    let mut out: Vec<u8> = Vec::new();
    let mut i: usize = 0;
    proof {
        assert(offs.skip(0) =~= offs);
    }
    while i < output_offsets.len()
        invariant
            i <= offs.len(),
            rv == row_view(row@),
            offs == output_offsets@,
            spec_row_binary(rv, offs) == (match spec_row_binary(rv, offs.skip(
                i as int,
            )) {
                Ok(rest) => Ok::<Seq<u8>, EvalErrorKind>(out@ + rest),
                Err(k) => Err::<Seq<u8>, EvalErrorKind>(k),
            }),
        decreases offs.len() - i,
    {
        let off = output_offsets[i] as usize;
        proof {
            assert(offs.skip(i as int)[0] == offs[i as int]);
            assert(offs.skip(i as int).drop_first() =~= offs.skip(i + 1));
        }
        if off >= row.len() {
            return Err(EvalErrorKind::ColumnOffset);
        }
        proof {
            assert(rv[off as int] == dview(row@[off as int]));
        }
        let ghost out_pre = out@;
        push_datum(&mut out, &row[off]);
        proof {
            if spec_row_binary(rv, offs.skip(i + 1)) is Ok {
                let rest = spec_row_binary(rv, offs.skip(i + 1))->Ok_0;
                assert(out_pre + (encode_datum(rv[off as int]) + rest) =~= out@ + rest);
            }
        }
        i = i + 1;
    }
    proof {
        assert(offs.skip(i as int).len() == 0);
        assert(out@ + Seq::<u8>::empty() =~= out@);
    }
    Ok(out)
}

} // verus!
