use vstd::prelude::*;

verus! {

// Raw keys are carried in the key space in a memory-comparable form: the raw
// bytes are cut into groups of eight, every group is padded up to eight bytes
// and followed by one marker byte. A full group carries the marker 0xFF; the
// final, short group (possibly empty) is padded with zeros and carries the
// marker 0xFF minus the number of pad bytes. Byte-wise comparison of two
// encoded keys then agrees with comparison of the raw keys.

pub const ENC_GROUP_SIZE: usize = 8;

pub const ENC_MARKER: u8 = 0xff;

pub const ENC_PAD: u8 = 0x00;

/// The memory-comparable encoding of a raw key.
pub open spec fn encoded_form(raw: Seq<u8>) -> Seq<u8>
    decreases raw.len(),
{
    if raw.len() >= 8 {
        raw.take(8) + seq![0xffu8] + encoded_form(raw.skip(8))
    } else {
        raw + Seq::new((8 - raw.len()) as nat, |i: int| 0u8) + seq![(0xff - (8 - raw.len())) as u8]
    }
}

/// Whether a byte string is the encoded form of some raw key.
pub open spec fn is_valid_encoded(enc: Seq<u8>) -> bool
    decreases enc.len(),
{
    if enc.len() < 9 {
        false
    } else if enc[8] == 0xff {
        enc.len() > 9 && is_valid_encoded(enc.skip(9))
    } else {
        &&& enc.len() == 9
        &&& 0xf7 <= enc[8] < 0xff
        &&& forall|j: int| 8 - (0xff - enc[8]) <= j < 8 ==> enc[j] == 0
    }
}

/// The raw key that a valid encoded byte string stands for.
pub open spec fn decoded_form(enc: Seq<u8>) -> Seq<u8>
    decreases enc.len(),
{
    if enc.len() < 9 {
        Seq::empty()
    } else if enc[8] == 0xff {
        enc.take(8) + decoded_form(enc.skip(9))
    } else {
        enc.take(8 - (0xff - enc[8]))
    }
}

/// An encoded key is always a whole number of nine-byte groups.
pub proof fn lemma_encoded_len(raw: Seq<u8>)
    ensures
        encoded_form(raw).len() == 9 * ((raw.len() / 8) + 1),
    decreases raw.len(),
{
    if raw.len() >= 8 {
        lemma_encoded_len(raw.skip(8));
    }
}

/// Encoding always yields a valid encoded byte string.
pub proof fn lemma_encoded_valid(raw: Seq<u8>)
    ensures
        is_valid_encoded(encoded_form(raw)),
    decreases raw.len(),
{
    let enc = encoded_form(raw);
    if raw.len() >= 8 {
        lemma_encoded_valid(raw.skip(8));
        lemma_encoded_len(raw.skip(8));
        assert(enc[8] == 0xff);
        assert(enc.skip(9) =~= encoded_form(raw.skip(8)));
    } else {
        assert(enc.len() == 9);
        assert(enc[8] == (0xff - (8 - raw.len())) as u8);
        assert(forall|j: int| raw.len() <= j < 8 ==> enc[j] == 0);
    }
}

/// Decoding inverts encoding: the round trip gives back the raw key.
pub proof fn lemma_decode_of_encode(raw: Seq<u8>)
    ensures
        decoded_form(encoded_form(raw)) == raw,
    decreases raw.len(),
{
    let enc = encoded_form(raw);
    if raw.len() >= 8 {
        lemma_decode_of_encode(raw.skip(8));
        lemma_encoded_len(raw.skip(8));
        assert(enc[8] == 0xff);
        assert(enc.skip(9) =~= encoded_form(raw.skip(8)));
        assert(enc.take(8) =~= raw.take(8));
        assert(decoded_form(enc) =~= raw.take(8) + raw.skip(8));
        assert(raw.take(8) + raw.skip(8) =~= raw);
    } else {
        assert(enc[8] == (0xff - (8 - raw.len())) as u8);
        assert(0xff - enc[8] == 8 - raw.len());
        assert(decoded_form(enc) =~= raw);
    }
}

/// No two raw keys share an encoded form.
pub proof fn lemma_encode_injective(a: Seq<u8>, b: Seq<u8>)
    requires
        encoded_form(a) == encoded_form(b),
    ensures
        a == b,
{
    lemma_decode_of_encode(a);
    lemma_decode_of_encode(b);
}

/// A byte string padded with zeros up to `n` bytes.
spec fn padded(s: Seq<u8>, n: int) -> Seq<u8> {
    s + Seq::new((n - s.len()) as nat, |i: int| 0u8)
}

/// Comparing equal-length prefixes first: the prefixes decide unless they
/// are equal, in which case the suffixes decide.
proof fn lemma_lex_concat_eqlen(x: Seq<u8>, y: Seq<u8>, u: Seq<u8>, v: Seq<u8>)
    requires
        x.len() == y.len(),
    ensures
        x == y ==> crate::value::lex_lt(x + u, y + v) == crate::value::lex_lt(u, v),
        x != y ==> crate::value::lex_lt(x + u, y + v) == crate::value::lex_lt(x, y),
    decreases x.len(),
{
    if x.len() == 0 {
        assert(x =~= y);
        assert(x + u =~= u);
        assert(y + v =~= v);
    } else {
        if (x + u)[0] == (y + v)[0] {
            crate::value::lemma_lex_step(x + u, y + v);
            lemma_lex_concat_eqlen(x.drop_first(), y.drop_first(), u, v);
            assert((x + u).drop_first() =~= x.drop_first() + u);
            assert((y + v).drop_first() =~= y.drop_first() + v);
            if x.drop_first() == y.drop_first() {
                crate::value::lemma_head_tail_eq(x, y);
            } else {
                assert(x != y);
                crate::value::lemma_lex_step(x, y);
            }
        } else {
            assert(x[0] != y[0]);
            if x[0] < y[0] {
                crate::value::lemma_lex_first_byte(x + u, y + v);
                crate::value::lemma_lex_first_byte(x, y);
            } else {
                crate::value::lemma_lex_first_byte(y + v, x + u);
                crate::value::lemma_lex_first_byte(y, x);
                crate::value::lemma_lex_lt_asym(x + u, y + v);
                crate::value::lemma_lex_lt_asym(x, y);
            }
        }
    }
}

/// A string of zeros comes first among the strings of its length.
proof fn lemma_zeros_minimal(u: Seq<u8>, n: int)
    requires
        u.len() == n,
        n >= 0,
    ensures
        !crate::value::lex_lt(u, Seq::new(n as nat, |i: int| 0u8)),
        u != Seq::new(n as nat, |i: int| 0u8) ==> crate::value::lex_lt(
            Seq::new(n as nat, |i: int| 0u8),
            u,
        ),
    decreases n,
{
    let z = Seq::new(n as nat, |i: int| 0u8);
    if n == 0 {
        assert(u =~= z);
    } else {
        if u[0] == 0 {
            crate::value::lemma_lex_step(u, z);
            crate::value::lemma_lex_step(z, u);
            assert(z.drop_first() =~= Seq::new((n - 1) as nat, |i: int| 0u8));
            lemma_zeros_minimal(u.drop_first(), n - 1);
            if u.drop_first() == z.drop_first() {
                crate::value::lemma_head_tail_eq(u, z);
            }
        } else {
            crate::value::lemma_lex_first_byte(z, u);
            crate::value::lemma_lex_lt_asym(u, z);
        }
    }
}

/// A short key against a long one: padding the short key with zeros to the
/// long one's group keeps the order, and a padded key that equals the long
/// one's group prefix was a proper prefix of it.
proof fn lemma_lex_pad_short_long(s: Seq<u8>, t: Seq<u8>, n: int)
    requires
        s.len() < n,
        t.len() >= n,
    ensures
        padded(s, n) == t.take(n) ==> crate::value::lex_lt(s, t),
        padded(s, n) != t.take(n) ==> crate::value::lex_lt(s, t) == crate::value::lex_lt(
            padded(s, n),
            t.take(n),
        ),
    decreases n,
{
    if s.len() == 0 {
        assert(crate::value::lex_lt(s, t));
        assert(padded(s, n) =~= Seq::new(n as nat, |i: int| 0u8));
        lemma_zeros_minimal(t.take(n), n);
        if padded(s, n) != t.take(n) {
            assert(crate::value::lex_lt(padded(s, n), t.take(n)));
        }
    } else {
        if s[0] == t[0] {
            crate::value::lemma_lex_step(s, t);
            lemma_lex_pad_short_long(s.drop_first(), t.drop_first(), n - 1);
            assert(padded(s, n).drop_first() =~= padded(s.drop_first(), n - 1));
            assert(t.take(n).drop_first() =~= t.drop_first().take(n - 1));
            assert(padded(s, n)[0] == s[0]);
            assert(t.take(n)[0] == t[0]);
            crate::value::lemma_lex_step(padded(s, n), t.take(n));
            if padded(s.drop_first(), n - 1) == t.drop_first().take(n - 1) {
                crate::value::lemma_head_tail_eq(padded(s, n), t.take(n));
            }
            if padded(s, n) == t.take(n) {
                assert(padded(s, n).drop_first() == t.take(n).drop_first());
            }
        } else {
            assert(padded(s, n)[0] == s[0]);
            assert(t.take(n)[0] == t[0]);
            if s[0] < t[0] {
                crate::value::lemma_lex_first_byte(s, t);
                crate::value::lemma_lex_first_byte(padded(s, n), t.take(n));
            } else {
                crate::value::lemma_lex_first_byte(t, s);
                crate::value::lemma_lex_first_byte(t.take(n), padded(s, n));
                crate::value::lemma_lex_lt_asym(s, t);
                crate::value::lemma_lex_lt_asym(padded(s, n), t.take(n));
            }
        }
    }
}

/// Two short keys: padding both with zeros keeps the order, and when the
/// padded forms agree the shorter key was a prefix of the longer one.
proof fn lemma_lex_pad_short_short(s: Seq<u8>, t: Seq<u8>, n: int)
    requires
        s.len() < n,
        t.len() < n,
    ensures
        padded(s, n) == padded(t, n) ==> crate::value::lex_lt(s, t) == (s.len() < t.len()),
        padded(s, n) != padded(t, n) ==> crate::value::lex_lt(s, t) == crate::value::lex_lt(
            padded(s, n),
            padded(t, n),
        ),
    decreases n,
{
    if s.len() == 0 && t.len() == 0 {
        assert(padded(s, n) =~= padded(t, n));
        assert(s =~= t);
        crate::value::lemma_lex_lt_asym(s, t);
    } else if s.len() == 0 {
        assert(crate::value::lex_lt(s, t));
        assert(padded(s, n) =~= Seq::new(n as nat, |i: int| 0u8));
        lemma_zeros_minimal(padded(t, n), n);
    } else if t.len() == 0 {
        assert(!crate::value::lex_lt(s, t));
        assert(padded(t, n) =~= Seq::new(n as nat, |i: int| 0u8));
        lemma_zeros_minimal(padded(s, n), n);
        if padded(s, n) == padded(t, n) {
            assert(padded(s, n)[0] == s[0]);
        }
    } else {
        if s[0] == t[0] {
            crate::value::lemma_lex_step(s, t);
            lemma_lex_pad_short_short(s.drop_first(), t.drop_first(), n - 1);
            assert(padded(s, n).drop_first() =~= padded(s.drop_first(), n - 1));
            assert(padded(t, n).drop_first() =~= padded(t.drop_first(), n - 1));
            assert(padded(s, n)[0] == s[0]);
            assert(padded(t, n)[0] == t[0]);
            crate::value::lemma_lex_step(padded(s, n), padded(t, n));
            if padded(s.drop_first(), n - 1) == padded(t.drop_first(), n - 1) {
                crate::value::lemma_head_tail_eq(padded(s, n), padded(t, n));
            }
            if padded(s, n) == padded(t, n) {
                assert(padded(s, n).drop_first() == padded(t, n).drop_first());
            }
        } else {
            assert(padded(s, n)[0] == s[0]);
            assert(padded(t, n)[0] == t[0]);
            if s[0] < t[0] {
                crate::value::lemma_lex_first_byte(s, t);
                crate::value::lemma_lex_first_byte(padded(s, n), padded(t, n));
            } else {
                crate::value::lemma_lex_first_byte(t, s);
                crate::value::lemma_lex_first_byte(padded(t, n), padded(s, n));
                crate::value::lemma_lex_lt_asym(s, t);
                crate::value::lemma_lex_lt_asym(padded(s, n), padded(t, n));
            }
        }
    }
}

/// The encoding is memory-comparable: byte-wise comparison of two encoded
/// keys agrees with byte-wise comparison of the raw keys.
pub proof fn lemma_encoded_order_preserved(a: Seq<u8>, b: Seq<u8>)
    ensures
        crate::value::lex_lt(encoded_form(a), encoded_form(b)) == crate::value::lex_lt(a, b),
        crate::value::lex_le(encoded_form(a), encoded_form(b)) == crate::value::lex_le(a, b),
    decreases a.len(),
{
    let ea = encoded_form(a);
    let eb = encoded_form(b);
    if a.len() >= 8 && b.len() >= 8 {
        let xa = a.take(8) + seq![0xffu8];
        let xb = b.take(8) + seq![0xffu8];
        assert(ea =~= xa + encoded_form(a.skip(8)));
        assert(eb =~= xb + encoded_form(b.skip(8)));
        lemma_lex_concat_eqlen(xa, xb, encoded_form(a.skip(8)), encoded_form(b.skip(8)));
        assert(a =~= a.take(8) + a.skip(8));
        assert(b =~= b.take(8) + b.skip(8));
        lemma_lex_concat_eqlen(a.take(8), b.take(8), a.skip(8), b.skip(8));
        if a.take(8) == b.take(8) {
            assert(xa =~= xb);
            lemma_encoded_order_preserved(a.skip(8), b.skip(8));
        } else {
            assert(xa != xb) by {
                if xa == xb {
                    assert forall|i: int| 0 <= i < 8 implies a.take(8)[i] == b.take(8)[i] by {
                        assert(xa[i] == a.take(8)[i]);
                        assert(xb[i] == b.take(8)[i]);
                    }
                    assert(a.take(8) =~= b.take(8));
                }
            }
            lemma_lex_concat_eqlen(a.take(8), b.take(8), seq![0xffu8], seq![0xffu8]);
        }
    } else if a.len() < 8 && b.len() >= 8 {
        let pa = padded(a, 8);
        let ma = (0xff - (8 - a.len())) as u8;
        assert(ea =~= pa + seq![ma]);
        assert(eb =~= b.take(8) + (seq![0xffu8] + encoded_form(b.skip(8))));
        lemma_lex_concat_eqlen(pa, b.take(8), seq![ma], seq![0xffu8] + encoded_form(b.skip(8)));
        lemma_lex_pad_short_long(a, b, 8);
        if pa == b.take(8) {
            assert(ma < 0xff);
            assert((seq![0xffu8] + encoded_form(b.skip(8)))[0] == 0xff);
            assert(crate::value::lex_lt(seq![ma], seq![0xffu8] + encoded_form(b.skip(8)))) by {
                crate::value::lemma_lex_first_byte(
                    seq![ma],
                    seq![0xffu8] + encoded_form(b.skip(8)),
                );
            }
        }
    } else if a.len() >= 8 && b.len() < 8 {
        // mirror of the case above, through asymmetry and totality
        lemma_encoded_order_preserved(b, a);
        crate::value::lemma_lex_lt_asym(a, b);
        crate::value::lemma_lex_lt_asym(ea, eb);
        crate::value::lemma_lex_total(a, b);
        crate::value::lemma_lex_total(ea, eb);
        assert(a != b) by {
            assert(a.len() != b.len());
        }
        assert(ea != eb) by {
            lemma_encoded_len(a);
            lemma_encoded_len(b);
            assert(ea.len() >= 18);
            assert(eb.len() == 9);
        }
    } else {
        let pa = padded(a, 8);
        let pb = padded(b, 8);
        let ma = (0xff - (8 - a.len())) as u8;
        let mb = (0xff - (8 - b.len())) as u8;
        assert(ea =~= pa + seq![ma]);
        assert(eb =~= pb + seq![mb]);
        lemma_lex_concat_eqlen(pa, pb, seq![ma], seq![mb]);
        lemma_lex_pad_short_short(a, b, 8);
        if pa == pb {
            assert(crate::value::lex_lt(seq![ma], seq![mb]) == (ma < mb)) by {
                if ma < mb {
                    crate::value::lemma_lex_first_byte(seq![ma], seq![mb]);
                } else if ma > mb {
                    crate::value::lemma_lex_first_byte(seq![mb], seq![ma]);
                    crate::value::lemma_lex_lt_asym(seq![ma], seq![mb]);
                } else {
                    assert(seq![ma] =~= seq![mb]);
                    crate::value::lemma_lex_lt_asym(seq![ma], seq![mb]);
                }
            }
            assert((ma < mb) == (a.len() < b.len()));
        }
    }
    // the non-strict order follows from injectivity of the encoding
    if a == b {
        assert(ea == eb);
    }
    if ea == eb {
        lemma_encode_injective(a, b);
    }
}

/// Encodes a raw key into its memory-comparable form.
pub fn encode_key(raw: &Vec<u8>) -> (enc: Vec<u8>)
    ensures
        enc@ == encoded_form(raw@),
{
    let mut out: Vec<u8> = Vec::new();
    let mut i: usize = 0;
    proof {
        assert(raw@.skip(0) =~= raw@);
    }
    while raw.len() - i >= 8
        invariant
            i <= raw.len(),
            i % 8 == 0,
            encoded_form(raw@) == out@ + encoded_form(raw@.skip(i as int)),
        decreases raw.len() - i,
    {
        let ghost pre = out@;
        let mut j: usize = 0;
        while j < 8
            invariant
                j <= 8,
                i + 8 <= raw.len(),
                out@ == pre + raw@.subrange(i as int, i + j),
            decreases 8 - j,
        {
            out.push(raw[i + j]);
            j = j + 1;
        }
        out.push(0xff);
        proof {
            assert(raw@.skip(i as int).len() >= 8);
            assert(raw@.skip(i as int).take(8) =~= raw@.subrange(i as int, i + 8));
            assert(raw@.skip(i as int).skip(8) =~= raw@.skip(i + 8));
            assert(encoded_form(raw@.skip(i as int)) == raw@.subrange(i as int, i + 8) + seq![
                0xffu8,
            ] + encoded_form(raw@.skip(i + 8)));
            assert(out@ =~= pre + raw@.subrange(i as int, i + 8) + seq![0xffu8]);
            assert(encoded_form(raw@) =~= out@ + encoded_form(raw@.skip(i + 8)));
        }
        i = i + 8;
    }
    let rem: usize = raw.len() - i;
    let ghost pre = out@;
    let mut j: usize = 0;
    while j < rem
        invariant
            j <= rem,
            rem == raw.len() - i,
            i + rem <= raw.len(),
            out@ == pre + raw@.subrange(i as int, i + j),
        decreases rem - j,
    {
        out.push(raw[i + j]);
        j = j + 1;
    }
    let mut k: usize = rem;
    while k < 8
        invariant
            rem <= k <= 8,
            out@ == pre + raw@.subrange(i as int, (i + rem) as int) + Seq::new(
                (k - rem) as nat,
                |x: int| 0u8,
            ),
        decreases 8 - k,
    {
        out.push(0x00);
        proof {
            assert(pre + raw@.subrange(i as int, (i + rem) as int) + Seq::new(
                (k - rem) as nat,
                |x: int| 0u8,
            ).push(0u8) =~= pre + raw@.subrange(i as int, (i + rem) as int) + Seq::new(
                (k + 1 - rem) as nat,
                |x: int| 0u8,
            ));
        }
        k = k + 1;
    }
    out.push(0xff - ((8 - rem) as u8));
    proof {
        let tail = raw@.skip(i as int);
        assert(tail.len() == rem);
        assert(tail =~= raw@.subrange(i as int, (i + rem) as int));
        assert(encoded_form(tail) == tail + Seq::new((8 - rem) as nat, |x: int| 0u8) + seq![
            (0xff - (8 - rem)) as u8,
        ]);
        assert(out@ =~= pre + tail + Seq::new((8 - rem) as nat, |x: int| 0u8) + seq![
            (0xff - (8 - rem)) as u8,
        ]);
        assert(out@ =~= pre + encoded_form(tail));
    }
    out
}

/// Decodes a memory-comparable key back to its raw bytes. Returns `None`
/// exactly when the input is not a valid encoded key.
#[verifier::loop_isolation(false)]
pub fn decode_key(enc: &Vec<u8>) -> (r: Option<Vec<u8>>)
    ensures
        r is Some <==> is_valid_encoded(enc@),
        r matches Some(v) ==> v@ == decoded_form(enc@),
{
    let mut out: Vec<u8> = Vec::new();
    let mut i: usize = 0;
    proof {
        assert(enc@.skip(0) =~= enc@);
    }
    loop
        invariant
            i <= enc.len(),
            i % 9 == 0,
            is_valid_encoded(enc@) == is_valid_encoded(enc@.skip(i as int)),
            is_valid_encoded(enc@) ==> decoded_form(enc@) == out@ + decoded_form(
                enc@.skip(i as int),
            ),
            i < enc.len() || i == enc.len(),
        decreases enc.len() - i,
    {
        let ghost tail = enc@.skip(i as int);
        if enc.len() - i < 9 {
            proof {
                assert(tail.len() < 9);
            }
            return None;
        }
        let marker = enc[i + 8];
        if marker == 0xff {
            if enc.len() - i == 9 {
                proof {
                    assert(tail.len() == 9 && tail[8] == 0xff);
                }
                return None;
            }
            let mut j: usize = 0;
            let ghost pre = out@;
            while j < 8
                invariant
                    j <= 8,
                    i + 8 <= enc.len(),
                    out@ == pre + enc@.subrange(i as int, i + j),
                decreases 8 - j,
            {
                out.push(enc[i + j]);
                j = j + 1;
            }
            proof {
                assert(tail[8] == 0xff);
                assert(tail.take(8) =~= enc@.subrange(i as int, i + 8));
                assert(tail.skip(9) =~= enc@.skip(i + 9));
                assert(is_valid_encoded(tail) == is_valid_encoded(enc@.skip(i + 9)));
                if is_valid_encoded(enc@) {
                    assert(decoded_form(tail) == tail.take(8) + decoded_form(tail.skip(9)));
                    assert(out@ + decoded_form(enc@.skip(i + 9)) =~= pre + decoded_form(tail));
                }
            }
            i = i + 9;
        } else {
            if enc.len() - i != 9 {
                proof {
                    assert(tail.len() != 9 && tail[8] != 0xff);
                    assert(!is_valid_encoded(tail));
                }
                return None;
            }
            if marker < 0xf7 {
                proof {
                    assert(!(0xf7 <= tail[8] < 0xff));
                }
                return None;
            }
            let pad: usize = (0xff - marker) as usize;
            let keep: usize = 8 - pad;
            // the padding must be zero bytes
            let mut j: usize = keep;
            while j < 8
                invariant
                    keep <= j <= 8,
                    i + 9 == enc.len(),
                    keep == 8 - pad,
                    pad == 0xff - enc@[i + 8],
                    forall|x: int| keep <= x < j ==> #[trigger] enc@[i + x] == 0,
                decreases 8 - j,
            {
                if enc[i + j] != 0x00 {
                    proof {
                        assert(tail[j as int] == enc@[i + j]);
                        assert(!is_valid_encoded(tail));
                    }
                    return None;
                }
                j = j + 1;
            }
            let ghost pre = out@;
            let mut x: usize = 0;
            while x < keep
                invariant
                    x <= keep,
                    i + keep <= enc.len(),
                    out@ == pre + enc@.subrange(i as int, i + x),
                decreases keep - x,
            {
                out.push(enc[i + x]);
                x = x + 1;
            }
            proof {
                assert(forall|y: int| keep <= y < 8 ==> tail[y] == enc@[i + y]);
                assert(is_valid_encoded(tail));
                assert(decoded_form(tail) =~= enc@.subrange(i as int, (i + keep) as int));
                assert(out@ =~= pre + decoded_form(tail));
            }
            return Some(out);
        }
    }
}

} // verus!
