use vstd::prelude::*;

use crate::keycodec::{decode_key, encode_key, decoded_form, encoded_form, is_valid_encoded};
use crate::value::{bytes_compare, clone_bytes, lex_le, lex_lt, lemma_head_tail_eq,
    lemma_lex_first_byte, lemma_lex_le_antisym, lemma_lex_le_trans, lemma_lex_lt_trans,
    lemma_lex_prefix_end, lemma_lex_step, lemma_lex_total};

verus! {

// Keys stored in the engine carry a one-byte data prefix; region boundary keys
// and table keys do not. Table data keys start, in raw form, with the table
// prefix byte followed by an eight-byte table id.

pub const DATA_PREFIX: u8 = 0x7a;

pub const DATA_MAX_BYTE: u8 = 0x7b;

pub const TABLE_PREFIX: u8 = 0x74;

pub const TABLE_PREFIX_LEN: usize = 1;

pub const TABLE_PREFIX_KEY_LEN: usize = 9;

// Encoding a key like `t{i64}` appends padding group bytes to the output; the
// first ten bytes are enough to tell which table an encoded key belongs to.
pub const ENCODED_TABLE_TABLE_PREFIX: usize = 10;

/// A region of the key space, bounded by encoded keys; an empty end key stands
/// for the end of the whole key space.
pub struct Region {
    pub id: u64,
    pub start_key: Vec<u8>,
    pub end_key: Vec<u8>,
}

/// How a split checker walks the region when looking for a split point.
#[derive(Clone, Copy, PartialEq, Eq, Structural)]
pub enum CheckPolicy {
    Scan,
    Approximate,
}

/// One key fed to a split checker, as stored: with the data prefix.
pub struct KeyEntry {
    pub key: Vec<u8>,
}

impl KeyEntry {
    pub fn key(&self) -> (r: &Vec<u8>)
        ensures
            r@ == self.key@,
    {
        &self.key
    }
}

/// Context handed to a split observer: the region under check.
pub struct ObserverContext {
    pub region: Region,
}

impl ObserverContext {
    pub fn region(&self) -> (r: &Region)
        ensures
            r == &self.region,
    {
        &self.region
    }
}

/// The set of checkers registered for one split-check run.
pub struct Host {
    pub checkers: Vec<Checker>,
}

impl Host {
    pub fn new() -> (r: Host)
        ensures
            r.checkers@.len() == 0,
    {
        Host { checkers: Vec::new() }
    }

    pub fn add_checker(&mut self, c: Checker)
        ensures
            final(self).checkers@ == old(self).checkers@.push(c),
    {
        self.checkers.push(c);
    }
}

/// Whether an encoded key is a table data key: it starts with the table prefix
/// and is long enough to carry an encoded table id.
pub open spec fn spec_is_table_key(k: Seq<u8>) -> bool {
    k.len() >= ENCODED_TABLE_TABLE_PREFIX && k[0] == TABLE_PREFIX
}

/// Whether two encoded keys belong to the same table.
pub open spec fn spec_is_same_table(a: Seq<u8>, b: Seq<u8>) -> bool {
    spec_is_table_key(a) && spec_is_table_key(b) && a.take(ENCODED_TABLE_TABLE_PREFIX as int)
        == b.take(ENCODED_TABLE_TABLE_PREFIX as int)
}

/// The encoded table prefix of an encoded key: decode, keep the table prefix
/// and table id, and encode again. `None` when the key does not decode or its
/// raw form does not start with a table prefix.
pub open spec fn spec_table_prefix(k: Seq<u8>) -> Option<Seq<u8>> {
    if is_valid_encoded(k) {
        let raw = decoded_form(k);
        if raw.len() >= TABLE_PREFIX_KEY_LEN && raw[0] == TABLE_PREFIX {
            Some(encoded_form(raw.take(TABLE_PREFIX_KEY_LEN as int)))
        } else {
            None
        }
    } else {
        None
    }
}

pub fn is_table_key(encoded_key: &Vec<u8>) -> (r: bool)
    ensures
        r == spec_is_table_key(encoded_key@),
{
    encoded_key.len() >= ENCODED_TABLE_TABLE_PREFIX && *encoded_key.get(0).unwrap()
        == TABLE_PREFIX
}

pub fn is_same_table(left_key: &Vec<u8>, right_key: &Vec<u8>) -> (r: bool)
    ensures
        r == spec_is_same_table(left_key@, right_key@),
{
    if !is_table_key(left_key) || !is_table_key(right_key) {
        return false;
    }
    let mut i: usize = 0;
    while i < ENCODED_TABLE_TABLE_PREFIX
        invariant
            i <= ENCODED_TABLE_TABLE_PREFIX,
            left_key@.len() >= ENCODED_TABLE_TABLE_PREFIX,
            right_key@.len() >= ENCODED_TABLE_TABLE_PREFIX,
            forall|j: int| 0 <= j < i ==> left_key@[j] == right_key@[j],
        decreases ENCODED_TABLE_TABLE_PREFIX - i,
    {
        if *left_key.get(i).unwrap() != *right_key.get(i).unwrap() {
            proof {
                assert(left_key@.take(10)[i as int] != right_key@.take(10)[i as int]);
            }
            return false;
        }
        i = i + 1;
    }
    proof {
        assert(left_key@.take(10) =~= right_key@.take(10));
    }
    true
}

/// Extracts the raw table prefix (table prefix byte plus table id) of a raw
/// key, when it has one.
pub fn extract_table_prefix(raw_key: &Vec<u8>) -> (r: Option<Vec<u8>>)
    ensures
        r is Some <==> raw_key@.len() >= TABLE_PREFIX_KEY_LEN && raw_key@[0] == TABLE_PREFIX,
        r matches Some(v) ==> v@ == raw_key@.take(TABLE_PREFIX_KEY_LEN as int),
{
    if raw_key.len() < TABLE_PREFIX_KEY_LEN || *raw_key.get(0).unwrap() != TABLE_PREFIX {
        return None;
    }
    let mut out: Vec<u8> = Vec::new();
    let mut i: usize = 0;
    while i < TABLE_PREFIX_KEY_LEN
        invariant
            i <= TABLE_PREFIX_KEY_LEN,
            raw_key@.len() >= TABLE_PREFIX_KEY_LEN,
            out@ == raw_key@.subrange(0, i as int),
        decreases TABLE_PREFIX_KEY_LEN - i,
    {
        out.push(*raw_key.get(i).unwrap());
        i = i + 1;
    }
    proof {
        assert(out@ =~= raw_key@.take(TABLE_PREFIX_KEY_LEN as int));
    }
    Some(out)
}

/// The encoded table prefix of an encoded key, when it has one.
pub fn to_encoded_table_prefix(encoded_key: &Vec<u8>) -> (r: Option<Vec<u8>>)
    ensures
        r is Some <==> spec_table_prefix(encoded_key@) is Some,
        r matches Some(v) ==> spec_table_prefix(encoded_key@) matches Some(s) && v@ == s,
{
    match decode_key(encoded_key) {
        Some(raw) => match extract_table_prefix(&raw) {
            Some(prefix) => Some(encode_key(&prefix)),
            None => None,
        },
        None => None,
    }
}

/// The view of an optional byte string.
pub open spec fn opt_view(o: Option<Vec<u8>>) -> Option<Seq<u8>> {
    match o {
        Some(v) => Some(v@),
        None => None,
    }
}

/// A stored data key as bounded by a region: the region's start key with the
/// data prefix put back in front.
pub open spec fn spec_enc_start_key(r: Region) -> Seq<u8> {
    seq![DATA_PREFIX] + r.start_key@
}

/// The exclusive upper data key of a region; an empty region end key covers
/// everything up to the first byte after the data prefix.
pub open spec fn spec_enc_end_key(r: Region) -> Seq<u8> {
    if r.end_key@.len() == 0 {
        seq![DATA_MAX_BYTE]
    } else {
        seq![DATA_PREFIX] + r.end_key@
    }
}

/// Whether a stored key lies inside the data-key range of a region.
pub open spec fn in_region_range(k: Seq<u8>, r: Region) -> bool {
    lex_le(spec_enc_start_key(r), k) && lex_lt(k, spec_enc_end_key(r))
}

/// Characterizes the last stored key of a region: `None` when no stored key
/// lies in the region, otherwise the greatest stored key inside it.
pub open spec fn last_key_matches(store: Seq<Vec<u8>>, r: Region, lk: Option<Seq<u8>>) -> bool {
    match lk {
        None => forall|i: int| 0 <= i < store.len() ==> !in_region_range(store[i]@, r),
        Some(v) => {
            &&& exists|i: int| 0 <= i < store.len() && store[i]@ == v
            &&& in_region_range(v, r)
            &&& forall|i: int|
                0 <= i < store.len() && in_region_range(store[i]@, r) ==> lex_le(store[i]@, v)
        },
    }
}

/// At most one value satisfies the last-key characterization.
pub proof fn lemma_last_key_unique(
    store: Seq<Vec<u8>>,
    r: Region,
    a: Option<Seq<u8>>,
    b: Option<Seq<u8>>,
)
    requires
        last_key_matches(store, r, a),
        last_key_matches(store, r, b),
    ensures
        a == b,
{
    match (a, b) {
        (Some(x), Some(y)) => {
            lemma_lex_le_antisym(x, y);
        }
        (Some(x), None) => {
            let i = choose|i: int| 0 <= i < store.len() && store[i]@ == x;
            assert(!in_region_range(store[i]@, r));
        }
        (None, Some(y)) => {
            let i = choose|i: int| 0 <= i < store.len() && store[i]@ == y;
            assert(!in_region_range(store[i]@, r));
        }
        (None, None) => {}
    }
}

/// The greatest stored key inside the region's data-key range, if any.
pub fn last_key_of_region(store: &Vec<Vec<u8>>, region: &Region) -> (r: Option<Vec<u8>>)
    ensures
        last_key_matches(store@, *region, opt_view(r)),
{
    let mut enc_start: Vec<u8> = Vec::new();
    enc_start.push(DATA_PREFIX);
    let mut i: usize = 0;
    while i < region.start_key.len()
        invariant
            i <= region.start_key@.len(),
            enc_start@ == seq![DATA_PREFIX] + region.start_key@.subrange(0, i as int),
        decreases region.start_key@.len() - i,
    {
        enc_start.push(region.start_key[i]);
        proof {
            assert(seq![DATA_PREFIX] + region.start_key@.subrange(0, i as int) + seq![
                region.start_key@[i as int],
            ] =~= seq![DATA_PREFIX] + region.start_key@.subrange(0, i + 1));
        }
        i = i + 1;
    }
    proof {
        assert(enc_start@ =~= spec_enc_start_key(*region));
    }
    let mut enc_end: Vec<u8> = Vec::new();
    if region.end_key.len() == 0 {
        enc_end.push(DATA_MAX_BYTE);
    } else {
        enc_end.push(DATA_PREFIX);
        let mut j: usize = 0;
        while j < region.end_key.len()
            invariant
                j <= region.end_key@.len(),
                enc_end@ == seq![DATA_PREFIX] + region.end_key@.subrange(0, j as int),
            decreases region.end_key@.len() - j,
        {
            enc_end.push(region.end_key[j]);
            proof {
                assert(seq![DATA_PREFIX] + region.end_key@.subrange(0, j as int) + seq![
                    region.end_key@[j as int],
                ] =~= seq![DATA_PREFIX] + region.end_key@.subrange(0, j + 1));
            }
            j = j + 1;
        }
    }
    proof {
        assert(enc_end@ =~= spec_enc_end_key(*region));
    }
    let mut best: Option<usize> = None;
    let mut i: usize = 0;
    while i < store.len()
        invariant
            i <= store@.len(),
            enc_start@ == spec_enc_start_key(*region),
            enc_end@ == spec_enc_end_key(*region),
            match best {
                None => forall|j: int| 0 <= j < i ==> !in_region_range(store@[j]@, *region),
                Some(b) => {
                    &&& b < i
                    &&& in_region_range(store@[b as int]@, *region)
                    &&& forall|j: int|
                        0 <= j < i && in_region_range(store@[j]@, *region) ==> lex_le(
                            store@[j]@,
                            store@[b as int]@,
                        )
                },
            },
        decreases store@.len() - i,
    {
        let k = &store[i];
        let ge_start = match bytes_compare(&enc_start, k) {
            core::cmp::Ordering::Greater => false,
            _ => true,
        };
        let lt_end = match bytes_compare(k, &enc_end) {
            core::cmp::Ordering::Less => true,
            _ => false,
        };
        if ge_start && lt_end {
            match best {
                None => {
                    best = Some(i);
                }
                Some(b) => {
                    let cur_best = &store[b];
                    match bytes_compare(cur_best, k) {
                        core::cmp::Ordering::Less => {
                            proof {
                                assert forall|j: int|
                                    0 <= j < i + 1 && in_region_range(store@[j]@, *region)
                                    implies lex_le(store@[j]@, store@[i as int]@) by {
                                    if j < i {
                                        lemma_lex_le_trans(
                                            store@[j]@,
                                            store@[b as int]@,
                                            store@[i as int]@,
                                        );
                                    }
                                }
                            }
                            best = Some(i);
                        }
                        _ => {}
                    }
                }
            }
        }
        i = i + 1;
    }
    match best {
        None => None,
        Some(b) => Some(clone_bytes(&store[b])),
    }
}

/// Feeding keys in order, looks for the first key that does not belong to the
/// table the region started in; the split key is that key's encoded table
/// prefix.
pub struct Checker {
    pub first_encoded_table_prefix: Option<Vec<u8>>,
    pub split_key: Option<Vec<u8>>,
    pub policy: CheckPolicy,
}

/// The key a checker proposes to split at after seeing `cur`, given the table
/// prefix of the first key it saw: `cur`'s encoded table prefix when `cur`
/// left that table (or, with no recorded prefix, when `cur` is the region's
/// very first table key).
pub open spec fn on_kv_new_split(first: Option<Seq<u8>>, cur: Seq<u8>) -> Option<Seq<u8>> {
    match first {
        Some(f) => if !spec_is_same_table(f, cur) {
            spec_table_prefix(cur)
        } else {
            None
        },
        None => if spec_is_table_key(cur) {
            spec_table_prefix(cur)
        } else {
            None
        },
    }
}

impl Checker {
    /// Feeds one stored key, in key order, to find the split key. Returns
    /// whether a split key has been found, so the feeder can stop early.
    pub fn on_kv(&mut self, _ctx: &mut ObserverContext, entry: &KeyEntry) -> (r: bool)
        requires
            entry.key@.len() >= 1,
            entry.key@[0] == DATA_PREFIX,
        ensures
            final(self).policy == old(self).policy,
            opt_view(final(self).first_encoded_table_prefix) == opt_view(
                old(self).first_encoded_table_prefix,
            ),
            old(self).split_key is Some ==> opt_view(final(self).split_key) == opt_view(
                old(self).split_key,
            ) && r,
            old(self).split_key is None ==> opt_view(final(self).split_key) == on_kv_new_split(
                opt_view(old(self).first_encoded_table_prefix),
                entry.key@.drop_first(),
            ) && r == (final(self).split_key is Some),
    {
        if self.split_key.is_some() {
            return true;
        }
        let current_encoded_key = origin_key(entry.key());
        let split_key = match &self.first_encoded_table_prefix {
            Some(first) => {
                if !is_same_table(first, &current_encoded_key) {
                    // a key of a different table
                    to_encoded_table_prefix(&current_encoded_key)
                } else {
                    None
                }
            }
            None => {
                if is_table_key(&current_encoded_key) {
                    // the very first table key of this region
                    to_encoded_table_prefix(&current_encoded_key)
                } else {
                    None
                }
            }
        };
        self.split_key = split_key;
        self.split_key.is_some()
    }

    pub fn split_keys(&mut self) -> (r: Vec<Vec<u8>>)
        ensures
            final(self).split_key is None,
            final(self).policy == old(self).policy,
            opt_view(final(self).first_encoded_table_prefix) == opt_view(
                old(self).first_encoded_table_prefix,
            ),
            match opt_view(old(self).split_key) {
                None => r@.len() == 0,
                Some(k) => r@.len() == 1 && r@[0]@ == k,
            },
    {
        let mut taken: Option<Vec<u8>> = None;
        core::mem::swap(&mut self.split_key, &mut taken);
        match taken {
            None => Vec::new(),
            Some(key) => {
                let mut out: Vec<Vec<u8>> = Vec::new();
                out.push(key);
                out
            }
        }
    }

    pub fn policy(&self) -> (r: CheckPolicy)
        ensures
            r == self.policy,
    {
        self.policy
    }
}

/// Strips the data prefix off a stored key.
pub fn origin_key(data_key: &Vec<u8>) -> (r: Vec<u8>)
    requires
        data_key@.len() >= 1,
        data_key@[0] == DATA_PREFIX,
    ensures
        r@ == data_key@.drop_first(),
{
    let mut out: Vec<u8> = Vec::new();
    let mut i: usize = 1;
    while i < data_key.len()
        invariant
            1 <= i <= data_key@.len(),
            out@ == data_key@.subrange(1, i as int),
        decreases data_key@.len() - i,
    {
        out.push(data_key[i]);
        i = i + 1;
    }
    proof {
        assert(out@ =~= data_key@.drop_first());
    }
    out
}

/// What checker a split-check run registers for a region, given the origin
/// form of the region's last stored key: `None` means no checker is needed,
/// `Some((first, split))` gives the checker's recorded table prefix and its
/// split key, both possibly still unknown.
pub open spec fn checker_plan(
    start: Seq<u8>,
    end: Seq<u8>,
    last_origin: Option<Seq<u8>>,
) -> Option<(Option<Seq<u8>>, Option<Seq<u8>>)> {
    if spec_is_same_table(start, end) {
        // the region lies inside one table: nothing to split
        None
    } else {
        match last_origin {
            None => None,
            Some(eo) => {
                if start.len() < TABLE_PREFIX_KEY_LEN || eo.len() < TABLE_PREFIX_KEY_LEN {
                    // too short to compare against the table prefix: scan
                    Some((None, None))
                } else if start[0] < TABLE_PREFIX && eo[0] < TABLE_PREFIX {
                    None
                } else if start[0] > TABLE_PREFIX && eo[0] > TABLE_PREFIX {
                    None
                } else if start[0] < TABLE_PREFIX && eo[0] > TABLE_PREFIX {
                    // covers all table data: scan for the boundary
                    Some((None, None))
                } else if start[0] < TABLE_PREFIX && eo[0] == TABLE_PREFIX {
                    // the later part holds table data
                    Some((None, spec_table_prefix(eo)))
                } else if start[0] == TABLE_PREFIX && eo[0] == TABLE_PREFIX {
                    if spec_is_same_table(start, eo) {
                        None
                    } else {
                        // two different tables: split at the last one
                        Some((None, spec_table_prefix(eo)))
                    }
                } else {
                    // start in table data, end beyond it: scan from the start prefix
                    Some((spec_table_prefix(start), None))
                }
            },
        }
    }
}

/// Registers a table-boundary split checker for regions that span more than
/// one table.
pub struct TableCheckObserver;

impl TableCheckObserver {
    pub fn add_checker(
        &self,
        ctx: &mut ObserverContext,
        host: &mut Host,
        store: &Vec<Vec<u8>>,
        policy: CheckPolicy,
    )
        requires
            forall|i: int|
                0 <= i < store@.len() ==> (#[trigger] store@[i]@).len() >= 1 && store@[i]@[0]
                    == DATA_PREFIX,
        ensures
            *final(ctx) == *old(ctx),
            forall|lk: Option<Seq<u8>>|
                #[trigger] last_key_matches(store@, old(ctx).region, lk) ==> match checker_plan(
                    old(ctx).region.start_key@,
                    old(ctx).region.end_key@,
                    origin_opt(lk),
                ) {
                    None => final(host).checkers@ == old(host).checkers@,
                    Some(plan) => final(host).checkers@.len() == old(host).checkers@.len() + 1
                        && final(host).checkers@.subrange(0, old(host).checkers@.len() as int)
                        == old(host).checkers@ && opt_view(
                        final(host).checkers@.last().first_encoded_table_prefix,
                    ) == plan.0 && opt_view(final(host).checkers@.last().split_key) == plan.1
                        && final(host).checkers@.last().policy == policy,
                },
    {
        let region = ctx.region();
        if is_same_table(&region.start_key, &region.end_key) {
            // the region is inside one table: skip, saving the scan
            return;
        }
        let last = last_key_of_region(store, region);
        let ghost lk0 = opt_view(last);
        let end_key = match last {
            Some(k) => k,
            None => {
                proof {
                    lemma_plan_agrees(store@, ctx.region, lk0);
                }
                return;
            }
        };
        let encoded_start_key = &ctx.region.start_key;
        let encoded_end_key = origin_key(&end_key);
        proof {
            lemma_plan_agrees(store@, ctx.region, lk0);
        }
        if encoded_start_key.len() < TABLE_PREFIX_KEY_LEN || encoded_end_key.len()
            < TABLE_PREFIX_KEY_LEN {
            // too short to hold a table prefix: scan the region
            host.add_checker(
                Checker { first_encoded_table_prefix: None, split_key: None, policy },
            );
            proof {
                assert(host.checkers@.subrange(0, old(host).checkers@.len() as int) =~= old(
                    host,
                ).checkers@);
            }
            return;
        }
        let s0 = *encoded_start_key.get(0).unwrap();
        let e0 = *encoded_end_key.get(0).unwrap();
        let mut first_encoded_table_prefix: Option<Vec<u8>> = None;
        let mut split_key: Option<Vec<u8>> = None;
        if s0 < TABLE_PREFIX && e0 < TABLE_PREFIX {
            // the range holds no table data
            return;
        } else if s0 > TABLE_PREFIX && e0 > TABLE_PREFIX {
            // the range lies beyond all table data
            return;
        } else if s0 < TABLE_PREFIX && e0 > TABLE_PREFIX {
            // covers all table data: scan for the boundary
        } else if s0 < TABLE_PREFIX && e0 == TABLE_PREFIX {
            // starts before table data and ends inside it
            split_key = to_encoded_table_prefix(&encoded_end_key);
        } else if s0 == TABLE_PREFIX && e0 == TABLE_PREFIX {
            if is_same_table(encoded_start_key, &encoded_end_key) {
                // one table only
                return;
            } else {
                // table ids need not be adjacent: take the prefix of the end
                split_key = to_encoded_table_prefix(&encoded_end_key);
            }
        } else if s0 == TABLE_PREFIX && e0 > TABLE_PREFIX {
            // starts inside table data: scan from the start prefix
            first_encoded_table_prefix = to_encoded_table_prefix(encoded_start_key);
        } else {
            // s0 > e0: impossible, the last key never precedes the region start
            proof {
                lemma_start_le_last(store@, ctx.region, lk0);
                assert(s0 > e0);
                assert(false);
            }
            return;
        }
        host.add_checker(Checker { first_encoded_table_prefix, split_key, policy });
        proof {
            assert(host.checkers@.subrange(0, old(host).checkers@.len() as int) =~= old(
                host,
            ).checkers@);
        }
    }
}

/// The origin form of an optional stored key.
pub open spec fn origin_opt(lk: Option<Seq<u8>>) -> Option<Seq<u8>> {
    match lk {
        Some(v) => Some(v.drop_first()),
        None => None,
    }
}

/// Any option satisfying the last-key characterization leads to the same plan
/// as the one the implementation computed.
proof fn lemma_plan_agrees(store: Seq<Vec<u8>>, r: Region, lk0: Option<Seq<u8>>)
    requires
        last_key_matches(store, r, lk0),
    ensures
        forall|lk: Option<Seq<u8>>| #[trigger] last_key_matches(store, r, lk) ==> lk == lk0,
{
    assert forall|lk: Option<Seq<u8>>| #[trigger] last_key_matches(store, r, lk) implies lk
        == lk0 by {
        lemma_last_key_unique(store, r, lk, lk0);
    }
}

/// A region's last stored key never precedes the region's start key: in
/// origin form its first byte is at least the start key's first byte.
proof fn lemma_start_le_last(store: Seq<Vec<u8>>, r: Region, lk: Option<Seq<u8>>)
    requires
        last_key_matches(store, r, lk),
        forall|i: int|
            0 <= i < store.len() ==> (#[trigger] store[i]@).len() >= 1 && store[i]@[0]
                == DATA_PREFIX,
        lk is Some,
        r.start_key@.len() >= 1,
        lk matches Some(v) && v.len() >= 2,
    ensures
        lk matches Some(v) ==> !(r.start_key@[0] > v.drop_first()[0]),
{
    let v = lk.unwrap();
    assert(v[0] == DATA_PREFIX) by {
        let i = choose|i: int| 0 <= i < store.len() && store[i]@ == v;
        assert(store[i]@[0] == DATA_PREFIX);
    }
    assert(lex_le(spec_enc_start_key(r), v));
    let es = spec_enc_start_key(r);
    assert(es[0] == DATA_PREFIX);
    let st = es.drop_first();
    let vt = v.drop_first();
    assert(st =~= r.start_key@);
    if lex_lt(es, v) {
        // first bytes both the data prefix: the tails are ordered
        lemma_lex_step(es, v);
        assert(lex_lt(st, vt));
        if st[0] > vt[0] {
            lemma_lex_first_byte(vt, st);
            crate::value::lemma_lex_lt_asym(st, vt);
        }
    } else {
        assert(es == v);
        assert(st == vt);
    }
}

} // verus!
