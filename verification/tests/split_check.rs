use copr_dag::keycodec::{decode_key, encode_key};
use copr_dag::split_table::{
    is_same_table, is_table_key, last_key_of_region, to_encoded_table_prefix, CheckPolicy, Host,
    KeyEntry, ObserverContext, Region, TableCheckObserver, DATA_PREFIX,
};

/// Composes the raw table prefix `t[table_id]`, the id in its
/// memory-comparable form: the sign bit flipped, big endian.
fn gen_table_prefix(table_id: i64) -> Vec<u8> {
    let mut buf = vec![b't'];
    let flipped = (table_id as u64) ^ (1u64 << 63);
    buf.extend_from_slice(&flipped.to_be_bytes());
    buf
}

fn encoded(raw: &[u8]) -> Vec<u8> {
    encode_key(&raw.to_vec())
}

fn data_key(encoded_key: &[u8]) -> Vec<u8> {
    let mut k = vec![DATA_PREFIX];
    k.extend_from_slice(encoded_key);
    k
}

fn gen_encoded_table_prefix(table_id: i64) -> Vec<u8> {
    encoded(&gen_table_prefix(table_id))
}

fn region(start: Option<Vec<u8>>, end: Option<Vec<u8>>) -> Region {
    Region {
        id: 1,
        start_key: start.unwrap_or_default(),
        end_key: end.unwrap_or_default(),
    }
}

/// Runs one split check over an in-memory store: registers the checker for
/// the region, feeds it the region's stored keys in order, and returns the
/// split keys it proposes.
fn run_split_check(store: &Vec<Vec<u8>>, reg: Region) -> Vec<Vec<u8>> {
    let observer = TableCheckObserver;
    let mut ctx = ObserverContext { region: reg };
    let mut host = Host::new();
    let policy = CheckPolicy::Scan;
    observer.add_checker(&mut ctx, &mut host, store, policy);
    let mut checker = match host.checkers.pop() {
        None => return vec![],
        Some(c) => c,
    };
    assert!(matches!(checker.policy(), CheckPolicy::Scan));
    let enc_start = data_key(&ctx.region.start_key);
    let enc_end = if ctx.region.end_key.is_empty() {
        vec![DATA_PREFIX + 1]
    } else {
        data_key(&ctx.region.end_key)
    };
    let mut keys: Vec<Vec<u8>> = store
        .iter()
        .filter(|k| **k >= enc_start && **k < enc_end)
        .cloned()
        .collect();
    keys.sort();
    for key in keys {
        if checker.on_kv(&mut ctx, &KeyEntry { key }) {
            break;
        }
    }
    checker.split_keys()
}

#[test]
fn test_last_key_of_region() {
    // arbitrary padding.
    let padding = b"_r00000005";
    // Put keys, t1_xxx, t2_xxx
    let mut store: Vec<Vec<u8>> = Vec::new();
    let mut data_keys = vec![];
    for i in 1..3 {
        let mut key = gen_table_prefix(i);
        key.extend_from_slice(padding);
        let k = data_key(&encoded(&key));
        store.push(k.clone());
        data_keys.push(k);
    }

    type Case = (Option<i64>, Option<i64>, Option<Vec<u8>>);
    let check_cases = |cases: Vec<Case>| {
        for (start_id, end_id, want) in cases {
            let reg = region(
                start_id.map(|id| encoded(&gen_table_prefix(id))),
                end_id.map(|id| encoded(&gen_table_prefix(id))),
            );
            assert_eq!(last_key_of_region(&store, &reg), want);
        }
    };

    check_cases(vec![
        // ["", "") => t2_xx
        (None, None, data_keys.get(1).cloned()),
        // ["", "t1") => None
        (None, Some(1), None),
        // ["t1", "") => t2_xx
        (Some(1), None, data_keys.get(1).cloned()),
        // ["t1", "t2") => t1_xx
        (Some(1), Some(2), data_keys.get(0).cloned()),
    ]);
}

#[test]
fn test_table_check_observer() {
    let mut store: Vec<Vec<u8>> = Vec::new();

    type Case = (Option<Vec<u8>>, Option<Vec<u8>>, Option<i64>);
    let check_cases = |store: &Vec<Vec<u8>>, cases: Vec<Case>| {
        for (encoded_start_key, encoded_end_key, table_id) in cases {
            let reg = region(encoded_start_key, encoded_end_key);
            let split_keys = run_split_check(store, reg);
            if let Some(id) = table_id {
                let key = gen_encoded_table_prefix(id);
                assert_eq!(split_keys, vec![key], "expect {:?}, but got {:?}", id, split_keys);
            } else {
                assert!(split_keys.is_empty(), "expect empty, but got {:?}", split_keys);
            }
        }
    };

    // arbitrary padding.
    let padding = b"_r00000005";

    // Put some tables
    // t1_xx, t3_xx
    for i in 1..4 {
        if i % 2 == 0 {
            // leave some space.
            continue;
        }
        let mut key = gen_table_prefix(i);
        key.extend_from_slice(padding);
        store.push(data_key(&encoded(&key)));
    }
    store.sort();

    check_cases(
        &store,
        vec![
            // ["", "") => t1
            (None, None, Some(1)),
            // ["t1", "") => t3
            (Some(gen_encoded_table_prefix(1)), None, Some(3)),
            // ["t1", "t5") => t3
            (
                Some(gen_encoded_table_prefix(1)),
                Some(gen_encoded_table_prefix(5)),
                Some(3),
            ),
            // ["t2", "t4") => t3
            (
                Some(gen_encoded_table_prefix(2)),
                Some(gen_encoded_table_prefix(4)),
                Some(3),
            ),
        ],
    );

    // Put some data to t3
    for i in 1..4 {
        let mut key = gen_table_prefix(3);
        key.extend_from_slice(format!("{:?}{}", padding, i).as_bytes());
        store.push(data_key(&encoded(&key)));
    }
    store.sort();

    check_cases(
        &store,
        vec![
            // ["t1", "") => t3
            (Some(gen_encoded_table_prefix(1)), None, Some(3)),
            // ["t3", "") => skip
            (Some(gen_encoded_table_prefix(3)), None, None),
            // ["t3", "t5") => skip
            (
                Some(gen_encoded_table_prefix(3)),
                Some(gen_encoded_table_prefix(5)),
                None,
            ),
        ],
    );

    // Put some data before t and after t.
    for i in 0..3 {
        // m is less than t and is the prefix of meta keys.
        let key = format!("m{:?}{}", padding, i);
        store.push(data_key(&encoded(key.as_bytes())));
        let key = format!("u{:?}{}", padding, i);
        store.push(data_key(&encoded(key.as_bytes())));
    }
    store.sort();

    check_cases(
        &store,
        vec![
            // ["", "") => t1
            (None, None, Some(1)),
            // ["", "t1"] => skip
            (None, Some(gen_encoded_table_prefix(1)), None),
            // ["", "t3"] => t1
            (None, Some(gen_encoded_table_prefix(3)), Some(1)),
            // ["", "s"] => skip
            (None, Some(b"s".to_vec()), None),
            // ["u", ""] => skip
            (Some(b"u".to_vec()), None, None),
            // ["t3", ""] => None
            (Some(gen_encoded_table_prefix(3)), None, None),
            // ["t1", ""] => t3
            (Some(gen_encoded_table_prefix(1)), None, Some(3)),
        ],
    );
}

#[test]
fn key_codec_round_trip() {
    let cases: Vec<Vec<u8>> = vec![
        vec![],
        vec![0x01],
        vec![0x01, 0x02, 0x03, 0x04, 0x05, 0x06, 0x07, 0x08],
        b"t_longer_than_one_group".to_vec(),
    ];
    for raw in cases {
        let enc = encode_key(&raw);
        assert_eq!(enc.len() % 9, 0);
        assert_eq!(decode_key(&enc), Some(raw));
    }
    // an eight-byte raw key takes two groups: one full, one all padding
    let enc = encode_key(&vec![1, 2, 3, 4, 5, 6, 7, 8]);
    assert_eq!(
        enc,
        vec![1, 2, 3, 4, 5, 6, 7, 8, 0xff, 0, 0, 0, 0, 0, 0, 0, 0, 0xf7]
    );
    // invalid encodings decode to nothing
    assert_eq!(decode_key(&vec![]), None);
    assert_eq!(decode_key(&vec![1, 2, 3]), None);
    assert_eq!(decode_key(&vec![1, 2, 3, 4, 5, 6, 7, 8, 0xff]), None);
    assert_eq!(decode_key(&vec![1, 2, 3, 4, 5, 6, 7, 8, 0x20]), None);
    assert_eq!(decode_key(&vec![1, 2, 3, 4, 5, 6, 7, 1, 0xfe]), None);
}

#[test]
fn table_key_predicates() {
    let t1 = gen_encoded_table_prefix(1);
    let t2 = gen_encoded_table_prefix(2);
    assert!(is_table_key(&t1));
    assert!(!is_table_key(&b"m_meta".to_vec()));
    assert!(!is_table_key(&b"t".to_vec()));
    assert!(is_same_table(&t1, &t1));
    assert!(!is_same_table(&t1, &t2));
    // a longer key of table 1 still shares its first ten encoded bytes
    let mut long_raw = gen_table_prefix(1);
    long_raw.extend_from_slice(b"_r00000005");
    let long_enc = encoded(&long_raw);
    assert!(is_same_table(&t1, &long_enc));
    assert_eq!(to_encoded_table_prefix(&long_enc), Some(t1.clone()));
    assert_eq!(to_encoded_table_prefix(&b"m_meta".to_vec()), None);
}

#[test]
fn encoding_preserves_key_order() {
    // byte-wise comparison of encoded keys agrees with raw key order
    let keys: Vec<Vec<u8>> = vec![
        vec![],
        vec![0x00],
        vec![0x00, 0x00],
        vec![0x01],
        vec![0x01, 0x00, 0x02],
        vec![0x01, 0x02, 0x03, 0x04, 0x05, 0x06, 0x07, 0x08],
        vec![0x01, 0x02, 0x03, 0x04, 0x05, 0x06, 0x07, 0x08, 0x00],
        vec![0x01, 0x02, 0x03, 0x04, 0x05, 0x06, 0x07, 0x09],
        b"t_table_row_key".to_vec(),
    ];
    for a in &keys {
        for b in &keys {
            let ea = encode_key(a);
            let eb = encode_key(b);
            assert_eq!(a.cmp(b), ea.cmp(&eb), "order differs for {:?} and {:?}", a, b);
        }
    }
}
