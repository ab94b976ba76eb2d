use my_redis::command::{handle_request, Command, Reply, Request};
use my_redis::store::{hash_bytes, new_sharded_db, shard_of, Shard};

#[test]
fn get_unset_key_absent() {
    let db = new_sharded_db(8);
    assert_eq!(db.get(&b"never".to_vec()), None);
}

#[test]
fn get_unset_key_absent_after_other_sets() {
    let mut db = new_sharded_db(8);
    db.set(b"a".to_vec(), b"1".to_vec());
    db.set(b"b".to_vec(), b"2".to_vec());
    assert_eq!(db.get(&b"never".to_vec()), None);
    let r = handle_request(&mut db, Request::Cmd(Command::Get { key: b"never".to_vec() }));
    assert_eq!(r, Reply::Absent);
}

#[test]
fn set_then_get_roundtrip() {
    let mut db = new_sharded_db(4);
    db.set(b"hello".to_vec(), b"world".to_vec());
    assert_eq!(db.get(&b"hello".to_vec()), Some(&b"world".to_vec()));
}

#[test]
fn set_then_get_via_handler() {
    let mut db = new_sharded_db(4);
    let r1 = handle_request(
        &mut db,
        Request::Cmd(Command::Put {
            key: b"hello".to_vec(),
            value: b"world".to_vec(),
        }),
    );
    assert_eq!(r1, Reply::Done);
    let r2 = handle_request(&mut db, Request::Cmd(Command::Get { key: b"hello".to_vec() }));
    assert_eq!(r2, Reply::Value(b"world".to_vec()));
}

#[test]
fn overwrite_last_wins() {
    let mut db = new_sharded_db(4);
    db.set(b"k".to_vec(), b"first".to_vec());
    db.set(b"k".to_vec(), b"second".to_vec());
    assert_eq!(db.get(&b"k".to_vec()), Some(&b"second".to_vec()));
}

#[test]
fn empty_value_is_a_real_value() {
    let mut db = new_sharded_db(4);
    db.set(b"k".to_vec(), Vec::new());
    assert_eq!(db.get(&b"k".to_vec()), Some(&Vec::new()));
    let r = handle_request(&mut db, Request::Cmd(Command::Get { key: b"k".to_vec() }));
    assert_eq!(r, Reply::Value(Vec::new()));
    assert_ne!(r, Reply::Absent);
}

#[test]
fn empty_key_works() {
    let mut db = new_sharded_db(4);
    db.set(Vec::new(), b"v".to_vec());
    assert_eq!(db.get(&Vec::new()), Some(&b"v".to_vec()));
}

#[test]
fn unrecognized_request_gets_error_reply() {
    let mut db = new_sharded_db(4);
    db.set(b"k".to_vec(), b"v".to_vec());
    let r = handle_request(&mut db, Request::Unrecognized);
    assert_eq!(r, Reply::Error);
    // the store is untouched and keeps serving
    assert_eq!(db.get(&b"k".to_vec()), Some(&b"v".to_vec()));
}

#[test]
fn hash_is_deterministic() {
    let k = b"some key".to_vec();
    assert_eq!(hash_bytes(&k), hash_bytes(&k.clone()));
    assert_eq!(shard_of(&k, 16), shard_of(&k, 16));
    assert!(shard_of(&k, 16) < 16);
    // distinct from the empty key's hash, and the empty key hashes to the
    // FNV-1a offset basis
    assert_eq!(hash_bytes(&Vec::new()), 0xcbf29ce484222325);
    assert_ne!(hash_bytes(&k), hash_bytes(&Vec::new()));
    // the published FNV-1a test vector for "a"
    assert_eq!(hash_bytes(&b"a".to_vec()), 0xaf63dc4c8601ec8c);
}

#[test]
fn keys_in_different_shards_commute() {
    // find two keys owned by different shards
    let shards = 4usize;
    let k1 = b"alpha".to_vec();
    let mut k2 = b"beta0".to_vec();
    let mut suffix = 0u8;
    while shard_of(&k2, shards) == shard_of(&k1, shards) {
        suffix += 1;
        k2 = vec![b'b', b'e', b't', b'a', suffix];
    }
    let mut db1 = new_sharded_db(shards);
    db1.set(k1.clone(), b"1".to_vec());
    db1.set(k2.clone(), b"2".to_vec());
    let mut db2 = new_sharded_db(shards);
    db2.set(k2.clone(), b"2".to_vec());
    db2.set(k1.clone(), b"1".to_vec());
    assert_eq!(db1.get(&k1), db2.get(&k1));
    assert_eq!(db1.get(&k2), db2.get(&k2));
    assert_eq!(db1.get(&k1), Some(&b"1".to_vec()));
    assert_eq!(db1.get(&k2), Some(&b"2".to_vec()));
}

#[test]
fn shard_alone_stores_and_overwrites() {
    let mut s = Shard::new();
    assert_eq!(s.get(&b"x".to_vec()), None);
    s.set(b"x".to_vec(), b"1".to_vec());
    s.set(b"y".to_vec(), b"2".to_vec());
    s.set(b"x".to_vec(), b"3".to_vec());
    assert_eq!(s.get(&b"x".to_vec()), Some(&b"3".to_vec()));
    assert_eq!(s.get(&b"y".to_vec()), Some(&b"2".to_vec()));
}

#[test]
fn hundred_distinct_keys_roundtrip() {
    let mut db = new_sharded_db(8);
    for i in 0..100u32 {
        let key = format!("k_{i}").into_bytes();
        let value = format!("v_{i}").into_bytes();
        db.set(key, value);
    }
    for i in 0..100u32 {
        let key = format!("k_{i}").into_bytes();
        let expected = format!("v_{i}").into_bytes();
        assert_eq!(db.get(&key), Some(&expected));
    }
}
