use mcfrier::table::HashTable;

#[test]
fn new_table_is_empty() {
    let t = HashTable::mc_new(16);
    assert_eq!(t.size(), 0);
    assert_eq!(t.bucket_count(), 16);
    assert_eq!(t.mc_lookup(0), None);
    assert_eq!(t.mc_lookup(-7), None);
}

#[test]
fn insert_then_lookup_returns_value() {
    let mut t = HashTable::mc_new(8);
    t.mc_insert(3, 30);
    t.mc_insert(-4, 40);
    assert_eq!(t.mc_lookup(3), Some(30));
    assert_eq!(t.mc_lookup(-4), Some(40));
    assert_eq!(t.mc_lookup(5), None);
    assert_eq!(t.size(), 2);
}

#[test]
fn reinsert_updates_value_keeps_size() {
    let mut t = HashTable::mc_new(4);
    t.mc_insert(10, 1);
    t.mc_insert(11, 2);
    assert_eq!(t.size(), 2);
    t.mc_insert(10, 99);
    assert_eq!(t.size(), 2);
    assert_eq!(t.mc_lookup(10), Some(99));
    assert_eq!(t.mc_lookup(11), Some(2));
}

#[test]
fn colliding_keys_share_a_bucket() {
    // One bucket: every key chains in it.
    let mut t = HashTable::mc_new(1);
    for k in 0..50i64 {
        t.mc_insert(k, k + 100);
    }
    assert_eq!(t.size(), 50);
    for k in 0..50i64 {
        assert_eq!(t.mc_lookup(k), Some(k + 100));
    }
    assert_eq!(t.mc_lookup(50), None);
}

#[test]
fn hash_values_are_exact() {
    let t = HashTable::mc_new(1024);
    assert_eq!(t.mc_hash(0), 0);
    assert_eq!(t.mc_hash(1), 433);
    assert_eq!(t.mc_hash(2), 866);
    assert_eq!(t.mc_hash(1000), 872);
    assert_eq!(t.mc_hash(-1), 591);
    let s = HashTable::mc_new(7);
    assert_eq!(s.mc_hash(1), 5);
    assert_eq!(s.mc_hash(-1), 4);
}

#[test]
fn hash_is_deterministic() {
    let a = HashTable::mc_new(1024);
    let mut b = HashTable::mc_new(1024);
    b.mc_insert(5, 5);
    for k in [-3i64, 0, 17, 123456789, i64::MAX, i64::MIN] {
        assert_eq!(a.mc_hash(k), a.mc_hash(k));
        assert_eq!(a.mc_hash(k), b.mc_hash(k));
        assert!(a.mc_hash(k) < 1024);
    }
}

#[test]
fn extreme_keys_are_stored() {
    let mut t = HashTable::mc_new(3);
    t.mc_insert(i64::MIN, i64::MAX);
    t.mc_insert(i64::MAX, i64::MIN);
    assert_eq!(t.mc_lookup(i64::MIN), Some(i64::MAX));
    assert_eq!(t.mc_lookup(i64::MAX), Some(i64::MIN));
}
