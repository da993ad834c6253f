//! Chained hash table from `i64` keys to `i64` values, with a fixed number of
//! buckets chosen at construction.
use vstd::prelude::*;

verus! {

/// Odd multiplier of the bucket mixing function.
pub const HASH_MULTIPLIER: u64 = 2654435761;

/// The bucket of `key` among `bucket_count` buckets: the key's bit pattern read
/// as unsigned, multiplied by `HASH_MULTIPLIER` modulo 2^64, then reduced
/// modulo `bucket_count`.
pub open spec fn bucket_of(key: i64, bucket_count: int) -> int {
    ((key as u64) as int * HASH_MULTIPLIER as int) % 0x1_0000_0000_0000_0000int % bucket_count
}

/// What a lookup of `key` in a table whose contents are `m` returns.
pub open spec fn lookup_result(m: Map<i64, i64>, key: i64) -> Option<i64> {
    if m.contains_key(key) {
        Some(m[key])
    } else {
        None
    }
}

/// One key/value pair of a chain.
#[derive(Clone, Copy, Debug)]
pub struct Entry {
    pub key: i64,
    pub value: i64,
}

/// A table of `bucket_count` chains. Each key lies in the chain that
/// `bucket_of` names for it, and in no other place.
pub struct HashTable {
    buckets: Vec<Vec<Entry>>,
    bucket_count: usize,
    size: u64,
    contents: Ghost<Map<i64, i64>>,
}

impl View for HashTable {
    type V = Map<i64, i64>;

    closed spec fn view(&self) -> Map<i64, i64> {
        self.contents@
    }
}

proof fn lemma_bucket_in_range(key: i64, bucket_count: int)
    requires
        bucket_count > 0,
    ensures
        0 <= bucket_of(key, bucket_count) < bucket_count,
{
    let h = ((key as u64) as int * HASH_MULTIPLIER as int) % 0x1_0000_0000_0000_0000int;
    assert(0 <= h % bucket_count < bucket_count) by (nonlinear_arith)
        requires
            bucket_count > 0,
    ;
}

/// What inserting `value` under `key` into `pre` leaves: `key` bound to
/// `value`, the other keys as they were, the same bucket count, and one more
/// key only where `key` was absent.
pub open spec fn insert_outcome(pre: HashTable, post: HashTable, key: i64, value: i64) -> bool {
    &&& post@ == pre@.insert(key, value)
    &&& post.spec_bucket_count() == pre.spec_bucket_count()
    &&& post.spec_size() == pre.spec_size() + (if pre@.contains_key(key) {
        0int
    } else {
        1int
    })
}

/// Inserting a key that is already present, with any value, replaces its
/// value and leaves the size as it was.
pub proof fn lemma_reinsert_keeps_size(
    t0: HashTable,
    t1: HashTable,
    t2: HashTable,
    key: i64,
    v1: i64,
    v2: i64,
)
    requires
        insert_outcome(t0, t1, key, v1),
        insert_outcome(t1, t2, key, v2),
    ensures
        t2.spec_size() == t1.spec_size(),
        t2@.contains_key(key),
        t2@[key] == v2,
        t2@.dom() == t1@.dom(),
{
    assert(t2@.dom() =~= t1@.dom());
}

/// Bucket placement depends on the key and the bucket count alone: two
/// well-formed tables with the same bucket count put a key in the same
/// bucket, and that bucket exists in both.
pub proof fn lemma_hash_deterministic(a: HashTable, b: HashTable, key: i64)
    requires
        a.wf(),
        b.wf(),
        a.spec_bucket_count() == b.spec_bucket_count(),
    ensures
        bucket_of(key, a.spec_bucket_count() as int) == bucket_of(key, b.spec_bucket_count() as int),
        0 <= bucket_of(key, a.spec_bucket_count() as int) < a.spec_bucket_count(),
{
    a.lemma_wf_bucket_count();
    lemma_bucket_in_range(key, a.spec_bucket_count() as int);
}

impl HashTable {
    /// A well-formed table has at least one bucket.
    pub proof fn lemma_wf_bucket_count(&self)
        requires
            self.wf(),
        ensures
            self.spec_bucket_count() > 0,
    {
    }

    /// The number of buckets, fixed at construction.
    pub closed spec fn spec_bucket_count(&self) -> nat {
        self.bucket_count as nat
    }

    /// The number of distinct keys stored.
    pub closed spec fn spec_size(&self) -> nat {
        self.size as nat
    }

    closed spec fn chain(&self, b: int) -> Seq<Entry> {
        self.buckets@[b]@
    }

    /// Well-formedness: chains sit where the hash puts their keys, no key
    /// occurs twice, and the chains hold exactly the abstract map.
    pub closed spec fn wf(&self) -> bool {
        &&& self.bucket_count > 0
        &&& self.buckets@.len() == self.bucket_count
        &&& self.contents@.dom().finite()
        &&& self.size == self.contents@.dom().len()
        &&& forall|b: int, j: int|
            0 <= b < self.buckets@.len() && 0 <= j < self.chain(b).len() ==> {
                let e = #[trigger] self.chain(b)[j];
                &&& bucket_of(e.key, self.bucket_count as int) == b
                &&& self.contents@.contains_key(e.key)
                &&& self.contents@[e.key] == e.value
            }
        &&& forall|b: int, i: int, j: int|
            0 <= b < self.buckets@.len() && 0 <= i < self.chain(b).len() && 0 <= j
                < self.chain(b).len() && i != j ==> #[trigger] self.chain(b)[i].key
                != #[trigger] self.chain(b)[j].key
        &&& forall|k: i64| #[trigger]
            self.contents@.contains_key(k) ==> exists|j: int|
                0 <= j < self.chain(bucket_of(k, self.bucket_count as int)).len()
                    && #[trigger] self.chain(bucket_of(k, self.bucket_count as int))[j].key
                    == k
    }

    /// An empty table of `bucket_count` buckets.
    pub fn mc_new(bucket_count: usize) -> (r: HashTable)
        requires
            bucket_count > 0,
        ensures
            r.wf(),
            r@ == Map::<i64, i64>::empty(),
            r.spec_bucket_count() == bucket_count,
            r.spec_size() == 0,
    {
        let mut buckets: Vec<Vec<Entry>> = Vec::new();
        let mut i: usize = 0;
        while i < bucket_count
            invariant
                i <= bucket_count,
                buckets@.len() == i,
                forall|b: int| 0 <= b < i ==> (#[trigger] buckets@[b])@.len() == 0,
            decreases bucket_count - i,
        {
            buckets.push(Vec::new());
            i = i + 1;
        }
        let r = HashTable {
            buckets,
            bucket_count,
            size: 0,
            contents: Ghost(Map::empty()),
        };
        assert(r.contents@.dom() =~= Set::empty());
        r
    }

    /// The bucket that `key` belongs to.
    pub fn mc_hash(&self, key: i64) -> (r: usize)
        requires
            self.wf(),
        ensures
            r == bucket_of(key, self.spec_bucket_count() as int),
            r < self.spec_bucket_count(),
    {
        proof {
            lemma_bucket_in_range(key, self.bucket_count as int);
        }
        let h: u64 = (key as u64).wrapping_mul(HASH_MULTIPLIER);
        (h % (self.bucket_count as u64)) as usize
    }

    /// The value stored under `key`, if any.
    pub fn mc_lookup(&self, key: i64) -> (r: Option<i64>)
        requires
            self.wf(),
        ensures
            r == lookup_result(self@, key),
    {
        let idx = self.mc_hash(key);
        match find_in_chain(&self.buckets[idx], key) {
            Some(j) => {
                assert(self.chain(idx as int)[j as int].key == key);
                Some(self.buckets[idx][j].value)
            },
            None => {
                proof {
                    if self@.contains_key(key) {
                        let w = choose|w: int|
                            0 <= w < self.chain(bucket_of(key, self.bucket_count as int)).len()
                                && #[trigger] self.chain(
                                bucket_of(key, self.bucket_count as int),
                            )[w].key == key;
                        assert(self.buckets@[idx as int]@[w].key == key);
                    }
                }
                None
            },
        }
    }

    /// The number of distinct keys stored.
    pub fn size(&self) -> (r: u64)
        ensures
            r == self.spec_size(),
    {
        self.size
    }

    /// The number of buckets.
    pub fn bucket_count(&self) -> (r: usize)
        ensures
            r == self.spec_bucket_count(),
    {
        self.bucket_count
    }

    /// Upsert: a present key gets the new value in place; an absent one is
    /// added to its chain and the size grows by one.
    pub fn mc_insert(&mut self, key: i64, value: i64)
        requires
            old(self).wf(),
            old(self).spec_size() < u64::MAX,
        ensures
            final(self).wf(),
            insert_outcome(*old(self), *final(self), key, value),
    {
        let idx = self.mc_hash(key);
        let pos = find_in_chain(&self.buckets[idx], key);
        let ghost pre = *self;
        let ghost pre_buckets = self.buckets@;
        let ghost pre_chain = self.buckets@[idx as int]@;
        let ghost pre_map = self.contents@;
        let ghost bc = self.bucket_count as int;
        proof {
            if pre_map.contains_key(key) && pos.is_none() {
                let w = choose|w: int|
                    0 <= w < self.chain(bucket_of(key, bc)).len()
                        && #[trigger] self.chain(bucket_of(key, bc))[w].key == key;
                assert(pre_chain[w].key == key);
            }
            if pos.is_some() {
                assert(pre_chain[pos.unwrap() as int].key == key);
            }
        }
        let mut chain: Vec<Entry> = Vec::new();
        self.buckets.set_and_swap(idx, &mut chain);
        match pos {
            Some(j) => {
                chain.set(j, Entry { key, value });
            },
            None => {
                chain.push(Entry { key, value });
                self.size = self.size + 1;
            },
        }
        self.buckets.set_and_swap(idx, &mut chain);
        self.contents = Ghost(pre_map.insert(key, value));
        proof {
            assert(self.buckets@ == pre_buckets.update(idx as int, self.buckets@[idx as int]));
            if pos.is_none() {
                assert(!pre_map.dom().contains(key));
                assert(self.contents@.dom() == pre_map.dom().insert(key));
            } else {
                assert(self.contents@.dom() =~= pre_map.dom());
            }
            assert forall|b: int, j: int|
                0 <= b < self.buckets@.len() && 0 <= j < self.chain(b).len() implies {
                let e = #[trigger] self.chain(b)[j];
                &&& bucket_of(e.key, bc) == b
                &&& self.contents@.contains_key(e.key)
                &&& self.contents@[e.key] == e.value
            } by {
                if b != idx {
                    assert(self.chain(b) == pre.chain(b));
                    assert(pre.chain(b)[j] == self.chain(b)[j]);
                } else if j < pre_chain.len() && (pos.is_none() || j != pos.unwrap()) {
                    assert(pre.chain(b)[j] == self.chain(b)[j]);
                    if pos.is_some() {
                        assert(pre.chain(b)[pos.unwrap() as int].key == key);
                    }
                    assert(pre.chain(b)[j].key != key);
                }
            }
            assert forall|b: int, i: int, j: int|
                0 <= b < self.buckets@.len() && 0 <= i < self.chain(b).len() && 0 <= j
                    < self.chain(b).len() && i != j implies #[trigger] self.chain(b)[i].key
                != #[trigger] self.chain(b)[j].key by {
                if b != idx {
                    assert(self.chain(b) == pre.chain(b));
                    assert(pre.chain(b)[i] == self.chain(b)[i]);
                    assert(pre.chain(b)[j] == self.chain(b)[j]);
                } else {
                    if i < pre_chain.len() {
                        assert(pre.chain(b)[i].key == self.chain(b)[i].key);
                    }
                    if j < pre_chain.len() {
                        assert(pre.chain(b)[j].key == self.chain(b)[j].key);
                    }
                }
            }
            assert forall|k: i64| #[trigger]
                self.contents@.contains_key(k) implies exists|j: int|
                0 <= j < self.chain(bucket_of(k, bc)).len() && #[trigger] self.chain(
                    bucket_of(k, bc),
                )[j].key == k by {
                lemma_bucket_in_range(k, bc);
                if k == key {
                    match pos {
                        Some(p) => {
                            assert(self.chain(idx as int)[p as int].key == k);
                        },
                        None => {
                            assert(self.chain(idx as int)[pre_chain.len() as int].key == k);
                        },
                    }
                } else {
                    let b = bucket_of(k, bc);
                    assert(pre.contents@.contains_key(k));
                    let w = choose|w: int|
                        0 <= w < pre.chain(b).len() && #[trigger] pre.chain(b)[w].key == k;
                    assert(self.chain(b)[w].key == k);
                }
            }
        }
    }
}

/// The position of `key` in `chain`, if it occurs there.
fn find_in_chain(chain: &Vec<Entry>, key: i64) -> (r: Option<usize>)
    ensures
        match r {
            Some(j) => j < chain@.len() && chain@[j as int].key == key,
            None => forall|i: int| 0 <= i < chain@.len() ==> (#[trigger] chain@[i]).key != key,
        },
{
    let mut j: usize = 0;
    while j < chain.len()
        invariant
            j <= chain@.len(),
            forall|i: int| 0 <= i < j ==> (#[trigger] chain@[i]).key != key,
        decreases chain@.len() - j,
    {
        if chain[j].key == key {
            return Some(j);
        }
        j = j + 1;
    }
    None
}

} // verus!
