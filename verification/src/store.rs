//! The sharded in-memory store: a mapping from byte-sequence keys to
//! byte-sequence values, partitioned into independently usable shards.
//!
//! A deterministic hash of the key picks the owning shard, so a key's
//! shard assignment never changes for the lifetime of the store, and the
//! total key set is the disjoint union of the shards' key sets.

use vstd::prelude::*;

verus! {

/// Offset basis of the 64-bit FNV-1a hash.
pub const FNV_OFFSET: u64 = 0xcbf29ce484222325;

/// Multiplier of the 64-bit FNV-1a hash.
pub const FNV_PRIME: u64 = 0x100000001b3;

/// One step of FNV-1a: fold one byte into the running hash.
pub open spec fn fnv1a_step(h: u64, b: u8) -> u64 {
    (((h ^ (b as u64)) * (FNV_PRIME as u64)) % 0x10000000000000000) as u64
}

/// The 64-bit FNV-1a hash of a byte sequence: a fixed, deterministic
/// function, so a key hashes the same way for the lifetime of the store.
pub open spec fn spec_hash(s: Seq<u8>) -> u64
    decreases s.len(),
{
    if s.len() == 0 {
        FNV_OFFSET
    } else {
        fnv1a_step(spec_hash(s.drop_last()), s.last())
    }
}

/// The shard that owns a key: the key's hash, reduced modulo the shard
/// count.
pub open spec fn spec_shard_index(key: Seq<u8>, num_shards: int) -> int
    recommends
        num_shards > 0,
{
    spec_hash(key) as int % num_shards
}

/// Computes the deterministic 64-bit FNV-1a hash of `key`.
pub fn hash_bytes(key: &Vec<u8>) -> (h: u64)
    ensures
        h == spec_hash(key@),
{
    let mut h: u64 = FNV_OFFSET;
    let mut i: usize = 0;
    while i < key.len()
        invariant
            i <= key@.len(),
            h == spec_hash(key@.subrange(0, i as int)),
        decreases key@.len() - i,
    {
        let b = key[i];
        h = (h ^ (b as u64)).wrapping_mul(FNV_PRIME);
        proof {
            assert(key@.subrange(0, i + 1 as int).drop_last() =~= key@.subrange(0, i as int));
            assert(key@.subrange(0, i + 1 as int).last() == key@[i as int]);
        }
        i = i + 1;
    }
    proof {
        assert(key@.subrange(0, key@.len() as int) =~= key@);
    }
    h
}

/// The index of the shard that owns `key` in a store of `num_shards`
/// shards.
pub fn shard_of(key: &Vec<u8>, num_shards: usize) -> (i: usize)
    requires
        num_shards > 0,
    ensures
        i == spec_shard_index(key@, num_shards as int),
        i < num_shards,
{
    let h = hash_bytes(key);
    (h % (num_shards as u64)) as usize
}

/// One key-value pair held by a shard. Keys and values are arbitrary
/// byte sequences; there is no expiry and no versioning.
pub struct Entry {
    pub key: Vec<u8>,
    pub value: Vec<u8>,
}

/// The mapping that a sequence of entries represents: a later entry for
/// the same key overwrites an earlier one.
pub open spec fn entries_map(s: Seq<Entry>) -> Map<Seq<u8>, Seq<u8>>
    decreases s.len(),
{
    if s.len() == 0 {
        Map::empty()
    } else {
        entries_map(s.drop_last()).insert(s.last().key@, s.last().value@)
    }
}

/// No two entries share a key.
pub open spec fn keys_distinct(s: Seq<Entry>) -> bool {
    forall|i: int, j: int| 0 <= i < j < s.len() ==> s[i].key@ != s[j].key@
}

/// A key is in the represented mapping exactly when some entry holds it.
pub proof fn lemma_entries_map_contains(s: Seq<Entry>, k: Seq<u8>)
    ensures
        entries_map(s).contains_key(k) <==> exists|i: int| 0 <= i < s.len() && s[i].key@ == k,
    decreases s.len(),
{
    if s.len() > 0 {
        lemma_entries_map_contains(s.drop_last(), k);
        if s.last().key@ == k {
            assert(s[s.len() - 1].key@ == k);
        } else {
            if entries_map(s).contains_key(k) {
                let i = choose|i: int| 0 <= i < s.drop_last().len() && s.drop_last()[i].key@ == k;
                assert(s[i].key@ == k);
            }
            if exists|i: int| 0 <= i < s.len() && s[i].key@ == k {
                let i = choose|i: int| 0 <= i < s.len() && s[i].key@ == k;
                assert(s.drop_last()[i].key@ == k);
            }
        }
    }
}

/// With distinct keys, each entry's value is the one the mapping holds
/// for that entry's key.
pub proof fn lemma_entries_map_at(s: Seq<Entry>, i: int)
    requires
        keys_distinct(s),
        0 <= i < s.len(),
    ensures
        entries_map(s).contains_key(s[i].key@),
        entries_map(s)[s[i].key@] == s[i].value@,
    decreases s.len(),
{
    if i < s.len() - 1 {
        assert(keys_distinct(s.drop_last()));
        lemma_entries_map_at(s.drop_last(), i);
        assert(s.drop_last()[i] == s[i]);
        assert(s[i].key@ != s.last().key@);
    }
}

/// Replacing the value of the entry at `i` updates the represented
/// mapping at that entry's key alone.
pub proof fn lemma_entries_map_update(s: Seq<Entry>, i: int, e: Entry)
    requires
        keys_distinct(s),
        0 <= i < s.len(),
        e.key@ == s[i].key@,
    ensures
        entries_map(s.update(i, e)) =~= entries_map(s).insert(e.key@, e.value@),
    decreases s.len(),
{
    let t = s.update(i, e);
    if i == s.len() - 1 {
        assert(t.drop_last() =~= s.drop_last());
        assert(t.last() == e);
    } else {
        assert(keys_distinct(s.drop_last()));
        assert(t.drop_last() =~= s.drop_last().update(i, e));
        lemma_entries_map_update(s.drop_last(), i, e);
        assert(t.last() == s.last());
        assert(e.key@ != s.last().key@);
    }
}

/// One independently usable partition of the key space: a mapping from
/// keys to values, viewed as a `Map` over byte sequences.
pub struct Shard {
    entries: Vec<Entry>,
}

impl View for Shard {
    type V = Map<Seq<u8>, Seq<u8>>;

    closed spec fn view(&self) -> Map<Seq<u8>, Seq<u8>> {
        entries_map(self.entries@)
    }
}

impl Shard {
    /// Well-formed: no key occurs twice.
    pub closed spec fn wf(&self) -> bool {
        keys_distinct(self.entries@)
    }

    /// Creates an empty shard.
    pub fn new() -> (s: Shard)
        ensures
            s.wf(),
            s@ == Map::<Seq<u8>, Seq<u8>>::empty(),
    {
        Shard { entries: Vec::new() }
    }

    /// The position of the entry holding `key`, if any.
    fn find(&self, key: &Vec<u8>) -> (r: Option<usize>)
        ensures
            match r {
                Some(i) => i < self.entries@.len() && self.entries@[i as int].key@ == key@,
                None => forall|i: int|
                    0 <= i < self.entries@.len() ==> self.entries@[i].key@ != key@,
            },
    {
        let mut i: usize = 0;
        while i < self.entries.len()
            invariant
                i <= self.entries@.len(),
                forall|j: int| 0 <= j < i ==> self.entries@[j].key@ != key@,
            decreases self.entries@.len() - i,
        {
            if crate::bytes_eq(&self.entries[i].key, key) {
                return Some(i);
            }
            i = i + 1;
        }
        None
    }

    /// Looks `key` up; returns its value, or `None` when the key is
    /// absent.
    pub fn get(&self, key: &Vec<u8>) -> (r: Option<&Vec<u8>>)
        requires
            self.wf(),
        ensures
            match r {
                Some(v) => self@.contains_key(key@) && v@ == self@[key@],
                None => !self@.contains_key(key@),
            },
    {
        match self.find(key) {
            Some(i) => {
                proof {
                    lemma_entries_map_at(self.entries@, i as int);
                }
                Some(&self.entries[i].value)
            },
            None => {
                proof {
                    lemma_entries_map_contains(self.entries@, key@);
                }
                None
            },
        }
    }

    /// Inserts or overwrites the mapping for `key`.
    pub fn set(&mut self, key: Vec<u8>, value: Vec<u8>)
        requires
            old(self).wf(),
        ensures
            final(self).wf(),
            final(self)@ == old(self)@.insert(key@, value@),
    {
        let ghost s0 = self.entries@;
        match self.find(&key) {
            Some(i) => {
                let ghost e = Entry { key: key, value: value };
                self.entries[i] = Entry { key, value };
                proof {
                    assert(self.entries@ =~= s0.update(i as int, e));
                    lemma_entries_map_update(s0, i as int, e);
                    assert forall|p: int, q: int|
                        0 <= p < q < self.entries@.len() implies self.entries@[p].key@
                        != self.entries@[q].key@ by {
                        assert(s0[p].key@ != s0[q].key@);
                    }
                }
            },
            None => {
                self.entries.push(Entry { key, value });
                proof {
                    assert(self.entries@.drop_last() =~= s0);
                    lemma_entries_map_contains(s0, self.entries@.last().key@);
                    assert(final(self)@ =~= old(self)@.insert(key@, value@));
                }
            },
        }
    }
}

/// The whole store: a fixed-size collection of shards, sized at
/// construction. Every key lives in exactly the shard its hash picks, so
/// the store's key set is the disjoint union of the shards' key sets.
pub struct ShardedStore {
    shards: Vec<Shard>,
}

impl View for ShardedStore {
    type V = Map<Seq<u8>, Seq<u8>>;

    closed spec fn view(&self) -> Map<Seq<u8>, Seq<u8>> {
        Map::new(
            |k: Seq<u8>|
                self.shards@.len() > 0 && self.shards@[spec_shard_index(
                    k,
                    self.shards@.len() as int,
                )]@.contains_key(k),
            |k: Seq<u8>| self.shards@[spec_shard_index(k, self.shards@.len() as int)]@[k],
        )
    }
}

impl ShardedStore {
    /// The number of shards, fixed at construction.
    pub closed spec fn spec_num_shards(&self) -> int {
        self.shards@.len() as int
    }

    /// The shard the store keeps at position `i`, as a mapping.
    pub closed spec fn shard_at(&self, i: int) -> Map<Seq<u8>, Seq<u8>> {
        self.shards@[i]@
    }

    /// Well-formed: at least one shard, each shard well-formed, and every
    /// key held only by the shard its hash assigns it to.
    pub closed spec fn wf(&self) -> bool {
        &&& self.shards@.len() > 0
        &&& forall|i: int| 0 <= i < self.shards@.len() ==> (#[trigger] self.shards@[i]).wf()
        &&& forall|i: int, k: Seq<u8>|
            0 <= i < self.shards@.len() && (#[trigger] self.shards@[i]@.contains_key(k))
                ==> spec_shard_index(k, self.shards@.len() as int) == i
    }

    /// A key is in the store exactly when it is in its owning shard, and
    /// with the same value; the shard count is positive.
    pub proof fn lemma_view_shard(&self, k: Seq<u8>)
        requires
            self.wf(),
        ensures
            0 < self.spec_num_shards(),
            self@.contains_key(k) <==> self.shard_at(
                spec_shard_index(k, self.spec_num_shards()),
            ).contains_key(k),
            self@.contains_key(k) ==> self@[k] == self.shard_at(
                spec_shard_index(k, self.spec_num_shards()),
            )[k],
    {
    }

    /// Shards other than the owner never hold a key: the shards' key sets
    /// are pairwise disjoint.
    pub proof fn lemma_shards_disjoint(&self, i: int, j: int, k: Seq<u8>)
        requires
            self.wf(),
            0 <= i < self.spec_num_shards(),
            0 <= j < self.spec_num_shards(),
            i != j,
            self.shard_at(i).contains_key(k),
        ensures
            !self.shard_at(j).contains_key(k),
    {
    }

    /// The number of shards.
    pub fn num_shards(&self) -> (n: usize)
        ensures
            n == self.spec_num_shards(),
    {
        self.shards.len()
    }

    /// Looks `key` up in the shard its hash picks; no other shard is
    /// touched. Returns the value, or `None` when the key was never set
    /// or, equivalently, is absent from the store.
    pub fn get(&self, key: &Vec<u8>) -> (r: Option<&Vec<u8>>)
        requires
            self.wf(),
        ensures
            match r {
                Some(v) => self@.contains_key(key@) && v@ == self@[key@],
                None => !self@.contains_key(key@),
            },
    {
        let idx = shard_of(key, self.shards.len());
        self.shards[idx].get(key)
    }

    /// Inserts or overwrites the mapping for `key` in the shard its hash
    /// picks; every other shard is left untouched.
    pub fn set(&mut self, key: Vec<u8>, value: Vec<u8>)
        requires
            old(self).wf(),
        ensures
            final(self).wf(),
            final(self)@ == old(self)@.insert(key@, value@),
            final(self).spec_num_shards() == old(self).spec_num_shards(),
            forall|j: int|
                0 <= j < old(self).spec_num_shards() && j != spec_shard_index(
                    key@,
                    old(self).spec_num_shards(),
                ) ==> final(self).shard_at(j) == old(self).shard_at(j),
    {
        let ghost s0 = *self;
        let ghost n = self.shards@.len() as int;
        let idx = shard_of(&key, self.shards.len());
        let shard = &mut self.shards[idx];
        shard.set(key, value);
        proof {
            assert forall|j: int| 0 <= j < n && j != idx implies self.shards@[j] == s0.shards@[j]
                by {}
            assert forall|i: int, k: Seq<u8>|
                0 <= i < n && (#[trigger] self.shards@[i]@.contains_key(k)) implies
                spec_shard_index(k, n) == i by {
                if i == idx {
                    if k != key@ {
                        assert(s0.shards@[i]@.contains_key(k));
                    }
                } else {
                    assert(s0.shards@[i]@.contains_key(k));
                }
            }
            assert(self@ =~= s0@.insert(key@, value@)) by {
                assert forall|k: Seq<u8>| true implies (self@.contains_key(k) <==> s0@.insert(
                    key@,
                    value@,
                ).contains_key(k)) && (self@.contains_key(k) ==> self@[k] == s0@.insert(
                    key@,
                    value@,
                )[k]) by {
                    let ki = spec_shard_index(k, n);
                    if k == key@ {
                    } else {
                        if ki == idx {
                            assert(self.shards@[ki]@ == s0.shards@[ki]@.insert(key@, value@));
                        } else {
                            assert(self.shards@[ki]@ == s0.shards@[ki]@);
                        }
                    }
                }
            }
        }
    }
}

/// Creates a store of `num_shards` empty shards. The shard count is
/// immutable afterwards, so a key's shard assignment never changes for
/// the lifetime of the store.
pub fn new_sharded_db(num_shards: usize) -> (db: ShardedStore)
    requires
        num_shards > 0,
    ensures
        db.wf(),
        db@ == Map::<Seq<u8>, Seq<u8>>::empty(),
        db.spec_num_shards() == num_shards,
{
    let mut shards: Vec<Shard> = Vec::new();
    let mut i: usize = 0;
    while i < num_shards
        invariant
            i <= num_shards,
            shards@.len() == i,
            forall|j: int|
                0 <= j < i ==> (#[trigger] shards@[j]).wf() && shards@[j]@ == Map::<
                    Seq<u8>,
                    Seq<u8>,
                >::empty(),
        decreases num_shards - i,
    {
        shards.push(Shard::new());
        i = i + 1;
    }
    let db = ShardedStore { shards };
    proof {
        assert(db@ =~= Map::<Seq<u8>, Seq<u8>>::empty());
    }
    db
}

} // verus!
