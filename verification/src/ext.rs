//! A lookup extension keyed by a probe type that is hash-compatible
//! with the stored key type, together with the minimal hash table it
//! runs over: a chained table whose entries are found by a
//! precomputed hash plus an equality predicate, so that a probe value
//! never has to be converted into the stored key type.

use crate::HashEq;
use std::hash::Hash;
use vstd::multiset::Multiset;
use vstd::prelude::*;
use vstd::std_specs::cmp::PartialEqSpec;

verus! {

/// The multiset of entries held by a sequence of buckets.
pub open spec fn table_ms<K, V>(bs: Seq<Vec<(u64, K, V)>>) -> Multiset<(u64, K, V)>
    decreases bs.len(),
{
    if bs.len() == 0 {
        Multiset::empty()
    } else {
        table_ms(bs.drop_last()).add(bs.last()@.to_multiset())
    }
}

/// An entry of `table_ms` is exactly an entry of one of the buckets.
proof fn lemma_table_ms_contains<K, V>(bs: Seq<Vec<(u64, K, V)>>)
    ensures
        forall|e: (u64, K, V)|
            #[trigger] table_ms(bs).contains(e) <==> exists|b: int, i: int|
                0 <= b < bs.len() && 0 <= i < bs[b]@.len() && bs[b]@[i] == e,
    decreases bs.len(),
{
    broadcast use vstd::seq_lib::group_to_multiset_ensures;

    if bs.len() > 0 {
        lemma_table_ms_contains(bs.drop_last());
        assert forall|e: (u64, K, V)| #[trigger] table_ms(bs).contains(e) implies exists|
            b: int,
            i: int,
        | 0 <= b < bs.len() && 0 <= i < bs[b]@.len() && bs[b]@[i] == e by {
            if table_ms(bs.drop_last()).contains(e) {
            } else {
                assert(bs.last()@.to_multiset().contains(e));
                assert(bs.last()@.contains(e));
                let i = choose|i: int| 0 <= i < bs.last()@.len() && bs.last()@[i] == e;
                assert(bs[bs.len() - 1]@[i] == e);
            }
        }
        assert forall|e: (u64, K, V)|
            exists|b: int, i: int|
                0 <= b < bs.len() && 0 <= i < bs[b]@.len() && bs[b]@[i]
                    == e implies #[trigger] table_ms(bs).contains(e) by {
            let (b, i) = choose|b: int, i: int|
                0 <= b < bs.len() && 0 <= i < bs[b]@.len() && bs[b]@[i] == e;
            if b == bs.len() - 1 {
                assert(bs.last()@.contains(e));
                assert(bs.last()@.to_multiset().contains(e));
            } else {
                assert(bs.drop_last()[b]@[i] == e);
                assert(table_ms(bs.drop_last()).contains(e));
            }
        }
    }
}

/// Pushing one entry onto one bucket adds exactly that entry to the
/// table's contents.
proof fn lemma_table_ms_push<K, V>(bs: Seq<Vec<(u64, K, V)>>, bs2: Seq<Vec<(u64, K, V)>>, b: int, e: (u64, K, V))
    requires
        0 <= b < bs.len(),
        bs2.len() == bs.len(),
        bs2[b]@ == bs[b]@.push(e),
        forall|k: int| 0 <= k < bs.len() && k != b ==> bs2[k] == bs[k],
    ensures
        table_ms(bs2) == table_ms(bs).insert(e),
    decreases bs.len(),
{
    broadcast use vstd::seq_lib::group_to_multiset_ensures;

    if b == bs.len() - 1 {
        assert(bs2.drop_last() =~= bs.drop_last());
        assert(bs2.last()@.to_multiset() == bs.last()@.to_multiset().insert(e));
        assert(table_ms(bs.drop_last()).add(bs.last()@.to_multiset().insert(e)) =~= table_ms(
            bs.drop_last(),
        ).add(bs.last()@.to_multiset()).insert(e));
    } else {
        lemma_table_ms_push(bs.drop_last(), bs2.drop_last(), b, e);
        assert(bs2.last() == bs.last());
        assert(table_ms(bs.drop_last()).insert(e).add(bs.last()@.to_multiset()) =~= table_ms(
            bs.drop_last(),
        ).add(bs.last()@.to_multiset()).insert(e));
    }
}

/// Replacing one entry of one bucket removes the old entry from the
/// table's contents and adds the new one.
proof fn lemma_table_ms_update<K, V>(
    bs: Seq<Vec<(u64, K, V)>>,
    bs2: Seq<Vec<(u64, K, V)>>,
    b: int,
    i: int,
    e: (u64, K, V),
)
    requires
        0 <= b < bs.len(),
        0 <= i < bs[b]@.len(),
        bs2.len() == bs.len(),
        bs2[b]@ == bs[b]@.update(i, e),
        forall|k: int| 0 <= k < bs.len() && k != b ==> bs2[k] == bs[k],
    ensures
        table_ms(bs2) == table_ms(bs).remove(bs[b]@[i]).insert(e),
    decreases bs.len(),
{
    broadcast use vstd::seq_lib::group_to_multiset_ensures;

    let old_e = bs[b]@[i];
    if b == bs.len() - 1 {
        assert(bs2.drop_last() =~= bs.drop_last());
        assert(bs2.last()@.to_multiset() == bs.last()@.to_multiset().remove(old_e).insert(e));
        assert(bs.last()@.to_multiset().contains(old_e));
        assert(table_ms(bs.drop_last()).add(bs.last()@.to_multiset().remove(old_e).insert(e))
            =~= table_ms(bs.drop_last()).add(bs.last()@.to_multiset()).remove(old_e).insert(e));
    } else {
        lemma_table_ms_update(bs.drop_last(), bs2.drop_last(), b, i, e);
        assert(bs2.last() == bs.last());
        assert(table_ms(bs.drop_last()).contains(old_e)) by {
            lemma_table_ms_contains(bs.drop_last());
            assert(bs.drop_last()[b]@[i] == old_e);
        }
        assert(table_ms(bs.drop_last()).remove(old_e).insert(e).add(bs.last()@.to_multiset())
            =~= table_ms(bs.drop_last()).add(bs.last()@.to_multiset()).remove(old_e).insert(e));
    }
}

/// Some entry is stored under hash `h` whose key the probe `q`
/// compares equal to (under `Q`'s own notion of equality), with
/// `v_old` as its value.
pub open spec fn hash_match<Q: PartialEq<K>, K, V>(
    ms: Multiset<(u64, K, V)>,
    h: u64,
    q: Q,
    v_old: V,
) -> bool {
    exists|k: K|
        #![trigger ms.contains((h, k, v_old))]
        (Q::obeys_eq_spec() ==> q.eq_spec(&k)) && ms.contains((h, k, v_old))
}

/// The table's contents changed by exactly one value update: some
/// entry `(h, k, v_old)` whose key the probe `q` compares equal to
/// became `(h, k, v_new)`, and nothing else changed.
pub open spec fn value_updated<Q: PartialEq<K>, K, V>(
    pre: Multiset<(u64, K, V)>,
    post: Multiset<(u64, K, V)>,
    h: u64,
    q: Q,
    v_old: V,
    v_new: V,
) -> bool {
    exists|k: K|
        #![trigger pre.contains((h, k, v_old))]
        {
            &&& (Q::obeys_eq_spec() ==> q.eq_spec(&k))
            &&& pre.contains((h, k, v_old))
            &&& post == pre.remove((h, k, v_old)).insert((h, k, v_new))
        }
}

/// Some entry whose key the probe `q` compares equal to, stored
/// under the probe's own hash with `v_old` as its value, had its
/// value replaced by `v_new`, and nothing else changed.
pub open spec fn probe_updated<Q: PartialEq<K>, K, V>(
    pre: Multiset<(u64, K, V)>,
    post: Multiset<(u64, K, V)>,
    q: Q,
    v_old: V,
    v_new: V,
) -> bool {
    exists|h: u64|
        #![trigger hash_match(pre, h, q, v_old)]
        hash_match(pre, h, q, v_old) && value_updated(pre, post, h, q, v_old, v_new)
}

/// A minimal chained hash table: entries are stored under a caller-
/// supplied 64-bit hash and found again by that hash plus an
/// equality predicate over the stored key, so a lookup never needs a
/// value of the key type itself.
///
/// The table does not resize and does not deduplicate keys: it is
/// the substrate for hash-plus-predicate lookups, not a general map.
pub struct RawTable<K, V> {
    buckets: Vec<Vec<(u64, K, V)>>,
}

impl<K, V> RawTable<K, V> {
    /// The table is consistent: it has at least one bucket, and
    /// every entry sits in the bucket its stored hash selects.
    pub closed spec fn wf(&self) -> bool {
        &&& self.buckets@.len() >= 1
        &&& forall|b: int, i: int|
            0 <= b < self.buckets@.len() && 0 <= i < self.buckets@[b]@.len()
                ==> (#[trigger] self.buckets@[b]@[i]).0 as int % self.buckets@.len() as int == b
    }

    /// The entries the table holds: stored hash, key and value, with
    /// multiplicity but without meaningful order.
    pub closed spec fn entries(&self) -> Multiset<(u64, K, V)> {
        table_ms(self.buckets@)
    }

    /// An empty table.
    pub fn new() -> (r: Self)
        ensures
            r.wf(),
            r.entries() == Multiset::<(u64, K, V)>::empty(),
    {
        let mut buckets: Vec<Vec<(u64, K, V)>> = Vec::new();
        let mut b: usize = 0;
        while b < 61
            invariant
                buckets@.len() == b,
                b <= 61,
                forall|k: int| 0 <= k < b ==> (#[trigger] buckets@[k])@.len() == 0,
            decreases 61 - b,
        {
            buckets.push(Vec::new());
            b = b + 1;
        }
        proof {
            lemma_table_ms_contains(buckets@);
            assert forall|e: (u64, K, V)| table_ms(buckets@).count(e) == 0 by {
                assert(!table_ms(buckets@).contains(e));
            }
            assert(table_ms(buckets@) =~= Multiset::<(u64, K, V)>::empty());
        }
        RawTable { buckets }
    }

    /// Stores an entry under a caller-supplied hash. The entry joins
    /// the table's contents; nothing else changes.
    pub fn insert_hashed(&mut self, h: u64, k: K, v: V)
        requires
            old(self).wf(),
        ensures
            final(self).wf(),
            final(self).entries() == old(self).entries().insert((h, k, v)),
    {
        let ghost bs0 = self.buckets@;
        let n = self.buckets.len();
        let b = (h % (n as u64)) as usize;
        let bucket = &mut self.buckets[b];
        bucket.push((h, k, v));
        proof {
            lemma_table_ms_push(bs0, self.buckets@, b as int, (h, k, v));
        }
    }

    /// Finds the entry stored under hash `h` whose key the probe
    /// compares equal to, if there is one, and returns its key and
    /// value.
    ///
    /// The caller's side of the bargain, which this signature cannot
    /// check, is that an entry it wants found was stored under the
    /// very hash it probes with; an entry whose stored hash differs
    /// from `h` is invisible to this lookup even if the probe equals
    /// its key — a silent miss, exactly the risk the hash-stream
    /// comparison exists to rule out beforehand.
    pub fn get_key_value_hashed<Q: PartialEq<K>>(&self, h: u64, key: &Q) -> (r: Option<(&K, &V)>)
        requires
            self.wf(),
        ensures
            match r {
                Some(kv) => self.entries().contains((h, *kv.0, *kv.1)) && (Q::obeys_eq_spec()
                    ==> key.eq_spec(kv.0)),
                None => Q::obeys_eq_spec() ==> forall|e: (u64, K, V)|
                    #[trigger] self.entries().contains(e) && e.0 == h ==> !key.eq_spec(&e.1),
            },
    {
        let n = self.buckets.len();
        let b = (h % (n as u64)) as usize;
        let bucket = &self.buckets[b];
        let mut i: usize = 0;
        while i < bucket.len()
            invariant
                self.wf(),
                0 <= b < self.buckets@.len(),
                bucket == self.buckets@[b as int],
                h as int % self.buckets@.len() as int == b,
                i <= bucket@.len(),
                Q::obeys_eq_spec() ==> forall|j: int|
                    0 <= j < i ==> !((#[trigger] bucket@[j]).0 == h && key.eq_spec(&bucket@[j].1)),
            decreases bucket@.len() - i,
        {
            let e = &bucket[i];
            if e.0 == h && *key == e.1 {
                proof {
                    lemma_table_ms_contains(self.buckets@);
                }
                return Some((&e.1, &e.2));
            }
            i = i + 1;
        }
        proof {
            lemma_table_ms_contains(self.buckets@);
            if Q::obeys_eq_spec() {
                assert forall|e: (u64, K, V)|
                    #[trigger] self.entries().contains(e) && e.0 == h implies !key.eq_spec(
                    &e.1,
                ) by {
                    let (b2, i2) = choose|b2: int, i2: int|
                        0 <= b2 < self.buckets@.len() && 0 <= i2 < self.buckets@[b2]@.len()
                            && self.buckets@[b2]@[i2] == e;
                    assert(b2 == b as int);
                }
            }
        }
        None
    }

    /// Finds the entry stored under hash `h` whose key the probe
    /// compares equal to, if there is one, and returns a mutable
    /// handle to its value; the entry's stored hash and key stay as
    /// they are. Subject to the same silent-miss caveat as
    /// [`RawTable::get_key_value_hashed`].
    pub fn get_mut_hashed<Q: PartialEq<K>>(&mut self, h: u64, key: &Q) -> (r: Option<&mut V>)
        requires
            old(self).wf(),
        ensures
            final(self).wf(),
            r is None ==> *final(self) == *old(self) && (Q::obeys_eq_spec() ==> forall|
                e: (u64, K, V),
            |
                #[trigger] old(self).entries().contains(e) && e.0 == h ==> !key.eq_spec(&e.1)),
            r matches Some(v) ==> hash_match(old(self).entries(), h, *key, *v) && value_updated(
                old(self).entries(),
                final(self).entries(),
                h,
                *key,
                *v,
                *final(v),
            ),
            r matches Some(v) ==> probe_updated(
                old(self).entries(),
                final(self).entries(),
                *key,
                *v,
                *final(v),
            ),
    {
        let ghost bs0 = self.buckets@;
        let n = self.buckets.len();
        let b = (h % (n as u64)) as usize;
        let m = self.buckets[b].len();
        let mut i: usize = 0;
        let mut found = false;
        while i < m && !found
            invariant
                self.wf(),
                0 <= b < self.buckets@.len(),
                m == self.buckets@[b as int]@.len(),
                h as int % self.buckets@.len() as int == b,
                i <= m,
                !found ==> Q::obeys_eq_spec() ==> forall|j: int|
                    0 <= j < i ==> !((#[trigger] self.buckets@[b as int]@[j]).0 == h && key.eq_spec(
                        &self.buckets@[b as int]@[j].1,
                    )),
                found ==> i < m && self.buckets@[b as int]@[i as int].0 == h && (
                Q::obeys_eq_spec() ==> key.eq_spec(&self.buckets@[b as int]@[i as int].1)),
            decreases m - i, (if found { 0int } else { 1int }),
        {
            let e = &self.buckets[b][i];
            if e.0 == h && *key == e.1 {
                found = true;
            } else {
                i = i + 1;
            }
        }
        if found {
            proof {
                lemma_table_ms_contains(self.buckets@);
            }
            let ghost old_entry = self.buckets@[b as int]@[i as int];
            proof {
                assert(table_ms(bs0).contains((h, old_entry.1, old_entry.2)));
                assert(hash_match(table_ms(bs0), h, *key, old_entry.2));
                assert forall|bs2: Seq<Vec<(u64, K, V)>>, e2: (u64, K, V)|
                    #![trigger table_ms(bs2), bs0[b as int]@.update(i as int, e2)]
                    {
                        &&& bs2.len() == bs0.len()
                        &&& bs2[b as int]@ == bs0[b as int]@.update(i as int, e2)
                        &&& forall|x: int| 0 <= x < bs0.len() && x != b ==> bs2[x] == bs0[x]
                    } implies table_ms(bs2) == table_ms(bs0).remove(old_entry).insert(e2) by {
                    lemma_table_ms_update(bs0, bs2, b as int, i as int, e2);
                }
            }
            let entry = &mut self.buckets[b][i];
            let vr = &mut entry.2;
            Some(vr)
        } else {
            proof {
                lemma_table_ms_contains(self.buckets@);
                if Q::obeys_eq_spec() {
                    assert forall|e: (u64, K, V)|
                        #[trigger] self.entries().contains(e) && e.0 == h implies !key.eq_spec(
                        &e.1,
                    ) by {
                        let (b2, i2) = choose|b2: int, i2: int|
                            0 <= b2 < self.buckets@.len() && 0 <= i2 < self.buckets@[b2]@.len()
                                && self.buckets@[b2]@[i2] == e;
                        assert(b2 == b as int);
                    }
                }
            }
            None
        }
    }
}

/// Relies on std's `DefaultHasher`: `new` starts from the same
/// initial state in every process, the key's `Hash` implementation
/// drives it, and `finish` summarises what was written. Which 64-bit
/// value comes out is promised nowhere — std keeps the algorithm
/// unspecified — so nothing is stated of the result, and every lookup
/// contract is conditioned only on the stored hash equalling the
/// probe hash, never on what that hash is.
#[verifier::external_body]
fn default_hash_of<Q: Hash>(key: &Q) -> u64 {
    let mut h = std::collections::hash_map::DefaultHasher::new();
    key.hash(&mut h);
    std::hash::Hasher::finish(&h)
}

impl<K, V> RawTable<K, V> {
    /// Stores a key-value pair under the key's hash as std's default
    /// hasher computes it — the same hash the probe-keyed lookups
    /// compute, so a later lookup with an equal, hash-compatible
    /// probe finds the pair.
    pub fn insert(&mut self, k: K, v: V) where K: Hash
        requires
            old(self).wf(),
        ensures
            final(self).wf(),
            exists|h: u64|
                #![trigger old(self).entries().insert((h, k, v))]
                final(self).entries() == old(self).entries().insert((h, k, v)),
    {
        let h = default_hash_of(&k);
        self.insert_hashed(h, k, v);
    }
}

/// An extension trait for tables that can be probed with any key
/// type `Q` that is hash-compatible (`HashEq`) and comparable
/// (`PartialEq`) with the stored key type, without building a stored
/// key from the probe.
pub trait HashMapExt<K, V, Q: PartialEq<K>>: Sized {
    /// The consistency of the table; established by its
    /// constructors and preserved by every operation.
    spec fn table_wf(&self) -> bool;

    /// The entries the table holds: stored hash, key and value.
    spec fn table_entries(&self) -> Multiset<(u64, K, V)>;

    /// Looks up a key-value pair based on a probe key: the probe is
    /// hashed, and the pair returned, if any, is one stored under
    /// that very hash whose key the probe compares equal to. An
    /// entry stored under a different hash is never returned — nor
    /// found, which is why the probe type must really be
    /// hash-compatible with the key type.
    fn get_key_value_hasheq(&self, key: &Q) -> (r: Option<(&K, &V)>)
        requires
            self.table_wf(),
        ensures
            r matches Some(kv) ==> exists|h: u64|
                #![trigger self.table_entries().contains((h, *kv.0, *kv.1))]
                self.table_entries().contains((h, *kv.0, *kv.1)) && (Q::obeys_eq_spec()
                    ==> key.eq_spec(kv.0)),
    ;

    /// Looks up a mutable handle to a stored value based on a probe
    /// key — the occupied half of a raw-entry lookup. The handle, if
    /// any, belongs to an entry stored under the probe's hash whose
    /// key the probe compares equal to; writing through it replaces
    /// exactly that entry's value, and the stored hash and key stay
    /// as they are. When nothing matches, the table is unchanged.
    fn raw_entry_mut_hasheq(&mut self, key: &Q) -> (r: Option<&mut V>)
        requires
            old(self).table_wf(),
        ensures
            final(self).table_wf(),
            r is None ==> *final(self) == *old(self),
            r matches Some(v) ==> probe_updated(
                old(self).table_entries(),
                final(self).table_entries(),
                *key,
                *v,
                *final(v),
            ),
    ;
}

impl<K: Hash, V, Q: Hash + HashEq<K> + PartialEq<K>> HashMapExt<K, V, Q> for RawTable<K, V> {
    open spec fn table_wf(&self) -> bool {
        self.wf()
    }

    open spec fn table_entries(&self) -> Multiset<(u64, K, V)> {
        self.entries()
    }

    fn get_key_value_hasheq(&self, key: &Q) -> (r: Option<(&K, &V)>) {
        let h = default_hash_of(key);
        let r = self.get_key_value_hashed(h, key);
        proof {
            match r {
                Some(kv) => {
                    assert(HashMapExt::<K, V, Q>::table_entries(self).contains(
                        (h, *kv.0, *kv.1),
                    ));
                },
                None => {},
            }
        }
        r
    }

    fn raw_entry_mut_hasheq(&mut self, key: &Q) -> (r: Option<&mut V>) {
        let h = default_hash_of(key);
        self.get_mut_hashed(h, key)
    }
}

} // verus!
