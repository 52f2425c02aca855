//! A small association store from string keys to values, kept as a vector
//! of pairs with pairwise-distinct keys and viewed as a finite map.

use vstd::prelude::*;

verus! {

/// One key/value entry of a store.
pub struct KvPair<V> {
    pub key: String,
    pub val: V,
}

/// The store's invariant: keys are pairwise distinct.
pub open spec fn kv_wf<V>(s: Seq<KvPair<V>>) -> bool {
    forall|i: int, j: int|
        0 <= i < j < s.len() ==> #[trigger] s[i].key@ != #[trigger] s[j].key@
}

/// The map a store stands for.
pub open spec fn kv_map<V>(s: Seq<KvPair<V>>) -> Map<Seq<char>, V>
    decreases s.len(),
{
    if s.len() == 0 {
        Map::empty()
    } else {
        kv_map(s.drop_last()).insert(s.last().key@, s.last().val)
    }
}

/// Every position's key is in the map, at that position's value.
pub proof fn lemma_kv_map_index<V>(s: Seq<KvPair<V>>, i: int)
    requires
        kv_wf(s),
        0 <= i < s.len(),
    ensures
        kv_map(s).contains_key(s[i].key@),
        kv_map(s)[s[i].key@] == s[i].val,
    decreases s.len(),
{
    if i < s.len() - 1 {
        assert(kv_wf(s.drop_last()));
        lemma_kv_map_index(s.drop_last(), i);
        assert(s.drop_last()[i] == s[i]);
        assert(s[i].key@ != s.last().key@);
    }
}

/// A key standing at no position is not in the map.
pub proof fn lemma_kv_map_absent<V>(s: Seq<KvPair<V>>, k: Seq<char>)
    requires
        forall|i: int| 0 <= i < s.len() ==> #[trigger] s[i].key@ != k,
    ensures
        !kv_map(s).contains_key(k),
    decreases s.len(),
{
    if s.len() > 0 {
        assert forall|i: int| 0 <= i < s.drop_last().len() implies #[trigger] s.drop_last()[i].key@
            != k by {
            assert(s.drop_last()[i] == s[i]);
        }
        lemma_kv_map_absent(s.drop_last(), k);
    }
}

/// Removing position `i` removes exactly that key from the map.
pub proof fn lemma_kv_map_remove<V>(s: Seq<KvPair<V>>, i: int)
    requires
        kv_wf(s),
        0 <= i < s.len(),
    ensures
        kv_wf(s.remove(i)),
        kv_map(s.remove(i)) == kv_map(s).remove(s[i].key@),
    decreases s.len(),
{
    let k = s[i].key@;
    let t = s.remove(i);
    assert forall|a: int, b: int| 0 <= a < b < t.len() implies #[trigger] t[a].key@
        != #[trigger] t[b].key@ by {
        let a0 = if a < i { a } else { a + 1 };
        let b0 = if b < i { b } else { b + 1 };
        assert(t[a] == s[a0]);
        assert(t[b] == s[b0]);
    }
    if i == s.len() - 1 {
        assert(t =~= s.drop_last());
        assert forall|j: int| 0 <= j < s.drop_last().len() implies #[trigger] s.drop_last()[j].key@
            != k by {
            assert(s.drop_last()[j] == s[j]);
        }
        lemma_kv_map_absent(s.drop_last(), k);
        assert(kv_map(s).remove(k) =~= kv_map(s.drop_last()));
    } else {
        assert(kv_wf(s.drop_last()));
        lemma_kv_map_remove(s.drop_last(), i);
        assert(t.drop_last() =~= s.drop_last().remove(i));
        assert(t.last() == s.last());
        assert(s.drop_last()[i] == s[i]);
        assert(k != s.last().key@);
        assert(kv_map(t) == kv_map(s.drop_last()).remove(k).insert(s.last().key@, s.last().val));
        assert(kv_map(s.drop_last()).remove(k).insert(s.last().key@, s.last().val)
            =~= kv_map(s.drop_last()).insert(s.last().key@, s.last().val).remove(k));
    }
}

/// Finds the position of `key` in the store.
pub fn kv_find<V>(v: &Vec<KvPair<V>>, key: &String) -> (r: Option<usize>)
    ensures
        match r {
            Some(i) => i < v@.len() && v@[i as int].key@ == key@,
            None => forall|i: int| 0 <= i < v@.len() ==> #[trigger] v@[i].key@ != key@,
        },
{
    let mut i: usize = 0;
    while i < v.len()
        invariant
            i <= v@.len(),
            forall|j: int| 0 <= j < i ==> #[trigger] v@[j].key@ != key@,
        decreases v@.len() - i,
    {
        if v[i].key == *key {
            return Some(i);
        }
        i += 1;
    }
    None
}

/// Removes `key` from the store, returning the value it held.
pub fn kv_remove<V>(v: &mut Vec<KvPair<V>>, key: &String) -> (r: Option<V>)
    requires
        kv_wf(old(v)@),
    ensures
        kv_wf(final(v)@),
        kv_map(final(v)@) == kv_map(old(v)@).remove(key@),
        match r {
            Some(p) => kv_map(old(v)@).contains_key(key@) && p == kv_map(old(v)@)[key@]
                && final(v)@.len() == old(v)@.len() - 1,
            None => !kv_map(old(v)@).contains_key(key@) && final(v)@ == old(v)@,
        },
{
    match kv_find(v, key) {
        Some(i) => {
            proof {
                lemma_kv_map_index(v@, i as int);
                lemma_kv_map_remove(v@, i as int);
            }
            let p = v.remove(i);
            Some(p.val)
        },
        None => {
            proof {
                lemma_kv_map_absent(v@, key@);
                assert(kv_map(v@).remove(key@) =~= kv_map(v@));
            }
            None
        },
    }
}

/// Appends a pair whose key the store does not hold yet.
pub fn kv_push_fresh<V>(v: &mut Vec<KvPair<V>>, pair: KvPair<V>)
    requires
        kv_wf(old(v)@),
        !kv_map(old(v)@).contains_key(pair.key@),
    ensures
        kv_wf(final(v)@),
        kv_map(final(v)@) == kv_map(old(v)@).insert(pair.key@, pair.val),
        final(v)@ == old(v)@.push(pair),
{
    let ghost mid = v@;
    let ghost k = pair.key@;
    v.push(pair);
    proof {
        assert forall|j: int| 0 <= j < mid.len() implies #[trigger] mid[j].key@ != k by {
            lemma_kv_map_index(mid, j);
        }
        assert(v@.drop_last() =~= mid);
        assert forall|a: int, b: int| 0 <= a < b < v@.len() implies #[trigger] v@[a].key@
            != #[trigger] v@[b].key@ by {
            if b < v@.len() - 1 {
                assert(v@[a] == mid[a]);
                assert(v@[b] == mid[b]);
            } else {
                assert(v@[a] == mid[a]);
            }
        }
    }
}

/// Inserts `val` under `key` (last writer wins), returning the value the
/// key held before, if any.
pub fn kv_insert<V>(v: &mut Vec<KvPair<V>>, key: String, val: V) -> (prev: Option<V>)
    requires
        kv_wf(old(v)@),
    ensures
        kv_wf(final(v)@),
        kv_map(final(v)@) == kv_map(old(v)@).insert(key@, val),
        match prev {
            Some(p) => kv_map(old(v)@).contains_key(key@) && p == kv_map(old(v)@)[key@],
            None => !kv_map(old(v)@).contains_key(key@),
        },
{
    let prev = kv_remove(v, &key);
    let ghost mid = v@;
    v.push(KvPair { key, val });
    proof {
        assert forall|j: int| 0 <= j < mid.len() implies #[trigger] mid[j].key@ != key@ by {
            lemma_kv_map_index(mid, j);
        }
        assert(v@.drop_last() =~= mid);
        assert(v@.last().key@ == key@);
        assert forall|a: int, b: int| 0 <= a < b < v@.len() implies #[trigger] v@[a].key@
            != #[trigger] v@[b].key@ by {
            if b < v@.len() - 1 {
                assert(v@[a] == mid[a]);
                assert(v@[b] == mid[b]);
            } else {
                assert(v@[a] == mid[a]);
            }
        }
        assert(kv_map(v@) == kv_map(mid).insert(key@, val));
        assert(kv_map(mid).insert(key@, val) =~= kv_map(old(v)@).insert(key@, val));
    }
    prev
}

} // verus!
