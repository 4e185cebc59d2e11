//! Association lists: sequences of key/value pairs read as finite maps.
use vstd::prelude::*;

verus! {

/// The map obtained by inserting `pairs` in order, later pairs replacing earlier ones.
pub open spec fn map_of_pairs<K, V>(pairs: Seq<(K, V)>) -> Map<K, V>
    decreases pairs.len(),
{
    if pairs.len() == 0 {
        Map::empty()
    } else {
        map_of_pairs(pairs.drop_last()).insert(pairs.last().0, pairs.last().1)
    }
}

/// Whether no key occurs twice in `pairs`.
pub open spec fn keys_distinct<K, V>(pairs: Seq<(K, V)>) -> bool {
    forall|i: int, j: int|
        #![trigger pairs[i].0, pairs[j].0]
        0 <= i < pairs.len() && 0 <= j < pairs.len() && i != j ==> pairs[i].0 != pairs[j].0
}

pub proof fn lemma_map_of_pairs_contains<K, V>(s: Seq<(K, V)>, k: K)
    ensures
        map_of_pairs(s).contains_key(k) <==> exists|i: int| 0 <= i < s.len() && #[trigger] s[i].0 == k,
    decreases s.len(),
{
    if s.len() > 0 {
        lemma_map_of_pairs_contains(s.drop_last(), k);
        if map_of_pairs(s.drop_last()).contains_key(k) {
            let i = choose|i: int| 0 <= i < s.drop_last().len() && #[trigger] s.drop_last()[i].0 == k;
            assert(s[i].0 == k);
        }
        if exists|i: int| 0 <= i < s.len() && #[trigger] s[i].0 == k {
            let i = choose|i: int| 0 <= i < s.len() && #[trigger] s[i].0 == k;
            if i < s.len() - 1 {
                assert(s.drop_last()[i].0 == k);
            }
        }
    }
}

pub proof fn lemma_map_of_pairs_value<K, V>(s: Seq<(K, V)>, i: int)
    requires
        keys_distinct(s),
        0 <= i < s.len(),
    ensures
        map_of_pairs(s).contains_key(s[i].0),
        map_of_pairs(s)[s[i].0] == s[i].1,
    decreases s.len(),
{
    if i < s.len() - 1 {
        assert(keys_distinct(s.drop_last()));
        assert(s.drop_last()[i] == s[i]);
        lemma_map_of_pairs_value(s.drop_last(), i);
        assert(s[i].0 != s.last().0);
    }
}

pub proof fn lemma_map_of_pairs_update<K, V>(s: Seq<(K, V)>, i: int, v: V)
    requires
        keys_distinct(s),
        0 <= i < s.len(),
    ensures
        map_of_pairs(s.update(i, (s[i].0, v))) == map_of_pairs(s).insert(s[i].0, v),
    decreases s.len(),
{
    let t = s.update(i, (s[i].0, v));
    if i == s.len() - 1 {
        assert(t.drop_last() =~= s.drop_last());
        assert(map_of_pairs(t) =~= map_of_pairs(s).insert(s[i].0, v));
    } else {
        assert(keys_distinct(s.drop_last()));
        assert(t.drop_last() =~= s.drop_last().update(i, (s[i].0, v)));
        lemma_map_of_pairs_update(s.drop_last(), i, v);
        assert(s[i].0 != s.last().0);
        assert(map_of_pairs(t) =~= map_of_pairs(s).insert(s[i].0, v));
    }
}

pub proof fn lemma_map_of_pairs_remove<K, V>(s: Seq<(K, V)>, i: int)
    requires
        keys_distinct(s),
        0 <= i < s.len(),
    ensures
        map_of_pairs(s.remove(i)) == map_of_pairs(s).remove(s[i].0),
    decreases s.len(),
{
    let k = s[i].0;
    if i == s.len() - 1 {
        assert(s.remove(i) =~= s.drop_last());
        lemma_map_of_pairs_contains(s.drop_last(), k);
        assert(!map_of_pairs(s.drop_last()).contains_key(k)) by {
            if exists|j: int| 0 <= j < s.drop_last().len() && #[trigger] s.drop_last()[j].0 == k {
                let j = choose|j: int| 0 <= j < s.drop_last().len() && #[trigger] s.drop_last()[j].0 == k;
                assert(s[j].0 == k);
            }
        }
        assert(map_of_pairs(s.remove(i)) =~= map_of_pairs(s).remove(k));
    } else {
        assert(keys_distinct(s.drop_last()));
        assert(s.remove(i) =~= s.drop_last().remove(i).push(s.last()));
        assert(s.remove(i).drop_last() =~= s.drop_last().remove(i));
        lemma_map_of_pairs_remove(s.drop_last(), i);
        assert(s.drop_last()[i].0 == k);
        assert(k != s.last().0);
        assert(map_of_pairs(s.remove(i)) =~= map_of_pairs(s).remove(k));
    }
}


/// Pushing a pair onto a list inserts it into the map it denotes.
pub proof fn lemma_map_of_pairs_push<K, V>(s: Seq<(K, V)>, k: K, v: V)
    ensures
        map_of_pairs(s.push((k, v))) == map_of_pairs(s).insert(k, v),
{
    assert(s.push((k, v)).drop_last() =~= s);
}

/// With distinct keys, the map has exactly as many keys as the list has pairs.
pub proof fn lemma_map_of_pairs_len<K, V>(s: Seq<(K, V)>)
    requires
        keys_distinct(s),
    ensures
        map_of_pairs(s).dom().finite(),
        map_of_pairs(s).dom().len() == s.len(),
{
    let keys = s.map_values(|p: (K, V)| p.0);
    assert forall|k: K| map_of_pairs(s).dom().contains(k) <==> keys.to_set().contains(k) by {
        lemma_map_of_pairs_contains(s, k);
        if keys.contains(k) {
            let j = choose|j: int| 0 <= j < keys.len() && keys[j] == k;
            assert(s[j].0 == k);
        }
        if map_of_pairs(s).dom().contains(k) {
            let j = choose|j: int| 0 <= j < s.len() && #[trigger] s[j].0 == k;
            assert(keys[j] == k);
        }
    }
    assert(map_of_pairs(s).dom() =~= keys.to_set());
    assert(keys.no_duplicates()) by {
        assert forall|x: int, y: int| 0 <= x < keys.len() && 0 <= y < keys.len() && x != y implies keys[x] != keys[y] by {
            assert(s[x].0 != s[y].0);
        }
    }
    keys.unique_seq_to_set();
}

/// Appending a pair with a fresh key keeps the keys distinct.
pub proof fn lemma_keys_distinct_push<K, V>(s: Seq<(K, V)>, k: K, v: V)
    requires
        keys_distinct(s),
        !map_of_pairs(s).contains_key(k),
    ensures
        keys_distinct(s.push((k, v))),
{
    lemma_map_of_pairs_contains(s, k);
    let t = s.push((k, v));
    assert forall|a: int, b: int| 0 <= a < t.len() && 0 <= b < t.len() && a != b implies #[trigger] t[a].0 != #[trigger] t[b].0 by {
        if a < s.len() && b < s.len() {
            assert(s[a].0 != s[b].0);
        } else if a < s.len() {
            assert(s[a].0 != k);
        } else {
            assert(s[b].0 != k);
        }
    }
}

/// Removing a pair keeps the keys distinct.
pub proof fn lemma_keys_distinct_remove<K, V>(s: Seq<(K, V)>, i: int)
    requires
        keys_distinct(s),
        0 <= i < s.len(),
    ensures
        keys_distinct(s.remove(i)),
{
    let t = s.remove(i);
    assert forall|a: int, b: int| 0 <= a < t.len() && 0 <= b < t.len() && a != b implies #[trigger] t[a].0 != #[trigger] t[b].0 by {
        let a2 = if a < i { a } else { a + 1 };
        let b2 = if b < i { b } else { b + 1 };
        assert(s[a2].0 != s[b2].0);
    }
}

/// Replacing a value keeps the keys distinct.
pub proof fn lemma_keys_distinct_update<K, V>(s: Seq<(K, V)>, i: int, v: V)
    requires
        keys_distinct(s),
        0 <= i < s.len(),
    ensures
        keys_distinct(s.update(i, (s[i].0, v))),
{
    let t = s.update(i, (s[i].0, v));
    assert forall|a: int, b: int| 0 <= a < t.len() && 0 <= b < t.len() && a != b implies #[trigger] t[a].0 != #[trigger] t[b].0 by {
        assert(s[a].0 != s[b].0);
    }
}

} // verus!
