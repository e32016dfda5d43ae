//! Association lists keyed by strings, seen as finite maps.
//!
//! A `Vec<(String, V)>` whose keys are pairwise distinct stands for a map
//! from the keys' characters to the values; inserting a key that is present
//! replaces its value in place, as a hash map would.

use vstd::prelude::*;

verus! {

/// No key occurs twice.
pub open spec fn keys_distinct<V>(s: Seq<(String, V)>) -> bool {
    forall|i: int, j: int|
        0 <= i < s.len() && 0 <= j < s.len() && i != j ==> #[trigger] s[i].0@ != #[trigger] s[j].0@
}

/// Some pair holds the key `k`.
pub open spec fn has_key<V>(s: Seq<(String, V)>, k: Seq<char>) -> bool {
    exists|i: int| 0 <= i < s.len() && #[trigger] s[i].0@ == k
}

/// The map that the pairs stand for.
pub open spec fn pairs_view<V>(s: Seq<(String, V)>) -> Map<Seq<char>, V> {
    Map::new(
        |k: Seq<char>| has_key(s, k),
        |k: Seq<char>| s[choose|i: int| 0 <= i < s.len() && #[trigger] s[i].0@ == k].1,
    )
}

/// The pairs that inserting the pairs of `s` one after the other into empty
/// pairs gives.
pub open spec fn insert_all<V>(s: Seq<(String, V)>) -> Seq<(String, V)>
    decreases s.len(),
{
    if s.len() == 0 {
        Seq::empty()
    } else {
        pairs_insert(insert_all(s.drop_last()), s.last().0, s.last().1)
    }
}

/// The map that inserting the pairs of `s` one after the other into the
/// empty map gives: the last value inserted under a key is its value.
pub open spec fn map_of_inserts<V>(s: Seq<(String, V)>) -> Map<Seq<char>, V>
    decreases s.len(),
{
    if s.len() == 0 {
        Map::empty()
    } else {
        map_of_inserts(s.drop_last()).insert(s.last().0@, s.last().1)
    }
}

/// Inserting the pairs of `s` one after the other into empty pairs keeps the
/// keys distinct, stands for the map in which each key has the last value
/// inserted under it, holds exactly the keys of `s`, and holds one pair per
/// distinct key.
pub proof fn lemma_insert_all<V>(s: Seq<(String, V)>)
    ensures
        keys_distinct(insert_all(s)),
        pairs_view(insert_all(s)) == map_of_inserts(s),
        map_of_inserts(s).dom().finite(),
        insert_all(s).len() == map_of_inserts(s).dom().len(),
        forall|k: Seq<char>| #[trigger] map_of_inserts(s).contains_key(k) <==> has_key(s, k),
    decreases s.len(),
{
    if s.len() == 0 {
        assert(pairs_view(insert_all(s)) =~= map_of_inserts(s));
        assert(map_of_inserts(s).dom() =~= Set::<Seq<char>>::empty());
    } else {
        let p = s.drop_last();
        lemma_insert_all(p);
        let t = insert_all(p);
        let (k, v) = s.last();
        if has_key(t, k@) {
            let i = key_index(t, k@);
            assert(t[i].0@ == k@);
            lemma_pairs_view_update(t, i, k, v);
            assert(map_of_inserts(p).contains_key(k@));
            assert(map_of_inserts(s).dom() =~= map_of_inserts(p).dom());
        } else {
            lemma_pairs_view_push(t, k, v);
            assert(!map_of_inserts(p).contains_key(k@));
            assert(map_of_inserts(s).dom() =~= map_of_inserts(p).dom().insert(k@));
        }
        assert forall|key: Seq<char>| #[trigger] map_of_inserts(s).contains_key(key) <==> has_key(s, key) by {
            if has_key(p, key) {
                let j = choose|j: int| 0 <= j < p.len() && #[trigger] p[j].0@ == key;
                assert(s[j].0@ == key);
            }
            if has_key(s, key) && key != k@ {
                let j = choose|j: int| 0 <= j < s.len() && #[trigger] s[j].0@ == key;
                assert(j < p.len());
                assert(p[j].0@ == key);
            }
            if key == k@ {
                assert(s[s.len() - 1].0@ == key);
            }
        }
    }
}

/// The position of the pair that holds the key `k` (meaningful where one does).
pub open spec fn key_index<V>(s: Seq<(String, V)>, k: Seq<char>) -> int {
    choose|i: int| 0 <= i < s.len() && #[trigger] s[i].0@ == k
}

/// The pairs after inserting `v` under `k`: the pair of that key gets the new
/// value in place, or the new pair goes at the end.
pub open spec fn pairs_insert<V>(s: Seq<(String, V)>, k: String, v: V) -> Seq<(String, V)> {
    if has_key(s, k@) {
        s.update(key_index(s, k@), (k, v))
    } else {
        s.push((k, v))
    }
}

/// With distinct keys, the position of a key is the one that holds it.
pub proof fn lemma_key_index<V>(s: Seq<(String, V)>, i: int)
    requires
        keys_distinct(s),
        0 <= i < s.len(),
    ensures
        has_key(s, s[i].0@),
        key_index(s, s[i].0@) == i,
{
    assert(has_key(s, s[i].0@));
    let j = key_index(s, s[i].0@);
    assert(s[j].0@ == s[i].0@);
}

/// With distinct keys, the map gives at a key the value that is paired with it.
pub proof fn lemma_pairs_view_at<V>(s: Seq<(String, V)>, i: int)
    requires
        keys_distinct(s),
        0 <= i < s.len(),
    ensures
        pairs_view(s).contains_key(s[i].0@),
        pairs_view(s)[s[i].0@] == s[i].1,
{
    let k = s[i].0@;
    assert(has_key(s, k));
    let j = choose|j: int| 0 <= j < s.len() && #[trigger] s[j].0@ == k;
    assert(s[j].0@ == k);
}

/// Replacing the value of a present key updates the map at that key only.
pub proof fn lemma_pairs_view_update<V>(s: Seq<(String, V)>, i: int, k: String, v: V)
    requires
        keys_distinct(s),
        0 <= i < s.len(),
        s[i].0@ == k@,
    ensures
        keys_distinct(s.update(i, (k, v))),
        pairs_view(s.update(i, (k, v))) == pairs_view(s).insert(k@, v),
{
    let t = s.update(i, (k, v));
    assert forall|a: int, b: int|
        0 <= a < t.len() && 0 <= b < t.len() && a != b implies #[trigger] t[a].0@ != #[trigger] t[b].0@ by {
        assert(t[a].0@ == s[a].0@);
        assert(t[b].0@ == s[b].0@);
    }
    assert forall|key: Seq<char>| #[trigger] has_key(t, key) == has_key(s, key) by {
        if has_key(t, key) {
            let a = choose|a: int| 0 <= a < t.len() && #[trigger] t[a].0@ == key;
            assert(s[a].0@ == key);
        }
        if has_key(s, key) {
            let a = choose|a: int| 0 <= a < s.len() && #[trigger] s[a].0@ == key;
            assert(t[a].0@ == key);
        }
    }
    assert forall|key: Seq<char>| #[trigger] pairs_view(t).contains_key(key) implies pairs_view(t)[key]
        == pairs_view(s).insert(k@, v)[key] by {
        let a = choose|a: int| 0 <= a < t.len() && #[trigger] t[a].0@ == key;
        lemma_pairs_view_at(t, a);
        if a != i {
            lemma_pairs_view_at(s, a);
        }
    }
    assert(pairs_view(t) =~= pairs_view(s).insert(k@, v));
}

/// Appending a pair whose key is absent adds that key to the map.
pub proof fn lemma_pairs_view_push<V>(s: Seq<(String, V)>, k: String, v: V)
    requires
        keys_distinct(s),
        !has_key(s, k@),
    ensures
        keys_distinct(s.push((k, v))),
        pairs_view(s.push((k, v))) == pairs_view(s).insert(k@, v),
{
    let t = s.push((k, v));
    assert forall|a: int, b: int|
        0 <= a < t.len() && 0 <= b < t.len() && a != b implies #[trigger] t[a].0@ != #[trigger] t[b].0@ by {
        if a < s.len() && b < s.len() {
            assert(t[a] == s[a] && t[b] == s[b]);
        } else if a < s.len() {
            assert(t[a] == s[a]);
        } else {
            assert(t[b] == s[b]);
        }
    }
    assert forall|key: Seq<char>| #[trigger] has_key(t, key) == (has_key(s, key) || key == k@) by {
        if has_key(t, key) {
            let a = choose|a: int| 0 <= a < t.len() && #[trigger] t[a].0@ == key;
            if a < s.len() {
                assert(s[a].0@ == key);
            }
        }
        if has_key(s, key) {
            let a = choose|a: int| 0 <= a < s.len() && #[trigger] s[a].0@ == key;
            assert(t[a].0@ == key);
        }
        if key == k@ {
            assert(t[s.len() as int].0@ == key);
        }
    }
    assert forall|key: Seq<char>| #[trigger] pairs_view(t).contains_key(key) implies pairs_view(t)[key]
        == pairs_view(s).insert(k@, v)[key] by {
        let a = choose|a: int| 0 <= a < t.len() && #[trigger] t[a].0@ == key;
        lemma_pairs_view_at(t, a);
        if a < s.len() {
            assert(t[a] == s[a]);
            lemma_pairs_view_at(s, a);
        }
    }
    assert(pairs_view(t) =~= pairs_view(s).insert(k@, v));
}

/// The position of the pair whose key is `key`, if any.
pub fn find_key<V>(pairs: &Vec<(String, V)>, key: &String) -> (r: Option<usize>)
    ensures
        match r {
            Some(i) => i < pairs@.len() && pairs@[i as int].0@ == key@,
            None => !has_key(pairs@, key@),
        },
{
    let mut i: usize = 0;
    while i < pairs.len()
        invariant
            i <= pairs@.len(),
            forall|j: int| 0 <= j < i ==> #[trigger] pairs@[j].0@ != key@,
        decreases pairs@.len() - i,
    {
        if pairs[i].0 == *key {
            return Some(i);
        }
        i = i + 1;
    }
    None
}

} // verus!
