//! Lists of pairs read as finite maps.
//!
//! The tables of this crate are vectors of (key, value) pairs in which no
//! key occurs twice. This module says which map such a list stands for and
//! how the map changes when the list does.

use vstd::prelude::*;

verus! {

/// Whether the pair at `i` has the key `key`.
pub open spec fn found_at<K, V>(pairs: Seq<(K, V)>, i: int, key: K) -> bool {
    0 <= i < pairs.len() && pairs[i].0 == key
}

/// No key occurs in two pairs.
pub open spec fn distinct<K, V>(pairs: Seq<(K, V)>) -> bool {
    forall|i: int, j: int|
        0 <= i < j < pairs.len() ==> (#[trigger] pairs[i]).0 != (#[trigger] pairs[j]).0
}

/// The map that a list of pairs stands for: each key that occurs, with the
/// value of a pair that has it.
pub open spec fn as_map<K, V>(pairs: Seq<(K, V)>) -> Map<K, V> {
    Map::new(
        |key: K| exists|i: int| found_at(pairs, i, key),
        |key: K| pairs[choose|i: int| found_at(pairs, i, key)].1,
    )
}

/// The empty list stands for the empty map.
pub proof fn lemma_empty<K, V>()
    ensures
        distinct(Seq::<(K, V)>::empty()),
        as_map(Seq::<(K, V)>::empty()) == Map::<K, V>::empty(),
{
    assert(as_map(Seq::<(K, V)>::empty()) =~= Map::<K, V>::empty());
}

/// In a list without repeated keys, each pair is what the map holds for its
/// key.
pub proof fn lemma_entry<K, V>(pairs: Seq<(K, V)>, i: int)
    requires
        distinct(pairs),
        0 <= i < pairs.len(),
    ensures
        as_map(pairs).dom().contains(pairs[i].0),
        as_map(pairs)[pairs[i].0] == pairs[i].1,
{
    let key = pairs[i].0;
    assert(found_at(pairs, i, key));
    let j = choose|j: int| found_at(pairs, j, key);
    if j < i {
        assert(pairs[j].0 != pairs[i].0);
    } else if i < j {
        assert(pairs[i].0 != pairs[j].0);
    }
}

/// A key that no pair has is absent from the map.
pub proof fn lemma_absent<K, V>(pairs: Seq<(K, V)>, key: K)
    requires
        forall|i: int| !found_at(pairs, i, key),
    ensures
        !as_map(pairs).dom().contains(key),
{
}

/// Replacing the value of a pair is an insertion under its key.
pub proof fn lemma_replace<K, V>(pairs: Seq<(K, V)>, i: int, pair: (K, V))
    requires
        distinct(pairs),
        0 <= i < pairs.len(),
        pairs[i].0 == pair.0,
    ensures
        distinct(pairs.update(i, pair)),
        as_map(pairs.update(i, pair)) == as_map(pairs).insert(pair.0, pair.1),
{
    let after = pairs.update(i, pair);
    assert forall|a: int, b: int| 0 <= a < b < after.len() implies (#[trigger] after[a]).0 != (
    #[trigger] after[b]).0 by {
        assert(after[a].0 == pairs[a].0);
        assert(after[b].0 == pairs[b].0);
    }
    assert forall|key: K|
        as_map(after).dom().contains(key) == as_map(pairs).insert(pair.0, pair.1).dom().contains(
            key,
        ) by {
        if exists|j: int| found_at(after, j, key) {
            let j = choose|j: int| found_at(after, j, key);
            assert(found_at(pairs, j, key));
        }
        if exists|j: int| found_at(pairs, j, key) {
            let j = choose|j: int| found_at(pairs, j, key);
            assert(found_at(after, j, key));
        }
        if key == pair.0 {
            assert(found_at(after, i, key));
        }
    }
    assert forall|key: K| as_map(after).dom().contains(key) implies as_map(after)[key] == as_map(
        pairs,
    ).insert(pair.0, pair.1)[key] by {
        let j = choose|j: int| found_at(after, j, key);
        lemma_entry(after, j);
        if j != i {
            assert(after[j] == pairs[j]);
            lemma_entry(pairs, j);
        }
    }
    assert(as_map(after) =~= as_map(pairs).insert(pair.0, pair.1));
}

/// Appending a pair with a new key is an insertion under that key.
pub proof fn lemma_push<K, V>(pairs: Seq<(K, V)>, pair: (K, V))
    requires
        distinct(pairs),
        forall|i: int| !found_at(pairs, i, pair.0),
    ensures
        distinct(pairs.push(pair)),
        as_map(pairs.push(pair)) == as_map(pairs).insert(pair.0, pair.1),
{
    let after = pairs.push(pair);
    let last = pairs.len() as int;
    assert forall|a: int, b: int| 0 <= a < b < after.len() implies (#[trigger] after[a]).0 != (
    #[trigger] after[b]).0 by {
        assert(after[a] == pairs[a]);
        if b == last {
            assert(!found_at(pairs, a, pair.0));
        } else {
            assert(after[b] == pairs[b]);
        }
    }
    assert forall|key: K|
        as_map(after).dom().contains(key) == as_map(pairs).insert(pair.0, pair.1).dom().contains(
            key,
        ) by {
        if exists|j: int| found_at(after, j, key) {
            let j = choose|j: int| found_at(after, j, key);
            if j != last {
                assert(after[j] == pairs[j]);
                assert(found_at(pairs, j, key));
            }
        }
        if exists|j: int| found_at(pairs, j, key) {
            let j = choose|j: int| found_at(pairs, j, key);
            assert(after[j] == pairs[j]);
            assert(found_at(after, j, key));
        }
        if key == pair.0 {
            assert(found_at(after, last, key));
        }
    }
    assert forall|key: K| as_map(after).dom().contains(key) implies as_map(after)[key] == as_map(
        pairs,
    ).insert(pair.0, pair.1)[key] by {
        let j = choose|j: int| found_at(after, j, key);
        lemma_entry(after, j);
        if j != last {
            assert(after[j] == pairs[j]);
            lemma_entry(pairs, j);
        }
    }
    assert(as_map(after) =~= as_map(pairs).insert(pair.0, pair.1));
}

/// Reading one more pair of a list without repeated keys is an insertion
/// under a key that the pairs before it do not have.
pub proof fn lemma_take_step<K, V>(pairs: Seq<(K, V)>, i: int)
    requires
        distinct(pairs),
        0 <= i < pairs.len(),
    ensures
        distinct(pairs.take(i)),
        !as_map(pairs.take(i)).dom().contains(pairs[i].0),
        as_map(pairs.take(i + 1)) == as_map(pairs.take(i)).insert(pairs[i].0, pairs[i].1),
{
    let front = pairs.take(i);
    assert forall|a: int, b: int| 0 <= a < b < front.len() implies (#[trigger] front[a]).0 != (
    #[trigger] front[b]).0 by {
        assert(front[a] == pairs[a]);
        assert(front[b] == pairs[b]);
    }
    assert forall|j: int| !found_at(front, j, pairs[i].0) by {
        if 0 <= j < front.len() {
            assert(front[j] == pairs[j]);
            assert(pairs[j].0 != pairs[i].0);
        }
    }
    lemma_absent(front, pairs[i].0);
    lemma_push(front, pairs[i]);
    assert(pairs.take(i + 1) =~= front.push(pairs[i]));
}

/// A list without repeated keys stands for a finite map with as many keys
/// as the list has pairs.
pub proof fn lemma_len<K, V>(pairs: Seq<(K, V)>)
    requires
        distinct(pairs),
    ensures
        as_map(pairs).dom().finite(),
        as_map(pairs).dom().len() == pairs.len(),
    decreases pairs.len(),
{
    if pairs.len() == 0 {
        assert(pairs =~= Seq::<(K, V)>::empty());
        lemma_empty::<K, V>();
    } else {
        let front = pairs.drop_last();
        let last = pairs.last();
        assert(pairs =~= front.push(last));
        assert forall|i: int, j: int| 0 <= i < j < front.len() implies (#[trigger] front[i]).0 != (
        #[trigger] front[j]).0 by {
            assert(front[i] == pairs[i]);
            assert(front[j] == pairs[j]);
        }
        assert forall|i: int| !found_at(front, i, last.0) by {
            if 0 <= i < front.len() {
                assert(front[i] == pairs[i]);
                assert(pairs[i].0 != pairs[pairs.len() - 1].0);
            }
        }
        lemma_len(front);
        lemma_push(front, last);
        lemma_absent(front, last.0);
        assert(as_map(pairs).dom() =~= as_map(front).dom().insert(last.0));
    }
}

} // verus!
