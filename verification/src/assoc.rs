use vstd::prelude::*;

verus! {

/// The map that a list of pairs stands for: each name with the value of the
/// last pair under that name.
pub open spec fn assoc_map<V>(pairs: Seq<(Seq<char>, V)>) -> Map<Seq<char>, V>
    decreases pairs.len(),
{
    if pairs.len() == 0 {
        Map::empty()
    } else {
        assoc_map(pairs.drop_last()).insert(pairs.last().0, pairs.last().1)
    }
}

/// No two pairs have the same name.
pub open spec fn distinct_keys<V>(pairs: Seq<(Seq<char>, V)>) -> bool {
    forall|i: int, j: int| 0 <= i < j < pairs.len() ==> pairs[i].0 != pairs[j].0
}

/// The position of the first pair under `key`, from `from` on.
pub open spec fn key_index<V>(pairs: Seq<(Seq<char>, V)>, key: Seq<char>, from: int) -> Option<int>
    decreases pairs.len() - from,
{
    if from < 0 || from >= pairs.len() {
        None
    } else if pairs[from].0 == key {
        Some(from)
    } else {
        key_index(pairs, key, from + 1)
    }
}

/// What `key_index` finds is the first pair under that name from `from` on,
/// and it finds none only where there is none.
pub proof fn lemma_key_index<V>(pairs: Seq<(Seq<char>, V)>, key: Seq<char>, from: int)
    requires
        0 <= from,
    ensures
        match key_index(pairs, key, from) {
            Some(i) => from <= i < pairs.len() && pairs[i].0 == key && forall|k: int|
                from <= k < i ==> (#[trigger] pairs[k]).0 != key,
            None => forall|k: int| from <= k < pairs.len() ==> (#[trigger] pairs[k]).0 != key,
        },
    decreases pairs.len() - from,
{
    if from < pairs.len() && pairs[from].0 != key {
        lemma_key_index(pairs, key, from + 1);
    }
}

/// A name is in the map exactly if some pair is under it.
pub proof fn lemma_assoc_dom<V>(pairs: Seq<(Seq<char>, V)>, key: Seq<char>)
    ensures
        assoc_map(pairs).dom().contains(key) <==> exists|i: int|
            0 <= i < pairs.len() && (#[trigger] pairs[i]).0 == key,
    decreases pairs.len(),
{
    if pairs.len() > 0 {
        let front = pairs.drop_last();
        lemma_assoc_dom(front, key);
        if assoc_map(pairs).dom().contains(key) {
            if pairs.last().0 == key {
                assert(pairs[pairs.len() - 1].0 == key);
            } else {
                let i = choose|i: int| 0 <= i < front.len() && (#[trigger] front[i]).0 == key;
                assert(pairs[i].0 == key);
            }
        }
        if exists|i: int| 0 <= i < pairs.len() && (#[trigger] pairs[i]).0 == key {
            let i = choose|i: int| 0 <= i < pairs.len() && (#[trigger] pairs[i]).0 == key;
            if i < pairs.len() - 1 {
                assert(front[i].0 == key);
            }
        }
    }
}

/// In a list without repeated names, the map gives each name the value of
/// its pair.
pub proof fn lemma_assoc_value<V>(pairs: Seq<(Seq<char>, V)>, i: int)
    requires
        distinct_keys(pairs),
        0 <= i < pairs.len(),
    ensures
        assoc_map(pairs).dom().contains(pairs[i].0),
        assoc_map(pairs)[pairs[i].0] == pairs[i].1,
    decreases pairs.len(),
{
    if i < pairs.len() - 1 {
        let front = pairs.drop_last();
        assert(front[i] == pairs[i]);
        lemma_assoc_value(front, i);
    }
}

/// A pair appended is an entry inserted.
pub proof fn lemma_assoc_push<V>(pairs: Seq<(Seq<char>, V)>, key: Seq<char>, value: V)
    ensures
        assoc_map(pairs.push((key, value))) == assoc_map(pairs).insert(key, value),
{
    assert(pairs.push((key, value)).drop_last() =~= pairs);
}

/// In a list without repeated names, a pair taken out is an entry removed.
pub proof fn lemma_assoc_remove<V>(pairs: Seq<(Seq<char>, V)>, i: int)
    requires
        distinct_keys(pairs),
        0 <= i < pairs.len(),
    ensures
        distinct_keys(pairs.remove(i)),
        assoc_map(pairs.remove(i)) == assoc_map(pairs).remove(pairs[i].0),
    decreases pairs.len(),
{
    let rest = pairs.remove(i);
    assert forall|a: int, b: int| 0 <= a < b < rest.len() implies rest[a].0 != rest[b].0 by {
        let a0 = if a < i { a } else { a + 1 };
        let b0 = if b < i { b } else { b + 1 };
        assert(rest[a] == pairs[a0]);
        assert(rest[b] == pairs[b0]);
    }
    if i == pairs.len() - 1 {
        assert(rest =~= pairs.drop_last());
        lemma_assoc_dom(rest, pairs[i].0);
        assert(!assoc_map(rest).dom().contains(pairs[i].0)) by {
            if exists|k: int| 0 <= k < rest.len() && (#[trigger] rest[k]).0 == pairs[i].0 {
                let k = choose|k: int| 0 <= k < rest.len() && (#[trigger] rest[k]).0 == pairs[i].0;
                assert(pairs[k].0 == pairs[i].0);
            }
        }
        assert(assoc_map(pairs).remove(pairs[i].0) =~= assoc_map(rest));
    } else {
        let front = pairs.drop_last();
        assert(front[i] == pairs[i]);
        lemma_assoc_remove(front, i);
        assert(rest.drop_last() =~= front.remove(i));
        assert(rest.last() == pairs.last());
        assert(pairs.last().0 != pairs[i].0);
        assert(assoc_map(rest) =~= assoc_map(pairs).remove(pairs[i].0));
    }
}

} // verus!
