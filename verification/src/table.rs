//! String-keyed association lists and the finite maps they denote.
//!
//! The in-memory tenant table and the allocator's id-to-index record are
//! kept as vectors of pairs; contracts speak of the map a pair list
//! denotes. Later pairs win, so pushing a pair is always `insert`.

use vstd::prelude::*;

verus! {

/// The map a pair list denotes; later pairs win.
pub open spec fn map_of_pairs<V>(pairs: Seq<(Seq<char>, V)>) -> Map<Seq<char>, V>
    decreases pairs.len(),
{
    if pairs.len() == 0 {
        Map::empty()
    } else {
        map_of_pairs(pairs.drop_last()).insert(pairs.last().0, pairs.last().1)
    }
}

/// No key occurs twice.
pub open spec fn pairs_unique<V>(pairs: Seq<(Seq<char>, V)>) -> bool {
    forall|i: int, j: int|
        0 <= i < j < pairs.len() ==> (#[trigger] pairs[i]).0 != (#[trigger] pairs[j]).0
}

/// A key present in the list is in the map.
pub proof fn lemma_pairs_key_at<V>(pairs: Seq<(Seq<char>, V)>, i: int)
    requires
        0 <= i < pairs.len(),
    ensures
        map_of_pairs(pairs).contains_key(pairs[i].0),
    decreases pairs.len(),
{
    if i < pairs.len() - 1 {
        lemma_pairs_key_at(pairs.drop_last(), i);
        assert(pairs.drop_last()[i] == pairs[i]);
    }
}

/// A key absent from the list is not in the map.
pub proof fn lemma_pairs_no_key<V>(pairs: Seq<(Seq<char>, V)>, id: Seq<char>)
    requires
        forall|i: int| 0 <= i < pairs.len() ==> (#[trigger] pairs[i]).0 != id,
    ensures
        !map_of_pairs(pairs).contains_key(id),
    decreases pairs.len(),
{
    if pairs.len() > 0 {
        assert(forall|i: int|
            0 <= i < pairs.drop_last().len() ==> (#[trigger] pairs.drop_last()[i]).0 != id);
        lemma_pairs_no_key(pairs.drop_last(), id);
        assert(pairs[pairs.len() - 1].0 != id);
    }
}

/// With unique keys, the map sends each listed key to its listed value.
pub proof fn lemma_pairs_value_at<V>(pairs: Seq<(Seq<char>, V)>, i: int)
    requires
        pairs_unique(pairs),
        0 <= i < pairs.len(),
    ensures
        map_of_pairs(pairs).contains_key(pairs[i].0),
        map_of_pairs(pairs)[pairs[i].0] == pairs[i].1,
    decreases pairs.len(),
{
    lemma_pairs_key_at(pairs, i);
    if i < pairs.len() - 1 {
        assert(pairs_unique(pairs.drop_last())) by {
            assert(forall|a: int, b: int|
                0 <= a < b < pairs.drop_last().len() ==> (#[trigger] pairs.drop_last()[a]).0 != (
                #[trigger] pairs.drop_last()[b]).0) by {
                assert(forall|a: int|
                    0 <= a < pairs.drop_last().len() ==> pairs.drop_last()[a] == pairs[a]);
            }
        }
        lemma_pairs_value_at(pairs.drop_last(), i);
        assert(pairs.drop_last()[i] == pairs[i]);
        assert(pairs[i].0 != pairs[pairs.len() - 1].0);
    }
}

/// With unique keys, removing the pair at `i` removes exactly its key
/// from the map.
pub proof fn lemma_pairs_remove_at<V>(pairs: Seq<(Seq<char>, V)>, i: int)
    requires
        pairs_unique(pairs),
        0 <= i < pairs.len(),
    ensures
        map_of_pairs(pairs.remove(i)) =~= map_of_pairs(pairs).remove(pairs[i].0),
    decreases pairs.len(),
{
    let id = pairs[i].0;
    if i == pairs.len() - 1 {
        assert(pairs.remove(i) =~= pairs.drop_last());
        assert(forall|k: int|
            0 <= k < pairs.drop_last().len() ==> (#[trigger] pairs.drop_last()[k]).0 != id);
        lemma_pairs_no_key(pairs.drop_last(), id);
        assert(map_of_pairs(pairs.drop_last()) =~= map_of_pairs(pairs.drop_last()).remove(id));
    } else {
        assert(pairs_unique(pairs.drop_last())) by {
            assert(forall|a: int|
                0 <= a < pairs.drop_last().len() ==> pairs.drop_last()[a] == pairs[a]);
        }
        lemma_pairs_remove_at(pairs.drop_last(), i);
        assert(pairs.remove(i).drop_last() =~= pairs.drop_last().remove(i));
        assert(pairs.remove(i).last() == pairs.last());
        assert(pairs[i] == pairs.drop_last()[i]);
        assert(pairs.last().0 != id);
    }
}

/// Removing a pair keeps the keys unique.
pub proof fn lemma_pairs_unique_remove<V>(pairs: Seq<(Seq<char>, V)>, i: int)
    requires
        pairs_unique(pairs),
        0 <= i < pairs.len(),
    ensures
        pairs_unique(pairs.remove(i)),
{
    let r = pairs.remove(i);
    assert forall|a: int, b: int| 0 <= a < b < r.len() implies (#[trigger] r[a]).0 != (
    #[trigger] r[b]).0 by {
        let a0 = if a < i {
            a
        } else {
            a + 1
        };
        let b0 = if b < i {
            b
        } else {
            b + 1
        };
        assert(r[a] == pairs[a0]);
        assert(r[b] == pairs[b0]);
    }
}

/// Pushing a fresh key keeps the keys unique.
pub proof fn lemma_pairs_unique_push<V>(pairs: Seq<(Seq<char>, V)>, id: Seq<char>, v: V)
    requires
        pairs_unique(pairs),
        forall|i: int| 0 <= i < pairs.len() ==> (#[trigger] pairs[i]).0 != id,
    ensures
        pairs_unique(pairs.push((id, v))),
{
    let r = pairs.push((id, v));
    assert forall|a: int, b: int| 0 <= a < b < r.len() implies (#[trigger] r[a]).0 != (
    #[trigger] r[b]).0 by {
        if b < pairs.len() {
            assert(r[a] == pairs[a]);
            assert(r[b] == pairs[b]);
        } else {
            assert(r[a] == pairs[a]);
            assert(r[b] == (id, v));
        }
    }
}

} // verus!
