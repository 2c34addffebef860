//! The order in which things are drawn: the farthest first.

use vstd::prelude::*;

verus! {

/// The sequence `sorted` with `e` put in behind all that are at least as
/// far by `key`.
pub open spec fn inserted<T>(key: spec_fn(T) -> int, sorted: Seq<T>, e: T) -> Seq<T>
    decreases sorted.len(),
{
    if sorted.len() == 0 {
        seq![e]
    } else if key(sorted[0]) < key(e) {
        seq![e] + sorted
    } else {
        seq![sorted[0]] + inserted(key, sorted.drop_first(), e)
    }
}

/// The members of `list` from the farthest to the nearest by `key`; those
/// equally far stay in the order of the list.
pub open spec fn far_first<T>(key: spec_fn(T) -> int, list: Seq<T>) -> Seq<T>
    decreases list.len(),
{
    if list.len() == 0 {
        Seq::empty()
    } else {
        inserted(key, far_first(key, list.drop_last()), list.last())
    }
}

/// Whether no member of `s` is farther by `key` than one before it.
pub open spec fn ordered<T>(key: spec_fn(T) -> int, s: Seq<T>) -> bool {
    forall|i: int, j: int| 0 <= i <= j < s.len() ==> key(s[i]) >= key(s[j])
}

/// The number of members at the head of `sorted` that are at least as far
/// by `key` as `e`.
pub open spec fn place<T>(key: spec_fn(T) -> int, sorted: Seq<T>, e: T) -> int
    decreases sorted.len(),
{
    if sorted.len() == 0 || key(sorted[0]) < key(e) {
        0
    } else {
        1 + place(key, sorted.drop_first(), e)
    }
}

/// To put `e` in is to insert it at the place `p` if all before that place
/// are at least as far as `e` and the member at that place is nearer.
pub proof fn lemma_inserted_at<T>(key: spec_fn(T) -> int, sorted: Seq<T>, e: T, p: int)
    requires
        0 <= p <= sorted.len(),
        forall|i: int| 0 <= i < p ==> key(#[trigger] sorted[i]) >= key(e),
        p < sorted.len() ==> key(sorted[p]) < key(e),
    ensures
        inserted(key, sorted, e) =~= sorted.insert(p, e),
    decreases p,
{
    if p > 0 {
        let rest = sorted.drop_first();
        assert forall|i: int| 0 <= i < p - 1 implies key(#[trigger] rest[i]) >= key(e) by {
            assert(rest[i] == sorted[i + 1]);
        }
        lemma_inserted_at(key, rest, e, p - 1);
        assert(key(sorted[0]) >= key(e));
    }
}

/// Where `e` is put in: behind all that are at least as far, before the
/// first that is nearer.
pub proof fn lemma_place<T>(key: spec_fn(T) -> int, sorted: Seq<T>, e: T)
    ensures
        0 <= place(key, sorted, e) <= sorted.len(),
        forall|i: int| 0 <= i < place(key, sorted, e) ==> key(#[trigger] sorted[i]) >= key(e),
        place(key, sorted, e) < sorted.len() ==> key(sorted[place(key, sorted, e)]) < key(e),
        inserted(key, sorted, e) =~= sorted.insert(place(key, sorted, e), e),
    decreases sorted.len(),
{
    if !(sorted.len() == 0 || key(sorted[0]) < key(e)) {
        let rest = sorted.drop_first();
        lemma_place(key, rest, e);
        let p = place(key, sorted, e);
        assert forall|i: int| 0 <= i < p implies key(#[trigger] sorted[i]) >= key(e) by {
            if i > 0 {
                assert(sorted[i] == rest[i - 1]);
            }
        }
        if p < sorted.len() {
            assert(sorted[p] == rest[p - 1]);
        }
    }
    lemma_inserted_at(key, sorted, e, place(key, sorted, e));
}

/// To put a member into an ordered sequence leaves it ordered.
pub proof fn lemma_inserted_is_ordered<T>(key: spec_fn(T) -> int, sorted: Seq<T>, e: T)
    requires
        ordered(key, sorted),
    ensures
        ordered(key, inserted(key, sorted, e)),
{
    lemma_place(key, sorted, e);
    let p = place(key, sorted, e);
    let after = sorted.insert(p, e);
    sorted.insert_ensures(p, e);
    assert forall|i: int, j: int| 0 <= i <= j < after.len() implies key(after[i]) >= key(
        after[j],
    ) by {
        if j < p {
            assert(after[i] == sorted[i] && after[j] == sorted[j]);
        } else if j == p {
            if i < p {
                assert(after[i] == sorted[i]);
            }
        } else {
            assert(after[j] == sorted[j - 1]);
            assert(key(sorted[p]) >= key(sorted[j - 1]));
            if i < p {
                assert(after[i] == sorted[i]);
                assert(key(sorted[i]) >= key(sorted[j - 1]));
            } else if i > p {
                assert(after[i] == sorted[i - 1]);
                assert(key(sorted[i - 1]) >= key(sorted[j - 1]));
            }
        }
    }
}

/// To put a member in adds it, and nothing else, to what the sequence holds.
pub proof fn lemma_inserted_holds<T>(key: spec_fn(T) -> int, sorted: Seq<T>, e: T)
    ensures
        inserted(key, sorted, e).to_multiset() =~= sorted.to_multiset().insert(e),
{
    lemma_place(key, sorted, e);
    let p = place(key, sorted, e);
    let after = sorted.insert(p, e);
    sorted.insert_ensures(p, e);
    assert(after.remove(p) =~= sorted);
    after.to_multiset_ensures();
    assert(after.contains(e)) by {
        assert(after[p] == e);
    }
    assert(after.remove(p).to_multiset() =~= after.to_multiset().remove(after[p]));
}

/// The members drawn the farthest first are in order.
pub proof fn lemma_far_first_is_ordered<T>(key: spec_fn(T) -> int, list: Seq<T>)
    ensures
        ordered(key, far_first(key, list)),
    decreases list.len(),
{
    if list.len() > 0 {
        lemma_far_first_is_ordered(key, list.drop_last());
        lemma_inserted_is_ordered(key, far_first(key, list.drop_last()), list.last());
    }
}

/// To order a list neither adds to it nor loses any of it.
pub proof fn lemma_far_first_holds_the_same<T>(key: spec_fn(T) -> int, list: Seq<T>)
    ensures
        far_first(key, list).to_multiset() =~= list.to_multiset(),
        far_first(key, list).len() == list.len(),
    decreases list.len(),
{
    if list.len() > 0 {
        let before = list.drop_last();
        lemma_far_first_holds_the_same(key, before);
        lemma_inserted_holds(key, far_first(key, before), list.last());
        before.to_multiset_ensures();
        assert(before.push(list.last()) =~= list);
        far_first(key, list).to_multiset_ensures();
        list.to_multiset_ensures();
    } else {
        assert(far_first(key, list) =~= list);
    }
}

} // verus!
