//! How many places of a list have a property.

use vstd::prelude::*;

verus! {

/// The places below a bound that have a property.
pub open spec fn places(bound: int, property: spec_fn(int) -> bool) -> Set<int> {
    Set::new(|i: int| 0 <= i < bound && property(i))
}

/// How many places below a bound have a property.
pub open spec fn count(bound: int, property: spec_fn(int) -> bool) -> nat {
    places(bound, property).len()
}

/// There are finitely many places below a bound; the next place counts if it has the property.
pub proof fn lemma_count(bound: int, property: spec_fn(int) -> bool)
    requires
        0 <= bound,
    ensures
        places(bound, property).finite(),
        count(bound, property) <= bound,
        count(0, property) == 0,
        count(bound + 1, property) == count(bound, property) + (if property(bound) {
            1nat
        } else {
            0nat
        }),
        places(bound + 1, property).finite(),
    decreases bound,
{
    assert(places(0, property) =~= Set::<int>::empty());
    if bound > 0 {
        lemma_count(bound - 1, property);
    }
    if property(bound) {
        assert(places(bound + 1, property) =~= places(bound, property).insert(bound));
    } else {
        assert(places(bound + 1, property) =~= places(bound, property));
    }
}

/// Of any two different places that have a property one comes after the other, and what comes after
/// a later one comes after an earlier one.
pub open spec fn is_order(
    bound: int,
    property: spec_fn(int) -> bool,
    after: spec_fn(int, int) -> bool,
) -> bool {
    &&& forall|i: int, j: int|
        0 <= i < bound && 0 <= j < bound && property(i) && property(j) && i != j ==> #[trigger] after(
            i,
            j,
        ) || after(j, i)
    &&& forall|i: int, j: int, k: int|
        0 <= i < bound && 0 <= j < bound && 0 <= k < bound && property(i) && property(j)
            && property(k) && #[trigger] after(i, j) && #[trigger] after(j, k) && i != k ==> after(i, k)
}

/// One of the places that have a property comes before all others.
proof fn lemma_first(
    bound: int,
    property: spec_fn(int) -> bool,
    after: spec_fn(int, int) -> bool,
    some: int,
) -> (first: int)
    requires
        is_order(bound, property, after),
        0 <= some < bound,
        property(some),
    ensures
        0 <= first < bound,
        property(first),
        forall|j: int| 0 <= j < bound && #[trigger] property(j) && j != first ==> after(first, j),
{
    lemma_first_below(bound, property, after, some, bound)
}

proof fn lemma_first_below(
    bound: int,
    property: spec_fn(int) -> bool,
    after: spec_fn(int, int) -> bool,
    some: int,
    upto: int,
) -> (first: int)
    requires
        is_order(bound, property, after),
        0 <= some < bound,
        property(some),
        0 <= upto <= bound,
    ensures
        0 <= first < bound,
        property(first),
        forall|j: int|
            0 <= j < upto && #[trigger] property(j) && j != first ==> after(first, j),
    decreases upto,
{
    if upto == 0 {
        some
    } else {
        let before = lemma_first_below(bound, property, after, some, upto - 1);
        let last = upto - 1;
        if !property(last) || last == before || after(before, last) {
            before
        } else {
            assert(after(last, before) || after(before, last));
            assert forall|j: int| 0 <= j < upto && #[trigger] property(j) && j != last implies after(
                last,
                j,
            ) by {
                if j != before {
                    assert(after(before, j));
                }
            }
            last
        }
    }
}

/// If each place that has a property has fewer than some number of such places after it, then there
/// are no more than that number.
pub proof fn lemma_bounded(
    bound: int,
    property: spec_fn(int) -> bool,
    after: spec_fn(int, int) -> bool,
    most: nat,
)
    requires
        0 <= bound,
        is_order(bound, property, after),
        forall|i: int|
            0 <= i < bound && #[trigger] property(i) ==> count(
                bound,
                |j: int| property(j) && after(i, j),
            ) < most,
    ensures
        count(bound, property) <= most,
{
    lemma_count(bound, property);
    let all = places(bound, property);
    if all.len() > 0 {
        let some = all.choose();
        assert(all.contains(some));
        let first = lemma_first(bound, property, after, some);
        let later = |j: int| property(j) && after(first, j);
        lemma_count(bound, later);
        assert(all.remove(first).subset_of(places(bound, later))) by {
            assert forall|j: int| all.remove(first).contains(j) implies places(
                bound,
                later,
            ).contains(j) by {
                assert(property(j));
            }
        }
        vstd::set_lib::lemma_len_subset(all.remove(first), places(bound, later));
        assert(all.contains(first));
        assert(count(bound, later) < most);
    }
}

} // verus!
