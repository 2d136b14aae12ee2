//! The places of the elements of a list that satisfy a predicate.

use vstd::prelude::*;

verus! {

/// Whether `places` lists, in order, the places of `s` whose elements satisfy
/// `p`.
pub open spec fn lists_places<A>(s: Seq<A>, p: spec_fn(A) -> bool, places: Seq<int>) -> bool {
    &&& forall|k: int|
        0 <= k < places.len() ==> 0 <= #[trigger] places[k] < s.len() && p(s[places[k]])
    &&& forall|k: int, l: int|
        0 <= k < l < places.len() ==> #[trigger] places[k] < #[trigger] places[l]
    &&& forall|i: int| 0 <= i < s.len() && p(#[trigger] s[i]) ==> places.contains(i)
}

/// A filter keeps the elements at the places that satisfy its predicate, in
/// order.
pub proof fn lemma_filter_listing<A>(s: Seq<A>, p: spec_fn(A) -> bool) -> (places: Seq<int>)
    ensures
        lists_places(s, p, places),
        s.filter(p) == places.map_values(|i: int| s[i]),
    decreases s.len(),
{
    if s.len() == 0 {
        s.lemma_filter_len(p);
        let places: Seq<int> = seq![];
        assert(s.filter(p) =~= places.map_values(|i: int| s[i]));
        places
    } else {
        let rest = s.drop_last();
        let n = rest.len() as int;
        let before = lemma_filter_listing(rest, p);
        assert(s =~= rest.push(s.last()));
        rest.lemma_filter_push(s.last(), p);
        assert(before.map_values(|i: int| rest[i]) =~= before.map_values(|i: int| s[i])) by {
            assert forall|k: int| 0 <= k < before.len() implies rest[before[k]] == s[before[k]] by {
            }
        }
        if p(s.last()) {
            let places = before.push(n);
            assert(s.filter(p) =~= places.map_values(|i: int| s[i]));
            assert forall|i: int| 0 <= i < s.len() && p(#[trigger] s[i]) implies places.contains(
                i,
            ) by {
                if i < n {
                    assert(p(rest[i]));
                    let k = choose|k: int| 0 <= k < before.len() && before[k] == i;
                    assert(places[k] == i);
                } else {
                    assert(places[before.len() as int] == i);
                }
            }
            assert forall|k: int| 0 <= k < places.len() implies 0 <= #[trigger] places[k] < s.len()
                && p(s[places[k]]) by {
                if k < before.len() {
                    assert(p(rest[before[k]]));
                }
            }
            places
        } else {
            assert(s.filter(p) =~= before.map_values(|i: int| s[i]));
            assert forall|i: int| 0 <= i < s.len() && p(#[trigger] s[i]) implies before.contains(
                i,
            ) by {
                assert(i < n);
                assert(p(rest[i]));
            }
            assert forall|k: int| 0 <= k < before.len() implies 0 <= #[trigger] before[k] < s.len()
                && p(s[before[k]]) by {
                assert(p(rest[before[k]]));
            }
            before
        }
    }
}

/// There are as many such places as the listing has.
pub proof fn lemma_listing_counts<A>(s: Seq<A>, p: spec_fn(A) -> bool, places: Seq<int>)
    requires
        lists_places(s, p, places),
    ensures
        Set::new(|i: int| 0 <= i < s.len() && p(s[i])).finite(),
        Set::new(|i: int| 0 <= i < s.len() && p(s[i])).len() == places.len(),
{
    let set = Set::new(|i: int| 0 <= i < s.len() && p(s[i]));
    assert(places.no_duplicates());
    places.unique_seq_to_set();
    assert(set =~= places.to_set()) by {
        assert forall|i: int| set.contains(i) == places.to_set().contains(i) by {
            if set.contains(i) {
                assert(p(s[i]));
            }
            if places.contains(i) {
                let k = choose|k: int| 0 <= k < places.len() && places[k] == i;
                assert(p(s[places[k]]));
            }
        }
    }
}

/// A filter keeps as many elements as there are places that satisfy its
/// predicate.
pub proof fn lemma_filter_counts<A>(s: Seq<A>, p: spec_fn(A) -> bool)
    ensures
        Set::new(|i: int| 0 <= i < s.len() && p(s[i])).finite(),
        Set::new(|i: int| 0 <= i < s.len() && p(s[i])).len() == s.filter(p).len(),
{
    let places = lemma_filter_listing(s, p);
    lemma_listing_counts(s, p, places);
}

} // verus!
