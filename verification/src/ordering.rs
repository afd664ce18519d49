//! Listings in a given order: a stable sort that leaves the records where
//! they are and says in which order to read them.

use crate::models::views;
use vstd::prelude::*;

verus! {

/// `order` lists the places of `rows` in sorted order.
///
/// - It names every place once.
/// - No record stands after one that it has to stand before.
/// - Of two records of which neither has to stand before the other, the one
///   that comes first in `rows` comes first.
pub open spec fn is_stable_order<V>(
    rows: Seq<V>,
    before: spec_fn(V, V) -> bool,
    order: Seq<usize>,
) -> bool {
    &&& order.len() == rows.len()
    &&& forall|p: int| 0 <= p < order.len() ==> (#[trigger] order[p]) < rows.len()
    &&& forall|p: int, q: int|
        0 <= p < q < order.len() ==> (#[trigger] order[p]) != (#[trigger] order[q])
    &&& forall|p: int, q: int|
        0 <= p < q < order.len() ==> !before(
            rows[(#[trigger] order[q]) as int],
            rows[(#[trigger] order[p]) as int],
        )
    &&& forall|p: int, q: int|
        0 <= p < q < order.len() && !before(
            rows[(#[trigger] order[p]) as int],
            rows[(#[trigger] order[q]) as int],
        ) ==> order[p] < order[q]
}

/// The records read in the given order.
pub open spec fn arranged<V>(rows: Seq<V>, order: Seq<usize>) -> Seq<V> {
    Seq::new(order.len(), |p: int| rows[order[p] as int])
}

/// `out` holds the records of `rows`, each once, sorted by `before`; records
/// of which neither has to stand before the other keep the order that they
/// have in `rows`.
pub open spec fn is_listing<V>(rows: Seq<V>, before: spec_fn(V, V) -> bool, out: Seq<V>) -> bool {
    exists|order: Seq<usize>| #[trigger]
        is_stable_order(rows, before, order) && out == arranged(rows, order)
}

/// An order names every place.
pub proof fn lemma_order_is_onto<V>(
    rows: Seq<V>,
    before: spec_fn(V, V) -> bool,
    order: Seq<usize>,
    place: int,
)
    requires
        is_stable_order(rows, before, order),
        0 <= place < rows.len(),
    ensures
        exists|p: int| 0 <= p < order.len() && order[p] == place,
{
    let n = rows.len() as int;
    let places = order.map_values(|x: usize| x as int);
    assert forall|i: int, j: int| 0 <= i < places.len() && 0 <= j < places.len() && i != j implies
        places[i] != places[j] by {
        if i < j {
            assert(order[i] != order[j]);
        } else {
            assert(order[j] != order[i]);
        }
    }
    places.unique_seq_to_set();
    vstd::seq_lib::seq_to_set_is_finite(places);
    vstd::set_lib::lemma_int_range(0, n);
    let all = vstd::set_lib::set_int_range(0, n);
    assert forall|x: int| places.to_set().contains(x) implies all.contains(x) by {
        let p = choose|p: int| 0 <= p < places.len() && places[p] == x;
        assert(order[p] < n);
    }
    vstd::set_lib::lemma_subset_equality(places.to_set(), all);
    assert(all.contains(place));
    assert(places.to_set().contains(place));
    let p = choose|p: int| 0 <= p < places.len() && places[p] == place;
    assert(order[p] == place);
}

/// Two sorted orders of the same records agree at every place.
proof fn lemma_same_at<V>(
    rows: Seq<V>,
    before: spec_fn(V, V) -> bool,
    one: Seq<usize>,
    other: Seq<usize>,
    p: int,
)
    requires
        is_stable_order(rows, before, one),
        is_stable_order(rows, before, other),
        0 <= p < rows.len(),
    ensures
        one[p] == other[p],
    decreases p,
{
    assert forall|q: int| 0 <= q < p implies one[q] == other[q] by {
        lemma_same_at(rows, before, one, other, q);
    }
    let a = one[p];
    let b = other[p];
    if a != b {
        lemma_order_is_onto(rows, before, other, a as int);
        let y = choose|y: int| 0 <= y < other.len() && other[y] == a;
        lemma_order_is_onto(rows, before, one, b as int);
        let x = choose|x: int| 0 <= x < one.len() && one[x] == b;
        if y < p {
            assert(one[y] == other[y]);
            assert(one[y] != one[p]);
        }
        if x < p {
            assert(one[x] == other[x]);
            assert(other[x] != other[p]);
        }
        assert(p < y && p < x);
        assert(!before(rows[other[y] as int], rows[other[p] as int]));
        assert(!before(rows[one[x] as int], rows[one[p] as int]));
        assert(other[p] < other[y]);
        assert(one[p] < one[x]);
    }
}

/// There is one sorted order of given records, and so one listing: who
/// knows that two sequences are listings of the same records knows that they
/// are equal.
pub proof fn lemma_listing_unique<V>(
    rows: Seq<V>,
    before: spec_fn(V, V) -> bool,
    one: Seq<V>,
    other: Seq<V>,
)
    requires
        is_listing(rows, before, one),
        is_listing(rows, before, other),
    ensures
        one == other,
{
    let o1 = choose|o: Seq<usize>| #[trigger]
        is_stable_order(rows, before, o) && one == arranged(rows, o);
    let o2 = choose|o: Seq<usize>| #[trigger]
        is_stable_order(rows, before, o) && other == arranged(rows, o);
    assert forall|p: int| 0 <= p < o1.len() implies o1[p] == o2[p] by {
        lemma_same_at(rows, before, o1, o2, p);
    }
    assert(o1 =~= o2);
}

/// A listing holds as many records as there are.
pub proof fn lemma_listing_len<V>(rows: Seq<V>, before: spec_fn(V, V) -> bool, out: Seq<V>)
    requires
        is_listing(rows, before, out),
    ensures
        out.len() == rows.len(),
{
}

/// A record with a place in a listing.
pub trait Ranked: View + Sized {
    /// A record with the view `a` has to stand before one with the view `b`.
    spec fn before(a: Self::V, b: Self::V) -> bool;

    fn stands_before(&self, other: &Self) -> (r: bool)
        ensures
            r == Self::before(self@, other@),
    ;

    /// A copy of the record.
    fn duplicate(&self) -> (r: Self)
        ensures
            r@ == self@,
    ;

    /// The ranking is a strict weak order.
    proof fn lemma_ranking(a: Self::V, b: Self::V, c: Self::V)
        ensures
            !Self::before(a, a),
            Self::before(a, b) && Self::before(b, c) ==> Self::before(a, c),
            Self::before(a, c) ==> Self::before(a, b) || Self::before(b, c),
    ;
}

/// The ranking of a kind of record as a relation on views.
pub open spec fn ranking<T: Ranked>() -> spec_fn(T::V, T::V) -> bool {
    |a: T::V, b: T::V| T::before(a, b)
}

/// The places of the records in sorted order.
pub fn sorted_order<T: Ranked>(rows: &Vec<T>) -> (order: Vec<usize>)
    ensures
        is_stable_order(views(rows@), ranking::<T>(), order@),
{
    let ghost all = views(rows@);
    let mut order: Vec<usize> = Vec::new();
    let mut i: usize = 0;
    proof {
        assert(all.take(0).len() == 0);
    }
    while i < rows.len()
        invariant
            i <= rows.len(),
            all == views(rows@),
            is_stable_order(all.take(i as int), ranking::<T>(), order@),
        decreases rows.len() - i,
    {
        let ghost part = all.take(i as int);
        let ghost next = all.take(i as int + 1);
        let ghost before = order@;
        let mut p: usize = 0;
        while p < order.len() && !rows[i].stands_before(&rows[order[p]])
            invariant
                i < rows.len(),
                p <= order.len(),
                order@ == before,
                all == views(rows@),
                part == all.take(i as int),
                is_stable_order(part, ranking::<T>(), order@),
                forall|q: int| 0 <= q < p ==> !T::before(all[i as int], all[order[q] as int]),
            decreases order.len() - p,
        {
            p += 1;
        }
        order.insert(p, i);
        proof {
            let after = order@;
            let f = ranking::<T>();
            assert(after.len() == i + 1);
            assert forall|x: int| 0 <= x < after.len() implies (#[trigger] after[x]) < next.len() by {
                if x < p {
                    assert(after[x] == before[x]);
                } else if x > p {
                    assert(after[x] == before[x - 1]);
                }
            }
            assert forall|x: int, y: int| 0 <= x < y < after.len() implies (#[trigger] after[x]) != (
            #[trigger] after[y]) && !f(next[after[y] as int], next[after[x] as int]) && (!f(
                next[after[x] as int],
                next[after[y] as int],
            ) ==> after[x] < after[y]) by {
                let bx = if x < p {
                    x
                } else {
                    x - 1
                };
                let by = if y < p {
                    y
                } else {
                    y - 1
                };
                if x != p && y != p {
                    assert(after[x] == before[bx]);
                    assert(after[y] == before[by]);
                    assert(next[before[bx] as int] == part[before[bx] as int]);
                    assert(next[before[by] as int] == part[before[by] as int]);
                } else if y == p {
                    assert(after[x] == before[x]);
                    assert(before[x] < i);
                    assert(next[before[x] as int] == all[before[x] as int]);
                } else {
                    assert(after[y] == before[by]);
                    assert(before[by] < i);
                    assert(before[p as int] < i);
                    let mine = all[i as int];
                    let first = all[before[p as int] as int];
                    let that = all[before[by] as int];
                    assert(next[before[by] as int] == that);
                    assert(part[before[by] as int] == that);
                    assert(part[before[p as int] as int] == first);
                    assert(T::before(mine, first));
                    T::lemma_ranking(that, mine, first);
                    T::lemma_ranking(mine, that, first);
                    T::lemma_ranking(first, mine, first);
                    if by > p {
                        assert(!f(part[before[by] as int], part[before[p as int] as int]));
                    }
                }
            }
        }
        i += 1;
    }
    proof {
        assert(all.take(i as int) =~= all);
    }
    order
}

/// The records sorted by their ranking, as copies.
pub fn listing<T: Ranked>(rows: &Vec<T>) -> (out: Vec<T>)
    ensures
        is_listing(views(rows@), ranking::<T>(), views(out@)),
{
    let order = sorted_order(rows);
    let mut out: Vec<T> = Vec::new();
    let mut p: usize = 0;
    while p < order.len()
        invariant
            p <= order.len(),
            out.len() == p,
            is_stable_order(views(rows@), ranking::<T>(), order@),
            forall|q: int| 0 <= q < p ==> out[q]@ == rows[order[q] as int]@,
        decreases order.len() - p,
    {
        out.push(rows[order[p]].duplicate());
        p += 1;
    }
    proof {
        assert(views(out@) =~= arranged(views(rows@), order@));
    }
    out
}

/// Copies of the records from the place `from` on, in their order.
pub fn copies_from<T: Ranked>(rows: &Vec<T>, from: usize) -> (out: Vec<T>)
    ensures
        views(out@) == if from <= rows.len() {
            views(rows@).skip(from as int)
        } else {
            Seq::empty()
        },
{
    let mut out: Vec<T> = Vec::new();
    if from > rows.len() {
        proof {
            assert(views(out@) =~= Seq::empty());
        }
        return out;
    }
    let mut k: usize = from;
    while k < rows.len()
        invariant
            from <= k <= rows.len(),
            out.len() == k - from,
            forall|i: int| 0 <= i < out.len() ==> out[i]@ == rows[from + i]@,
        decreases rows.len() - k,
    {
        out.push(rows[k].duplicate());
        k += 1;
    }
    proof {
        assert(views(out@) =~= views(rows@).skip(from as int));
    }
    out
}

} // verus!
