//! Stable sorting.

use vstd::prelude::*;
use vstd::seq_lib::*;

verus! {

/// Values that can be ranked. Which of two comes first depends on their views alone;
/// two values of which neither comes first are tied.
pub trait Ranked: View + Sized {
    /// Whether `a` has to come before `b`.
    spec fn precedes(a: Self::V, b: Self::V) -> bool;

    /// Two values cannot each come before the other.
    proof fn lemma_asymmetric(a: Self::V, b: Self::V)
        requires
            Self::precedes(a, b),
        ensures
            !Self::precedes(b, a),
    ;

    /// Not coming after is transitive.
    proof fn lemma_transitive(a: Self::V, b: Self::V, c: Self::V)
        requires
            !Self::precedes(b, a),
            !Self::precedes(c, b),
        ensures
            !Self::precedes(c, a),
    ;

    /// Whether `self` has to come before `other`.
    fn comes_before(&self, other: &Self) -> (r: bool)
        ensures
            r == Self::precedes(self@, other@),
    ;
}

/// The views of the items of a list.
pub open spec fn views<T: View>(s: Seq<T>) -> Seq<T::V> {
    s.map_values(|x: T| x@)
}

/// Whether neither of two values has to come before the other.
pub open spec fn tied<T: Ranked>(a: T::V, b: T::V) -> bool {
    !T::precedes(a, b) && !T::precedes(b, a)
}

/// Selects what is tied with `x`.
pub open spec fn tied_with<T: Ranked>(x: T::V) -> spec_fn(T::V) -> bool {
    |e: T::V| tied::<T>(e, x)
}

/// Whether no item of a list has to come before an earlier one.
pub open spec fn in_order<T: Ranked>(s: Seq<T::V>) -> bool {
    forall|i: int, j: int| 0 <= i < j < s.len() ==> !T::precedes(#[trigger] s[j], #[trigger] s[i])
}

/// Whether `output` is `input` sorted stably: it is in order, has the same items as
/// often, and leaves tied items in the order in which they stood.
pub open spec fn sorted_from<T: Ranked>(input: Seq<T::V>, output: Seq<T::V>) -> bool {
    &&& in_order::<T>(output)
    &&& output.to_multiset() == input.to_multiset()
    &&& forall|x: T::V| #[trigger]
        output.filter(tied_with::<T>(x)) == input.filter(tied_with::<T>(x))
}

proof fn lemma_insert<T: Ranked>(input: Seq<T::V>, sorted: Seq<T::V>, x: T::V, at: int)
    requires
        sorted_from::<T>(input, sorted),
        0 <= at <= sorted.len(),
        forall|k: int| 0 <= k < at ==> !T::precedes(x, #[trigger] sorted[k]),
        forall|k: int| at <= k < sorted.len() ==> T::precedes(x, #[trigger] sorted[k]),
    ensures
        sorted_from::<T>(input.push(x), sorted.insert(at, x)),
{
    let out = sorted.insert(at, x);
    assert forall|i: int, j: int| 0 <= i < j < out.len() implies !T::precedes(
        #[trigger] out[j],
        #[trigger] out[i],
    ) by {
        if i == at {
            T::lemma_asymmetric(x, out[j]);
        } else if j == at {
            assert(out[i] == sorted[i]);
        } else {
            let a = if i < at { i } else { i - 1 };
            let b = if j < at { j } else { j - 1 };
            assert(out[i] == sorted[a] && out[j] == sorted[b]);
        }
    }
    assert(out.to_multiset() == input.push(x).to_multiset()) by {
        to_multiset_insert(sorted, at, x);
        to_multiset_build(input, x);
    }
    let front = sorted.take(at);
    let back = sorted.skip(at);
    assert(sorted =~= front + back);
    assert(out =~= front.push(x) + back);
    assert forall|y: T::V| #[trigger]
        out.filter(tied_with::<T>(y)) == input.push(x).filter(tied_with::<T>(y)) by {
        let p = tied_with::<T>(y);
        reveal(Seq::filter);
        Seq::filter_distributes_over_add(front.push(x), back, p);
        Seq::filter_distributes_over_add(front, back, p);
        assert(front.push(x).drop_last() =~= front);
        assert(input.push(x).drop_last() =~= input);
        assert(sorted.filter(p) == input.filter(p));
        if p(x) {
            assert forall|k: int| 0 <= k < back.len() implies !p(#[trigger] back[k]) by {
                assert(back[k] == sorted[at + k]);
                if p(back[k]) {
                    T::lemma_transitive(back[k], y, x);
                }
            }
            lemma_nothing_selected(back, p);
            assert(sorted.filter(p) =~= front.filter(p));
            assert(out.filter(p) =~= sorted.filter(p).push(x));
        } else {
            assert(out.filter(p) =~= sorted.filter(p));
        }
    }
}

proof fn lemma_nothing_selected<A>(s: Seq<A>, p: spec_fn(A) -> bool)
    requires
        forall|k: int| 0 <= k < s.len() ==> !p(#[trigger] s[k]),
    ensures
        s.filter(p) == Seq::<A>::empty(),
    decreases s.len(),
{
    reveal(Seq::filter);
    if s.len() > 0 {
        assert(!p(s[s.len() - 1]));
        assert forall|k: int| 0 <= k < s.drop_last().len() implies !p(
            #[trigger] s.drop_last()[k],
        ) by {
            assert(s.drop_last()[k] == s[k]);
        }
        lemma_nothing_selected(s.drop_last(), p);
    }
}

/// Sorts a list stably.
pub fn sort_stable<T: Ranked>(items: Vec<T>) -> (r: Vec<T>)
    ensures
        sorted_from::<T>(views(items@), views(r@)),
{
    let mut out: Vec<T> = Vec::new();
    let ghost all = items@;
    proof {
        assert(views(all).take(0) =~= views(out@));
    }
    for x in it: items.into_iter()
        invariant
            it.seq() == all,
            sorted_from::<T>(views(all).take(it.index()), views(out@)),
    {
        let ghost before = out@;
        let ghost n = it.index();
        let mut low: usize = 0;
        let mut high: usize = out.len();
        while low < high
            invariant
                low <= high <= out@.len(),
                in_order::<T>(views(out@)),
                forall|k: int| 0 <= k < low ==> !T::precedes(x@, #[trigger] views(out@)[k]),
                forall|k: int|
                    high <= k < out@.len() ==> T::precedes(x@, #[trigger] views(out@)[k]),
            decreases high - low,
        {
            let mid: usize = low + (high - low) / 2;
            let ghost v = views(out@);
            assert(v[mid as int] == out@[mid as int]@);
            if x.comes_before(&out[mid]) {
                proof {
                    assert forall|k: int| mid <= k < out@.len() implies T::precedes(
                        x@,
                        #[trigger] v[k],
                    ) by {
                        if k > mid && !T::precedes(x@, v[k]) {
                            T::lemma_transitive(v[mid as int], v[k], x@);
                        }
                    }
                }
                high = mid;
            } else {
                proof {
                    assert forall|k: int| 0 <= k < mid + 1 implies !T::precedes(
                        x@,
                        #[trigger] v[k],
                    ) by {
                        if k < mid {
                            T::lemma_transitive(v[k], v[mid as int], x@);
                        }
                    }
                }
                low = mid + 1;
            }
        }
        proof {
            lemma_insert::<T>(views(all).take(n), views(out@), x@, low as int);
            assert(views(all).take(n + 1) =~= views(all).take(n).push(x@));
            assert(views(out@.insert(low as int, x)) =~= views(out@).insert(low as int, x@));
        }
        out.insert(low, x);
    }
    assert(views(all).take(all.len() as int) =~= views(all));
    out
}

/// A sorted list holds each item as often as before and no item behind one that it has to
/// come before, and items of which neither has to come before the other stand in the order
/// in which they stood.
pub proof fn law_sorting_keeps_and_orders<T: Ranked>(input: Seq<T::V>, output: Seq<T::V>, x: T::V)
    requires
        sorted_from::<T>(input, output),
    ensures
        output.len() == input.len(),
        output.to_multiset().count(x) == input.to_multiset().count(x),
        forall|i: int, j: int|
            0 <= i < j < output.len() ==> !T::precedes(#[trigger] output[j], #[trigger] output[i]),
        output.filter(|e: T::V| !T::precedes(e, x) && !T::precedes(x, e)) == input.filter(
            |e: T::V| !T::precedes(e, x) && !T::precedes(x, e),
        ),
{
    broadcast use group_to_multiset_ensures;

    assert(output.to_multiset().len() == input.to_multiset().len());
    let p = |e: T::V| !T::precedes(e, x) && !T::precedes(x, e);
    assert(tied_with::<T>(x) =~= p);
    assert(output.filter(tied_with::<T>(x)) == input.filter(tied_with::<T>(x)));
}

/// What is selected by position stands in a list exactly where it is counted there, and
/// what is counted once stands in one place.
pub proof fn lemma_counted_places<A>(s: Seq<A>, x: A)
    ensures
        s.to_multiset().count(x) > 0 <==> exists|i: int| 0 <= i < s.len() && #[trigger] s[i] == x,
        forall|i: int, j: int|
            0 <= i < s.len() && 0 <= j < s.len() && s.to_multiset().count(x) <= 1
                && #[trigger] s[i] == x && #[trigger] s[j] == x ==> i == j,
{
    broadcast use group_to_multiset_ensures;

    assert(s.contains(x) <==> s.to_multiset().count(x) > 0);
    assert forall|i: int, j: int|
        0 <= i < s.len() && 0 <= j < s.len() && s.to_multiset().count(x) <= 1 && #[trigger] s[i]
            == x && #[trigger] s[j] == x implies i == j by {
        if i != j {
            let rest = s.remove(i);
            let k = if j < i {
                j
            } else {
                j - 1
            };
            assert(rest[k] == x);
            assert(rest.contains(x));
            s.to_multiset_ensures();
            rest.to_multiset_ensures();
            assert(rest.to_multiset().count(x) > 0);
            assert(rest.to_multiset() =~= s.to_multiset().remove(s[i]));
            assert(s.to_multiset().remove(x).count(x) == s.to_multiset().count(x) - 1);
        }
    }
}

} // verus!
