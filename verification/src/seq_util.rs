//! Map-and-concatenate and map-and-sum over sequences, with the induction
//! lemmas the serializer and length-calculator proofs lean on.

use vstd::prelude::*;

verus! {

/// Concatenation of `f` applied to every element of `s`, in order.
pub open spec fn concat_map<A, B>(s: Seq<A>, f: spec_fn(A) -> Seq<B>) -> Seq<B>
    decreases s.len(),
{
    if s.len() == 0 {
        Seq::empty()
    } else {
        concat_map(s.drop_last(), f) + f(s.last())
    }
}

/// Sum of `f` applied to every element of `s`.
pub open spec fn sum_map<A>(s: Seq<A>, f: spec_fn(A) -> int) -> int
    decreases s.len(),
{
    if s.len() == 0 {
        0
    } else {
        sum_map(s.drop_last(), f) + f(s.last())
    }
}

/// Extending the prefix taken from `s` by one element appends `f` of that
/// element to the concatenation.
pub proof fn lemma_concat_map_take_step<A, B>(s: Seq<A>, f: spec_fn(A) -> Seq<B>, i: int)
    requires
        0 <= i < s.len(),
    ensures
        concat_map(s.take(i + 1), f) == concat_map(s.take(i), f) + f(s[i]),
{
    let t = s.take(i + 1);
    assert(t.drop_last() =~= s.take(i));
    assert(t.last() == s[i]);
}

/// The concatenation over the whole of `s` is the concatenation over the
/// prefix of full length.
pub proof fn lemma_concat_map_take_all<A, B>(s: Seq<A>, f: spec_fn(A) -> Seq<B>)
    ensures
        concat_map(s.take(s.len() as int), f) == concat_map(s, f),
{
    assert(s.take(s.len() as int) =~= s);
}

/// The concatenation splits at any point of `s` into the concatenation over
/// the prefix and the concatenation over the rest.
pub proof fn lemma_concat_map_split<A, B>(s: Seq<A>, f: spec_fn(A) -> Seq<B>, m: int)
    requires
        0 <= m <= s.len(),
    ensures
        concat_map(s, f) == concat_map(s.take(m), f) + concat_map(s.skip(m), f),
    decreases s.len(),
{
    if s.len() == 0 {
        assert(s.take(m) =~= s);
        assert(concat_map(s.skip(m), f) =~= Seq::empty());
        assert(concat_map(s, f) =~= concat_map(s.take(m), f) + concat_map(s.skip(m), f));
    } else if m == s.len() {
        assert(s.take(m) =~= s);
        assert(s.skip(m) =~= Seq::<A>::empty());
        assert(concat_map(s, f) =~= concat_map(s.take(m), f) + concat_map(s.skip(m), f));
    } else {
        lemma_concat_map_split(s.drop_last(), f, m);
        assert(s.drop_last().take(m) =~= s.take(m));
        assert(s.drop_last().skip(m) =~= s.skip(m).drop_last());
        assert(s.skip(m).last() == s.last());
        assert(s.skip(m).len() > 0);
        assert(concat_map(s.skip(m), f) == concat_map(s.skip(m).drop_last(), f) + f(s.last()));
        assert(concat_map(s, f) =~= concat_map(s.take(m), f) + concat_map(s.skip(m), f));
    }
}

/// Extending the prefix taken from `s` by one element adds `f` of that
/// element to the sum.
pub proof fn lemma_sum_map_take_step<A>(s: Seq<A>, f: spec_fn(A) -> int, i: int)
    requires
        0 <= i < s.len(),
    ensures
        sum_map(s.take(i + 1), f) == sum_map(s.take(i), f) + f(s[i]),
{
    let t = s.take(i + 1);
    assert(t.drop_last() =~= s.take(i));
    assert(t.last() == s[i]);
}

/// The sum over the whole of `s` is the sum over the prefix of full length.
pub proof fn lemma_sum_map_take_all<A>(s: Seq<A>, f: spec_fn(A) -> int)
    ensures
        sum_map(s.take(s.len() as int), f) == sum_map(s, f),
{
    assert(s.take(s.len() as int) =~= s);
}

/// A sum of non-negative terms is non-negative.
pub proof fn lemma_sum_map_nonneg<A>(s: Seq<A>, f: spec_fn(A) -> int)
    requires
        forall|j: int| 0 <= j < s.len() ==> f(s[j]) >= 0,
    ensures
        sum_map(s, f) >= 0,
    decreases s.len(),
{
    if s.len() > 0 {
        lemma_sum_map_nonneg(s.drop_last(), f);
    }
}

/// With non-negative terms, the sum over a prefix is at most the whole sum.
pub proof fn lemma_sum_map_take_bound<A>(s: Seq<A>, f: spec_fn(A) -> int, i: int)
    requires
        forall|j: int| 0 <= j < s.len() ==> f(s[j]) >= 0,
        0 <= i <= s.len(),
    ensures
        sum_map(s.take(i), f) <= sum_map(s, f),
    decreases s.len() - i,
{
    if i == s.len() {
        lemma_sum_map_take_all(s, f);
    } else {
        lemma_sum_map_take_step(s, f, i);
        lemma_sum_map_take_bound(s, f, i + 1);
    }
}

/// Two element-wise `f`-equal sequences concatenate to the same bytes.
pub proof fn lemma_concat_map_pointwise<A, B>(s1: Seq<A>, s2: Seq<A>, f: spec_fn(A) -> Seq<B>)
    requires
        s1.len() == s2.len(),
        forall|j: int| 0 <= j < s1.len() ==> f(#[trigger] s1[j]) == f(s2[j]),
    ensures
        concat_map(s1, f) == concat_map(s2, f),
    decreases s1.len(),
{
    if s1.len() > 0 {
        lemma_concat_map_pointwise(s1.drop_last(), s2.drop_last(), f);
        assert(f(s1.last()) == f(s2.last()));
    }
}

/// Two element-wise `f`-equal sequences sum to the same value.
pub proof fn lemma_sum_map_pointwise<A>(s1: Seq<A>, s2: Seq<A>, f: spec_fn(A) -> int)
    requires
        s1.len() == s2.len(),
        forall|j: int| 0 <= j < s1.len() ==> f(#[trigger] s1[j]) == f(s2[j]),
    ensures
        sum_map(s1, f) == sum_map(s2, f),
    decreases s1.len(),
{
    if s1.len() > 0 {
        lemma_sum_map_pointwise(s1.drop_last(), s2.drop_last(), f);
        assert(f(s1.last()) == f(s2.last()));
    }
}

} // verus!
