use vstd::prelude::*;

verus! {

/// `i` is the first position of `s` whose element satisfies `p`.
pub open spec fn is_first<A>(s: Seq<A>, p: spec_fn(A) -> bool, i: int) -> bool {
    &&& 0 <= i < s.len()
    &&& p(s[i])
    &&& forall|j: int| 0 <= j < i ==> !p(#[trigger] s[j])
}

/// The first position of `s` whose element satisfies `p`, if any.
pub open spec fn first_index<A>(s: Seq<A>, p: spec_fn(A) -> bool) -> Option<int> {
    if exists|i: int| is_first(s, p, i) {
        Some(choose|i: int| is_first(s, p, i))
    } else {
        None
    }
}

/// An index of a vector, seen as a mathematical integer.
pub open spec fn opt_int(o: Option<usize>) -> Option<int> {
    match o {
        Some(i) => Some(i as int),
        None => None,
    }
}

pub proof fn lemma_first_index_at<A>(s: Seq<A>, p: spec_fn(A) -> bool, i: int)
    requires
        is_first(s, p, i),
    ensures
        first_index(s, p) == Some(i),
{
    let k = choose|k: int| is_first(s, p, k);
    assert(is_first(s, p, k));
    if k < i {
        assert(!p(s[k]));
    } else if k > i {
        assert(!p(s[i]));
    }
}

pub proof fn lemma_first_index_none<A>(s: Seq<A>, p: spec_fn(A) -> bool)
    requires
        forall|j: int| 0 <= j < s.len() ==> !p(#[trigger] s[j]),
    ensures
        first_index(s, p) is None,
{
}

pub proof fn lemma_first_index_some<A>(s: Seq<A>, p: spec_fn(A) -> bool)
    requires
        first_index(s, p) is Some,
    ensures
        is_first(s, p, first_index(s, p)->0),
{
}

/// Any element that satisfies `p` makes `first_index` defined, at or before it.
pub proof fn lemma_first_index_exists<A>(s: Seq<A>, p: spec_fn(A) -> bool, i: int)
    requires
        0 <= i < s.len(),
        p(s[i]),
    ensures
        first_index(s, p) is Some,
        first_index(s, p)->0 <= i,
    decreases i,
{
    if forall|j: int| 0 <= j < i ==> !p(#[trigger] s[j]) {
        lemma_first_index_at(s, p, i);
    } else {
        let j = choose|j: int| 0 <= j < i && !!p(#[trigger] s[j]);
        lemma_first_index_exists(s, p, j);
    }
}

/// A kept element sits in the filtered sequence at the count of kept elements
/// before it.
pub proof fn lemma_filter_index<A>(s: Seq<A>, p: spec_fn(A) -> bool, i: int)
    requires
        0 <= i < s.len(),
        p(s[i]),
    ensures
        s.take(i).filter(p).len() < s.filter(p).len(),
        s.filter(p)[s.take(i).filter(p).len() as int] == s[i],
    decreases s.len(),
{
    reveal(Seq::filter);
    let d = s.drop_last();
    if i == s.len() - 1 {
        assert(s.take(i) =~= d);
    } else {
        assert(s.take(i) =~= d.take(i));
        lemma_filter_index(d, p, i);
    }
}

/// Each element of the filtered sequence comes from a kept element of the
/// unfiltered one, found at the count of kept elements before it.
pub proof fn lemma_filter_origin<A>(s: Seq<A>, p: spec_fn(A) -> bool, j: int) -> (i: int)
    requires
        0 <= j < s.filter(p).len(),
    ensures
        0 <= i < s.len(),
        p(s[i]),
        s.take(i).filter(p).len() == j,
        s.filter(p)[j] == s[i],
    decreases s.len(),
{
    reveal(Seq::filter);
    let d = s.drop_last();
    if j < d.filter(p).len() {
        let i = lemma_filter_origin(d, p, j);
        assert(s.take(i) =~= d.take(i));
        i
    } else {
        assert(s.take(s.len() - 1) =~= d);
        s.len() - 1
    }
}

} // verus!
