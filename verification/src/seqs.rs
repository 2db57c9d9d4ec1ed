//! Sequence shapes shared by the parsers: keeping what a partial function
//! accepts, and cutting a list at a bound.
use vstd::prelude::*;

verus! {

/// The values `f` gives for the elements of `s` it accepts, in order.
pub open spec fn filter_map<A, B>(s: Seq<A>, f: spec_fn(A) -> Option<B>) -> Seq<B>
    decreases s.len(),
{
    if s.len() == 0 {
        Seq::empty()
    } else {
        let r = filter_map(s.drop_last(), f);
        match f(s.last()) {
            Some(b) => r.push(b),
            None => r,
        }
    }
}

/// At most the first `n` elements of `s`.
pub open spec fn take_at_most<A>(s: Seq<A>, n: nat) -> Seq<A> {
    if s.len() <= n {
        s
    } else {
        s.take(n as int)
    }
}

/// One more element of the input adds at most its own image.
pub proof fn lemma_filter_map_step<A, B>(s: Seq<A>, f: spec_fn(A) -> Option<B>, i: int)
    requires
        0 <= i < s.len(),
    ensures
        filter_map(s.take(i + 1), f) == match f(s[i]) {
            Some(b) => filter_map(s.take(i), f).push(b),
            None => filter_map(s.take(i), f),
        },
{
    assert(s.take(i + 1).drop_last() =~= s.take(i));
}

/// The images of a prefix are a prefix of the images of the whole.
pub proof fn lemma_filter_map_prefix<A, B>(s: Seq<A>, f: spec_fn(A) -> Option<B>, i: int)
    requires
        0 <= i <= s.len(),
    ensures
        filter_map(s.take(i), f).len() <= filter_map(s, f).len(),
        filter_map(s, f).take(filter_map(s.take(i), f).len() as int) == filter_map(s.take(i), f),
    decreases s.len() - i,
{
    if i == s.len() {
        assert(s.take(i) =~= s);
        assert(filter_map(s, f).take(filter_map(s, f).len() as int) =~= filter_map(s, f));
    } else {
        lemma_filter_map_prefix(s, f, i + 1);
        lemma_filter_map_step(s, f, i);
        let a = filter_map(s.take(i), f);
        let b = filter_map(s.take(i + 1), f);
        let w = filter_map(s, f);
        assert(w.take(a.len() as int) =~= a) by {
            assert forall|k: int| 0 <= k < a.len() implies w.take(a.len() as int)[k] == a[k] by {
                assert(w.take(b.len() as int)[k] == b[k]);
            }
        }
    }
}

/// Where the images of a prefix already reach the bound, the bounded images
/// of the whole are those of the prefix, cut at the bound.
pub proof fn lemma_take_at_most_prefix<A, B>(s: Seq<A>, f: spec_fn(A) -> Option<B>, i: int, n: nat)
    requires
        0 <= i <= s.len(),
        filter_map(s.take(i), f).len() == n,
    ensures
        take_at_most(filter_map(s, f), n) == filter_map(s.take(i), f),
{
    lemma_filter_map_prefix(s, f, i);
}

/// A bounded list has at most the bound's length.
pub proof fn lemma_take_at_most_len<A>(s: Seq<A>, n: nat)
    ensures
        take_at_most(s, n).len() <= n,
        take_at_most(s, n).len() <= s.len(),
{
}

} // verus!
