//! The frontier of a breadth-first crawl: which URLs are new, and which
//! stay within the start page's host.
use vstd::prelude::*;
use crate::seqs::{filter_map, lemma_filter_map_step};
use crate::text::{chars_eq, chars_of, opt_view, str_views};
use crate::urls::{host_of, url_host};

verus! {

/// The items of `q` not in `seen`, each once, in first-seen order.
pub open spec fn fresh(q: Seq<Seq<char>>, seen: Seq<Seq<char>>) -> Seq<Seq<char>>
    decreases q.len(),
{
    if q.len() == 0 {
        Seq::empty()
    } else if seen.contains(q[0]) {
        fresh(q.drop_first(), seen)
    } else {
        seq![q[0]] + fresh(q.drop_first(), seen.push(q[0]))
    }
}

/// No item occurs twice.
pub open spec fn distinct(s: Seq<Seq<char>>) -> bool {
    forall|i: int, j: int| 0 <= i < j < s.len() ==> s[i] != s[j]
}

/// What `fresh` keeps is new, comes from `q`, and occurs once; so
/// appending it to a distinct `seen` keeps that distinct.
pub proof fn lemma_fresh(q: Seq<Seq<char>>, seen: Seq<Seq<char>>)
    ensures
        forall|x: Seq<char>| fresh(q, seen).contains(x) ==> !seen.contains(x) && q.contains(x),
        distinct(seen) ==> distinct(seen + fresh(q, seen)),
    decreases q.len(),
{
    if q.len() > 0 {
        let rest = q.drop_first();
        if seen.contains(q[0]) {
            lemma_fresh(rest, seen);
            assert forall|x: Seq<char>| fresh(q, seen).contains(x) implies !seen.contains(x)
                && q.contains(x) by {
                assert(fresh(q, seen) == fresh(rest, seen));
                assert(rest.contains(x));
                let k = choose|k: int| 0 <= k < rest.len() && rest[k] == x;
                assert(q[k + 1] == x);
            }
        } else {
            let s2 = seen.push(q[0]);
            lemma_fresh(rest, s2);
            let f = fresh(q, seen);
            assert(f == seq![q[0]] + fresh(rest, s2));
            assert forall|x: Seq<char>| f.contains(x) implies !seen.contains(x) && q.contains(x) by {
                if x != q[0] {
                    let k = choose|k: int| 0 <= k < f.len() && f[k] == x;
                    assert(fresh(rest, s2)[k - 1] == x);
                    assert(!s2.contains(x));
                    assert(!seen.contains(x)) by {
                        if seen.contains(x) {
                            let m = choose|m: int| 0 <= m < seen.len() && seen[m] == x;
                            assert(s2[m] == x);
                        }
                    }
                    let r = choose|r: int| 0 <= r < rest.len() && rest[r] == x;
                    assert(q[r + 1] == x);
                } else {
                    assert(q[0] == x);
                }
            }
            if distinct(seen) {
                assert(distinct(s2)) by {
                    assert forall|i: int, j: int| 0 <= i < j < s2.len() implies s2[i] != s2[j] by {
                        if j == seen.len() {
                            assert(seen[i] == s2[i]);
                        }
                    }
                }
                assert(seen + f =~= s2 + fresh(rest, s2));
            }
        }
    }
}

/// Whether `s` holds `x`.
pub fn contains_str(s: &Vec<String>, x: &str) -> (b: bool)
    ensures
        b == str_views(s@).contains(x@),
{
    let xc = chars_of(x);
    let mut i: usize = 0;
    while i < s.len()
        invariant
            i <= s.len(),
            xc@ == x@,
            forall|k: int| 0 <= k < i ==> str_views(s@)[k] != x@,
        decreases s.len() - i,
    {
        let c = chars_of(s[i].as_str());
        if chars_eq(&c, &xc) {
            assert(str_views(s@)[i as int] == x@);
            return true;
        }
        i = i + 1;
    }
    false
}

/// The items of `items` not in `seen`, each once, in order.
pub fn fresh_of(items: &Vec<String>, seen: &Vec<String>) -> (r: Vec<String>)
    ensures
        str_views(r@) == fresh(str_views(items@), str_views(seen@)),
{
    let ghost q = str_views(items@);
    let mut now: Vec<String> = seen.clone();
    let mut out: Vec<String> = Vec::new();
    let mut i: usize = 0;
    assert(str_views(now@) =~= str_views(seen@)) by {
        assert forall|k: int| 0 <= k < now@.len() implies now@[k]@ == seen@[k]@ by {}
    }
    assert(q.subrange(0, q.len() as int) =~= q);
    assert(str_views(out@) =~= Seq::<Seq<char>>::empty());
    while i < items.len()
        invariant
            i <= items.len(),
            q == str_views(items@),
            str_views(now@) == str_views(seen@) + str_views(out@),
            str_views(out@) + fresh(q.subrange(i as int, q.len() as int), str_views(now@)) == fresh(
                q,
                str_views(seen@),
            ),
        decreases items.len() - i,
    {
        let ghost rest = q.subrange(i as int, q.len() as int);
        assert(rest.drop_first() =~= q.subrange(i + 1, q.len() as int));
        assert(rest[0] == items@[i as int]@);
        if !contains_str(&now, items[i].as_str()) {
            let ghost old_now = str_views(now@);
            let ghost old_out = str_views(out@);
            now.push(items[i].clone());
            out.push(items[i].clone());
            assert(str_views(now@) =~= old_now.push(items@[i as int]@));
            assert(str_views(out@) =~= old_out.push(items@[i as int]@));
            assert(str_views(now@) =~= str_views(seen@) + str_views(out@));
            assert(str_views(out@) + fresh(rest.drop_first(), str_views(now@)) =~= old_out + (seq![
                rest[0],
            ] + fresh(rest.drop_first(), old_now.push(rest[0]))));
        }
        i = i + 1;
    }
    assert(q.subrange(i as int, q.len() as int) =~= Seq::<Seq<char>>::empty());
    assert(str_views(out@) + Seq::<Seq<char>>::empty() =~= str_views(out@));
    out
}

/// A link stays in scope when the crawl has a host and the link is on it.
pub open spec fn in_scope(allowed: Option<Seq<char>>, link: Seq<char>) -> Option<Seq<char>> {
    if allowed is Some && host_of(link) == allowed {
        Some(link)
    } else {
        None
    }
}

/// `in_scope` as a function of the link.
pub open spec fn scope_filter(allowed: Option<Seq<char>>) -> spec_fn(Seq<char>) -> Option<Seq<char>> {
    |l: Seq<char>| in_scope(allowed, l)
}

/// The links among `links` on the allowed host, in order.
pub fn scoped_links(allowed: &Option<String>, links: &Vec<String>) -> (r: Vec<String>)
    ensures
        str_views(r@) == filter_map(str_views(links@), scope_filter(opt_view(*allowed))),
{
    let ghost lv = str_views(links@);
    let ghost f = scope_filter(opt_view(*allowed));
    let mut out: Vec<String> = Vec::new();
    let mut i: usize = 0;
    assert(lv.take(links.len() as int) =~= lv);
    while i < links.len()
        invariant
            i <= links.len(),
            lv == str_views(links@),
            lv.take(links.len() as int) == lv,
            f == scope_filter(opt_view(*allowed)),
            str_views(out@) == filter_map(lv.take(i as int), f),
        decreases links.len() - i,
    {
        proof {
            lemma_filter_map_step(lv, f, i as int);
        }
        let ghost old_out = str_views(out@);
        match allowed {
            Some(h) => {
                match url_host(links[i].as_str()) {
                    Some(lh) => {
                        let a = chars_of(h.as_str());
                        let b = chars_of(lh.as_str());
                        if chars_eq(&a, &b) {
                            out.push(links[i].clone());
                            assert(str_views(out@) =~= old_out.push(lv[i as int]));
                        }
                    },
                    None => {},
                }
            },
            None => {},
        }
        i = i + 1;
    }
    out
}

} // verus!
