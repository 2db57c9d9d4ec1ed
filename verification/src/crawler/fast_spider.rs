//! Link discovery: a breadth-first walk over a site that keeps the links it
//! finds on the start page's host, without extracting any content.
use vstd::prelude::*;
use crate::crawler::frontier::{contains_str, distinct, fresh, fresh_of, lemma_fresh, scope_filter, scoped_links};
use crate::html::{MatchView, match_views, select_in_fragment, spec_select_in_fragment};
use crate::seqs::{filter_map, lemma_filter_map_step, take_at_most};
use crate::text::{opt_view, owned, str_views};
use crate::urls::{host_of, parse_url, spec_parse_url, spec_url_join, spec_url_without_fragment, url_host, url_join, url_without_fragment};

verus! {

/// The link an `a[href]` element of a fetched page gives: its target
/// resolved against the base URL, without fragment.
pub open spec fn fragment_link(base: Seq<char>, m: MatchView) -> Option<Seq<char>> {
    match m.attr {
        None => None,
        Some(h) => match spec_url_join(base, h) {
            Some(j) => spec_url_without_fragment(j),
            None => None,
        },
    }
}

/// `fragment_link` as a function of the match.
pub open spec fn fragment_reader(base: Seq<char>) -> spec_fn(MatchView) -> Option<Seq<char>> {
    |m: MatchView| fragment_link(base, m)
}

/// The links of a page: none when the base does not parse; else every
/// `a[href]` target that resolves, in page order.
pub open spec fn html_links(html: Seq<char>, base: Seq<char>) -> Seq<Seq<char>> {
    if spec_parse_url(base) is None {
        Seq::empty()
    } else {
        filter_map(spec_select_in_fragment(html, "a[href]"@, "href"@), fragment_reader(base))
    }
}

/// Parse the `<a href>` targets of an HTML page into absolute URLs.
pub fn extract_links_from_html(html: &str, base_url: &str) -> (links: Vec<String>)
    ensures
        str_views(links@) == html_links(html@, base_url@),
{
    let mut links: Vec<String> = Vec::new();
    if parse_url(base_url).is_none() {
        assert(str_views(links@) =~= Seq::<Seq<char>>::empty());
        return links;
    }
    let ms = select_in_fragment(html, "a[href]", "href");
    let ghost mv = match_views(ms@);
    let ghost f = fragment_reader(base_url@);
    let mut i: usize = 0;
    assert(mv.take(ms.len() as int) =~= mv);
    while i < ms.len()
        invariant
            i <= ms.len(),
            mv == match_views(ms@),
            mv.take(ms.len() as int) == mv,
            f == fragment_reader(base_url@),
            str_views(links@) == filter_map(mv.take(i as int), f),
        decreases ms.len() - i,
    {
        proof {
            lemma_filter_map_step(mv, f, i as int);
            assert(mv[i as int] == ms@[i as int]@);
        }
        let ghost old_l = str_views(links@);
        match &ms[i].attr {
            Some(h) => match url_join(base_url, h.as_str()) {
                Some(j) => match url_without_fragment(j.as_str()) {
                    Some(u) => {
                        links.push(u);
                        assert(str_views(links@) =~= old_l.push(links@.last()@));
                    },
                    None => {},
                },
                None => {},
            },
            None => {},
        }
        i = i + 1;
    }
    links
}

/// The state of one link discovery.
pub struct LinkDiscovery {
    /// The start page's host; links elsewhere are not followed.
    pub allowed_host: Option<String>,
    pub max_links: usize,
    /// Pages already fetched (or handed out to be fetched).
    pub visited: Vec<String>,
    /// Every link found so far, the start page first.
    pub discovered: Vec<String>,
    /// Pages to fetch in the current round.
    pub queue: Vec<String>,
    /// Pages found in the current round, for the next one.
    pub next: Vec<String>,
}

impl LinkDiscovery {
    /// The discovery's invariant: no link is found twice, no page is handed
    /// out for fetching twice, and every link after the start page is on the
    /// start page's host.
    pub open spec fn wf(&self) -> bool {
        &&& str_views(self.discovered@).len() >= 1
        &&& distinct(str_views(self.discovered@))
        &&& distinct(str_views(self.visited@))
        &&& forall|i: int|
            1 <= i < self.discovered@.len() ==> opt_view(self.allowed_host) is Some && host_of(
                #[trigger] self.discovered@[i]@,
            ) == opt_view(self.allowed_host)
    }

    /// A discovery starting at `start_url`, reporting at most `max_links` links.
    pub fn new(start_url: &str, max_links: usize) -> (d: Self)
        ensures
            d.wf(),
            opt_view(d.allowed_host) == host_of(start_url@),
            d.max_links == max_links,
            str_views(d.discovered@) == seq![start_url@],
            str_views(d.queue@) == seq![start_url@],
            d.visited@.len() == 0,
            d.next@.len() == 0,
    {
        let mut discovered: Vec<String> = Vec::new();
        discovered.push(owned(start_url));
        let mut queue: Vec<String> = Vec::new();
        queue.push(owned(start_url));
        assert(str_views(discovered@) =~= seq![start_url@]);
        assert(str_views(queue@) =~= seq![start_url@]);
        LinkDiscovery {
            allowed_host: url_host(start_url),
            max_links,
            visited: Vec::new(),
            discovered,
            queue,
            next: Vec::new(),
        }
    }

    /// Whether another round is due: pages are queued and fewer links than
    /// the maximum are known.
    pub fn should_continue(&self) -> (b: bool)
        ensures
            b == (self.queue@.len() > 0 && self.discovered@.len() < self.max_links),
    {
        self.queue.len() > 0 && self.discovered.len() < self.max_links
    }

    /// Starts a round: the queued pages not yet visited, each once; they
    /// count as visited from now on.
    pub fn take_batch(&mut self) -> (batch: Vec<String>)
        requires
            old(self).wf(),
        ensures
            final(self).wf(),
            str_views(batch@) == fresh(str_views(old(self).queue@), str_views(old(self).visited@)),
            str_views(final(self).visited@) == str_views(old(self).visited@) + str_views(batch@),
            final(self).queue@.len() == 0,
            final(self).discovered == old(self).discovered,
            final(self).next == old(self).next,
            final(self).allowed_host == old(self).allowed_host,
            final(self).max_links == old(self).max_links,
    {
        let batch = fresh_of(&self.queue, &self.visited);
        let ghost old_v = str_views(self.visited@);
        let mut i: usize = 0;
        while i < batch.len()
            invariant
                i <= batch.len(),
                str_views(self.visited@) == old_v + str_views(batch@).take(i as int),
                self.discovered == old(self).discovered,
                self.next == old(self).next,
                self.queue == old(self).queue,
                self.allowed_host == old(self).allowed_host,
                self.max_links == old(self).max_links,
            decreases batch.len() - i,
        {
            let ghost before = str_views(self.visited@);
            self.visited.push(batch[i].clone());
            assert(str_views(self.visited@) =~= before.push(batch@[i as int]@));
            assert(str_views(batch@).take(i + 1) =~= str_views(batch@).take(i as int).push(batch@[i as int]@));
            i = i + 1;
        }
        assert(str_views(batch@).take(batch.len() as int) =~= str_views(batch@));
        proof {
            lemma_fresh(str_views(old(self).queue@), old_v);
        }
        self.queue = Vec::new();
        batch
    }

    /// Takes in a fetched page: its links on the allowed host that are new
    /// are added to the discovered links and to the next round.
    pub fn add_page(&mut self, html: &str, start_url: &str)
        requires
            old(self).wf(),
        ensures
            final(self).wf(),
            ({
                let new = fresh(
                    filter_map(html_links(html@, start_url@), scope_filter(opt_view(old(self).allowed_host))),
                    str_views(old(self).discovered@),
                );
                &&& str_views(final(self).discovered@) == str_views(old(self).discovered@) + new
                &&& str_views(final(self).next@) == str_views(old(self).next@) + new
            }),
            final(self).visited == old(self).visited,
            final(self).queue == old(self).queue,
            final(self).allowed_host == old(self).allowed_host,
            final(self).max_links == old(self).max_links,
    {
        let links = extract_links_from_html(html, start_url);
        let scoped = scoped_links(&self.allowed_host, &links);
        let new = fresh_of(&scoped, &self.discovered);
        let ghost d0 = str_views(self.discovered@);
        let ghost n0 = str_views(self.next@);
        let ghost ah = opt_view(self.allowed_host);
        proof {
            lemma_fresh(str_views(scoped@), d0);
            assert forall|x: Seq<char>| #[trigger] str_views(new@).contains(x) implies ah is Some
                && host_of(x) == ah by {
                assert(str_views(scoped@).contains(x));
                lemma_scoped_on_host(str_views(links@), ah, x);
            }
        }
        let mut i: usize = 0;
        while i < new.len()
            invariant
                i <= new.len(),
                str_views(self.discovered@) == d0 + str_views(new@).take(i as int),
                str_views(self.next@) == n0 + str_views(new@).take(i as int),
                self.visited == old(self).visited,
                self.queue == old(self).queue,
                self.allowed_host == old(self).allowed_host,
                self.max_links == old(self).max_links,
                ah == opt_view(self.allowed_host),
                forall|x: Seq<char>| #[trigger] str_views(new@).contains(x) ==> ah is Some && host_of(x) == ah,
            decreases new.len() - i,
        {
            let ghost bd = str_views(self.discovered@);
            let ghost bn = str_views(self.next@);
            self.discovered.push(new[i].clone());
            self.next.push(new[i].clone());
            assert(str_views(self.discovered@) =~= bd.push(new@[i as int]@));
            assert(str_views(self.next@) =~= bn.push(new@[i as int]@));
            assert(str_views(new@).take(i + 1) =~= str_views(new@).take(i as int).push(new@[i as int]@));
            i = i + 1;
        }
        assert(str_views(new@).take(new.len() as int) =~= str_views(new@));
        proof {
            let d = str_views(self.discovered@);
            assert forall|k: int| 1 <= k < self.discovered@.len() implies opt_view(self.allowed_host) is Some
                && host_of(#[trigger] self.discovered@[k]@) == opt_view(self.allowed_host) by {
                assert(d[k] == self.discovered@[k]@);
                if k >= d0.len() {
                    assert(str_views(new@)[k - d0.len()] == d[k]);
                    assert(str_views(new@).contains(d[k]));
                } else {
                    assert(d0[k] == d[k]);
                }
            }
        }
    }

    /// Ends a round: the pages found in it are queued for the next.
    pub fn end_batch(&mut self)
        requires
            old(self).wf(),
        ensures
            final(self).wf(),
            final(self).queue == old(self).next,
            final(self).next@.len() == 0,
            final(self).visited == old(self).visited,
            final(self).discovered == old(self).discovered,
            final(self).allowed_host == old(self).allowed_host,
            final(self).max_links == old(self).max_links,
    {
        let mut q: Vec<String> = Vec::new();
        std::mem::swap(&mut q, &mut self.next);
        self.queue = q;
    }

    /// The links found, at most the maximum, the start page first.
    pub fn links(&self) -> (r: Vec<String>)
        ensures
            str_views(r@) == take_at_most(str_views(self.discovered@), self.max_links as nat),
    {
        let mut r: Vec<String> = Vec::new();
        let mut i: usize = 0;
        while i < self.discovered.len() && i < self.max_links
            invariant
                i <= self.discovered.len(),
                i <= self.max_links,
                str_views(r@) == str_views(self.discovered@).take(i as int),
            decreases self.discovered.len() - i,
        {
            let ghost before = str_views(r@);
            r.push(self.discovered[i].clone());
            assert(str_views(r@) =~= before.push(self.discovered@[i as int]@));
            assert(str_views(self.discovered@).take(i + 1) =~= str_views(self.discovered@).take(
                i as int,
            ).push(self.discovered@[i as int]@));
            i = i + 1;
        }
        if i == self.discovered.len() {
            assert(str_views(self.discovered@).take(i as int) =~= str_views(self.discovered@));
        }
        r
    }
}

/// Every link kept by the scope filter is on the allowed host.
pub proof fn lemma_scoped_on_host(links: Seq<Seq<char>>, allowed: Option<Seq<char>>, x: Seq<char>)
    requires
        filter_map(links, scope_filter(allowed)).contains(x),
    ensures
        allowed is Some && host_of(x) == allowed,
    decreases links.len(),
{
    let f = scope_filter(allowed);
    if links.len() > 0 {
        let r = filter_map(links.drop_last(), f);
        match f(links.last()) {
            Some(b) => {
                assert(filter_map(links, f) == r.push(b));
                if x != b {
                    let k = choose|k: int| 0 <= k < r.push(b).len() && r.push(b)[k] == x;
                    assert(r[k] == x);
                    lemma_scoped_on_host(links.drop_last(), allowed, x);
                }
            },
            None => {
                lemma_scoped_on_host(links.drop_last(), allowed, x);
            },
        }
    }
}

} // verus!
