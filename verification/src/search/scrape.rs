//! Reading the result pages of the scraped search engines: result
//! containers first, and where a page has none, bare headings inside links.
use vstd::prelude::*;
use crate::html::{Block, BlockView, Heading, HeadingView, block_views, heading_views, select_blocks, select_headings, spec_select_blocks, spec_select_headings};
use crate::search::{SearchResult, SearchResultView, result_views};
use crate::seqs::{filter_map, take_at_most, lemma_filter_map_step, lemma_take_at_most_prefix};
use crate::text::{
    chars_of, chars_eq, fit_count, matches_at_exec, owned, push_all, push_str, replace_all,
    replace_all_exec, starts_with, str_views, string_from_chars, trim, trim_range, utf8_len,
    utf8_len_upto, utf8_prefix,
};
use crate::urls::{first_query_value, parse_url, query_value, spec_parse_url};

verus! {

/// How a result link becomes the result's URL.
#[derive(Debug, Clone, Copy)]
pub enum LinkRule {
    /// Only absolute `http` links count.
    Direct,
    /// Absolute links count; a `/url?q=` redirect leads to its `q` target.
    Redirect,
}

/// The URL a result link gives under `rule`, if it counts.
pub open spec fn link_target(rule: LinkRule, href: Seq<char>) -> Option<Seq<char>> {
    if starts_with(href, "http"@) {
        Some(href)
    } else {
        match rule {
            LinkRule::Direct => None,
            LinkRule::Redirect => if starts_with(href, "/url?q="@) {
                match spec_parse_url("https://www.google.com"@ + href) {
                    Some(p) => match first_query_value(p.query, "q"@) {
                        Some(t) => Some(t),
                        None => Some(href),
                    },
                    None => Some(href),
                }
            } else {
                None
            },
        }
    }
}

/// The first of the texts that is not empty once trimmed, trimmed; empty
/// when there is none.
pub open spec fn first_nonempty(parts: Seq<Option<Seq<char>>>) -> Seq<char>
    decreases parts.len(),
{
    if parts.len() == 0 {
        Seq::empty()
    } else {
        let t = trim(
            match parts[0] {
                Some(t) => t,
                None => Seq::empty(),
            },
        );
        if t.len() > 0 {
            t
        } else {
            first_nonempty(parts.drop_first())
        }
    }
}

/// Text cut to the characters that fit in 200 bytes, marked with `...`
/// when it was longer.
pub open spec fn clipped(t: Seq<char>) -> Seq<char> {
    if utf8_len(t) > 200 {
        t.take(fit_count(t, 200) as int) + "..."@
    } else {
        t
    }
}

/// The snippet made of a container's whole text when no snippet element
/// has any: the text without the title, trimmed and clipped.
pub open spec fn fallback_snippet(text: Seq<char>, title: Seq<char>) -> Seq<char> {
    clipped(trim(replace_all(text, title, Seq::empty())))
}

/// The result a container gives: it needs a title (the first part) and a
/// link that counts; the snippet is the first non-empty snippet part, or
/// the container's own text.
pub open spec fn block_result(rule: LinkRule, source: Seq<char>, b: BlockView) -> Option<SearchResultView> {
    let title = trim(
        match b.firsts[0] {
            Some(t) => t,
            None => Seq::empty(),
        },
    );
    if title.len() == 0 {
        None
    } else {
        match b.href {
            None => None,
            Some(h) => match link_target(rule, h) {
                None => None,
                Some(u) => {
                    let s = first_nonempty(b.firsts.drop_first());
                    Some(
                        SearchResultView {
                            title,
                            url: u,
                            snippet: if s.len() == 0 {
                                fallback_snippet(b.text, title)
                            } else {
                                s
                            },
                            source,
                        },
                    )
                },
            },
        }
    }
}

/// `block_result` as a function of the block.
pub open spec fn block_reader(rule: LinkRule, source: Seq<char>) -> spec_fn(BlockView) -> Option<SearchResultView> {
    |b: BlockView| block_result(rule, source, b)
}

/// The link of the nearest ancestor that is an `a` element whose `href`
/// is an absolute `http` link.
pub open spec fn anchor_link(anc: Seq<Option<(Seq<char>, Option<Seq<char>>)>>) -> Option<Seq<char>>
    decreases anc.len(),
{
    if anc.len() == 0 {
        None
    } else {
        match anc[0] {
            Some((name, Some(h))) => if name == "a"@ && starts_with(h, "http"@) {
                Some(h)
            } else {
                anchor_link(anc.drop_first())
            },
            _ => anchor_link(anc.drop_first()),
        }
    }
}

/// The result a bare heading gives: its trimmed text, when not empty, with
/// the link of an enclosing anchor, and no snippet.
pub open spec fn heading_result(source: Seq<char>, h: HeadingView) -> Option<SearchResultView> {
    let title = trim(h.text);
    if title.len() == 0 {
        None
    } else {
        match anchor_link(h.ancestors) {
            Some(u) => Some(SearchResultView { title, url: u, snippet: Seq::empty(), source }),
            None => None,
        }
    }
}

/// `heading_result` as a function of the heading.
pub open spec fn heading_reader(source: Seq<char>) -> spec_fn(HeadingView) -> Option<SearchResultView> {
    |h: HeadingView| heading_result(source, h)
}

/// The results a page gives: those of its result containers when it has
/// any, else those of its headings (looking up to five levels for a link);
/// at most `max` of them, in page order.
pub open spec fn scraped_results(
    html: Seq<char>,
    container: Seq<char>,
    parts: Seq<Seq<char>>,
    heading: Seq<char>,
    rule: LinkRule,
    source: Seq<char>,
    max: usize,
) -> Seq<SearchResultView> {
    let blocks = spec_select_blocks(html, container, parts, "a[href]"@, "href"@);
    if blocks.len() > 0 {
        take_at_most(filter_map(blocks, block_reader(rule, source)), max as nat)
    } else {
        take_at_most(
            filter_map(spec_select_headings(html, heading, 5, "href"@), heading_reader(source)),
            max as nat,
        )
    }
}

fn link_target_exec(rule: LinkRule, href: &str) -> (r: Option<String>)
    ensures
        crate::text::opt_view(r) == link_target(rule, href@),
{
    let h = chars_of(href);
    let http = chars_of("http");
    if matches_at_exec(&h, &http, 0) {
        return Some(owned(href));
    }
    match rule {
        LinkRule::Direct => None,
        LinkRule::Redirect => {
            let red = chars_of("/url?q=");
            if !matches_at_exec(&h, &red, 0) {
                return None;
            }
            let mut full: Vec<char> = Vec::new();
            push_str(&mut full, "https://www.google.com");
            push_all(&mut full, h.as_slice());
            let fs = string_from_chars(full.as_slice());
            match parse_url(fs.as_str()) {
                Some(p) => match query_value(&p, "q") {
                    Some(t) => Some(t),
                    None => Some(owned(href)),
                },
                None => Some(owned(href)),
            }
        },
    }
}

fn trimmed_chars(t: &str) -> (r: Vec<char>)
    ensures
        r@ == trim(t@),
{
    let c = chars_of(t);
    let (lo, hi) = trim_range(&c, 0, c.len());
    assert(c@.subrange(0, c@.len() as int) =~= c@);
    crate::text::slice_chars(&c, lo, hi)
}

fn first_nonempty_exec(b: &Block, from: usize) -> (r: Vec<char>)
    requires
        from <= b.firsts@.len(),
    ensures
        r@ == first_nonempty(b@.firsts.subrange(from as int, b@.firsts.len() as int)),
    decreases b.firsts.len() - from,
{
    let ghost fv = b@.firsts;
    if from == b.firsts.len() {
        return Vec::new();
    }
    proof {
        assert(fv.subrange(from as int, fv.len() as int).drop_first() =~= fv.subrange(
            from + 1,
            fv.len() as int,
        ));
        assert(fv.subrange(from as int, fv.len() as int)[0] == crate::text::opt_view(
            b.firsts@[from as int],
        ));
    }
    let t: Vec<char> = match &b.firsts[from] {
        Some(s) => trimmed_chars(s.as_str()),
        None => {
            assert(trim(Seq::<char>::empty()) =~= Seq::<char>::empty()) by {
                reveal_with_fuel(crate::text::trim_start, 2);
                reveal_with_fuel(crate::text::trim_end, 2);
            }
            Vec::new()
        },
    };
    if t.len() > 0 {
        t
    } else {
        first_nonempty_exec(b, from + 1)
    }
}

fn clipped_exec(t: Vec<char>) -> (r: Vec<char>)
    ensures
        r@ == clipped(t@),
{
    match utf8_len_upto(&t, 200) {
        Some(_) => t,
        None => {
            let mut p = utf8_prefix(&t, 200);
            push_str(&mut p, "...");
            p
        },
    }
}

fn block_result_exec(rule: LinkRule, source: &str, b: &Block) -> (r: Option<SearchResult>)
    requires
        b.firsts@.len() >= 1,
    ensures
        match r {
            Some(x) => block_result(rule, source@, b@) == Some(x@),
            None => block_result(rule, source@, b@) is None,
        },
{
    let title: Vec<char> = match &b.firsts[0] {
        Some(s) => trimmed_chars(s.as_str()),
        None => {
            assert(trim(Seq::<char>::empty()) =~= Seq::<char>::empty()) by {
                reveal_with_fuel(crate::text::trim_start, 2);
                reveal_with_fuel(crate::text::trim_end, 2);
            }
            Vec::new()
        },
    };
    assert(b@.firsts[0] == crate::text::opt_view(b.firsts@[0]));
    if title.len() == 0 {
        return None;
    }
    let href = match &b.href {
        None => return None,
        Some(h) => h,
    };
    let url = match link_target_exec(rule, href.as_str()) {
        None => return None,
        Some(u) => u,
    };
    let s = first_nonempty_exec(b, 1);
    assert(b@.firsts.subrange(1, b@.firsts.len() as int) =~= b@.firsts.drop_first());
    let snippet = if s.len() == 0 {
        let text = chars_of(b.text.as_str());
        let cut = replace_all_exec(&text, &title, &Vec::new());
        let (lo, hi) = trim_range(&cut, 0, cut.len());
        assert(cut@.subrange(0, cut@.len() as int) =~= cut@);
        let tr = crate::text::slice_chars(&cut, lo, hi);
        clipped_exec(tr)
    } else {
        s
    };
    Some(
        SearchResult {
            title: string_from_chars(title.as_slice()),
            url,
            snippet: string_from_chars(snippet.as_slice()),
            source: owned(source),
        },
    )
}

fn heading_result_exec(source: &str, h: &Heading) -> (r: Option<SearchResult>)
    ensures
        match r {
            Some(x) => heading_result(source@, h@) == Some(x@),
            None => heading_result(source@, h@) is None,
        },
{
    let title = trimmed_chars(h.text.as_str());
    if title.len() == 0 {
        return None;
    }
    let ghost av = h@.ancestors;
    let a = chars_of("a");
    let http = chars_of("http");
    let mut i: usize = 0;
    assert(av.subrange(0, av.len() as int) =~= av);
    while i < h.ancestors.len()
        invariant
            i <= h.ancestors.len(),
            av == h@.ancestors,
            a@ == "a"@,
            http@ == "http"@,
            title@ == trim(h@.text),
            title@.len() > 0,
            anchor_link(av) == anchor_link(av.subrange(i as int, av.len() as int)),
        decreases h.ancestors.len() - i,
    {
        proof {
            assert(av.subrange(i as int, av.len() as int).drop_first() =~= av.subrange(
                i + 1,
                av.len() as int,
            ));
            assert(av.subrange(i as int, av.len() as int)[0] == av[i as int]);
        }
        match &h.ancestors[i] {
            Some((name, Some(href))) => {
                assert(av[i as int] == Some((name@, Some(href@))));
                let n = chars_of(name.as_str());
                let hc = chars_of(href.as_str());
                if chars_eq(&n, &a) && matches_at_exec(&hc, &http, 0) {
                    return Some(
                        SearchResult {
                            title: string_from_chars(title.as_slice()),
                            url: href.clone(),
                            snippet: String::new(),
                            source: owned(source),
                        },
                    );
                }
            },
            _ => {},
        }
        i = i + 1;
    }
    assert(av.subrange(i as int, av.len() as int) =~= Seq::<Option<(Seq<char>, Option<Seq<char>>)>>::empty());
    None
}

/// Reads the results of a search page: `container` selects result blocks,
/// `parts` the title then the snippet candidates inside one, `heading` the
/// headings used when there are no blocks.
pub fn scrape_results(
    html: &str,
    container: &str,
    parts: &Vec<String>,
    heading: &str,
    rule: LinkRule,
    source: &str,
    max: usize,
) -> (r: Vec<SearchResult>)
    requires
        parts@.len() >= 1,
    ensures
        result_views(r@) == scraped_results(html@, container@, str_views(parts@), heading@, rule, source@, max),
{
    let blocks = select_blocks(html, container, parts, "a[href]", "href");
    let mut results: Vec<SearchResult> = Vec::new();
    if blocks.len() > 0 {
        let ghost bv = block_views(blocks@);
        let ghost f = block_reader(rule, source@);
        let mut i: usize = 0;
        assert(bv.take(blocks.len() as int) =~= bv);
        while i < blocks.len()
            invariant
                i <= blocks.len(),
                bv.take(blocks.len() as int) == bv,
                bv == block_views(blocks@),
                f == block_reader(rule, source@),
                parts@.len() >= 1,
                forall|k: int| 0 <= k < blocks@.len() ==> (#[trigger] blocks@[k]).firsts@.len() == parts@.len(),
                result_views(results@) == filter_map(bv.take(i as int), f),
                results@.len() <= max,
            ensures
                result_views(results@) == take_at_most(filter_map(bv, f), max as nat),
            decreases blocks.len() - i,
        {
            if results.len() >= max {
                proof {
                    lemma_take_at_most_prefix(bv, f, i as int, max as nat);
                }
                break;
            }
            proof {
                lemma_filter_map_step(bv, f, i as int);
                assert(bv[i as int] == blocks@[i as int]@);
            }
            let ghost old_r = results@;
            match block_result_exec(rule, source, &blocks[i]) {
                Some(x) => {
                    results.push(x);
                    assert(result_views(results@) =~= result_views(old_r).push(x@));
                },
                None => {},
            }
            i = i + 1;
        }
    } else {
        let heads = select_headings(html, heading, 5, "href");
        let ghost hv = heading_views(heads@);
        let ghost f = heading_reader(source@);
        let mut i: usize = 0;
        assert(hv.take(heads.len() as int) =~= hv);
        while i < heads.len()
            invariant
                i <= heads.len(),
                hv.take(heads.len() as int) == hv,
                hv == heading_views(heads@),
                f == heading_reader(source@),
                result_views(results@) == filter_map(hv.take(i as int), f),
                results@.len() <= max,
            ensures
                result_views(results@) == take_at_most(filter_map(hv, f), max as nat),
            decreases heads.len() - i,
        {
            if results.len() >= max {
                proof {
                    lemma_take_at_most_prefix(hv, f, i as int, max as nat);
                }
                break;
            }
            proof {
                lemma_filter_map_step(hv, f, i as int);
                assert(hv[i as int] == heads@[i as int]@);
            }
            let ghost old_r = results@;
            match heading_result_exec(source, &heads[i]) {
                Some(x) => {
                    results.push(x);
                    assert(result_views(results@) =~= result_views(old_r).push(x@));
                },
                None => {},
            }
            i = i + 1;
        }
    }
    results
}

/// A result page never gives more results than asked for.
pub proof fn lemma_scraped_at_most(
    html: Seq<char>,
    container: Seq<char>,
    parts: Seq<Seq<char>>,
    heading: Seq<char>,
    rule: LinkRule,
    source: Seq<char>,
    max: usize,
)
    ensures
        scraped_results(html, container, parts, heading, rule, source, max).len() <= max,
{
    let blocks = spec_select_blocks(html, container, parts, "a[href]"@, "href"@);
    crate::seqs::lemma_take_at_most_len(filter_map(blocks, block_reader(rule, source)), max as nat);
    crate::seqs::lemma_take_at_most_len(
        filter_map(spec_select_headings(html, heading, 5, "href"@), heading_reader(source)),
        max as nat,
    );
}

} // verus!
