//! DuckDuckGo Lite, scraped from its lightweight HTML interface; no API key
//! required. This is the default backend.
use vstd::prelude::*;
use crate::error::SearchXyzError;
use crate::html::{Match, MatchView, match_views, select_all, spec_select_all};
use crate::search::{FetchFailure, SearchBackend, SearchResult, SearchResultView, fetch_failure, fetch_failure_error, result_views, valid_failure};
use crate::seqs::{filter_map, take_at_most, lemma_filter_map_step, lemma_take_at_most_prefix};
use crate::text::{chars_of, matches_at_exec, owned, slice_chars, starts_with, string_from_chars, trim, trim_range};

verus! {

/// The result the `i`-th result link gives: an absolute `http` link with a
/// non-empty (trimmed) text; its snippet is the `i`-th snippet cell, trimmed,
/// or empty when there are fewer cells.
pub open spec fn lite_result(snippets: Seq<MatchView>, i: int, link: MatchView) -> Option<SearchResultView> {
    match link.attr {
        Some(u) => if starts_with(u, "http"@) && trim(link.text).len() > 0 {
            Some(
                SearchResultView {
                    title: trim(link.text),
                    url: u,
                    snippet: if 0 <= i < snippets.len() {
                        trim(snippets[i].text)
                    } else {
                        Seq::empty()
                    },
                    source: "duckduckgo"@,
                },
            )
        } else {
            None
        },
        None => None,
    }
}

/// `lite_result` as a function of an indexed link.
pub open spec fn lite_reader(snippets: Seq<MatchView>) -> spec_fn((int, MatchView)) -> Option<SearchResultView> {
    |p: (int, MatchView)| lite_result(snippets, p.0, p.1)
}

/// The links of a page, each with its position.
pub open spec fn indexed(links: Seq<MatchView>) -> Seq<(int, MatchView)> {
    links.map(|i: int, l: MatchView| (i, l))
}

/// The results of a DuckDuckGo Lite page: its `a.result-link` links paired
/// by position with its `td.result-snippet` cells; at most `max`.
pub open spec fn lite_results(html: Seq<char>, max: usize) -> Seq<SearchResultView> {
    let links = spec_select_all(html, "a.result-link"@, "href"@);
    let snippets = spec_select_all(html, "td.result-snippet"@, "href"@);
    take_at_most(filter_map(indexed(links), lite_reader(snippets)), max as nat)
}

fn trimmed(t: &str) -> (r: Vec<char>)
    ensures
        r@ == trim(t@),
{
    let c = chars_of(t);
    let (lo, hi) = trim_range(&c, 0, c.len());
    assert(c@.subrange(0, c@.len() as int) =~= c@);
    slice_chars(&c, lo, hi)
}

fn lite_result_exec(snippets: &Vec<Match>, i: usize, link: &Match) -> (r: Option<SearchResult>)
    ensures
        match r {
            Some(x) => lite_result(match_views(snippets@), i as int, link@) == Some(x@),
            None => lite_result(match_views(snippets@), i as int, link@) is None,
        },
{
    let u = match &link.attr {
        Some(u) => u,
        None => return None,
    };
    let uc = chars_of(u.as_str());
    let http = chars_of("http");
    if !matches_at_exec(&uc, &http, 0) {
        return None;
    }
    let title = trimmed(link.text.as_str());
    if title.len() == 0 {
        return None;
    }
    let snippet: Vec<char> = if i < snippets.len() {
        assert(match_views(snippets@)[i as int] == snippets@[i as int]@);
        trimmed(snippets[i].text.as_str())
    } else {
        Vec::new()
    };
    Some(
        SearchResult {
            title: string_from_chars(title.as_slice()),
            url: u.clone(),
            snippet: string_from_chars(snippet.as_slice()),
            source: owned("duckduckgo"),
        },
    )
}

/// DuckDuckGo Lite backend.
pub struct DuckDuckGoBackend {
    pub client: reqwest::Client,
}

impl DuckDuckGoBackend {
    /// A backend sending its requests with `client`.
    pub fn new(client: reqwest::Client) -> (b: Self)
        ensures
            b.client == client,
    {
        DuckDuckGoBackend { client }
    }

    /// Reads at most `max_results` results from a DuckDuckGo Lite page.
    pub fn parse_results(html_body: &str, max_results: usize) -> (r: Vec<SearchResult>)
        ensures
            result_views(r@) == lite_results(html_body@, max_results),
    {
        let links = select_all(html_body, "a.result-link", "href");
        let snippets = select_all(html_body, "td.result-snippet", "href");
        let ghost lv = indexed(match_views(links@));
        let ghost f = lite_reader(match_views(snippets@));
        let mut results: Vec<SearchResult> = Vec::new();
        let mut i: usize = 0;
        assert(lv.take(links.len() as int) =~= lv);
        while i < links.len()
            invariant
                i <= links.len(),
                lv == indexed(match_views(links@)),
                lv.take(links.len() as int) == lv,
                f == lite_reader(match_views(snippets@)),
                result_views(results@) == filter_map(lv.take(i as int), f),
                results@.len() <= max_results,
            ensures
                result_views(results@) == take_at_most(filter_map(lv, f), max_results as nat),
            decreases links.len() - i,
        {
            if results.len() >= max_results {
                proof {
                    lemma_take_at_most_prefix(lv, f, i as int, max_results as nat);
                }
                break;
            }
            proof {
                lemma_filter_map_step(lv, f, i as int);
                assert(lv[i as int] == (i as int, links@[i as int]@));
            }
            let ghost old_r = results@;
            match lite_result_exec(&snippets, i, &links[i]) {
                Some(x) => {
                    results.push(x);
                    assert(result_views(results@) =~= result_views(old_r).push(x@));
                },
                None => {},
            }
            i = i + 1;
        }
        results
    }

    /// The error a failed request to DuckDuckGo is reported as.
    pub fn failure(query: &str, f: FetchFailure) -> (e: SearchXyzError)
        requires
            valid_failure(f),
        ensures
            e@ == fetch_failure_error(
                query@,
                "HTTP request failed: "@,
                "DuckDuckGo returned HTTP "@,
                "Failed to read response body: "@,
                f,
            ),
    {
        fetch_failure(query, "HTTP request failed: ", "DuckDuckGo returned HTTP ", "Failed to read response body: ", f)
    }
}

impl SearchBackend for DuckDuckGoBackend {
    fn name(&self) -> (n: &str)
        ensures
            n@ == "duckduckgo"@,
    {
        "duckduckgo"
    }

    /// No key is needed.
    fn is_available(&self) -> (b: bool)
        ensures
            b,
    {
        true
    }
}

} // verus!
