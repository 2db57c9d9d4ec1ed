//! A SearXNG metasearch instance, asked through its JSON API.
use vstd::prelude::*;
use crate::config::SearXngConfig;
use crate::error::SearchXyzError;
use crate::search::{FetchFailure, SearchBackend, SearchResult, SearchResultView, fetch_failure, fetch_failure_error, result_views, valid_failure};
use crate::seqs::take_at_most;
use crate::text::{chars_of, opt_view, owned, push_all, push_str, slice_chars, string_from_chars};

verus! {

/// One web result of the SearXNG answer.
#[derive(Debug, Clone)]
pub struct SearXngItem {
    pub title: String,
    pub url: String,
    pub content: Option<String>,
}

/// The result a SearXNG web result becomes; missing content gives an empty
/// snippet.
pub open spec fn searxng_result(i: SearXngItem) -> SearchResultView {
    SearchResultView {
        title: i.title@,
        url: i.url@,
        snippet: match opt_view(i.content) {
            Some(d) => d,
            None => Seq::empty(),
        },
        source: "searxng"@,
    }
}

/// `s` without its trailing `/` characters.
pub open spec fn trim_trailing_slashes(s: Seq<char>) -> Seq<char>
    decreases s.len(),
{
    if s.len() > 0 && s.last() == '/' {
        trim_trailing_slashes(s.drop_last())
    } else {
        s
    }
}

/// SearXNG metasearch API backend.
pub struct SearXngBackend {
    pub client: reqwest::Client,
    pub config: SearXngConfig,
}

impl SearXngBackend {
    /// A backend sending its requests with `client`.
    pub fn new(client: reqwest::Client, config: SearXngConfig) -> (b: Self)
        ensures
            b.client == client,
            b.config == config,
    {
        SearXngBackend { client, config }
    }

    /// The search endpoint: the instance URL without trailing slashes,
    /// then `/search`.
    pub fn endpoint(&self) -> (u: String)
        ensures
            u@ == trim_trailing_slashes(self.config.instance_url@) + "/search"@,
    {
        let c = chars_of(self.config.instance_url.as_str());
        let mut n: usize = c.len();
        assert(c@.subrange(0, n as int) =~= c@);
        while n > 0 && c[n - 1] == '/'
            invariant
                n <= c.len(),
                c@ == self.config.instance_url@,
                trim_trailing_slashes(c@) == trim_trailing_slashes(c@.subrange(0, n as int)),
            decreases n,
        {
            assert(c@.subrange(0, n as int).drop_last() =~= c@.subrange(0, n - 1));
            n = n - 1;
        }
        let mut o = slice_chars(&c, 0, n);
        push_str(&mut o, "/search");
        string_from_chars(o.as_slice())
    }

    /// The query parameters of a request: the query, JSON output, safe
    /// search off, and the configured engines when there are any.
    pub fn request_params(&self, query: &str) -> (p: Vec<(String, String)>)
        ensures
            p@.len() == (if self.config.engines is Some { 4int } else { 3 }),
            p@[0].0@ == "q"@ && p@[0].1@ == query@,
            p@[1].0@ == "format"@ && p@[1].1@ == "json"@,
            p@[2].0@ == "safesearch"@ && p@[2].1@ == "0"@,
            self.config.engines is Some ==> p@[3].0@ == "engines"@ && Some(p@[3].1@) == opt_view(
                self.config.engines,
            ),
    {
        let mut p: Vec<(String, String)> = Vec::new();
        p.push((owned("q"), owned(query)));
        p.push((owned("format"), owned("json")));
        p.push((owned("safesearch"), owned("0")));
        match &self.config.engines {
            Some(e) => p.push((owned("engines"), e.clone())),
            None => {},
        }
        p
    }

    /// The results of an answer: its first `max_results` web results.
    pub fn results_from(items: Vec<SearXngItem>, max_results: usize) -> (r: Vec<SearchResult>)
        ensures
            result_views(r@) == take_at_most(items@.map_values(|i: SearXngItem| searxng_result(i)), max_results as nat),
    {
        let ghost all = items@.map_values(|i: SearXngItem| searxng_result(i));
        let mut r: Vec<SearchResult> = Vec::new();
        let mut i: usize = 0;
        while i < items.len() && i < max_results
            invariant
                i <= items.len(),
                i <= max_results,
                all == items@.map_values(|i: SearXngItem| searxng_result(i)),
                result_views(r@) == all.take(i as int),
            decreases items.len() - i,
        {
            let it = &items[i];
            let snippet = match &it.content {
                Some(d) => d.clone(),
                None => String::new(),
            };
            let ghost old_r = r@;
            r.push(SearchResult { title: it.title.clone(), url: it.url.clone(), snippet, source: owned("searxng") });
            assert(result_views(r@) =~= result_views(old_r).push(all[i as int]));
            assert(all.take(i + 1) =~= all.take(i as int).push(all[i as int]));
            i = i + 1;
        }
        if i == items.len() {
            assert(all.take(i as int) =~= all);
        }
        r
    }

    /// The error a failed request to the instance is reported as.
    pub fn failure(query: &str, f: FetchFailure) -> (e: SearchXyzError)
        requires
            valid_failure(f),
        ensures
            e@ == fetch_failure_error(
                query@,
                "Failed to reach SearXNG instance: "@,
                "SearXNG returned HTTP Status "@,
                "Failed to parse SearXNG JSON response: "@,
                f,
            ),
    {
        fetch_failure(
            query,
            "Failed to reach SearXNG instance: ",
            "SearXNG returned HTTP Status ",
            "Failed to parse SearXNG JSON response: ",
            f,
        )
    }
}

impl SearchBackend for SearXngBackend {
    fn name(&self) -> (n: &str)
        ensures
            n@ == "searxng"@,
    {
        "searxng"
    }

    /// Available once an instance URL is configured.
    fn is_available(&self) -> (b: bool)
        ensures
            b == (self.config.instance_url@.len() > 0),
    {
        !self.config.instance_url.as_str().is_empty()
    }
}

} // verus!
