//! Bing, scraped from its result page; no API key required.
use vstd::prelude::*;
use crate::error::{ErrorView, SearchXyzError};
use crate::search::{FetchFailure, SearchBackend, SearchResult, fetch_failure, fetch_failure_error, result_views, valid_failure};
use crate::search::scrape::{LinkRule, scrape_results, scraped_results};
use crate::text::{owned, str_views};

verus! {

/// Bing organic result containers.
pub open spec fn bing_containers() -> Seq<char> {
    "li.b_algo"@
}

/// The title selector, then the snippet selectors, of a Bing result.
pub open spec fn bing_parts() -> Seq<Seq<char>> {
    seq!["h2"@, ".b_caption p"@, ".b_caption"@, ".b_snippet"@, "p"@]
}

/// Native Bing scraper backend.
pub struct BingBackend {
    pub client: reqwest::Client,
}

impl BingBackend {
    /// A backend sending its requests with `client`.
    pub fn new(client: reqwest::Client) -> (b: Self)
        ensures
            b.client == client,
    {
        BingBackend { client }
    }

    /// Reads at most `max_results` results from a Bing result page: from
    /// its `li.b_algo` containers, with absolute links only; from bare `h2`
    /// headings inside links when there are none.
    pub fn parse_results(html_body: &str, max_results: usize) -> (r: Vec<SearchResult>)
        ensures
            result_views(r@) == scraped_results(
                html_body@,
                bing_containers(),
                bing_parts(),
                "h2"@,
                LinkRule::Direct,
                "bing"@,
                max_results,
            ),
    {
        let mut parts: Vec<String> = Vec::new();
        parts.push(owned("h2"));
        parts.push(owned(".b_caption p"));
        parts.push(owned(".b_caption"));
        parts.push(owned(".b_snippet"));
        parts.push(owned("p"));
        assert(str_views(parts@) =~= bing_parts());
        scrape_results(
            html_body,
            "li.b_algo",
            &parts,
            "h2",
            LinkRule::Direct,
            "bing",
            max_results,
        )
    }

    /// The error a failed request to Bing is reported as.
    pub fn failure(query: &str, f: FetchFailure) -> (e: SearchXyzError)
        requires
            valid_failure(f),
        ensures
            e@ == fetch_failure_error(
                query@,
                "Bing HTTP request failed: "@,
                "Bing returned HTTP "@,
                "Failed to read Bing response body: "@,
                f,
            ),
    {
        fetch_failure(
            query,
            "Bing HTTP request failed: ",
            "Bing returned HTTP ",
            "Failed to read Bing response body: ",
            f,
        )
    }
}

impl SearchBackend for BingBackend {
    fn name(&self) -> (n: &str)
        ensures
            n@ == "bing"@,
    {
        "bing"
    }

    /// No key is needed.
    fn is_available(&self) -> (b: bool)
        ensures
            b,
    {
        true
    }
}

} // verus!
