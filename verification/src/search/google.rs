//! Google, scraped from its result page; no API key required.
use vstd::prelude::*;
use crate::error::{ErrorView, SearchXyzError};
use crate::search::{FetchFailure, SearchBackend, SearchResult, fetch_failure, fetch_failure_error, result_views, valid_failure};
use crate::search::scrape::{LinkRule, scrape_results, scraped_results};
use crate::text::{owned, str_views};

verus! {

/// Google organic result containers.
pub open spec fn google_containers() -> Seq<char> {
    "div.g, div.MjjYud, div[jscontroller][data-hveid][data-ved]"@
}

/// The title selector, then the snippet selectors, of a Google result.
pub open spec fn google_parts() -> Seq<Seq<char>> {
    seq!["h3"@, ".VwiC3b"@, ".yDAB2e"@, ".BNeawe"@, "div[style*='-webkit-line-clamp']"@]
}

/// Native Google scraper backend.
pub struct GoogleBackend {
    pub client: reqwest::Client,
}

impl GoogleBackend {
    /// A backend sending its requests with `client`.
    pub fn new(client: reqwest::Client) -> (b: Self)
        ensures
            b.client == client,
    {
        GoogleBackend { client }
    }

    /// Reads at most `max_results` results from a Google result page: from
    /// its result containers, where `/url?q=` redirects lead to their
    /// target; from bare `h3` headings inside links when there are none.
    pub fn parse_results(html_body: &str, max_results: usize) -> (r: Vec<SearchResult>)
        ensures
            result_views(r@) == scraped_results(
                html_body@,
                google_containers(),
                google_parts(),
                "h3"@,
                LinkRule::Redirect,
                "google"@,
                max_results,
            ),
    {
        let mut parts: Vec<String> = Vec::new();
        parts.push(owned("h3"));
        parts.push(owned(".VwiC3b"));
        parts.push(owned(".yDAB2e"));
        parts.push(owned(".BNeawe"));
        parts.push(owned("div[style*='-webkit-line-clamp']"));
        assert(str_views(parts@) =~= google_parts());
        scrape_results(
            html_body,
            "div.g, div.MjjYud, div[jscontroller][data-hveid][data-ved]",
            &parts,
            "h3",
            LinkRule::Redirect,
            "google",
            max_results,
        )
    }

    /// The error a failed request to Google is reported as.
    pub fn failure(query: &str, f: FetchFailure) -> (e: SearchXyzError)
        requires
            valid_failure(f),
        ensures
            e@ == fetch_failure_error(
                query@,
                "Google HTTP request failed: "@,
                "Google returned HTTP "@,
                "Failed to read Google response body: "@,
                f,
            ),
    {
        fetch_failure(
            query,
            "Google HTTP request failed: ",
            "Google returned HTTP ",
            "Failed to read Google response body: ",
            f,
        )
    }
}

impl SearchBackend for GoogleBackend {
    fn name(&self) -> (n: &str)
        ensures
            n@ == "google"@,
    {
        "google"
    }

    /// No key is needed.
    fn is_available(&self) -> (b: bool)
        ensures
            b,
    {
        true
    }
}

} // verus!
