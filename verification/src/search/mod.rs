//! Web search: the result shape shared by all backends, the order in which
//! backends are tried, and each backend's reading of its provider's answer.
pub mod scrape;
pub mod google;
pub mod bing;
pub mod duckduckgo;
pub mod brave;
pub mod searxng;

use vstd::prelude::*;
use crate::error::{ErrorView, SearchXyzError};
use crate::text::{join, owned, push_str, str_views, string_from_chars};

verus! {

/// The HTTP client backends send their requests with.
#[verifier::external_type_specification]
#[verifier::external_body]
pub struct ExClient(reqwest::Client);

/// What went wrong while asking a provider, before its answer could be read.
#[derive(Debug)]
pub enum FetchFailure {
    /// The request could not be sent; the client error's text.
    Request(String),
    /// The provider answered with this non-success status.
    Status(u16),
    /// The answer could not be read or decoded; the error's text.
    Body(String),
}

/// The search failure a provider's fetch failure becomes: each kind of
/// failure has its own wording, given as a prefix; a status is printed with
/// its reason phrase.
pub open spec fn fetch_failure_error(
    query: Seq<char>,
    request: Seq<char>,
    status: Seq<char>,
    body: Seq<char>,
    f: FetchFailure,
) -> ErrorView {
    ErrorView::SearchFailed {
        query,
        reason: match f {
            FetchFailure::Request(e) => request + e@,
            FetchFailure::Status(c) => status + crate::crawler::status_text(c),
            FetchFailure::Body(e) => body + e@,
        },
    }
}

/// The status codes an HTTP status can carry.
pub open spec fn valid_failure(f: FetchFailure) -> bool {
    f matches FetchFailure::Status(c) ==> 100 <= c <= 999
}

fn fetch_failure(query: &str, request: &str, status: &str, body: &str, f: FetchFailure) -> (e: SearchXyzError)
    requires
        valid_failure(f),
    ensures
        e@ == fetch_failure_error(query@, request@, status@, body@, f),
{
    let mut o: Vec<char> = Vec::new();
    match f {
        FetchFailure::Request(e) => {
            push_str(&mut o, request);
            push_str(&mut o, e.as_str());
        },
        FetchFailure::Status(c) => {
            push_str(&mut o, status);
            let t = crate::crawler::status_display(c);
            push_str(&mut o, t.as_str());
        },
        FetchFailure::Body(e) => {
            push_str(&mut o, body);
            push_str(&mut o, e.as_str());
        },
    }
    SearchXyzError::SearchFailed { query: owned(query), reason: string_from_chars(o.as_slice()) }
}

/// Incoming search request from a tool call.
#[derive(Debug, Clone)]
pub struct SearchQuery {
    pub query: String,
    pub max_results: usize,
}

/// A single search result returned by any backend.
#[derive(Debug, Clone)]
pub struct SearchResult {
    pub title: String,
    pub url: String,
    pub snippet: String,
    /// The backend that found it (`duckduckgo`, `brave`, ...).
    pub source: String,
}

/// Spec form of `SearchResult`.
pub struct SearchResultView {
    pub title: Seq<char>,
    pub url: Seq<char>,
    pub snippet: Seq<char>,
    pub source: Seq<char>,
}

impl View for SearchResult {
    type V = SearchResultView;

    open spec fn view(&self) -> SearchResultView {
        SearchResultView {
            title: self.title@,
            url: self.url@,
            snippet: self.snippet@,
            source: self.source@,
        }
    }
}

/// The views of a list of results.
pub open spec fn result_views(v: Seq<SearchResult>) -> Seq<SearchResultView> {
    v.map_values(|r: SearchResult| r@)
}

/// A search provider, as the dispatcher sees it.
pub trait SearchBackend {
    /// Name used in logs and error messages.
    fn name(&self) -> &str;

    /// Whether the backend is configured (e.g. has its API key).
    fn is_available(&self) -> bool;
}

/// Tries backends in configured order until one answers with results.
pub struct SearchDispatcher {
    pub backends: Vec<Box<dyn SearchBackend>>,
}

impl SearchDispatcher {
    /// A dispatcher over `backends`, tried in this order.
    pub fn new(backends: Vec<Box<dyn SearchBackend>>) -> (d: Self)
        ensures
            d.backends@ == backends@,
    {
        SearchDispatcher { backends }
    }
}

/// How one backend's attempt is recorded: nothing when it answered with
/// results, its name and `(0 results)` when it found nothing, its name and
/// the error's message when it failed.
pub open spec fn attempt_note(name: Seq<char>, outcome: Result<Seq<SearchResultView>, ErrorView>) -> Option<Seq<char>> {
    match outcome {
        Ok(rs) => if rs.len() > 0 {
            None
        } else {
            Some(name + " (0 results)"@)
        },
        Err(e) => Some(name + " ("@ + crate::error::error_message_of(e) + ")"@),
    }
}

/// The view of a backend's outcome.
pub open spec fn outcome_view(o: Result<Vec<SearchResult>, SearchXyzError>) -> Result<Seq<SearchResultView>, ErrorView> {
    match o {
        Ok(v) => Ok(result_views(v@)),
        Err(e) => Err(e@),
    }
}

/// Recording `outcome` of backend `name` took the notes from `before` to
/// `after` and answered `r`: results end the dispatch, anything else adds
/// its note.
pub open spec fn recorded(
    before: Seq<Seq<char>>,
    after: Seq<Seq<char>>,
    name: Seq<char>,
    outcome: Result<Vec<SearchResult>, SearchXyzError>,
    r: Option<Vec<SearchResult>>,
) -> bool {
    match attempt_note(name, outcome_view(outcome)) {
        None => outcome matches Ok(v) && r == Some(v) && after == before,
        Some(n) => r is None && after == before.push(n),
    }
}

/// The backends tried so far in one dispatch, with what went wrong with each.
pub struct DispatchRun {
    pub tried: Vec<String>,
}

impl DispatchRun {
    /// A dispatch that has tried nothing yet.
    pub fn new() -> (r: Self)
        ensures
            r.tried@.len() == 0,
    {
        DispatchRun { tried: Vec::new() }
    }

    /// Records the outcome of asking backend `name`: a non-empty result set
    /// ends the dispatch and is handed back; an empty one or a failure is
    /// noted and the dispatch goes on.
    pub fn record(&mut self, name: &str, outcome: Result<Vec<SearchResult>, SearchXyzError>) -> (r: Option<Vec<SearchResult>>)
        ensures
            recorded(str_views(old(self).tried@), str_views(final(self).tried@), name@, outcome, r),
    {
        match outcome {
            Ok(v) => {
                if v.len() > 0 {
                    assert(result_views(v@).len() > 0);
                    return Some(v);
                }
                let mut o: Vec<char> = Vec::new();
                push_str(&mut o, name);
                push_str(&mut o, " (0 results)");
                let ghost old_t = self.tried@;
                self.tried.push(string_from_chars(o.as_slice()));
                assert(str_views(self.tried@) =~= str_views(old_t).push(o@));
                None
            },
            Err(e) => {
                let m = e.message();
                let mut o: Vec<char> = Vec::new();
                push_str(&mut o, name);
                push_str(&mut o, " (");
                push_str(&mut o, m.as_str());
                push_str(&mut o, ")");
                let ghost old_t = self.tried@;
                self.tried.push(string_from_chars(o.as_slice()));
                assert(str_views(self.tried@) =~= str_views(old_t).push(o@));
                None
            },
        }
    }

    /// The error once every available backend has been tried: the query and
    /// the notes on each backend, joined by `, `.
    pub fn exhausted(&self, query: &str) -> (e: SearchXyzError)
        ensures
            e@ == (ErrorView::AllBackendsExhausted {
                query: query@,
                backends_tried: join(str_views(self.tried@), ", "@),
            }),
    {
        let parts = crate::text::chars_of_all(&self.tried);
        let sep = crate::text::chars_of(", ");
        let j = crate::text::join_chars(&parts, sep.as_slice());
        SearchXyzError::AllBackendsExhausted { query: owned(query), backends_tried: string_from_chars(j.as_slice()) }
    }
}

} // verus!
