//! The Brave Web Search API; needs an API key.
use vstd::prelude::*;
use vstd::arithmetic::power2::pow2;
use crate::config::BraveConfig;
use crate::error::{ErrorView, SearchXyzError};
use crate::search::{FetchFailure, SearchBackend, SearchResult, SearchResultView, fetch_failure, fetch_failure_error, result_views};
use crate::text::{decimal, decimal_chars, opt_view, owned, push_decimal, push_str, string_from_chars};

verus! {

/// One web result of the Brave API answer.
#[derive(Debug, Clone)]
pub struct BraveItem {
    pub title: String,
    pub url: String,
    pub description: Option<String>,
}

/// The result a Brave web result becomes; a missing description gives an
/// empty snippet.
pub open spec fn brave_result(i: BraveItem) -> SearchResultView {
    SearchResultView {
        title: i.title@,
        url: i.url@,
        snippet: match opt_view(i.description) {
            Some(d) => d,
            None => Seq::empty(),
        },
        source: "brave"@,
    }
}

/// What to do with the API's answer.
#[derive(Debug)]
pub enum BraveStep {
    /// Read the JSON body.
    Parse,
    /// Wait, then ask again; `attempt` rate-limited answers so far.
    Retry { attempt: u32, delay_ms: u64 },
    /// Give up with this error.
    Fail(SearchXyzError),
}

/// Spec form of `BraveStep`.
pub enum BraveStepView {
    Parse,
    Retry(u32, nat),
    Fail(ErrorView),
}

impl View for BraveStep {
    type V = BraveStepView;

    open spec fn view(&self) -> BraveStepView {
        match self {
            BraveStep::Parse => BraveStepView::Parse,
            BraveStep::Retry { attempt, delay_ms } => BraveStepView::Retry(*attempt, *delay_ms as nat),
            BraveStep::Fail(e) => BraveStepView::Fail(e@),
        }
    }
}

/// Rate-limited answers tolerated before giving up.
pub const BRAVE_MAX_RETRIES: u32 = 3;

/// The step on an answer with `status`, after `attempt` rate-limited
/// answers: 200 is read; 401 means a bad key; 429 is retried after 0.5 s
/// doubled per earlier retry, until three retries are spent; 5xx and any
/// other status fail.
pub open spec fn brave_step(query: Seq<char>, attempt: u32, status: u16) -> BraveStepView {
    if status == 200 {
        BraveStepView::Parse
    } else if status == 401 {
        BraveStepView::Fail(
            ErrorView::SearchFailed {
                query,
                reason: "Brave API key is invalid or expired (HTTP 401). Verify SEARCHXYZ_BRAVE_API_KEY."@,
            },
        )
    } else if status == 429 {
        if attempt + 1 > BRAVE_MAX_RETRIES {
            BraveStepView::Fail(ErrorView::RateLimited { provider: "brave"@, retry_after_secs: 60 })
        } else {
            BraveStepView::Retry((attempt + 1) as u32, 500 * pow2(attempt as nat))
        }
    } else if 500 <= status <= 599 {
        BraveStepView::Fail(
            ErrorView::SearchFailed {
                query,
                reason: "Brave API server error (HTTP "@ + decimal(status as nat) + "). Try again later."@,
            },
        )
    } else {
        BraveStepView::Fail(
            ErrorView::SearchFailed {
                query,
                reason: "Unexpected Brave API status: "@ + decimal(status as nat),
            },
        )
    }
}

/// Brave Web Search API backend.
pub struct BraveBackend {
    pub client: reqwest::Client,
    pub config: BraveConfig,
}

impl BraveBackend {
    /// A backend sending its requests with `client`.
    pub fn new(client: reqwest::Client, config: BraveConfig) -> (b: Self)
        ensures
            b.client == client,
            b.config == config,
    {
        BraveBackend { client, config }
    }

    /// The API key, or the error for a backend without one.
    pub fn api_key(&self, query: &str) -> (r: Result<String, SearchXyzError>)
        ensures
            match r {
                Ok(k) => opt_view(self.config.api_key) == Some(k@),
                Err(e) => self.config.api_key is None && e@ == (ErrorView::SearchFailed {
                    query: query@,
                    reason: "Brave API key not configured. Set SEARCHXYZ_BRAVE_API_KEY."@,
                }),
            },
    {
        match &self.config.api_key {
            Some(k) => Ok(k.clone()),
            None => Err(
                SearchXyzError::SearchFailed {
                    query: owned(query),
                    reason: owned("Brave API key not configured. Set SEARCHXYZ_BRAVE_API_KEY."),
                },
            ),
        }
    }

    /// The query parameters of a request: the query and a result count of
    /// at most 20.
    pub fn request_params(query: &str, max_results: usize) -> (p: Vec<(String, String)>)
        ensures
            p@.len() == 2,
            p@[0].0@ == "q"@,
            p@[0].1@ == query@,
            p@[1].0@ == "count"@,
            p@[1].1@ == decimal((if max_results < 20 { max_results } else { 20 }) as nat),
    {
        let n: usize = if max_results < 20 { max_results } else { 20 };
        let mut p: Vec<(String, String)> = Vec::new();
        p.push((owned("q"), owned(query)));
        let d = decimal_chars(n as u64);
        p.push((owned("count"), string_from_chars(d.as_slice())));
        p
    }

    /// Decides what to do with an answer of `status`, after `attempt`
    /// rate-limited answers (never more than the three tolerated).
    pub fn on_status(query: &str, attempt: u32, status: u16) -> (s: BraveStep)
        requires
            attempt <= BRAVE_MAX_RETRIES,
        ensures
            s@ == brave_step(query@, attempt, status),
    {
        if status == 200 {
            BraveStep::Parse
        } else if status == 401 {
            BraveStep::Fail(
                SearchXyzError::SearchFailed {
                    query: owned(query),
                    reason: owned(
                        "Brave API key is invalid or expired (HTTP 401). Verify SEARCHXYZ_BRAVE_API_KEY.",
                    ),
                },
            )
        } else if status == 429 {
            let a = attempt + 1;
            if a > BRAVE_MAX_RETRIES {
                BraveStep::Fail(SearchXyzError::RateLimited { provider: owned("brave"), retry_after_secs: 60 })
            } else {
                let mut d: u64 = 500;
                let mut k: u32 = 0;
                proof {
                    vstd::arithmetic::power2::lemma2_to64();
                }
                while k < attempt
                    invariant
                        k <= attempt <= 2,
                        d == 500 * pow2(k as nat),
                        pow2(0) == 1,
                        pow2(1) == 2,
                        pow2(2) == 4,
                    decreases attempt - k,
                {
                    proof {
                        vstd::arithmetic::power2::lemma_pow2_unfold((k + 1) as nat);
                    }
                    d = d * 2;
                    k = k + 1;
                }
                BraveStep::Retry { attempt: a, delay_ms: d }
            }
        } else if 500 <= status && status <= 599 {
            let mut o: Vec<char> = Vec::new();
            push_str(&mut o, "Brave API server error (HTTP ");
            push_decimal(&mut o, status as u64);
            push_str(&mut o, "). Try again later.");
            BraveStep::Fail(SearchXyzError::SearchFailed { query: owned(query), reason: string_from_chars(o.as_slice()) })
        } else {
            let mut o: Vec<char> = Vec::new();
            push_str(&mut o, "Unexpected Brave API status: ");
            push_decimal(&mut o, status as u64);
            BraveStep::Fail(SearchXyzError::SearchFailed { query: owned(query), reason: string_from_chars(o.as_slice()) })
        }
    }

    /// The results of a successful answer: its web results, in order, or
    /// none when the answer has no web section.
    pub fn results_from(web: Option<Vec<BraveItem>>) -> (r: Vec<SearchResult>)
        ensures
            result_views(r@) == match web {
                Some(v) => v@.map_values(|i: BraveItem| brave_result(i)),
                None => Seq::<SearchResultView>::empty(),
            },
    {
        let items = match web {
            Some(v) => v,
            None => {
                let r: Vec<SearchResult> = Vec::new();
                assert(result_views(r@) =~= Seq::<SearchResultView>::empty());
                return r;
            },
        };
        let mut r: Vec<SearchResult> = Vec::new();
        let mut i: usize = 0;
        while i < items.len()
            invariant
                i <= items.len(),
                result_views(r@) == items@.take(i as int).map_values(|i: BraveItem| brave_result(i)),
            decreases items.len() - i,
        {
            let it = &items[i];
            let snippet = match &it.description {
                Some(d) => d.clone(),
                None => String::new(),
            };
            let ghost old_r = r@;
            r.push(SearchResult { title: it.title.clone(), url: it.url.clone(), snippet, source: owned("brave") });
            assert(result_views(r@) =~= result_views(old_r).push(brave_result(items@[i as int])));
            assert(items@.take(i + 1).map_values(|i: BraveItem| brave_result(i)) =~= items@.take(
                i as int,
            ).map_values(|i: BraveItem| brave_result(i)).push(brave_result(items@[i as int])));
            i = i + 1;
        }
        assert(items@.take(items.len() as int) =~= items@);
        r
    }

    /// The error a failed request, or an unreadable answer, is reported as.
    pub fn failure(query: &str, f: FetchFailure) -> (e: SearchXyzError)
        requires
            !(f is Status),
        ensures
            e@ == fetch_failure_error(
                query@,
                "Brave API request failed: "@,
                ""@,
                "Failed to parse Brave response: "@,
                f,
            ),
    {
        fetch_failure(query, "Brave API request failed: ", "", "Failed to parse Brave response: ", f)
    }
}

impl SearchBackend for BraveBackend {
    fn name(&self) -> (n: &str)
        ensures
            n@ == "brave"@,
    {
        "brave"
    }

    /// Available once an API key is configured.
    fn is_available(&self) -> (b: bool)
        ensures
            b == self.config.api_key is Some,
    {
        self.config.api_key.is_some()
    }
}

} // verus!
