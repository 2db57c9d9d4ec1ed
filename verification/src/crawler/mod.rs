//! Crawling: what to fetch, how to read fetched pages, and the decisions
//! taken between network requests. The network itself is driven by the
//! caller, which performs each step these functions decide on.
pub mod fast_spider;
pub mod fingerprint;
pub mod frontier;
pub mod github;
pub mod headless;
pub mod sitemap;
pub mod spider;
pub mod youtube;

use vstd::prelude::*;
use vstd::arithmetic::power2::{pow2, lemma_pow2_unfold, lemma_pow2_strictly_increases, lemma2_to64, lemma2_to64_rest};
use crate::cache::Cache;
use crate::config::{CrawlerConfig, ProxyConfig};
use crate::error::{ErrorView, SearchXyzError};
use crate::text::{
    contains, decimal, opt_view, owned, push_decimal, push_str, str_contains, string_from_chars,
};
use crate::urls::{host_of, url_host};

verus! {

/// Raw fetch result before extraction.
#[derive(Debug, Clone)]
pub struct FetchResult {
    pub url: String,
    /// The URL after redirects.
    pub final_url: String,
    pub body: String,
    pub content_type: String,
}

impl FetchResult {
    /// A body that did not come over the network (a cache hit or a rendered
    /// page): it stands under the requested URL and counts as HTML.
    pub fn unfetched(url: &str, body: String) -> (r: Self)
        ensures
            r.url@ == url@,
            r.final_url@ == url@,
            r.body == body,
            r.content_type@ == "text/html"@,
    {
        FetchResult { url: owned(url), final_url: owned(url), body, content_type: owned("text/html") }
    }
}

/// The first step of every fetch, with or without JavaScript rendering: a
/// page the cache holds for `url` is answered from the cache, as an
/// unfetched HTML result; otherwise the fetch goes on. Whether a held page
/// is still fresh is judged by the clock.
pub fn cached_page(cache: &Cache, url: &str) -> (r: Option<FetchResult>)
    ensures
        match r {
            Some(f) => cache.entries().contains_key(url@) && f.body@ == cache.entries()[url@].content@
                && f.url@ == url@ && f.final_url@ == url@ && f.content_type@ == "text/html"@,
            None => true,
        },
        !cache.entries().contains_key(url@) ==> r is None,
{
    match cache.get(url) {
        Some(entry) => Some(FetchResult::unfetched(url, owned(entry.content.as_str()))),
        None => None,
    }
}

/// The key a request is rate limited under: the URL's host, or `unknown`.
pub open spec fn domain_key(url: Seq<char>) -> Seq<char> {
    match host_of(url) {
        Some(h) => h,
        None => "unknown"@,
    }
}

/// The rate-limit key of `url`.
pub fn request_domain(url: &str) -> (d: String)
    ensures
        d@ == domain_key(url@),
{
    match url_host(url) {
        Some(h) => h,
        None => owned("unknown"),
    }
}

/// Requests per second allowed per domain: the configured rate truncated to
/// 32 bits, or 2 where that is zero.
pub open spec fn quota_of(rate: u64) -> u32 {
    if (rate as u32) == 0 {
        2
    } else {
        rate as u32
    }
}

/// The per-domain quota the rate limiter is built with.
pub fn rate_quota(rate_limit_per_sec: u64) -> (q: u32)
    ensures
        q == quota_of(rate_limit_per_sec),
        q > 0,
{
    let r = rate_limit_per_sec as u32;
    if r == 0 {
        2
    } else {
        r
    }
}

/// The proxies clients are built for: the configured URLs when proxying is
/// on, none otherwise (a direct client is used when none could be built).
pub fn client_proxies(p: &ProxyConfig) -> (urls: Vec<String>)
    ensures
        urls@.map_values(|u: String| u@) == (if p.enabled {
            p.urls@.map_values(|u: String| u@)
        } else {
            Seq::<Seq<char>>::empty()
        }),
{
    let mut urls: Vec<String> = Vec::new();
    if p.enabled {
        let mut i: usize = 0;
        while i < p.urls.len()
            invariant
                i <= p.urls.len(),
                urls.len() == i,
                forall|j: int| 0 <= j < i ==> #[trigger] urls@[j]@ == p.urls@[j]@,
            decreases p.urls.len() - i,
        {
            let u = p.urls[i].clone();
            urls.push(u);
            i = i + 1;
        }
        assert(urls@.map_values(|u: String| u@) =~= p.urls@.map_values(|u: String| u@));
    } else {
        assert(urls@.map_values(|u: String| u@) =~= Seq::<Seq<char>>::empty());
    }
    urls
}

/// Which of `n` clients serves the next request: drawn at random.
pub fn pick_client(n: usize) -> (i: usize)
    requires
        n > 0,
    ensures
        i < n,
{
    fingerprint::random_below(n)
}

/// The delay before retry number `attempt`: `base` milliseconds doubled for
/// each earlier attempt.
pub open spec fn backoff_ms(base: nat, attempt: nat) -> nat {
    base * pow2((attempt - 1) as nat)
}

proof fn lemma_backoff_fits(base: nat, attempt: nat)
    requires
        1 <= attempt,
        (base <= 1000 && attempt <= 55) || (base <= 500 && attempt <= 56),
    ensures
        backoff_ms(base, attempt) <= u64::MAX,
{
    lemma2_to64_rest();
    let e = (attempt - 1) as nat;
    if base <= 1000 && attempt <= 55 {
        if e < 54 {
            lemma_pow2_strictly_increases(e, 54);
        }
        assert(base * pow2(e) <= 1000 * pow2(54)) by (nonlinear_arith)
            requires
                base <= 1000,
                pow2(e) <= pow2(54),
        ;
    } else {
        if e < 55 {
            lemma_pow2_strictly_increases(e, 55);
        }
        assert(base * pow2(e) <= 500 * pow2(55)) by (nonlinear_arith)
            requires
                base <= 500,
                pow2(e) <= pow2(55),
        ;
    }
}

fn backoff(base: u64, attempt: u32) -> (d: u64)
    requires
        1 <= attempt,
        backoff_ms(base as nat, attempt as nat) <= u64::MAX,
    ensures
        d == backoff_ms(base as nat, attempt as nat),
{
    let mut d: u64 = base;
    let mut i: u32 = 1;
    proof {
        lemma2_to64();
        assert(pow2(0) == 1);
        assert(backoff_ms(base as nat, 1) == base * pow2(0));
    }
    while i < attempt
        invariant
            1 <= i <= attempt,
            d == backoff_ms(base as nat, i as nat),
            backoff_ms(base as nat, attempt as nat) <= u64::MAX,
        decreases attempt - i,
    {
        proof {
            let e = (i - 1) as nat;
            lemma_pow2_unfold(e + 1);
            if e + 1 < (attempt - 1) as nat {
                lemma_pow2_strictly_increases(e + 1, (attempt - 1) as nat);
            }
            assert(base * pow2(e + 1) <= base * pow2((attempt - 1) as nat)) by (nonlinear_arith)
                requires
                    pow2(e + 1) <= pow2((attempt - 1) as nat),
            ;
            assert(base * pow2(e + 1) == 2 * (base * pow2(e))) by (nonlinear_arith)
                requires
                    pow2(e + 1) == 2 * pow2(e),
            ;
        }
        d = d * 2;
        i = i + 1;
    }
    d
}

/// The reason phrase `http` registers for a status code.
pub uninterp spec fn spec_canonical_reason(code: u16) -> Option<Seq<char>>;

/// Wraps `http::StatusCode::canonical_reason` (reached through `reqwest`) for
/// a code in `100..=999`, the range `StatusCode::from_u16` accepts; the table
/// it reads is named by `spec_canonical_reason`.
#[verifier::external_body]
fn canonical_reason(code: u16) -> (r: Option<String>)
    requires
        100 <= code <= 999,
    ensures
        opt_view(r) == spec_canonical_reason(code),
{
    reqwest::StatusCode::from_u16(code).ok().and_then(|s| s.canonical_reason()).map(
        |p| p.to_string(),
    )
}

/// How a status code is printed: the number, a space, and its reason phrase
/// (`<unknown status code>` when it has none).
pub open spec fn status_text(code: u16) -> Seq<char> {
    decimal(code as nat) + " "@ + match spec_canonical_reason(code) {
        Some(r) => r,
        None => "<unknown status code>"@,
    }
}

/// The printed form of a status code.
pub fn status_display(code: u16) -> (s: String)
    requires
        100 <= code <= 999,
    ensures
        s@ == status_text(code),
{
    let mut o: Vec<char> = Vec::new();
    push_decimal(&mut o, code as u64);
    push_str(&mut o, " ");
    match canonical_reason(code) {
        Some(r) => push_str(&mut o, r.as_str()),
        None => push_str(&mut o, "<unknown status code>"),
    }
    string_from_chars(o.as_slice())
}

/// What to do with a response that has arrived.
#[derive(Debug)]
pub enum ResponseStep {
    /// Wait this long, then send the request again.
    Retry { delay_ms: u64 },
    /// Read the body; it is a PDF document or else text.
    Read { is_pdf: bool },
    /// Give up with this error.
    Fail(SearchXyzError),
}

/// Spec form of `ResponseStep`.
pub enum StepView {
    Retry(nat),
    Read(bool),
    Fail(ErrorView),
}

impl View for ResponseStep {
    type V = StepView;

    open spec fn view(&self) -> StepView {
        match self {
            ResponseStep::Retry { delay_ms } => StepView::Retry(*delay_ms as nat),
            ResponseStep::Read { is_pdf } => StepView::Read(*is_pdf),
            ResponseStep::Fail(e) => StepView::Fail(e@),
        }
    }
}

/// The content type names a PDF document.
pub open spec fn is_pdf_type(ct: Seq<char>) -> bool {
    contains(ct, "application/pdf"@)
}

/// The content type is one the extractor reads: PDF, HTML, plain text or XHTML.
pub open spec fn is_supported_type(ct: Seq<char>) -> bool {
    is_pdf_type(ct) || contains(ct, "text/html"@) || contains(ct, "text/plain"@) || contains(
        ct,
        "application/xhtml"@,
    )
}

/// The guards on a successful response: its content type must be supported
/// and a declared length must not exceed the limit.
pub open spec fn content_step(url: Seq<char>, ct: Seq<char>, len: Option<u64>, max_body: usize) -> StepView {
    if !is_supported_type(ct) {
        StepView::Fail(
            ErrorView::CrawlFailed {
                url,
                reason: "Unsupported Content-Type: "@ + ct
                    + ". Only HTML pages and PDF documents are supported."@,
            },
        )
    } else if len is Some && len->0 > max_body {
        StepView::Fail(
            ErrorView::CrawlFailed {
                url,
                reason: "Response too large ("@ + decimal(len->0 as nat) + " bytes, max "@ + decimal(
                    max_body as nat,
                ) + ")"@,
            },
        )
    } else {
        StepView::Read(is_pdf_type(ct))
    }
}

/// The step taken on a response with `status`, on attempt number `attempt`:
/// 403 and 404 fail at once; 429 is retried after 1 s doubled per attempt
/// while attempts remain, then reported as rate limiting of the domain; 500
/// and 503 are retried after 0.5 s doubled per attempt, then reported; any
/// other status outside 2xx fails; a 2xx response goes through the content
/// guards.
pub open spec fn response_step(
    url: Seq<char>,
    domain: Seq<char>,
    attempt: u32,
    max_retries: u32,
    status: u16,
    ct: Seq<char>,
    len: Option<u64>,
    max_body: usize,
) -> StepView {
    if status == 403 {
        StepView::Fail(
            ErrorView::HttpError {
                url,
                status: 403,
                reason: "Access forbidden \u{2014} site blocks automated access"@,
            },
        )
    } else if status == 404 {
        StepView::Fail(ErrorView::HttpError { url, status: 404, reason: "Page not found"@ })
    } else if status == 429 {
        if attempt <= max_retries {
            StepView::Retry(backoff_ms(1000, attempt as nat))
        } else {
            StepView::Fail(ErrorView::RateLimited { provider: domain, retry_after_secs: 60 })
        }
    } else if status == 500 || status == 503 {
        if attempt <= max_retries {
            StepView::Retry(backoff_ms(500, attempt as nat))
        } else {
            StepView::Fail(
                ErrorView::HttpError {
                    url,
                    status,
                    reason: "Server error after "@ + decimal(max_retries as nat) + " attempts"@,
                },
            )
        }
    } else if !(200 <= status < 300) {
        StepView::Fail(
            ErrorView::HttpError { url, status, reason: "Unexpected status: "@ + status_text(status) },
        )
    } else {
        content_step(url, ct, len, max_body)
    }
}

/// The retry delays stay within 64 bits: while attempts remain, a 429 is
/// answered on attempt 55 at the latest and a 500 or 503 on attempt 56.
pub open spec fn delays_fit(attempt: u32, max_retries: u32, status: u16) -> bool {
    &&& (attempt <= max_retries && status == 429) ==> attempt <= 55
    &&& (attempt <= max_retries && (status == 500 || status == 503)) ==> attempt <= 56
}

fn content_guard(url: &str, content_type: &str, content_length: Option<u64>, max_body: usize) -> (s: ResponseStep)
    ensures
        s@ == content_step(url@, content_type@, content_length, max_body),
{
    let is_pdf = str_contains(content_type, "application/pdf");
    let supported = is_pdf || str_contains(content_type, "text/html") || str_contains(
        content_type,
        "text/plain",
    ) || str_contains(content_type, "application/xhtml");
    if !supported {
        let mut o: Vec<char> = Vec::new();
        push_str(&mut o, "Unsupported Content-Type: ");
        push_str(&mut o, content_type);
        push_str(&mut o, ". Only HTML pages and PDF documents are supported.");
        return ResponseStep::Fail(
            SearchXyzError::CrawlFailed { url: owned(url), reason: string_from_chars(o.as_slice()) },
        );
    }
    match content_length {
        Some(len) => {
            if len > max_body as u64 {
                let mut o: Vec<char> = Vec::new();
                push_str(&mut o, "Response too large (");
                push_decimal(&mut o, len);
                push_str(&mut o, " bytes, max ");
                push_decimal(&mut o, max_body as u64);
                push_str(&mut o, ")");
                return ResponseStep::Fail(
                    SearchXyzError::CrawlFailed {
                        url: owned(url),
                        reason: string_from_chars(o.as_slice()),
                    },
                );
            }
        },
        None => {},
    }
    ResponseStep::Read { is_pdf }
}

/// Decides what to do with a response: its status, `Content-Type` header
/// (empty when absent) and declared length, on attempt number `attempt`
/// (counted from 1) for `url`, rate limited under `domain`.
pub fn on_response(
    url: &str,
    domain: &str,
    attempt: u32,
    config: &CrawlerConfig,
    status: u16,
    content_type: &str,
    content_length: Option<u64>,
) -> (s: ResponseStep)
    requires
        1 <= attempt,
        100 <= status <= 999,
        delays_fit(attempt, config.max_retries, status),
    ensures
        s@ == response_step(
            url@,
            domain@,
            attempt,
            config.max_retries,
            status,
            content_type@,
            content_length,
            config.max_body_bytes,
        ),
{
    let max_retries = config.max_retries;
    if status == 403 {
        ResponseStep::Fail(
            SearchXyzError::HttpError {
                url: owned(url),
                status: 403,
                reason: owned("Access forbidden \u{2014} site blocks automated access"),
            },
        )
    } else if status == 404 {
        ResponseStep::Fail(
            SearchXyzError::HttpError { url: owned(url), status: 404, reason: owned("Page not found") },
        )
    } else if status == 429 {
        if attempt <= max_retries {
            proof {
                lemma_backoff_fits(1000, attempt as nat);
            }
            ResponseStep::Retry { delay_ms: backoff(1000, attempt) }
        } else {
            ResponseStep::Fail(SearchXyzError::RateLimited { provider: owned(domain), retry_after_secs: 60 })
        }
    } else if status == 500 || status == 503 {
        if attempt <= max_retries {
            proof {
                lemma_backoff_fits(500, attempt as nat);
            }
            ResponseStep::Retry { delay_ms: backoff(500, attempt) }
        } else {
            let mut o: Vec<char> = Vec::new();
            push_str(&mut o, "Server error after ");
            push_decimal(&mut o, max_retries as u64);
            push_str(&mut o, " attempts");
            ResponseStep::Fail(
                SearchXyzError::HttpError {
                    url: owned(url),
                    status,
                    reason: string_from_chars(o.as_slice()),
                },
            )
        }
    } else if !(200 <= status && status < 300) {
        let mut o: Vec<char> = Vec::new();
        push_str(&mut o, "Unexpected status: ");
        let t = status_display(status);
        push_str(&mut o, t.as_str());
        ResponseStep::Fail(
            SearchXyzError::HttpError { url: owned(url), status, reason: string_from_chars(o.as_slice()) },
        )
    } else {
        content_guard(url, content_type, content_length, config.max_body_bytes)
    }
}

/// The step taken when a request fails before any response: a timeout or
/// connection failure is retried after 0.5 s doubled per attempt while
/// attempts remain; anything else, or a failure with no attempt left, is
/// reported as the request's error.
pub open spec fn network_step(
    attempt: u32,
    max_retries: u32,
    is_timeout: bool,
    is_connect: bool,
    err_url: Option<Seq<char>>,
    text: Seq<char>,
) -> Result<nat, ErrorView> {
    if attempt <= max_retries && (is_timeout || is_connect) {
        Ok(backoff_ms(500, attempt as nat))
    } else {
        Err(crate::error::request_error(is_timeout, err_url, text))
    }
}

/// Decides what to do when a request fails before any response, given what
/// the client error reports: `Ok` holds the delay before the next attempt.
pub fn on_network_error(
    attempt: u32,
    max_retries: u32,
    is_timeout: bool,
    is_connect: bool,
    err_url: Option<String>,
    text: String,
) -> (r: Result<u64, SearchXyzError>)
    requires
        1 <= attempt,
        (attempt <= max_retries && (is_timeout || is_connect)) ==> attempt <= 56,
    ensures
        match (r, network_step(attempt, max_retries, is_timeout, is_connect, opt_view(err_url), text@)) {
            (Ok(d), Ok(e)) => d == e,
            (Err(x), Err(y)) => x@ == y,
            _ => false,
        },
{
    if attempt <= max_retries && (is_timeout || is_connect) {
        proof {
            lemma_backoff_fits(500, attempt as nat);
        }
        Ok(backoff(500, attempt))
    } else {
        Err(SearchXyzError::from_request_failure(is_timeout, err_url, text))
    }
}

/// What a read response body is before it becomes page text: text already,
/// or the bytes of a PDF document whose text is still to be extracted.
#[derive(Debug)]
pub enum BodyStep {
    Text(String),
    Pdf(Vec<u8>),
}

/// `BodyStep` as plain values.
pub enum BodyView {
    Text(Seq<char>),
    Pdf(Seq<u8>),
}

impl View for BodyStep {
    type V = BodyView;

    open spec fn view(&self) -> BodyView {
        match self {
            BodyStep::Text(t) => BodyView::Text(t@),
            BodyStep::Pdf(b) => BodyView::Pdf(b@),
        }
    }
}

/// The text `String::from_utf8_lossy` decodes from bytes.
pub uninterp spec fn spec_utf8_lossy(bytes: Seq<u8>) -> Seq<char>;

/// Wraps `String::from_utf8_lossy`; the decoded text is named by `spec_utf8_lossy`.
#[verifier::external_body]
fn utf8_lossy(bytes: &[u8]) -> (s: String)
    ensures
        s@ == spec_utf8_lossy(bytes@),
{
    String::from_utf8_lossy(bytes).into_owned()
}

/// What reading a response body yields: a read failure or an oversized body
/// is a crawl failure; a PDF document is handed on for text extraction;
/// anything else is decoded as UTF-8.
pub open spec fn body_outcome(
    url: Seq<char>,
    read: Result<Seq<u8>, Seq<char>>,
    is_pdf: bool,
    max_body: usize,
) -> Result<BodyView, ErrorView> {
    match read {
        Err(d) => Err(
            ErrorView::CrawlFailed { url, reason: "Failed to read response bytes: "@ + d },
        ),
        Ok(bytes) => if bytes.len() > max_body {
            Err(
                ErrorView::CrawlFailed {
                    url,
                    reason: "Body exceeds limit ("@ + decimal(bytes.len()) + " bytes)"@,
                },
            )
        } else if is_pdf {
            Ok(BodyView::Pdf(bytes))
        } else {
            Ok(BodyView::Text(spec_utf8_lossy(bytes)))
        },
    }
}

/// Turns the outcome of reading a response body (its bytes, or the read
/// error's text) into page text, or into the PDF document to extract.
pub fn on_body(url: &str, read: Result<Vec<u8>, String>, is_pdf: bool, max_body_bytes: usize) -> (r: Result<BodyStep, SearchXyzError>)
    ensures
        match (r, body_outcome(
            url@,
            match read {
                Ok(b) => Ok::<Seq<u8>, Seq<char>>(b@),
                Err(d) => Err::<Seq<u8>, Seq<char>>(d@),
            },
            is_pdf,
            max_body_bytes,
        )) {
            (Ok(t), Ok(u)) => t@ == u,
            (Err(x), Err(y)) => x@ == y,
            _ => false,
        },
{
    match read {
        Err(d) => {
            let mut o: Vec<char> = Vec::new();
            push_str(&mut o, "Failed to read response bytes: ");
            push_str(&mut o, d.as_str());
            Err(SearchXyzError::CrawlFailed { url: owned(url), reason: string_from_chars(o.as_slice()) })
        },
        Ok(bytes) => {
            if bytes.len() > max_body_bytes {
                let mut o: Vec<char> = Vec::new();
                push_str(&mut o, "Body exceeds limit (");
                push_decimal(&mut o, bytes.len() as u64);
                push_str(&mut o, " bytes)");
                return Err(
                    SearchXyzError::CrawlFailed {
                        url: owned(url),
                        reason: string_from_chars(o.as_slice()),
                    },
                );
            }
            if is_pdf {
                Ok(BodyStep::Pdf(bytes))
            } else {
                Ok(BodyStep::Text(utf8_lossy(bytes.as_slice())))
            }
        },
    }
}

/// The page text of a PDF document, given what extracting its text gave:
/// the text, or the extractor's error message, which becomes an extraction
/// failure.
pub fn on_pdf_text(url: &str, extracted: Result<String, String>) -> (r: Result<String, SearchXyzError>)
    ensures
        match extracted {
            Ok(t) => r is Ok && r->Ok_0@ == t@,
            Err(m) => r is Err && r->Err_0@ == ErrorView::ExtractionFailed {
                url: url@,
                reason: "Failed to extract PDF text: "@ + m@,
            },
        },
{
    match extracted {
        Ok(t) => Ok(t),
        Err(m) => {
            let mut o: Vec<char> = Vec::new();
            push_str(&mut o, "Failed to extract PDF text: ");
            push_str(&mut o, m.as_str());
            Err(SearchXyzError::ExtractionFailed { url: owned(url), reason: string_from_chars(o.as_slice()) })
        },
    }
}

/// Each retry waits twice as long as the one before.
pub proof fn lemma_backoff_doubles(base: nat, attempt: nat)
    requires
        attempt >= 1,
    ensures
        backoff_ms(base, attempt + 1) == 2 * backoff_ms(base, attempt),
{
    lemma_pow2_unfold(attempt);
    assert(base * pow2(attempt) == 2 * (base * pow2((attempt - 1) as nat))) by (nonlinear_arith)
        requires
            pow2(attempt) == 2 * pow2((attempt - 1) as nat),
    ;
}

/// Once the configured retries are spent, no answer and no network failure
/// leads to another attempt.
pub proof fn lemma_retries_bounded(
    url: Seq<char>,
    domain: Seq<char>,
    attempt: u32,
    max_retries: u32,
    status: u16,
    ct: Seq<char>,
    len: Option<u64>,
    max_body: usize,
    is_timeout: bool,
    is_connect: bool,
    err_url: Option<Seq<char>>,
    text: Seq<char>,
)
    requires
        attempt > max_retries,
    ensures
        !(response_step(url, domain, attempt, max_retries, status, ct, len, max_body) is Retry),
        network_step(attempt, max_retries, is_timeout, is_connect, err_url, text) is Err,
{
}

} // verus!
