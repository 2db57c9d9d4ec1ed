//! The unified error type; each variant carries what an agent needs to act on.
use vstd::prelude::*;
use crate::text::{decimal, opt_view, owned, push_decimal, push_str, string_from_chars};

verus! {

/// Unified error type of the library.
#[derive(Debug, Clone, PartialEq, Eq)]
pub enum SearchXyzError {
    SearchFailed { query: String, reason: String },
    AllBackendsExhausted { query: String, backends_tried: String },
    CrawlFailed { url: String, reason: String },
    HttpError { url: String, status: u16, reason: String },
    Timeout { url: String, timeout_secs: u64 },
    ExtractionFailed { url: String, reason: String },
    EmptyContent { url: String, min_length: usize },
    IndexError(String),
    ConfigError(String),
    RateLimited { provider: String, retry_after_secs: u64 },
}

/// Spec form of `SearchXyzError`, with text as character sequences.
pub enum ErrorView {
    SearchFailed { query: Seq<char>, reason: Seq<char> },
    AllBackendsExhausted { query: Seq<char>, backends_tried: Seq<char> },
    CrawlFailed { url: Seq<char>, reason: Seq<char> },
    HttpError { url: Seq<char>, status: u16, reason: Seq<char> },
    Timeout { url: Seq<char>, timeout_secs: u64 },
    ExtractionFailed { url: Seq<char>, reason: Seq<char> },
    EmptyContent { url: Seq<char>, min_length: usize },
    IndexError(Seq<char>),
    ConfigError(Seq<char>),
    RateLimited { provider: Seq<char>, retry_after_secs: u64 },
}

impl View for SearchXyzError {
    type V = ErrorView;

    open spec fn view(&self) -> ErrorView {
        match self {
            SearchXyzError::SearchFailed { query, reason } => ErrorView::SearchFailed {
                query: query@,
                reason: reason@,
            },
            SearchXyzError::AllBackendsExhausted { query, backends_tried } =>
                ErrorView::AllBackendsExhausted { query: query@, backends_tried: backends_tried@ },
            SearchXyzError::CrawlFailed { url, reason } => ErrorView::CrawlFailed {
                url: url@,
                reason: reason@,
            },
            SearchXyzError::HttpError { url, status, reason } => ErrorView::HttpError {
                url: url@,
                status: *status,
                reason: reason@,
            },
            SearchXyzError::Timeout { url, timeout_secs } => ErrorView::Timeout {
                url: url@,
                timeout_secs: *timeout_secs,
            },
            SearchXyzError::ExtractionFailed { url, reason } => ErrorView::ExtractionFailed {
                url: url@,
                reason: reason@,
            },
            SearchXyzError::EmptyContent { url, min_length } => ErrorView::EmptyContent {
                url: url@,
                min_length: *min_length,
            },
            SearchXyzError::IndexError(m) => ErrorView::IndexError(m@),
            SearchXyzError::ConfigError(m) => ErrorView::ConfigError(m@),
            SearchXyzError::RateLimited { provider, retry_after_secs } => ErrorView::RateLimited {
                provider: provider@,
                retry_after_secs: *retry_after_secs,
            },
        }
    }
}

/// What a failed HTTP request becomes: a timeout names the request's URL
/// (`<unknown>` when the error carries none) and a 30 s limit; any other
/// failure is a crawl failure with the error's text as the reason.
pub open spec fn request_error(is_timeout: bool, url: Option<Seq<char>>, text: Seq<char>) -> ErrorView {
    let u = match url {
        Some(u) => u,
        None => "<unknown>"@,
    };
    if is_timeout {
        ErrorView::Timeout { url: u, timeout_secs: 30 }
    } else {
        ErrorView::CrawlFailed { url: u, reason: text }
    }
}

/// The human-readable message of an error.
pub open spec fn error_message_of(e: ErrorView) -> Seq<char> {
    match e {
        ErrorView::SearchFailed { query, reason } => "Search failed for query `"@ + query
            + "`: "@ + reason,
        ErrorView::AllBackendsExhausted { query, backends_tried } =>
            "All search backends exhausted for query `"@ + query + "`. Tried: "@
            + backends_tried,
        ErrorView::CrawlFailed { url, reason } => "Crawl failed for `"@ + url + "`: "@
            + reason,
        ErrorView::HttpError { url, status, reason } => "HTTP "@ + decimal(status as nat)
            + " from `"@ + url + "`: "@ + reason,
        ErrorView::Timeout { url, timeout_secs } => "Request to `"@ + url
            + "` timed out after "@ + decimal(timeout_secs as nat) + "s"@,
        ErrorView::ExtractionFailed { url, reason } => "Content extraction failed for `"@
            + url + "`: "@ + reason,
        ErrorView::EmptyContent { url, min_length } => "Extracted content from `"@ + url
            + "` is empty or below "@ + decimal(min_length as nat) + " chars"@,
        ErrorView::IndexError(m) => "Index operation failed: "@ + m,
        ErrorView::ConfigError(m) => "Configuration error: "@ + m,
        ErrorView::RateLimited { provider, retry_after_secs } => "Rate limited by `"@
            + provider + "` \u{2014} retry after "@ + decimal(retry_after_secs as nat) + "s"@,
    }
}

/// The message of an error value.
pub open spec fn error_message(e: SearchXyzError) -> Seq<char> {
    error_message_of(e@)
}

impl SearchXyzError {
    /// Maps a failed HTTP request, given what the client error reports (whether
    /// it timed out, the URL it names, its text), to the library's error.
    pub fn from_request_failure(is_timeout: bool, url: Option<String>, text: String) -> (e: Self)
        ensures
            e@ == request_error(is_timeout, opt_view(url), text@),
    {
        let u = match url {
            Some(u) => u,
            None => owned("<unknown>"),
        };
        proof {
            reveal_strlit("<unknown>");
        }
        if is_timeout {
            SearchXyzError::Timeout { url: u, timeout_secs: 30 }
        } else {
            SearchXyzError::CrawlFailed { url: u, reason: text }
        }
    }

    /// An index-engine failure, given the engine's error text.
    pub fn from_index_failure(detail: &str) -> (e: Self)
        ensures
            e@ == ErrorView::IndexError("Tantivy error: "@ + detail@),
    {
        let mut o: Vec<char> = Vec::new();
        push_str(&mut o, "Tantivy error: ");
        push_str(&mut o, detail);
        SearchXyzError::IndexError(string_from_chars(o.as_slice()))
    }

    /// A file-system failure, given the I/O error's text.
    pub fn from_io_failure(detail: &str) -> (e: Self)
        ensures
            e@ == ErrorView::ConfigError("I/O error: "@ + detail@),
    {
        let mut o: Vec<char> = Vec::new();
        push_str(&mut o, "I/O error: ");
        push_str(&mut o, detail);
        SearchXyzError::ConfigError(string_from_chars(o.as_slice()))
    }

    /// The message shown to users of the error (its `Display` text).
    pub fn message(&self) -> (m: String)
        ensures
            m@ == error_message(*self),
    {
        let mut o: Vec<char> = Vec::new();
        match self {
            SearchXyzError::SearchFailed { query, reason } => {
                push_str(&mut o, "Search failed for query `");
                push_str(&mut o, query.as_str());
                push_str(&mut o, "`: ");
                push_str(&mut o, reason.as_str());
            },
            SearchXyzError::AllBackendsExhausted { query, backends_tried } => {
                push_str(&mut o, "All search backends exhausted for query `");
                push_str(&mut o, query.as_str());
                push_str(&mut o, "`. Tried: ");
                push_str(&mut o, backends_tried.as_str());
            },
            SearchXyzError::CrawlFailed { url, reason } => {
                push_str(&mut o, "Crawl failed for `");
                push_str(&mut o, url.as_str());
                push_str(&mut o, "`: ");
                push_str(&mut o, reason.as_str());
            },
            SearchXyzError::HttpError { url, status, reason } => {
                push_str(&mut o, "HTTP ");
                push_decimal(&mut o, *status as u64);
                push_str(&mut o, " from `");
                push_str(&mut o, url.as_str());
                push_str(&mut o, "`: ");
                push_str(&mut o, reason.as_str());
            },
            SearchXyzError::Timeout { url, timeout_secs } => {
                push_str(&mut o, "Request to `");
                push_str(&mut o, url.as_str());
                push_str(&mut o, "` timed out after ");
                push_decimal(&mut o, *timeout_secs);
                push_str(&mut o, "s");
            },
            SearchXyzError::ExtractionFailed { url, reason } => {
                push_str(&mut o, "Content extraction failed for `");
                push_str(&mut o, url.as_str());
                push_str(&mut o, "`: ");
                push_str(&mut o, reason.as_str());
            },
            SearchXyzError::EmptyContent { url, min_length } => {
                push_str(&mut o, "Extracted content from `");
                push_str(&mut o, url.as_str());
                push_str(&mut o, "` is empty or below ");
                push_decimal(&mut o, *min_length as u64);
                push_str(&mut o, " chars");
            },
            SearchXyzError::IndexError(m) => {
                push_str(&mut o, "Index operation failed: ");
                push_str(&mut o, m.as_str());
            },
            SearchXyzError::ConfigError(m) => {
                push_str(&mut o, "Configuration error: ");
                push_str(&mut o, m.as_str());
            },
            SearchXyzError::RateLimited { provider, retry_after_secs } => {
                push_str(&mut o, "Rate limited by `");
                push_str(&mut o, provider.as_str());
                push_str(&mut o, "` \u{2014} retry after ");
                push_decimal(&mut o, *retry_after_secs);
                push_str(&mut o, "s");
            },
        }
        string_from_chars(o.as_slice())
    }
}

} // verus!
