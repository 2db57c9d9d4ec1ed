use searchxyz::error::SearchXyzError;
use searchxyz::search::bing::BingBackend;
use searchxyz::search::brave::{BraveBackend, BraveItem, BraveStep};
use searchxyz::search::duckduckgo::DuckDuckGoBackend;
use searchxyz::search::google::GoogleBackend;
use searchxyz::search::searxng::{SearXngBackend, SearXngItem};
use searchxyz::search::{DispatchRun, FetchFailure, SearchBackend, SearchDispatcher, SearchResult};
use searchxyz::config::{BraveConfig, SearXngConfig};

#[test]
fn test_google_parsing() {
    let html = r#"
            <html>
            <body>
                <div class="g">
                    <h3><a href="https://rust-lang.org">Rust Programming Language</a></h3>
                    <div class="VwiC3b">Safe, fast, productive language.</div>
                </div>
                <div class="MjjYud">
                    <h3><a href="https://github.com/rust-lang/rust">Rust Github Repo</a></h3>
                    <div class="yDAB2e">Source code repository for Rust.</div>
                </div>
            </body>
            </html>
        "#;
    let results = GoogleBackend::parse_results(html, 10);
    assert_eq!(results.len(), 2);
    assert_eq!(results[0].title, "Rust Programming Language");
    assert_eq!(results[0].url, "https://rust-lang.org");
    assert_eq!(results[0].snippet, "Safe, fast, productive language.");
    assert_eq!(results[0].source, "google");

    assert_eq!(results[1].title, "Rust Github Repo");
    assert_eq!(results[1].url, "https://github.com/rust-lang/rust");
    assert_eq!(results[1].snippet, "Source code repository for Rust.");
}

#[test]
fn test_bing_parsing() {
    let html = r#"
            <html>
            <body>
                <ol id="b_results">
                    <li class="b_algo">
                        <h2><a href="https://rust-lang.org">Rust Programming Language</a></h2>
                        <div class="b_caption">
                            <p>Safe, fast, productive language.</p>
                        </div>
                    </li>
                    <li class="b_algo">
                        <h2><a href="https://github.com/rust-lang/rust">Rust Github Repo</a></h2>
                        <div class="b_snippet">Source code repository for Rust.</div>
                    </li>
                </ol>
            </body>
            </html>
        "#;
    let results = BingBackend::parse_results(html, 10);
    assert_eq!(results.len(), 2);
    assert_eq!(results[0].title, "Rust Programming Language");
    assert_eq!(results[0].url, "https://rust-lang.org");
    assert_eq!(results[0].snippet, "Safe, fast, productive language.");
    assert_eq!(results[0].source, "bing");

    assert_eq!(results[1].title, "Rust Github Repo");
    assert_eq!(results[1].url, "https://github.com/rust-lang/rust");
    assert_eq!(results[1].snippet, "Source code repository for Rust.");
}

#[test]
fn google_redirects_and_limits() {
    let html = r#"<div class="g"><h3>One</h3><a href="/url?q=https://a.example/x&sa=U">l</a><span class="BNeawe">  s1  </span></div>
        <div class="g"><h3>Two</h3><a href="/search?q=x">l</a></div>
        <div class="g"><h3>Three</h3><a href="https://c.example/">l</a></div>"#;
    let r = GoogleBackend::parse_results(html, 10);
    assert_eq!(r.len(), 2);
    assert_eq!(r[0].url, "https://a.example/x");
    assert_eq!(r[0].snippet, "s1");
    assert_eq!(r[1].title, "Three");
    assert_eq!(r[1].snippet, "l");
    assert_eq!(GoogleBackend::parse_results(html, 1).len(), 1);
    assert!(GoogleBackend::parse_results(html, 0).is_empty());
}

#[test]
fn google_heading_fallback() {
    let html = r#"<a href="https://x.example/"><div><h3> Found </h3></div></a><h3>Lonely</h3>"#;
    let r = GoogleBackend::parse_results(html, 10);
    assert_eq!(r.len(), 1);
    assert_eq!(r[0].title, "Found");
    assert_eq!(r[0].url, "https://x.example/");
    assert_eq!(r[0].snippet, "");
}

#[test]
fn bing_long_fallback_snippet_is_clipped() {
    let long = "word ".repeat(60);
    let html = format!(r#"<li class="b_algo"><h2><a href="https://b.example/">T</a></h2>{long}</li>"#);
    let r = BingBackend::parse_results(&html, 5);
    assert_eq!(r.len(), 1);
    assert!(r[0].snippet.ends_with("..."));
    assert_eq!(r[0].snippet.len(), 203);
}

#[test]
fn duckduckgo_lite_pairs_links_and_snippets() {
    let html = r#"<table><tr><td><a class="result-link" href="https://a.example/">  A  </a></td></tr>
        <tr><td class="result-snippet"> first </td></tr>
        <tr><td><a class="result-link" href="/relative">B</a></td></tr>
        <tr><td class="result-snippet">second</td></tr>
        <tr><td><a class="result-link" href="https://c.example/">C</a></td></tr></table>"#;
    let r = DuckDuckGoBackend::parse_results(html, 10);
    assert_eq!(r.len(), 2);
    assert_eq!(r[0].title, "A");
    assert_eq!(r[0].snippet, "first");
    assert_eq!(r[1].url, "https://c.example/");
    assert_eq!(r[1].snippet, "");
    assert_eq!(r[1].source, "duckduckgo");
}

fn client() -> reqwest::Client {
    reqwest::Client::new()
}

#[test]
fn brave_status_steps() {
    assert!(matches!(BraveBackend::on_status("q", 0, 200), BraveStep::Parse));
    match BraveBackend::on_status("q", 1, 429) {
        BraveStep::Retry { attempt, delay_ms } => {
            assert_eq!(attempt, 2);
            assert_eq!(delay_ms, 1000);
        }
        other => panic!("{other:?}"),
    }
    assert!(matches!(
        BraveBackend::on_status("q", 3, 429),
        BraveStep::Fail(SearchXyzError::RateLimited { .. })
    ));
    match BraveBackend::on_status("q", 0, 502) {
        BraveStep::Fail(e) => assert_eq!(e.message(), "Search failed for query `q`: Brave API server error (HTTP 502). Try again later."),
        other => panic!("{other:?}"),
    }
    match BraveBackend::on_status("q", 0, 302) {
        BraveStep::Fail(e) => assert_eq!(e.message(), "Search failed for query `q`: Unexpected Brave API status: 302"),
        other => panic!("{other:?}"),
    }
    assert!(matches!(BraveBackend::on_status("q", 0, 401), BraveStep::Fail(SearchXyzError::SearchFailed { .. })));
}

#[test]
fn brave_results_and_params() {
    let r = BraveBackend::results_from(Some(vec![
        BraveItem { title: "T".into(), url: "https://t/".into(), description: None },
        BraveItem { title: "U".into(), url: "https://u/".into(), description: Some("d".into()) },
    ]));
    assert_eq!(r.len(), 2);
    assert_eq!(r[0].snippet, "");
    assert_eq!(r[1].snippet, "d");
    assert_eq!(r[1].source, "brave");
    assert!(BraveBackend::results_from(None).is_empty());
    let p = BraveBackend::request_params("rust", 50);
    assert_eq!(p[1], ("count".to_string(), "20".to_string()));
    let b = BraveBackend::new(client(), BraveConfig { api_key: None, max_results: 10 });
    assert!(!b.is_available());
    assert!(b.api_key("q").is_err());
    assert_eq!(b.name(), "brave");
}

#[test]
fn searxng_request_and_results() {
    let b = SearXngBackend::new(
        client(),
        SearXngConfig { instance_url: "http://sx.local//".into(), engines: Some("google".into()), timeout_secs: 5 },
    );
    assert_eq!(b.endpoint(), "http://sx.local/search");
    let p = b.request_params("q");
    assert_eq!(p.len(), 4);
    assert_eq!(p[3], ("engines".to_string(), "google".to_string()));
    assert!(b.is_available());
    let items = vec![
        SearXngItem { title: "a".into(), url: "u1".into(), content: Some("c".into()) },
        SearXngItem { title: "b".into(), url: "u2".into(), content: None },
    ];
    let r = SearXngBackend::results_from(items, 1);
    assert_eq!(r.len(), 1);
    assert_eq!(r[0].snippet, "c");
    assert_eq!(
        SearXngBackend::failure("q", FetchFailure::Status(502)).message(),
        "Search failed for query `q`: SearXNG returned HTTP Status 502 Bad Gateway"
    );
}

#[test]
fn backend_failures_are_worded_per_backend() {
    assert_eq!(
        GoogleBackend::failure("q", FetchFailure::Request("dns".into())).message(),
        "Search failed for query `q`: Google HTTP request failed: dns"
    );
    assert_eq!(
        DuckDuckGoBackend::failure("q", FetchFailure::Body("eof".into())).message(),
        "Search failed for query `q`: Failed to read response body: eof"
    );
    assert_eq!(
        BingBackend::failure("q", FetchFailure::Status(403)).message(),
        "Search failed for query `q`: Bing returned HTTP 403 Forbidden"
    );
}

fn result(url: &str) -> SearchResult {
    SearchResult { title: "t".into(), url: url.into(), snippet: "s".into(), source: "x".into() }
}

#[test]
fn dispatch_notes_failures_and_stops_at_results() {
    let backends: Vec<Box<dyn SearchBackend>> = vec![
        Box::new(GoogleBackend::new(client())),
        Box::new(BingBackend::new(client())),
    ];
    let d = SearchDispatcher::new(backends);
    assert_eq!(d.backends.len(), 2);
    assert_eq!(d.backends[1].name(), "bing");
    let mut run = DispatchRun::new();
    assert!(run.record("google", Ok(vec![])).is_none());
    assert!(run.record("bing", Err(SearchXyzError::IndexError("x".into()))).is_none());
    let e = run.exhausted("q");
    assert_eq!(
        e.message(),
        "All search backends exhausted for query `q`. Tried: google (0 results), bing (Index operation failed: x)"
    );
    let got = run.record("duckduckgo", Ok(vec![result("https://a/")])).unwrap();
    assert_eq!(got[0].url, "https://a/");
    assert_eq!(run.tried.len(), 2);
}
