use searchxyz::config::ExtractorConfig;
use searchxyz::error::SearchXyzError;
use searchxyz::extractor::{html_to_markdown, ExtractionPipeline};
use searchxyz::index::{embedding_text, index_snippet, page_sources, SourceRow};
use searchxyz::pipeline::{pages_to_read, read_query, ReadRun};
use searchxyz::search::SearchResult;

#[test]
fn test_pdf_extraction_bypass() {
    let config = ExtractorConfig::default();
    let pipeline = ExtractionPipeline::new(config);

    let url = "https://example.com/document.pdf";
    let body = "Hello World! This is extracted PDF text.";
    let res = pipeline.extract(url, body, Some("application/pdf")).unwrap();

    assert_eq!(res.title, "document.pdf");
    assert_eq!(res.content_markdown, body);
    assert!(res.links.is_empty());
}

#[test]
fn pdf_title_falls_back() {
    let p = ExtractionPipeline::new(ExtractorConfig::default());
    let res = p.extract("https://example.com/docs/", "x", Some("application/pdf")).unwrap();
    assert_eq!(res.title, "PDF Document");
    assert_eq!(res.description, "Extracted PDF Document Text");
}

#[test]
fn html_extraction() {
    let p = ExtractionPipeline::new(ExtractorConfig::default());
    let html = r#"<html><head><title> The Title </title><meta name="description" content=" about "></head>
        <body><nav>menu menu</nav><article><h1>Head</h1><p>This paragraph is long enough to pass the minimum content length check.</p>
        <script>var x = 1;</script><a href="/next#f">next</a></article></body></html>"#;
    let res = p.extract("https://example.com/a/b", html, Some("text/html")).unwrap();
    assert_eq!(res.title, "The Title");
    assert_eq!(res.description, "about");
    assert_eq!(res.content_markdown, "# Head\n\nThis paragraph is long enough to pass the minimum content length check.\nnext");
    assert!(!res.content_markdown.contains("menu"));
    assert!(!res.content_markdown.contains("var x"));
    assert_eq!(res.links, vec!["https://example.com/next#f".to_string()]);
}

#[test]
fn short_content_is_refused() {
    let p = ExtractionPipeline::new(ExtractorConfig::default());
    let e = p.extract("https://e/", "<html><body><p>tiny</p></body></html>", None).unwrap_err();
    assert_eq!(e, SearchXyzError::EmptyContent { url: "https://e/".into(), min_length: 50 });
}

#[test]
fn markdown_collapses_blank_runs() {
    assert_eq!(html_to_markdown("  a  \n\n\n  b\r\n \n"), "a\n\nb");
    assert_eq!(html_to_markdown(""), "");
}

#[test]
fn index_texts() {
    assert_eq!(embedding_text("T", "body"), "passage: T\n\nbody");
    let long = "x".repeat(5000);
    assert_eq!(embedding_text("T", &long).chars().count(), 4000);
    assert_eq!(index_snippet("a\nb   c"), "a b  c");
    assert_eq!(index_snippet(&"y".repeat(300)).len(), 250);
}

fn row(key: Option<i64>, url: &str, secs: Option<i64>) -> SourceRow {
    SourceRow { sort_key: key, url: url.into(), title: "t".into(), source: "s".into(), indexed_secs: secs }
}

#[test]
fn sources_newest_first_and_paged() {
    let rows = vec![row(Some(1), "a", Some(0)), row(None, "b", None), row(Some(5), "c", Some(86400)), row(Some(1), "d", None)];
    let (page, total) = page_sources(rows.clone(), 10, 0);
    assert_eq!(total, 4);
    let urls: Vec<&str> = page.iter().map(|e| e.url.as_str()).collect();
    assert_eq!(urls, vec!["c", "a", "d", "b"]);
    assert_eq!(page[0].indexed_at, "1970-01-02T00:00:00+00:00");
    assert_eq!(page[3].indexed_at, "");
    let (page, _) = page_sources(rows.clone(), 2, 1);
    let urls: Vec<&str> = page.iter().map(|e| e.url.as_str()).collect();
    assert_eq!(urls, vec!["a", "d"]);
    assert!(page_sources(rows, 5, 9).0.is_empty());
}

fn result(url: &str) -> SearchResult {
    SearchResult { title: "t".into(), url: url.into(), snippet: "s".into(), source: "x".into() }
}

#[test]
fn read_pipeline_steps() {
    assert_eq!(read_query("q", 3).max_results, 6);
    let urls = pages_to_read("q", &vec![result("a"), result("b"), result("c")], 2).unwrap();
    assert_eq!(urls, vec!["a".to_string(), "b".to_string()]);
    assert_eq!(
        pages_to_read("q", &vec![], 2).unwrap_err().message(),
        "Search failed for query `q`: No search results found"
    );
    let mut run = ReadRun::new(&urls);
    run.record(Err(SearchXyzError::IndexError("a".into())));
    run.record_panic("boom");
    run.record_panic("one too many");
    let e = run.finish("q").unwrap_err();
    assert_eq!(
        e.message(),
        "Search failed for query `q`: All pages failed to load or extract. Errors:\nIndex operation failed: a\nTask panicked: boom"
    );
}

#[test]
fn read_run_refuses_more_pages_than_planned() {
    let urls = vec!["a".to_string()];
    let mut run = ReadRun::new(&urls);
    run.record(Err(SearchXyzError::IndexError("x".into())));
    let page = ExtractionPipeline::new(ExtractorConfig::default())
        .extract("https://example.com/a.pdf", "text", Some("application/pdf"))
        .unwrap();
    run.record(Ok(page));
    assert!(run.pages_read().is_empty());
    assert_eq!(
        run.finish("q").unwrap_err().message(),
        "Search failed for query `q`: All pages failed to load or extract. Errors:\nIndex operation failed: x"
    );
}
