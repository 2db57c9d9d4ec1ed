use searchxyz::cache::{Cache, CacheEntry};
use lopdf::content::{Content, Operation};
use lopdf::{Dictionary, Document, Object, Stream};
use searchxyz::crawler::fast_spider::{extract_links_from_html, LinkDiscovery};
use searchxyz::crawler::fingerprint::{user_agent, HeaderGenerator, USER_AGENT_COUNT};
use searchxyz::crawler::github::{is_safe_branch, parse_github_url, plan_repo, wants_file, is_excluded, RepoIngest, repo_failure, RepoFailure};
use searchxyz::crawler::headless::HeadlessBrowser;
use searchxyz::crawler::sitemap::{parse_sitemap_urls, parse_sitemaps_from_robots, sitemap_locations, no_sitemap};
use searchxyz::crawler::spider::SpiderRun;
use searchxyz::crawler::youtube::{
    decode_html_entities, extract_video_id, find_timedtext_url, parse_xml_transcript, strip_tags,
    transcript_from_xml, transcript_track_url, transcript_watch_url,
};
use searchxyz::crawler::{
    cached_page, client_proxies, on_body, on_pdf_text, on_network_error, BodyStep, on_response, rate_quota, request_domain,
    status_display, FetchResult, ResponseStep,
};
use searchxyz::config::{CrawlerConfig, HeadlessConfig, ProxyConfig};
use searchxyz::error::SearchXyzError;
use searchxyz::extractor::ExtractedContent;

#[test]
fn test_parse_sitemap_urls() {
    let xml = r#"
            <?xml version="1.0" encoding="UTF-8"?>
            <urlset xmlns="http://www.sitemaps.org/schemas/sitemap/0.9">
                <url>
                    <loc>https://example.com/</loc>
                    <changefreq>daily</changefreq>
                </url>
                <url>
                    <loc>https://example.com/about</loc>
                </url>
            </urlset>
        "#;
    let urls = parse_sitemap_urls(xml);
    assert_eq!(
        urls,
        vec!["https://example.com/".to_string(), "https://example.com/about".to_string(),]
    );
}

#[test]
fn test_parse_sitemaps_from_robots() {
    let robots = r#"
            User-agent: *
            Disallow: /private/
            
            Sitemap: https://example.com/sitemap1.xml
            Sitemap: https://example.com/sitemap2.xml
        "#;
    let sitemaps = parse_sitemaps_from_robots(robots);
    assert_eq!(
        sitemaps,
        vec![
            "https://example.com/sitemap1.xml".to_string(),
            "https://example.com/sitemap2.xml".to_string(),
        ]
    );
}

#[test]
fn test_extract_video_id() {
    assert_eq!(
        extract_video_id("https://www.youtube.com/watch?v=dQw4w9WgXcQ"),
        Some("dQw4w9WgXcQ".to_string())
    );
    assert_eq!(
        extract_video_id("https://youtube.com/watch?v=dQw4w9WgXcQ&feature=share"),
        Some("dQw4w9WgXcQ".to_string())
    );
    assert_eq!(
        extract_video_id("https://youtu.be/dQw4w9WgXcQ"),
        Some("dQw4w9WgXcQ".to_string())
    );
    assert_eq!(extract_video_id("https://example.com/watch?v=dQw4w9WgXcQ"), None);
    assert_eq!(extract_video_id("https://youtu.be/abc"), None);
    assert_eq!(extract_video_id("https://www.youtube.com/watch?v=short"), None);
}

#[test]
fn test_parse_xml_transcript() {
    let xml = r#"
            <?xml version="1.0" encoding="utf-8" ?>
            <transcript>
                <text start="0.0" dur="2.0">Hello &amp; welcome!</text>
                <text start="2.0" dur="1.5">This is <b>subtitles</b>.</text>
                <text start="3.5" dur="1.0"></text>
            </transcript>
        "#;
    assert_eq!(parse_xml_transcript(xml), "Hello & welcome! This is subtitles.");
}

#[test]
fn test_parse_github_url() {
    assert_eq!(
        parse_github_url("https://github.com/tokio-rs/tokio"),
        Some(("tokio-rs".to_string(), "tokio".to_string(), None))
    );
    assert_eq!(
        parse_github_url("https://github.com/tokio-rs/tokio.git"),
        Some(("tokio-rs".to_string(), "tokio".to_string(), None))
    );
    assert_eq!(
        parse_github_url("https://github.com/tokio-rs/tokio/tree/v1.36.0"),
        Some(("tokio-rs".to_string(), "tokio".to_string(), Some("v1.36.0".to_string())))
    );
    assert_eq!(
        parse_github_url("https://github.com/tokio-rs/tokio/blob/main/src/lib.rs"),
        Some(("tokio-rs".to_string(), "tokio".to_string(), Some("main".to_string())))
    );
    assert_eq!(parse_github_url("https://google.com"), None);
}

#[test]
fn test_extract_links_from_html() {
    let html = r#"
            <html>
                <body>
                    <a href="/about">About</a>
                    <a href="https://example.com/contact#form">Contact</a>
                    <a href="http://otherdomain.com/page">External</a>
                </body>
            </html>
        "#;
    let links = extract_links_from_html(html, "https://example.com/");
    assert_eq!(
        links,
        vec![
            "https://example.com/about".to_string(),
            "https://example.com/contact".to_string(),
            "http://otherdomain.com/page".to_string(),
        ]
    );
}

#[test]
fn test_random_headers() {
    let headers = HeaderGenerator::random_headers();
    let names: Vec<&str> = headers.iter().map(|(k, _)| k.as_str()).collect();
    assert!(names.contains(&"user-agent"));
    assert!(names.contains(&"accept"));
    assert!(names.contains(&"accept-language"));
    assert!(names.contains(&"accept-encoding"));

    let ua = headers.iter().find(|(k, _)| k == "user-agent").unwrap().1.clone();
    let agents: Vec<&str> = (0..USER_AGENT_COUNT).map(user_agent).collect();
    assert!(agents.contains(&ua.as_str()));
}

#[test]
fn strip_tags_drops_markup() {
    assert_eq!(strip_tags("This is <b>bold</b> and <i>it</i>"), "This is bold and it");
    assert_eq!(strip_tags("no tags"), "no tags");
}

#[test]
fn decode_entities_in_order() {
    assert_eq!(decode_html_entities("a &amp;lt; b"), "a < b");
    assert_eq!(decode_html_entities("&quot;x&quot; &#39;y&apos; &lt;z&gt;"), "\"x\" 'y' <z>");
}

#[test]
fn timedtext_url_prefers_language() {
    let html = r#"<script>var ytInitialPlayerResponse = {"captions":{"playerCaptionsTracklistRenderer":{"captionTracks":[{"languageCode":"de","baseUrl":"https://yt/de"},{"languageCode":"en","baseUrl":"https://yt/en"}]}}};var x = 1;</script>"#;
    assert_eq!(find_timedtext_url(html, "en"), Some("https://yt/en".to_string()));
    assert_eq!(find_timedtext_url(html, "fr"), Some("https://yt/de".to_string()));
    assert_eq!(find_timedtext_url("<html></html>", "en"), None);
}

#[test]
fn transcript_steps() {
    assert_eq!(
        transcript_watch_url("https://youtu.be/dQw4w9WgXcQ").unwrap(),
        "https://www.youtube.com/watch?v=dQw4w9WgXcQ"
    );
    assert!(transcript_watch_url("https://youtu.be/abc").is_err());
    let e = transcript_watch_url("https://example.com/x").unwrap_err();
    assert!(matches!(e, SearchXyzError::CrawlFailed { .. }));
    let e = transcript_track_url("u", "<html></html>").unwrap_err();
    assert_eq!(e.message(), "Crawl failed for `u`: No captions or transcript tracks found for this video");
    assert!(transcript_from_xml("u", "<transcript></transcript>").is_err());
    assert_eq!(
        transcript_from_xml("u", "<text a=\"1\">One</text><text>Two</text>").unwrap(),
        "One Two"
    );
}

#[test]
fn response_statuses() {
    let mut cfg = CrawlerConfig::default();
    cfg.max_retries = 3;
    cfg.max_body_bytes = 100;
    match on_response("u", "d", 1, &cfg, 403, "text/html", None) {
        ResponseStep::Fail(SearchXyzError::HttpError { status, reason, .. }) => {
            assert_eq!(status, 403);
            assert_eq!(reason, "Access forbidden \u{2014} site blocks automated access");
        }
        other => panic!("{other:?}"),
    }
    match on_response("u", "d", 2, &cfg, 429, "", None) {
        ResponseStep::Retry { delay_ms } => assert_eq!(delay_ms, 2000),
        other => panic!("{other:?}"),
    }
    match on_response("u", "d", 4, &cfg, 429, "", None) {
        ResponseStep::Fail(SearchXyzError::RateLimited { provider, retry_after_secs }) => {
            assert_eq!(provider, "d");
            assert_eq!(retry_after_secs, 60);
        }
        other => panic!("{other:?}"),
    }
    match on_response("u", "d", 3, &cfg, 503, "", None) {
        ResponseStep::Retry { delay_ms } => assert_eq!(delay_ms, 2000),
        other => panic!("{other:?}"),
    }
    match on_response("u", "d", 4, &cfg, 500, "", None) {
        ResponseStep::Fail(e) => assert_eq!(e.message(), "HTTP 500 from `u`: Server error after 3 attempts"),
        other => panic!("{other:?}"),
    }
    match on_response("u", "d", 1, &cfg, 418, "", None) {
        ResponseStep::Fail(e) => assert_eq!(e.message(), "HTTP 418 from `u`: Unexpected status: 418 I'm a teapot"),
        other => panic!("{other:?}"),
    }
    match on_response("u", "d", 1, &cfg, 200, "image/png", None) {
        ResponseStep::Fail(e) => assert_eq!(
            e.message(),
            "Crawl failed for `u`: Unsupported Content-Type: image/png. Only HTML pages and PDF documents are supported."
        ),
        other => panic!("{other:?}"),
    }
    match on_response("u", "d", 1, &cfg, 200, "text/html", Some(101)) {
        ResponseStep::Fail(e) => assert_eq!(e.message(), "Crawl failed for `u`: Response too large (101 bytes, max 100)"),
        other => panic!("{other:?}"),
    }
    assert!(matches!(on_response("u", "d", 1, &cfg, 204, "application/pdf", Some(100)), ResponseStep::Read { is_pdf: true }));
    assert!(matches!(on_response("u", "d", 1, &cfg, 200, "text/plain; charset=utf-8", None), ResponseStep::Read { is_pdf: false }));
}

#[test]
fn status_text_has_reason() {
    assert_eq!(status_display(404), "404 Not Found");
    assert_eq!(status_display(599), "599 <unknown status code>");
}

#[test]
fn network_errors() {
    assert_eq!(on_network_error(1, 3, true, false, None, "t".into()).unwrap(), 500);
    assert_eq!(on_network_error(3, 3, false, true, None, "t".into()).unwrap(), 2000);
    let e = on_network_error(4, 3, true, false, None, "t".into()).unwrap_err();
    assert_eq!(e, SearchXyzError::Timeout { url: "<unknown>".into(), timeout_secs: 30 });
    let e = on_network_error(1, 3, false, false, Some("http://x/".into()), "boom".into()).unwrap_err();
    assert_eq!(e, SearchXyzError::CrawlFailed { url: "http://x/".into(), reason: "boom".into() });
}

#[test]
fn body_reading() {
    assert!(matches!(on_body("u", Ok(b"hello".to_vec()), false, 10).unwrap(), BodyStep::Text(t) if t == "hello"));
    assert!(matches!(on_body("u", Ok(vec![0x66, 0xff]), false, 10).unwrap(), BodyStep::Text(t) if t == "f\u{fffd}"));
    assert_eq!(
        on_body("u", Ok(vec![1; 11]), false, 10).unwrap_err().message(),
        "Crawl failed for `u`: Body exceeds limit (11 bytes)"
    );
    assert_eq!(
        on_body("u", Err("reset".into()), false, 10).unwrap_err().message(),
        "Crawl failed for `u`: Failed to read response bytes: reset"
    );
    assert!(matches!(on_body("u", Ok(b"%PDF".to_vec()), true, 100).unwrap(), BodyStep::Pdf(b) if b == b"%PDF".to_vec()));
    assert_eq!(on_pdf_text("u", Ok("text".into())).unwrap(), "text");
    assert_eq!(
        on_pdf_text("u", Err("bad xref".into())).unwrap_err(),
        SearchXyzError::ExtractionFailed { url: "u".into(), reason: "Failed to extract PDF text: bad xref".into() }
    );
}

#[test]
fn crawler_setup_values() {
    assert_eq!(rate_quota(0), 2);
    assert_eq!(rate_quota(5), 5);
    assert_eq!(request_domain("https://docs.rs/x"), "docs.rs");
    assert_eq!(request_domain("not a url"), "unknown");
    let off = ProxyConfig { enabled: false, urls: vec!["http://p:1".into()] };
    assert!(client_proxies(&off).is_empty());
    let on = ProxyConfig { enabled: true, urls: vec!["http://p:1".into(), "socks5://q:2".into()] };
    assert_eq!(client_proxies(&on), vec!["http://p:1".to_string(), "socks5://q:2".to_string()]);
    let r = FetchResult::unfetched("https://a/", "body".into());
    assert_eq!(r.content_type, "text/html");
    assert_eq!(r.final_url, "https://a/");
}

#[test]
fn headless_is_disabled() {
    let b = HeadlessBrowser::new(HeadlessConfig::default());
    let e = b.fetch_html("https://x/").unwrap_err();
    assert_eq!(
        e,
        SearchXyzError::ConfigError("JavaScript rendering is disabled or not compiled for URL: https://x/".into())
    );
}

#[test]
fn github_plan_and_filters() {
    let p = plan_repo("https://github.com/o/r/tree/dev", None, None, None).unwrap();
    assert_eq!(p.base_url, "https://github.com/o/r");
    assert_eq!(p.git_args, vec!["clone", "--depth", "1", "--branch", "dev", "https://github.com/o/r"]);
    assert_eq!(p.include_exts.len(), 25);
    assert_eq!(p.exclude_paths.len(), 9);
    let e = plan_repo("https://github.com/o/r", Some("x; rm -rf".into()), None, None).unwrap_err();
    assert_eq!(e.message(), "Crawl failed for `https://github.com/o/r`: Invalid/unsafe branch name: x; rm -rf");
    assert!(plan_repo("https://gitlab.com/o/r", None, None, None).is_err());
    assert!(is_safe_branch("feature/x-1.2_b"));
    assert!(!is_safe_branch("a b"));
    let wanted = vec!["rs".to_string(), "MD".to_string()];
    assert!(wants_file(Some("md"), Some(10), &wanted));
    assert!(!wants_file(Some("rs"), Some(262145), &wanted));
    assert!(!wants_file(None, None, &wanted));
    assert!(is_excluded(&vec!["target".into(), "a.rs".into()], &vec!["target".into()]));
    assert!(!is_excluded(&vec!["src".into(), "a.rs".into()], &vec!["target".into()]));
    assert_eq!(
        repo_failure("u", RepoFailure::Clone("  fatal: no  \n".into())).message(),
        "Crawl failed for `u`: git clone failed: fatal: no"
    );
}

#[test]
fn github_ingest_summary() {
    let p = plan_repo("https://github.com/o/r", None, None, None).unwrap();
    let mut ing = RepoIngest::new(&p);
    let d = ing.add_file("README.md", Some("md"), "README.md", true, "# Hi");
    assert_eq!(d.url, "https://github.com/o/r/blob/main/README.md");
    assert_eq!(d.title, "README.md (r)");
    assert_eq!(d.content_markdown, "### File: `README.md`\n\n```md\n# Hi\n```");
    ing.add_file("src/lib.rs", Some("rs"), "lib.rs", false, "fn x() {}");
    let s = ing.summary();
    assert_eq!(
        s,
        "# Codebase Ingested: o/r\n\n**Source:** https://github.com/o/r\n**Branch:** main\n**Files Indexed:** 2 matching files successfully parsed and added to search index.\n\n## Repository README\n\n# Hi\n\n---\n\n## Ingested Codebase Files\n\n- [`README.md`](https://github.com/o/r/blob/main/README.md)\n- [`src/lib.rs`](https://github.com/o/r/blob/main/src/lib.rs)\n"
    );
}

#[test]
fn sitemap_places() {
    let (a, b) = sitemap_locations("https://example.com/some/page").unwrap();
    assert_eq!(a, "https://example.com/sitemap.xml");
    assert_eq!(b, "https://example.com/robots.txt");
    assert!(matches!(sitemap_locations("::nope"), Err(SearchXyzError::CrawlFailed { .. })));
    assert_eq!(
        no_sitemap("https://e/").message(),
        "Crawl failed for `https://e/`: No sitemaps found or successfully parsed on host"
    );
}

fn page(url: &str, links: &[&str]) -> ExtractedContent {
    ExtractedContent {
        url: url.into(),
        title: "t".into(),
        description: String::new(),
        content_markdown: "m".into(),
        links: links.iter().map(|s| s.to_string()).collect(),
    }
}

#[test]
fn spider_rounds_stay_on_host() {
    let mut run = SpiderRun::new("https://example.com/", 2);
    let batch = run.take_batch();
    assert_eq!(batch, vec!["https://example.com/".to_string()]);
    run.add_page(0, page("https://example.com/", &["https://example.com/a", "https://other.com/b", "https://example.com/a"]));
    run.end_batch();
    let batch = run.take_batch();
    assert_eq!(batch, vec!["https://example.com/a".to_string()]);
    run.add_page(1, page("https://example.com/a", &["https://example.com/c"]));
    run.end_batch();
    assert!(run.take_batch().is_empty());
    assert_eq!(run.finish("https://example.com/").unwrap().len(), 2);
    assert!(SpiderRun::new("https://example.com/", 1).finish("https://example.com/").is_err());
}

#[test]
fn link_discovery_rounds() {
    let mut d = LinkDiscovery::new("https://example.com/", 10);
    assert!(d.should_continue());
    assert_eq!(d.take_batch(), vec!["https://example.com/".to_string()]);
    d.add_page(
        r#"<a href="/page1">1</a><a href="/page2">2</a><a href="https://external.com/">x</a>"#,
        "https://example.com/",
    );
    d.end_batch();
    assert_eq!(d.take_batch().len(), 2);
    d.add_page(r#"<a href="/page3">3</a>"#, "https://example.com/");
    d.add_page(r#"<a href="/page1">1</a>"#, "https://example.com/");
    d.end_batch();
    assert_eq!(d.take_batch(), vec!["https://example.com/page3".to_string()]);
    d.end_batch();
    assert!(!d.should_continue());
    let mut links = d.links();
    links.sort();
    assert_eq!(
        links,
        vec![
            "https://example.com/".to_string(),
            "https://example.com/page1".to_string(),
            "https://example.com/page2".to_string(),
            "https://example.com/page3".to_string(),
        ]
    );
    let d2 = LinkDiscovery::new("https://example.com/", 0);
    assert!(d2.links().is_empty());
}

#[test]
fn test_pdf_parsing() {

    let mut doc = Document::with_version("1.5");
    let pages_id = doc.new_object_id();

    let mut font = Dictionary::new();
    font.set("Type", "Font");
    font.set("Subtype", "Type1");
    font.set("BaseFont", "Courier");
    let font_id = doc.add_object(font);

    let mut fonts = Dictionary::new();
    fonts.set("F1", font_id);
    let mut resources = Dictionary::new();
    resources.set("Font", fonts);
    let resources_id = doc.add_object(resources);

    let content = Content {
        operations: vec![
            Operation::new("BT", vec![]),
            Operation::new("Tf", vec!["F1".into(), 24.into()]),
            Operation::new("Td", vec![100.into(), 500.into()]),
            Operation::new("Tj", vec![Object::string_literal("Hello World")]),
            Operation::new("ET", vec![]),
        ],
    };
    let content_id = doc.add_object(Stream::new(Dictionary::new(), content.encode().unwrap()));

    let mut page = Dictionary::new();
    page.set("Type", "Page");
    page.set("Parent", pages_id);
    page.set("Contents", content_id);
    page.set("Resources", resources_id);
    page.set("MediaBox", vec![0.into(), 0.into(), 595.into(), 842.into()]);
    let page_id = doc.add_object(page);

    let mut pages = Dictionary::new();
    pages.set("Type", "Pages");
    pages.set("Kids", vec![page_id.into()]);
    pages.set("Count", 1);
    doc.objects.insert(pages_id, Object::Dictionary(pages));

    let mut catalog = Dictionary::new();
    catalog.set("Type", "Catalog");
    catalog.set("Pages", pages_id);
    let root_id = doc.add_object(catalog);
    doc.trailer.set("Root", root_id);

    let mut pdf_bytes = Vec::new();
    doc.save_to(&mut pdf_bytes).unwrap();

    let extracted = pdf_extract::extract_text_from_mem(&pdf_bytes);
    assert!(extracted.is_ok());
    let text = extracted.unwrap();
    assert!(text.contains("Hello World"));
}

#[test]
fn cache_answers_before_fetching() {
    let mut cache = Cache::new(4, 60);
    assert!(cached_page(&cache, "https://a/").is_none());
    cache.put("https://a/".into(), CacheEntry::new("<p>x</p>".into(), "https://a/".into()));
    let hit = cached_page(&cache, "https://a/").unwrap();
    assert_eq!(hit.url, "https://a/");
    assert_eq!(hit.final_url, "https://a/");
    assert_eq!(hit.body, "<p>x</p>");
    assert_eq!(hit.content_type, "text/html");
}
