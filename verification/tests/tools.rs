use searchxyz::error::SearchXyzError;
use searchxyz::extractor::ExtractedContent;
use searchxyz::graph::{Edge, Node};
use searchxyz::index::SourceEntry;
use searchxyz::search::SearchResult;
use searchxyz::tools::{
    expand_query, format_graph, format_page, format_pages, format_search_results, format_sources,
    is_authorized, is_web_url, should_crawl_links, BackendKind, DeepReport, DeepResearchRequest,
    IndexContentRequest, IndexRelationshipRequest, ListSourcesRequest, QueryGraphRequest,
    ReadUrlRequest, RecallRequest, SearchAndReadRequest, SearchWebRequest, SiteMapRequest,
    SiteMapRun,
};

#[test]
fn query_expansion() {
    assert_eq!(
        expand_query("rust", 3),
        vec![
            "rust".to_string(),
            "rust documentation libraries".to_string(),
            "rust examples tutorials guide".to_string()
        ]
    );
    assert_eq!(expand_query("q", 9).len(), 5);
    assert_eq!(expand_query("q", 9)[4], "q advanced pattern best practices");
    assert!(expand_query("q", 0).is_empty());
}

#[test]
fn request_defaults_and_caps() {
    assert_eq!(SearchWebRequest { query: "q".into(), max_results: None }.effective_max(), 10);
    assert_eq!(SearchWebRequest { query: "q".into(), max_results: Some(99) }.effective_max(), 20);
    assert_eq!(ReadUrlRequest { url: "u".into(), depth: Some(7), render_js: None }.effective_depth(), 3);
    assert_eq!(SearchAndReadRequest { query: "q".into(), max_pages: None, render_js: None }.effective_pages(), 3);
    let r = RecallRequest { query: "q".into(), max_results: None, semantic: None };
    assert_eq!(r.effective_max(), 5);
    assert!(r.use_semantic());
    let l = ListSourcesRequest { source: None, limit: Some(1000), offset: None };
    assert_eq!(l.effective_limit(), 100);
    assert_eq!(l.effective_offset(), 0);
    let d = DeepResearchRequest { query: "q".into(), breadth: None, max_pages_per_query: Some(10), render_js: None };
    assert_eq!(d.effective_breadth(), 3);
    assert_eq!(d.effective_pages(), 4);
    assert_eq!(SiteMapRequest { url: "u".into(), use_sitemap: None, crawl_links: None, max_links: None }.effective_max(), 100);
    assert_eq!(QueryGraphRequest { entity: "e".into(), max_depth: None }.effective_depth(), 2);
    assert!(is_web_url("https://x"));
    assert!(!is_web_url("ftp://x"));
}

#[test]
fn answers_are_formatted() {
    let rs = vec![
        SearchResult { title: "A".into(), url: "https://a".into(), snippet: "sa".into(), source: "g".into() },
        SearchResult { title: "B".into(), url: "https://b".into(), snippet: "sb".into(), source: "g".into() },
    ];
    assert_eq!(format_search_results(&rs), "1. **A**\n   https://a\n   sa\n2. **B**\n   https://b\n   sb\n");
    let p = ExtractedContent {
        url: "https://p".into(),
        title: "P".into(),
        description: String::new(),
        content_markdown: "body".into(),
        links: vec![],
    };
    assert_eq!(format_page(&p), "# P\n\n**Source:** https://p\n\n---\n\nbody");
    assert_eq!(format_pages(&vec![p.clone()]), "---\n## P\n**Source:** https://p\n\nbody\n\n");
    let es = vec![SourceEntry { url: "u".into(), title: "t".into(), source: "s".into(), indexed_at: "now".into() }];
    assert_eq!(
        format_sources(&es, 7, 2),
        "### Cached Sources (Total indexed: 7)\n\n3. **t**\n   - **URL:** u\n   - **Indexed At:** now\n   - **Source:** s\n\n"
    );
    assert_eq!(format_sources(&vec![], 0, 0), "No documents found in the local index matching your filters.");
    let ns = vec![Node { name: "R".into(), entity_type: "L".into() }];
    let ed = vec![Edge { source: "R".into(), target: "T".into(), relationship_type: "x".into() }];
    assert_eq!(
        format_graph("R", 2, &ns, &ed),
        "### Knowledge Graph Query for `R` (Depth: 2)\n\n#### Entities:\n- **R** (L)\n\n#### Connections:\n- **R** -[x]-> **T**\n"
    );
    assert_eq!(format_graph("Q", 1, &vec![], &vec![]), "Entity `Q` not found in the knowledge graph.");
    let ic = IndexContentRequest { url: "u".into(), title: "t".into(), content: "c".into() };
    assert_eq!(ic.confirmation(), "Successfully indexed content for `u`");
    assert_eq!(ic.document().content_markdown, "c");
    let ir = IndexRelationshipRequest {
        source: "Tokio".into(),
        source_type: "Library".into(),
        target: "Rust".into(),
        target_type: "Language".into(),
        relationship: "written_in".into(),
    };
    assert_eq!(
        ir.confirmation(),
        "Successfully indexed relationship: **Tokio** (Library) -[written_in]-> **Rust** (Language)"
    );
}

#[test]
fn auth_header_check() {
    assert!(is_authorized(Some("Bearer secret-token"), "secret-token"));
    assert!(!is_authorized(Some("Bearer wrong-token"), "secret-token"));
    assert!(!is_authorized(Some("Basic secret-token"), "secret-token"));
    assert!(!is_authorized(None, "secret-token"));
}

#[test]
fn backend_names() {
    assert_eq!(BackendKind::from_name("brave"), Some(BackendKind::Brave));
    assert_eq!(BackendKind::from_name("yahoo"), None);
}

fn page(url: &str, title: &str) -> ExtractedContent {
    ExtractedContent { url: url.into(), title: title.into(), description: String::new(), content_markdown: "m".into(), links: vec![] }
}

#[test]
fn deep_report_dedups_pages() {
    let mut r = DeepReport::new("topic", 2, 3);
    r.record("topic", Ok(vec![page("u1", "one"), page("u2", "two")]));
    r.record("topic more", Err(SearchXyzError::IndexError("x".into())));
    r.record("topic again", Ok(vec![page("u1", "uno")]));
    assert_eq!(r.pages.len(), 2);
    assert_eq!(r.pages[0].title, "uno");
    assert_eq!(r.executed, 2);
    let out = r.finish("topic");
    assert!(out.starts_with("# Deep Research Dossier: topic\n\n*Executed query expansion with breadth 2, crawling up to 3 top pages per query.*\n\n## Sub-Query: `topic`\n   *Successfully retrieved 2 pages.*\n\n"));
    assert!(out.contains("## Sub-Query: `topic more`\n   *Failed to search/crawl: Index operation failed: x*\n\n"));
    assert!(out.contains("*Summary: Executed 2 sub-queries successfully, retrieving a total of 2 unique pages.*\n\n---\n## Compiled Research Documents\n\n### uno\n- **Source URL:** u1\n\nm\n\n### two"));
    let empty = DeepReport::new("t", 1, 1);
    assert_eq!(empty.finish("t"), "Deep Research failed to retrieve any results for the topic `t`.");
}

#[test]
fn site_map_sorted_unique() {
    let mut s = SiteMapRun::new();
    s.add("https://e/b");
    s.add("https://e/a");
    s.add("https://e/b");
    s.add("https://e/");
    assert_eq!(s.found, vec!["https://e/".to_string(), "https://e/a".to_string(), "https://e/b".to_string()]);
    assert_eq!(s.report("https://e"), "### Site Map for https://e\n\nFound 3 pages:\n- https://e/\n- https://e/a\n- https://e/b\n");
    assert_eq!(SiteMapRun::new().report("u"), "No pages could be discovered for URL: u");
    assert!(should_crawl_links(true, 0, 0));
    assert!(!should_crawl_links(true, 5, 5));
    assert!(!should_crawl_links(false, 0, 5));
}
