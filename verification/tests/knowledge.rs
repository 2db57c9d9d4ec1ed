use searchxyz::cache::{Cache, CacheEntry};
use searchxyz::config::{parse_proxy_list, Config, EnvOverrides};
use searchxyz::graph::{capitalize_keyword, KnowledgeGraph};
use searchxyz::error::SearchXyzError;

#[test]
fn test_graph_crud() {
    let mut graph = KnowledgeGraph::new();
    graph.add_edge(
        "Tokio".to_string(),
        "Library".to_string(),
        "Rust".to_string(),
        "Language".to_string(),
        "written_in".to_string(),
    );

    assert_eq!(graph.nodes.len(), 2);
    assert_eq!(graph.edges.len(), 1);
    assert_eq!(graph.edges[0].relationship_type, "written_in");
}

#[test]
fn test_graph_bfs_neighbors() {
    let mut graph = KnowledgeGraph::new();
    graph.add_edge("A".into(), "Type".into(), "B".into(), "Type".into(), "link".into());
    graph.add_edge("B".into(), "Type".into(), "C".into(), "Type".into(), "link".into());
    graph.add_edge("C".into(), "Type".into(), "D".into(), "Type".into(), "link".into());

    // Depth 1 from B should reach A and C
    let (nodes, edges) = graph.query_neighbors("B", 1);
    let mut names: Vec<String> = nodes.into_iter().map(|n| n.name).collect();
    names.sort();
    assert_eq!(names, vec!["A".to_string(), "B".to_string(), "C".to_string()]);
    assert_eq!(edges.len(), 2);

    // Case-insensitive query
    let (nodes_ci, _) = graph.query_neighbors("b", 1);
    assert_eq!(nodes_ci.len(), 3);

    // Depth 2 from A should reach B and C
    let (nodes_a, _) = graph.query_neighbors("A", 2);
    assert_eq!(nodes_a.len(), 3); // A, B, C
}

#[test]
fn test_extract_heuristics() {
    let mut graph = KnowledgeGraph::new();
    graph.extract_heuristics(
        "https://example.com/rust-async",
        "Async Rust",
        "This article describes building async systems in Rust using the Tokio runtime.",
    );

    assert!(graph.contains_node("https://example.com/rust-async"));
    assert!(graph.contains_node("Rust"));
    assert!(graph.contains_node("Tokio"));

    // Mentions relationship
    let has_rust_edge = graph
        .edges
        .iter()
        .any(|e| e.source == "https://example.com/rust-async" && e.target == "Rust");
    assert!(has_rust_edge);
}

#[test]
fn graph_edges_are_not_duplicated() {
    let mut g = KnowledgeGraph::new();
    g.add_edge("A".into(), "T".into(), "B".into(), "T".into(), "r".into());
    g.add_edge("A".into(), "T".into(), "B".into(), "T".into(), "r".into());
    assert_eq!(g.edges.len(), 1);
    assert_eq!(g.nodes.len(), 2);
    assert_eq!(g.find_canonical_node_name("a"), Some("A".to_string()));
    assert_eq!(g.find_canonical_node_name("zzz"), None);
    let (n, e) = g.query_neighbors("nothing", 3);
    assert!(n.is_empty() && e.is_empty());
}

#[test]
fn heuristics_without_keywords_add_nothing() {
    let mut g = KnowledgeGraph::new();
    g.extract_heuristics("https://x/", "t", "nothing technical here");
    assert_eq!(g.nodes.len(), 0);
    assert_eq!(capitalize_keyword("tokio"), "Tokio");
}

#[test]
fn test_config_defaults() {
    let config = Config::default();
    assert!(!config.proxy.enabled);
    assert!(config.proxy.urls.is_empty());
}

#[test]
fn test_env_overrides() {
    let env = EnvOverrides {
        proxy_enabled: Some("true".into()),
        proxy_urls: Some("http://proxy1:8080, socks5://proxy2:1080".into()),
        cache_path: Some("/tmp/searchxyz-test-cache.json".into()),
        ..EnvOverrides::default()
    };

    let mut config = Config::default();
    config.apply_env_overrides(&env);

    assert!(config.proxy.enabled);
    assert_eq!(
        config.proxy.urls,
        vec!["http://proxy1:8080".to_string(), "socks5://proxy2:1080".to_string()]
    );
    assert_eq!(config.cache.path, "/tmp/searchxyz-test-cache.json");
}

#[test]
fn test_embedding_config_loading_and_overrides() {
    let env = EnvOverrides {
        embedding_provider: Some("openai".into()),
        embedding_model: Some("custom-model".into()),
        embedding_api_key: Some("custom-key".into()),
        embedding_url: Some("http://custom-url/v1".into()),
        openai_api_key: Some("openai-override-key".into()),
        ..EnvOverrides::default()
    };

    let mut config = Config::default();
    config.apply_env_overrides(&env);

    assert_eq!(config.index.embedding.provider, "openai");
    assert_eq!(config.index.embedding.model, "custom-model");
    assert_eq!(config.index.embedding.api_key, Some("openai-override-key".to_string()));
    assert_eq!(config.index.embedding.api_url, Some("http://custom-url/v1".to_string()));
}

#[test]
fn test_auth_token_env_override() {
    let env = EnvOverrides { api_key: Some("my-secret-token".into()), ..EnvOverrides::default() };

    let mut config = Config::default();
    config.apply_env_overrides(&env);

    assert_eq!(config.server.auth_token, Some("my-secret-token".to_string()));
}

#[test]
fn config_validation_and_numbers() {
    let mut c = Config::default();
    assert!(c.validate().is_ok());
    c.search.backends.clear();
    assert_eq!(
        c.validate().unwrap_err(),
        SearchXyzError::ConfigError("At least one search backend must be configured".into())
    );
    let env = EnvOverrides {
        cache_max_entries: Some("42".into()),
        cache_ttl_secs: Some("not a number".into()),
        ..EnvOverrides::default()
    };
    let mut d = Config::default();
    let ttl = d.cache.ttl_secs;
    d.apply_env_overrides(&env);
    assert_eq!(d.cache.max_entries, 42);
    assert_eq!(d.cache.ttl_secs, ttl);
    assert_eq!(parse_proxy_list(" a , ,b"), vec!["a".to_string(), "b".to_string()]);
    assert_eq!(
        Config::parse_error("c.toml", "bad").message(),
        "Configuration error: Failed to parse c.toml: bad"
    );
}

#[test]
fn cache_put_get() {
    let mut c = Cache::new(2, 60);
    assert!(c.is_empty());
    c.put("a".into(), CacheEntry::new("body a".into(), "a".into()));
    assert_eq!(c.get("a").unwrap().content, "body a");
    assert_eq!(c.get("a").unwrap().ttl_secs, 60);
    c.put("b".into(), CacheEntry::new("b".into(), "b".into()).with_ttl(5));
    assert_eq!(c.get("b").unwrap().ttl_secs, 5);
    c.put("c".into(), CacheEntry::new("c".into(), "c".into()));
    assert_eq!(c.len(), 2);
    assert!(c.get("a").is_none());
    assert!(c.get_mut("c").is_some());
    let e = CacheEntry::new("x".into(), "y".into()).with_ttl(0);
    assert!(e.is_expired_after(1));
    assert!(!CacheEntry::new("x".into(), "y".into()).is_expired());
}

#[test]
fn cache_get_at_age() {
    let mut c = Cache::new(4, 60);
    c.put("a".into(), CacheEntry::new("body a".into(), "a".into()));
    assert_eq!(c.get_at("a", 60_000_000_000).unwrap().content, "body a");
    assert!(c.get_at("a", 60_000_000_001).is_none());
    assert!(c.get_at("missing", 0).is_none());
}

#[test]
fn add_node_fills_an_empty_type_only() {
    let mut graph = KnowledgeGraph::new();
    graph.add_node("Rust".into(), "".into());
    graph.add_node("Rust".into(), "Language".into());
    assert_eq!(graph.nodes.len(), 1);
    assert_eq!(graph.nodes[0].entity_type, "Language");
    graph.add_node("Rust".into(), "Game".into());
    assert_eq!(graph.nodes[0].entity_type, "Language");
}

#[test]
fn cache_evicts_least_recently_used() {
    let mut c = Cache::new(2, 60);
    c.put("a".into(), CacheEntry::new("a".into(), "a".into()));
    c.put("b".into(), CacheEntry::new("b".into(), "b".into()));
    assert!(c.get_mut("a").is_some());
    c.put("c".into(), CacheEntry::new("c".into(), "c".into()));
    assert_eq!(c.len(), 2);
    assert!(c.get("b").is_none());
    assert!(c.get("a").is_some());
    assert!(c.get("c").is_some());
}

#[test]
fn cache_get_mut_at_age() {
    let mut c = Cache::new(2, 60);
    c.put("a".into(), CacheEntry::new("a".into(), "a".into()));
    assert!(c.get_mut_at("a", 1).is_some());
    assert!(c.get_mut_at("a", 60_000_000_001).is_none());
    assert!(c.is_empty());
}

#[test]
fn capitalize_unlisted_ascii_keyword() {
    assert_eq!(capitalize_keyword("neural"), "Neural");
    assert_eq!(capitalize_keyword("github"), "GitHub");
}
