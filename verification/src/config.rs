//! Configuration: compiled defaults, environment overrides and validation.
//! Precedence, highest first: environment variables, the TOML file, defaults.
use vstd::prelude::*;
use crate::error::SearchXyzError;
use crate::text::{
    chars_of, chars_of_all, clone_opt, opt_view, owned, parse_bool, parse_bool_spec, parse_u64,
    parse_u64_spec, parse_usize, parse_usize_spec, spec_lowercase, split, split_chars, str_views,
    string_from_chars, strings_of_all, to_lowercase, trim, trim_range, slice_chars, views,
};

verus! {

#[derive(Debug, Clone)]
pub struct ServerConfig {
    /// Server name reported in the MCP initialize handshake.
    pub name: String,
    pub version: String,
    /// Log level filter (e.g. "info", "debug,hyper=warn").
    pub log_level: String,
    /// Authentication token for the remote HTTP server.
    pub auth_token: Option<String>,
}

#[derive(Debug, Clone)]
pub struct SearchConfig {
    /// Ordered list of backend names to try.
    pub backends: Vec<String>,
    /// Max results per search query.
    pub max_results: usize,
}

#[derive(Debug, Clone)]
pub struct BraveConfig {
    pub api_key: Option<String>,
    /// Max results from the Brave API (1-20).
    pub max_results: usize,
}

#[derive(Debug, Clone)]
pub struct CrawlerConfig {
    pub timeout_secs: u64,
    pub user_agent: String,
    pub max_body_bytes: usize,
    pub max_redirects: usize,
    pub max_retries: u32,
    /// Per-domain max requests per second.
    pub rate_limit_per_sec: u64,
}

#[derive(Debug, Clone)]
pub struct ExtractorConfig {
    /// Minimum content length (chars) to accept an extraction.
    pub min_content_length: usize,
    /// CSS selectors of elements to strip before extraction.
    pub strip_selectors: Vec<String>,
    /// Priority selectors to try for the main content.
    pub content_selectors: Vec<String>,
}

#[derive(Debug, Clone)]
pub struct EmbeddingConfig {
    /// "local", "openai", "gemini" or "cohere".
    pub provider: String,
    pub model: String,
    pub api_key: Option<String>,
    pub api_url: Option<String>,
}

#[derive(Debug, Clone)]
pub struct IndexConfig {
    /// Directory of the full-text index.
    pub path: String,
    /// Index writer heap size in bytes.
    pub writer_heap_bytes: usize,
    pub embedding: EmbeddingConfig,
}

#[derive(Debug, Clone)]
pub struct CacheConfig {
    pub max_entries: usize,
    pub ttl_secs: u64,
    /// File of the persistent cache.
    pub path: String,
}

#[derive(Debug, Clone)]
pub struct SearXngConfig {
    pub instance_url: String,
    /// Comma-separated target engines (e.g. "google,bing").
    pub engines: Option<String>,
    pub timeout_secs: u64,
}

#[derive(Debug, Clone)]
pub struct HeadlessConfig {
    pub enabled: bool,
    pub chrome_path: Option<String>,
    pub wait_after_load_ms: u64,
    pub viewport_width: u32,
    pub viewport_height: u32,
}

#[derive(Debug, Clone)]
pub struct ProxyConfig {
    pub enabled: bool,
    pub urls: Vec<String>,
}

#[derive(Debug, Clone)]
pub struct Config {
    pub server: ServerConfig,
    pub search: SearchConfig,
    pub brave: BraveConfig,
    pub crawler: CrawlerConfig,
    pub extractor: ExtractorConfig,
    pub index: IndexConfig,
    pub cache: CacheConfig,
    pub searxng: SearXngConfig,
    pub headless: HeadlessConfig,
    pub proxy: ProxyConfig,
}

/// The platform's per-user data directory, when it has one (depends on the
/// environment, so nothing is promised of it).
#[verifier::external_body]
fn data_dir() -> (r: Option<String>) {
    dirs::data_dir().map(|p| p.to_string_lossy().into_owned())
}

/// `Path::join` of two paths given as UTF-8 text.
pub uninterp spec fn spec_path_join(base: Seq<char>, part: Seq<char>) -> Seq<char>;

/// Wraps `Path::join`; its result is named by `spec_path_join`.
#[verifier::external_body]
fn path_join(base: &str, part: &str) -> (r: String)
    ensures
        r@ == spec_path_join(base@, part@),
{
    std::path::Path::new(base).join(part).to_string_lossy().into_owned()
}

/// `<data dir or ".">/searchxyz/<leaf>`.
pub open spec fn data_path(data_dir: Option<Seq<char>>, leaf: Seq<char>) -> Seq<char> {
    let base = match data_dir {
        Some(d) => d,
        None => "."@,
    };
    spec_path_join(spec_path_join(base, "searchxyz"@), leaf)
}

/// Where a file of the application lives under a data directory.
pub fn data_path_under(data_dir: &Option<String>, leaf: &str) -> (r: String)
    ensures
        r@ == data_path(opt_view(*data_dir), leaf@),
{
    let base = match data_dir {
        Some(d) => d.clone(),
        None => owned("."),
    };
    let app = path_join(base.as_str(), "searchxyz");
    path_join(app.as_str(), leaf)
}

impl ServerConfig {
    pub open spec fn is_default(&self) -> bool {
        &&& self.name@ == "searchxyz"@
        &&& self.version@ == "0.1.0"@
        &&& self.log_level@ == "info"@
        &&& self.auth_token is None
    }
}

impl Default for ServerConfig {
    fn default() -> (r: Self)
        ensures
            r.is_default(),
    {
        ServerConfig {
            name: owned("searchxyz"),
            version: owned("0.1.0"),
            log_level: owned("info"),
            auth_token: None,
        }
    }
}

impl SearchConfig {
    pub open spec fn is_default(&self) -> bool {
        &&& str_views(self.backends@) == seq!["duckduckgo"@, "google"@, "bing"@, "brave"@]
        &&& self.max_results == 10
    }
}

impl Default for SearchConfig {
    fn default() -> (r: Self)
        ensures
            r.is_default(),
    {
        let mut backends: Vec<String> = Vec::new();
        backends.push(owned("duckduckgo"));
        backends.push(owned("google"));
        backends.push(owned("bing"));
        backends.push(owned("brave"));
        let r = SearchConfig { backends, max_results: 10 };
        assert(str_views(r.backends@) =~= seq!["duckduckgo"@, "google"@, "bing"@, "brave"@]);
        r
    }
}

impl BraveConfig {
    pub open spec fn is_default(&self) -> bool {
        self.api_key is None && self.max_results == 10
    }
}

impl Default for BraveConfig {
    fn default() -> (r: Self)
        ensures
            r.is_default(),
    {
        BraveConfig { api_key: None, max_results: 10 }
    }
}

impl CrawlerConfig {
    pub open spec fn is_default(&self) -> bool {
        &&& self.timeout_secs == 30
        &&& self.user_agent@
            == "searchxyz/0.1 (AI-agent MCP tool; +https://github.com/user/searchxyz)"@
        &&& self.max_body_bytes == 5 * 1024 * 1024
        &&& self.max_redirects == 5
        &&& self.max_retries == 3
        &&& self.rate_limit_per_sec == 2
    }
}

impl Default for CrawlerConfig {
    fn default() -> (r: Self)
        ensures
            r.is_default(),
    {
        CrawlerConfig {
            timeout_secs: 30,
            user_agent: owned(
                "searchxyz/0.1 (AI-agent MCP tool; +https://github.com/user/searchxyz)",
            ),
            max_body_bytes: 5 * 1024 * 1024,
            max_redirects: 5,
            max_retries: 3,
            rate_limit_per_sec: 2,
        }
    }
}

impl ExtractorConfig {
    pub open spec fn is_default(&self) -> bool {
        &&& self.min_content_length == 50
        &&& str_views(self.strip_selectors@) == seq![
            "script"@,
            "style"@,
            "nav"@,
            "footer"@,
            "header"@,
            "aside"@,
            "noscript"@,
            "iframe"@,
        ]
        &&& str_views(self.content_selectors@) == seq![
            "article"@,
            "main"@,
            "[role=\"main\"]"@,
            ".post-content"@,
            ".article-body"@,
        ]
    }
}

impl Default for ExtractorConfig {
    fn default() -> (r: Self)
        ensures
            r.is_default(),
    {
        let mut strip: Vec<String> = Vec::new();
        strip.push(owned("script"));
        strip.push(owned("style"));
        strip.push(owned("nav"));
        strip.push(owned("footer"));
        strip.push(owned("header"));
        strip.push(owned("aside"));
        strip.push(owned("noscript"));
        strip.push(owned("iframe"));
        let mut content: Vec<String> = Vec::new();
        content.push(owned("article"));
        content.push(owned("main"));
        content.push(owned("[role=\"main\"]"));
        content.push(owned(".post-content"));
        content.push(owned(".article-body"));
        let r = ExtractorConfig {
            min_content_length: 50,
            strip_selectors: strip,
            content_selectors: content,
        };
        assert(str_views(r.strip_selectors@) =~= seq![
            "script"@,
            "style"@,
            "nav"@,
            "footer"@,
            "header"@,
            "aside"@,
            "noscript"@,
            "iframe"@,
        ]);
        assert(str_views(r.content_selectors@) =~= seq![
            "article"@,
            "main"@,
            "[role=\"main\"]"@,
            ".post-content"@,
            ".article-body"@,
        ]);
        r
    }
}

impl EmbeddingConfig {
    pub open spec fn is_default(&self) -> bool {
        &&& self.provider@ == "local"@
        &&& self.model@ == "bge-small-en-v1.5"@
        &&& self.api_key is None
        &&& self.api_url is None
    }
}

impl Default for EmbeddingConfig {
    fn default() -> (r: Self)
        ensures
            r.is_default(),
    {
        EmbeddingConfig {
            provider: owned("local"),
            model: owned("bge-small-en-v1.5"),
            api_key: None,
            api_url: None,
        }
    }
}

impl IndexConfig {
    /// Defaults, with the index under the given data directory.
    pub open spec fn is_default_under(&self, data_dir: Option<Seq<char>>) -> bool {
        &&& self.path@ == data_path(data_dir, "index"@)
        &&& self.writer_heap_bytes == 50 * 1024 * 1024
        &&& self.embedding.is_default()
    }

    /// The defaults with the index under `data_dir`.
    pub fn default_under(data_dir: &Option<String>) -> (r: Self)
        ensures
            r.is_default_under(opt_view(*data_dir)),
    {
        IndexConfig {
            path: data_path_under(data_dir, "index"),
            writer_heap_bytes: 50 * 1024 * 1024,
            embedding: EmbeddingConfig::default(),
        }
    }
}

impl Default for IndexConfig {
    /// The defaults, with the index under the platform's data directory.
    fn default() -> (r: Self)
        ensures
            exists|d: Option<Seq<char>>| r.is_default_under(d),
    {
        let d = data_dir();
        Self::default_under(&d)
    }
}

impl CacheConfig {
    pub open spec fn is_default_under(&self, data_dir: Option<Seq<char>>) -> bool {
        &&& self.max_entries == 1000
        &&& self.ttl_secs == 3600
        &&& self.path@ == data_path(data_dir, "cache.json"@)
    }

    /// The defaults with the cache file under `data_dir`.
    pub fn default_under(data_dir: &Option<String>) -> (r: Self)
        ensures
            r.is_default_under(opt_view(*data_dir)),
    {
        CacheConfig {
            max_entries: 1000,
            ttl_secs: 3600,
            path: data_path_under(data_dir, "cache.json"),
        }
    }
}

impl Default for CacheConfig {
    /// The defaults, with the cache file under the platform's data directory.
    fn default() -> (r: Self)
        ensures
            exists|d: Option<Seq<char>>| r.is_default_under(d),
    {
        let d = data_dir();
        Self::default_under(&d)
    }
}

impl SearXngConfig {
    pub open spec fn is_default(&self) -> bool {
        &&& self.instance_url@ == "http://localhost:8080"@
        &&& self.engines is None
        &&& self.timeout_secs == 5
    }
}

impl Default for SearXngConfig {
    fn default() -> (r: Self)
        ensures
            r.is_default(),
    {
        SearXngConfig { instance_url: owned("http://localhost:8080"), engines: None, timeout_secs: 5 }
    }
}

impl HeadlessConfig {
    pub open spec fn is_default(&self) -> bool {
        &&& !self.enabled
        &&& self.chrome_path is None
        &&& self.wait_after_load_ms == 1000
        &&& self.viewport_width == 1280
        &&& self.viewport_height == 800
    }
}

impl Default for HeadlessConfig {
    fn default() -> (r: Self)
        ensures
            r.is_default(),
    {
        HeadlessConfig {
            enabled: false,
            chrome_path: None,
            wait_after_load_ms: 1000,
            viewport_width: 1280,
            viewport_height: 800,
        }
    }
}

impl ProxyConfig {
    pub open spec fn is_default(&self) -> bool {
        !self.enabled && self.urls@.len() == 0
    }
}

impl Default for ProxyConfig {
    fn default() -> (r: Self)
        ensures
            r.is_default(),
    {
        ProxyConfig { enabled: false, urls: Vec::new() }
    }
}

impl Config {
    /// All sections at their defaults, files under the given data directory.
    pub open spec fn is_default_under(&self, data_dir: Option<Seq<char>>) -> bool {
        &&& self.server.is_default()
        &&& self.search.is_default()
        &&& self.brave.is_default()
        &&& self.crawler.is_default()
        &&& self.extractor.is_default()
        &&& self.index.is_default_under(data_dir)
        &&& self.cache.is_default_under(data_dir)
        &&& self.searxng.is_default()
        &&& self.headless.is_default()
        &&& self.proxy.is_default()
    }

    /// The compiled defaults with files under `data_dir`.
    pub fn default_under(data_dir: &Option<String>) -> (r: Self)
        ensures
            r.is_default_under(opt_view(*data_dir)),
    {
        Config {
            server: ServerConfig::default(),
            search: SearchConfig::default(),
            brave: BraveConfig::default(),
            crawler: CrawlerConfig::default(),
            extractor: ExtractorConfig::default(),
            index: IndexConfig::default_under(data_dir),
            cache: CacheConfig::default_under(data_dir),
            searxng: SearXngConfig::default(),
            headless: HeadlessConfig::default(),
            proxy: ProxyConfig::default(),
        }
    }
}

impl Default for Config {
    /// The compiled defaults, files under the platform's data directory.
    fn default() -> (r: Self)
        ensures
            exists|d: Option<Seq<char>>| r.is_default_under(d),
    {
        let d = data_dir();
        Self::default_under(&d)
    }
}


/// Values of the environment variables that override configuration
/// (`SEARCHXYZ_*`); `None` for a variable that is not set.
#[derive(Debug, Clone, Default)]
pub struct EnvOverrides {
    /// SEARCHXYZ_API_KEY
    pub api_key: Option<String>,
    /// SEARCHXYZ_BRAVE_API_KEY
    pub brave_api_key: Option<String>,
    /// SEARCHXYZ_SEARXNG_URL
    pub searxng_url: Option<String>,
    /// SEARCHXYZ_LOG_LEVEL
    pub log_level: Option<String>,
    /// SEARCHXYZ_INDEX_PATH
    pub index_path: Option<String>,
    /// SEARCHXYZ_EMBEDDING_PROVIDER
    pub embedding_provider: Option<String>,
    /// SEARCHXYZ_EMBEDDING_MODEL
    pub embedding_model: Option<String>,
    /// SEARCHXYZ_EMBEDDING_API_KEY
    pub embedding_api_key: Option<String>,
    /// SEARCHXYZ_EMBEDDING_URL
    pub embedding_url: Option<String>,
    /// SEARCHXYZ_OPENAI_API_KEY
    pub openai_api_key: Option<String>,
    /// SEARCHXYZ_GEMINI_API_KEY
    pub gemini_api_key: Option<String>,
    /// SEARCHXYZ_COHERE_API_KEY
    pub cohere_api_key: Option<String>,
    /// SEARCHXYZ_CACHE_MAX_ENTRIES
    pub cache_max_entries: Option<String>,
    /// SEARCHXYZ_CACHE_TTL_SECS
    pub cache_ttl_secs: Option<String>,
    /// SEARCHXYZ_CACHE_PATH
    pub cache_path: Option<String>,
    /// SEARCHXYZ_HEADLESS_ENABLED
    pub headless_enabled: Option<String>,
    /// SEARCHXYZ_CHROME_PATH
    pub chrome_path: Option<String>,
    /// SEARCHXYZ_HEADLESS_WAIT_MS
    pub headless_wait_ms: Option<String>,
    /// SEARCHXYZ_PROXY_ENABLED
    pub proxy_enabled: Option<String>,
    /// SEARCHXYZ_PROXY_URLS
    pub proxy_urls: Option<String>,
}

/// A set value replaces the old one.
pub open spec fn set_or(old: Seq<char>, v: Option<String>) -> Seq<char> {
    match v {
        Some(x) => x@,
        None => old,
    }
}

/// A set value replaces the old optional one.
pub open spec fn set_or_opt(old: Option<Seq<char>>, v: Option<String>) -> Option<Seq<char>> {
    match v {
        Some(x) => Some(x@),
        None => old,
    }
}

/// A set value that parses replaces the old one.
pub open spec fn parsed_or<T>(old: T, v: Option<String>, parse: spec_fn(Seq<char>) -> Option<T>) -> T {
    match v {
        Some(x) => match parse(x@) {
            Some(n) => n,
            None => old,
        },
        None => old,
    }
}

/// Proxy URLs from a comma-separated list: pieces trimmed, empty ones dropped.
pub open spec fn proxy_list_of(pieces: Seq<Seq<char>>) -> Seq<Seq<char>>
    decreases pieces.len(),
{
    if pieces.len() == 0 {
        Seq::empty()
    } else {
        proxy_list_of(pieces.drop_last()) + if trim(pieces.last()).len() > 0 {
            seq![trim(pieces.last())]
        } else {
            Seq::empty()
        }
    }
}

pub open spec fn proxy_list(s: Seq<char>) -> Seq<Seq<char>> {
    proxy_list_of(split(s, ','))
}

/// The embedding API key after the overrides: the generic key first, then the
/// provider-specific key of the (lower-cased) provider.
pub open spec fn embedding_key_after(
    old: Option<Seq<char>>,
    env: EnvOverrides,
    provider: Seq<char>,
) -> Option<Seq<char>> {
    let k1 = set_or_opt(old, env.embedding_api_key);
    let p = spec_lowercase(provider);
    let k2 = if p == "openai"@ { set_or_opt(k1, env.openai_api_key) } else { k1 };
    let k3 = if p == "gemini"@ { set_or_opt(k2, env.gemini_api_key) } else { k2 };
    if p == "cohere"@ { set_or_opt(k3, env.cohere_api_key) } else { k3 }
}

fn set_string(target: &mut String, v: &Option<String>)
    ensures
        final(target)@ == set_or(old(target)@, *v),
{
    match v {
        Some(x) => {
            *target = x.clone();
        },
        None => {},
    }
}

fn set_opt_string(target: &mut Option<String>, v: &Option<String>)
    ensures
        opt_view(*final(target)) == set_or_opt(opt_view(*old(target)), *v),
{
    match v {
        Some(x) => {
            *target = Some(x.clone());
        },
        None => {},
    }
}

/// The proxy URLs of a comma-separated list.
pub fn parse_proxy_list(s: &str) -> (r: Vec<String>)
    ensures
        str_views(r@) == proxy_list(s@),
{
    let c = chars_of(s);
    let pieces = split_chars(&c, ',');
    let mut out: Vec<Vec<char>> = Vec::new();
    let mut i: usize = 0;
    while i < pieces.len()
        invariant
            i <= pieces.len(),
            views(pieces@) == split(s@, ','),
            views(out@) == proxy_list_of(views(pieces@).take(i as int)),
        decreases pieces.len() - i,
    {
        assert(views(pieces@).take(i + 1).drop_last() =~= views(pieces@).take(i as int));
        assert(views(pieces@).take(i + 1).last() == pieces@[i as int]@);
        let p = &pieces[i];
        let (lo, hi) = trim_range(p, 0, p.len());
        assert(p@.subrange(0, p@.len() as int) =~= p@);
        let ghost before = out@;
        if lo < hi {
            let t = slice_chars(p, lo, hi);
            out.push(t);
            assert(views(out@) =~= views(before).push(t@));
        } else {
            assert(views(out@) =~= views(before) + Seq::<Seq<char>>::empty());
        }
        i = i + 1;
    }
    assert(views(pieces@).take(pieces.len() as int) =~= views(pieces@));
    strings_of_all(&out)
}

/// Whether the lower-cased `provider` is `name`.
fn provider_is(provider: &String, name: &str) -> (b: bool)
    ensures
        b == (spec_lowercase(provider@) == name@),
{
    let l = chars_of(to_lowercase(provider.as_str()).as_str());
    let n = chars_of(name);
    crate::text::chars_eq(&l, &n)
}

/// How the overrides change the server section.
pub open spec fn server_applied(old: ServerConfig, env: EnvOverrides, new: ServerConfig) -> bool {
    &&& opt_view(new.auth_token) == set_or_opt(opt_view(old.auth_token), env.api_key)
    &&& new.log_level@ == set_or(old.log_level@, env.log_level)
    &&& new.name == old.name
    &&& new.version == old.version
}

/// How the overrides change the embedding section.
pub open spec fn embedding_applied(old: EmbeddingConfig, env: EnvOverrides, new: EmbeddingConfig) -> bool {
    &&& new.provider@ == set_or(old.provider@, env.embedding_provider)
    &&& new.model@ == set_or(old.model@, env.embedding_model)
    &&& opt_view(new.api_key) == embedding_key_after(opt_view(old.api_key), env, new.provider@)
    &&& opt_view(new.api_url) == set_or_opt(opt_view(old.api_url), env.embedding_url)
}

/// How the overrides change the cache section.
pub open spec fn cache_applied(old: CacheConfig, env: EnvOverrides, new: CacheConfig) -> bool {
    &&& new.max_entries == parsed_or(
        old.max_entries,
        env.cache_max_entries,
        |x: Seq<char>| parse_usize_spec(x),
    )
    &&& new.ttl_secs == parsed_or(old.ttl_secs, env.cache_ttl_secs, |x: Seq<char>| parse_u64_spec(x))
    &&& new.path@ == set_or(old.path@, env.cache_path)
}

/// How the overrides change the headless-browser section.
pub open spec fn headless_applied(old: HeadlessConfig, env: EnvOverrides, new: HeadlessConfig) -> bool {
    &&& new.enabled == parsed_or(old.enabled, env.headless_enabled, |x: Seq<char>| parse_bool_spec(x))
    &&& opt_view(new.chrome_path) == set_or_opt(opt_view(old.chrome_path), env.chrome_path)
    &&& new.wait_after_load_ms == parsed_or(
        old.wait_after_load_ms,
        env.headless_wait_ms,
        |x: Seq<char>| parse_u64_spec(x),
    )
    &&& new.viewport_width == old.viewport_width
    &&& new.viewport_height == old.viewport_height
}

/// How the overrides change the proxy section.
pub open spec fn proxy_applied(old: ProxyConfig, env: EnvOverrides, new: ProxyConfig) -> bool {
    &&& new.enabled == parsed_or(old.enabled, env.proxy_enabled, |x: Seq<char>| parse_bool_spec(x))
    &&& str_views(new.urls@) == match env.proxy_urls {
        Some(u) => proxy_list(u@),
        None => str_views(old.urls@),
    }
}

/// How the environment overrides change a configuration (`old` to `new`);
/// sections without overrides are unchanged.
pub open spec fn env_applied(old: Config, env: EnvOverrides, new: Config) -> bool {
    &&& server_applied(old.server, env, new.server)
    &&& opt_view(new.brave.api_key) == set_or_opt(opt_view(old.brave.api_key), env.brave_api_key)
    &&& new.brave.max_results == old.brave.max_results
    &&& new.searxng.instance_url@ == set_or(old.searxng.instance_url@, env.searxng_url)
    &&& new.searxng.engines == old.searxng.engines
    &&& new.searxng.timeout_secs == old.searxng.timeout_secs
    &&& new.index.path@ == set_or(old.index.path@, env.index_path)
    &&& new.index.writer_heap_bytes == old.index.writer_heap_bytes
    &&& embedding_applied(old.index.embedding, env, new.index.embedding)
    &&& cache_applied(old.cache, env, new.cache)
    &&& headless_applied(old.headless, env, new.headless)
    &&& proxy_applied(old.proxy, env, new.proxy)
    &&& new.search == old.search
    &&& new.crawler == old.crawler
    &&& new.extractor == old.extractor
}

fn apply_embedding(e: &mut EmbeddingConfig, env: &EnvOverrides)
    ensures
        embedding_applied(*old(e), *env, *final(e)),
{
    set_string(&mut e.provider, &env.embedding_provider);
    set_string(&mut e.model, &env.embedding_model);
    set_opt_string(&mut e.api_key, &env.embedding_api_key);
    set_opt_string(&mut e.api_url, &env.embedding_url);
    if env.openai_api_key.is_some() && provider_is(&e.provider, "openai") {
        set_opt_string(&mut e.api_key, &env.openai_api_key);
    }
    if env.gemini_api_key.is_some() && provider_is(&e.provider, "gemini") {
        set_opt_string(&mut e.api_key, &env.gemini_api_key);
    }
    if env.cohere_api_key.is_some() && provider_is(&e.provider, "cohere") {
        set_opt_string(&mut e.api_key, &env.cohere_api_key);
    }
}

fn apply_cache(c: &mut CacheConfig, env: &EnvOverrides)
    ensures
        cache_applied(*old(c), *env, *final(c)),
{
    if let Some(v) = &env.cache_max_entries {
        if let Some(n) = parse_usize(v.as_str()) {
            c.max_entries = n;
        }
    }
    if let Some(v) = &env.cache_ttl_secs {
        if let Some(n) = parse_u64(v.as_str()) {
            c.ttl_secs = n;
        }
    }
    set_string(&mut c.path, &env.cache_path);
}

fn apply_headless(h: &mut HeadlessConfig, env: &EnvOverrides)
    ensures
        headless_applied(*old(h), *env, *final(h)),
{
    if let Some(v) = &env.headless_enabled {
        if let Some(b) = parse_bool(v.as_str()) {
            h.enabled = b;
        }
    }
    set_opt_string(&mut h.chrome_path, &env.chrome_path);
    if let Some(v) = &env.headless_wait_ms {
        if let Some(n) = parse_u64(v.as_str()) {
            h.wait_after_load_ms = n;
        }
    }
}

fn apply_proxy(p: &mut ProxyConfig, env: &EnvOverrides)
    ensures
        proxy_applied(*old(p), *env, *final(p)),
{
    if let Some(v) = &env.proxy_enabled {
        if let Some(b) = parse_bool(v.as_str()) {
            p.enabled = b;
        }
    }
    if let Some(v) = &env.proxy_urls {
        p.urls = parse_proxy_list(v.as_str());
    }
}

impl Config {
    /// Override fields from the well-known environment variables.
    pub fn apply_env_overrides(&mut self, env: &EnvOverrides)
        ensures
            env_applied(*old(self), *env, *final(self)),
    {
        set_opt_string(&mut self.server.auth_token, &env.api_key);
        set_opt_string(&mut self.brave.api_key, &env.brave_api_key);
        set_string(&mut self.searxng.instance_url, &env.searxng_url);
        set_string(&mut self.server.log_level, &env.log_level);
        set_string(&mut self.index.path, &env.index_path);
        apply_embedding(&mut self.index.embedding, env);
        apply_cache(&mut self.cache, env);
        apply_headless(&mut self.headless, env);
        apply_proxy(&mut self.proxy, env);
    }

    /// The first rule of the configuration that is broken, if any.
    pub open spec fn validation_error(&self) -> Option<Seq<char>> {
        if self.search.backends@.len() == 0 {
            Some("At least one search backend must be configured"@)
        } else if self.crawler.max_body_bytes == 0 {
            Some("crawler.max_body_bytes must be > 0"@)
        } else {
            None
        }
    }

    /// Validate invariants: at least one backend, and a positive body limit.
    pub fn validate(&self) -> (r: Result<(), SearchXyzError>)
        ensures
            match r {
                Ok(()) => self.validation_error() is None,
                Err(e) => e matches SearchXyzError::ConfigError(m) && self.validation_error()
                    == Some(m@),
            },
    {
        if self.search.backends.len() == 0 {
            return Err(SearchXyzError::ConfigError(owned("At least one search backend must be configured")));
        }
        if self.crawler.max_body_bytes == 0 {
            return Err(SearchXyzError::ConfigError(owned("crawler.max_body_bytes must be > 0")));
        }
        Ok(())
    }

    /// Whether the Brave backend is listed while no API key is set (it is then
    /// skipped at run time; worth a warning).
    pub fn brave_listed_without_key(&self) -> (b: bool)
        ensures
            b == (str_views(self.search.backends@).contains("brave"@) && self.brave.api_key is None),
    {
        let names = chars_of_all(&self.search.backends);
        let brave = chars_of("brave");
        let mut i: usize = 0;
        let mut found = false;
        while i < names.len()
            invariant
                i <= names.len(),
                views(names@) == str_views(self.search.backends@),
                brave@ == "brave"@,
                found == exists|j: int| 0 <= j < i && views(names@)[j] == "brave"@,
            decreases names.len() - i,
        {
            if crate::text::chars_eq(&names[i], &brave) {
                assert(views(names@)[i as int] == "brave"@);
                found = true;
            }
            i = i + 1;
        }
        found && self.brave.api_key.is_none()
    }

    /// The configuration read from a file (or the defaults), with the
    /// environment overrides layered on top, then validated.
    pub fn finish_load(config: Config, env: &EnvOverrides) -> (r: Result<Config, SearchXyzError>)
        ensures
            match r {
                Ok(c) => env_applied(config, *env, c) && c.validation_error() is None,
                Err(e) => e matches SearchXyzError::ConfigError(m) && config.validation_error()
                    == Some(m@),
            },
    {
        let mut c = config;
        c.apply_env_overrides(env);
        match c.validate() {
            Ok(()) => Ok(c),
            Err(e) => Err(e),
        }
    }

    /// The error for a configuration file that does not parse.
    pub fn parse_error(path: &str, detail: &str) -> (e: SearchXyzError)
        ensures
            e matches SearchXyzError::ConfigError(m) && m@ == "Failed to parse "@ + path@ + ": "@
                + detail@,
    {
        let mut o: Vec<char> = Vec::new();
        crate::text::push_str(&mut o, "Failed to parse ");
        crate::text::push_str(&mut o, path);
        crate::text::push_str(&mut o, ": ");
        crate::text::push_str(&mut o, detail);
        SearchXyzError::ConfigError(string_from_chars(o.as_slice()))
    }
}

} // verus!
