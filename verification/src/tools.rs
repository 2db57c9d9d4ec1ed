//! The tools the server offers: their parameters with defaults and caps,
//! query expansion, and the markdown each tool answers with.
use vstd::prelude::*;
use crate::extractor::{ExtractedContent, ExtractedView};
use crate::graph::{Edge, Node};
use crate::index::SourceEntry;
use crate::search::{SearchResult, SearchResultView, result_views};
use crate::text::{
    chars_of, decimal, matches_at_exec, opt_view, owned, push_decimal, push_str, starts_with,
    str_views, string_from_chars,
};

verus! {

/// `o.unwrap_or(d).min(cap)`.
pub open spec fn capped(o: Option<usize>, d: usize, cap: usize) -> usize {
    let v = match o {
        Some(v) => v,
        None => d,
    };
    if v < cap {
        v
    } else {
        cap
    }
}

fn capped_exec(o: Option<usize>, d: usize, cap: usize) -> (r: usize)
    ensures
        r == capped(o, d, cap),
{
    let v = match o {
        Some(v) => v,
        None => d,
    };
    if v < cap {
        v
    } else {
        cap
    }
}

/// Parameters of `search_web`.
#[derive(Debug, Clone)]
pub struct SearchWebRequest {
    pub query: String,
    pub max_results: Option<usize>,
}

impl SearchWebRequest {
    /// Results to return: 10 by default, at most 20.
    pub fn effective_max(&self) -> (n: usize)
        ensures
            n == capped(self.max_results, 10, 20),
    {
        capped_exec(self.max_results, 10, 20)
    }
}

/// Parameters of `read_url`.
#[derive(Debug, Clone)]
pub struct ReadUrlRequest {
    pub url: String,
    pub depth: Option<usize>,
    pub render_js: Option<bool>,
}

impl ReadUrlRequest {
    /// Crawl depth: 1 (the page alone) by default, at most 3.
    pub fn effective_depth(&self) -> (n: usize)
        ensures
            n == capped(self.depth, 1, 3),
    {
        capped_exec(self.depth, 1, 3)
    }
}

/// Parameters of `search_and_read`.
#[derive(Debug, Clone)]
pub struct SearchAndReadRequest {
    pub query: String,
    pub max_pages: Option<usize>,
    pub render_js: Option<bool>,
}

impl SearchAndReadRequest {
    /// Pages to read: 3 by default, at most 5.
    pub fn effective_pages(&self) -> (n: usize)
        ensures
            n == capped(self.max_pages, 3, 5),
    {
        capped_exec(self.max_pages, 3, 5)
    }
}

/// Parameters of `recall`.
#[derive(Debug, Clone)]
pub struct RecallRequest {
    pub query: String,
    pub max_results: Option<usize>,
    pub semantic: Option<bool>,
}

impl RecallRequest {
    /// Results to return: 5 by default.
    pub fn effective_max(&self) -> (n: usize)
        ensures
            n == (match self.max_results {
                Some(v) => v,
                None => 5,
            }),
    {
        match self.max_results {
            Some(v) => v,
            None => 5,
        }
    }

    /// Whether to search by meaning: yes by default.
    pub fn use_semantic(&self) -> (b: bool)
        ensures
            b == (match self.semantic {
                Some(v) => v,
                None => true,
            }),
    {
        match self.semantic {
            Some(v) => v,
            None => true,
        }
    }
}

/// Parameters of `list_sources`.
#[derive(Debug, Clone)]
pub struct ListSourcesRequest {
    pub source: Option<String>,
    pub limit: Option<usize>,
    pub offset: Option<usize>,
}

impl ListSourcesRequest {
    /// Entries per page: 50 by default, at most 100.
    pub fn effective_limit(&self) -> (n: usize)
        ensures
            n == capped(self.limit, 50, 100),
    {
        capped_exec(self.limit, 50, 100)
    }

    /// Entries to skip: none by default.
    pub fn effective_offset(&self) -> (n: usize)
        ensures
            n == (match self.offset {
                Some(v) => v,
                None => 0,
            }),
    {
        match self.offset {
            Some(v) => v,
            None => 0,
        }
    }
}

/// Parameters of `deep_research`.
#[derive(Debug, Clone)]
pub struct DeepResearchRequest {
    pub query: String,
    pub breadth: Option<usize>,
    pub max_pages_per_query: Option<usize>,
    pub render_js: Option<bool>,
}

impl DeepResearchRequest {
    /// Sub-queries to run: 3 by default, at most 5.
    pub fn effective_breadth(&self) -> (n: usize)
        ensures
            n == capped(self.breadth, 3, 5),
    {
        capped_exec(self.breadth, 3, 5)
    }

    /// Pages to read per sub-query: 2 by default, at most 4.
    pub fn effective_pages(&self) -> (n: usize)
        ensures
            n == capped(self.max_pages_per_query, 2, 4),
    {
        capped_exec(self.max_pages_per_query, 2, 4)
    }
}

/// Parameters of `index_content`.
#[derive(Debug, Clone)]
pub struct IndexContentRequest {
    pub url: String,
    pub title: String,
    pub content: String,
}

impl IndexContentRequest {
    /// The document stored: the given text under its URL and title, with no
    /// description or links.
    pub fn document(&self) -> (d: ExtractedContent)
        ensures
            d@ == (ExtractedView {
                url: self.url@,
                title: self.title@,
                description: Seq::empty(),
                content_markdown: self.content@,
                links: Seq::empty(),
            }),
    {
        let links: Vec<String> = Vec::new();
        assert(str_views(links@) =~= Seq::<Seq<char>>::empty());
        ExtractedContent {
            url: self.url.clone(),
            title: self.title.clone(),
            description: String::new(),
            content_markdown: self.content.clone(),
            links,
        }
    }

    /// The answer once stored.
    pub fn confirmation(&self) -> (s: String)
        ensures
            s@ == "Successfully indexed content for `"@ + self.url@ + "`"@,
    {
        let mut o: Vec<char> = Vec::new();
        push_str(&mut o, "Successfully indexed content for `");
        push_str(&mut o, self.url.as_str());
        push_str(&mut o, "`");
        string_from_chars(o.as_slice())
    }
}

/// Parameters of `site_map`.
#[derive(Debug, Clone)]
pub struct SiteMapRequest {
    pub url: String,
    pub use_sitemap: Option<bool>,
    pub crawl_links: Option<bool>,
    pub max_links: Option<usize>,
}

impl SiteMapRequest {
    /// Links to report: 100 by default, at most 500.
    pub fn effective_max(&self) -> (n: usize)
        ensures
            n == capped(self.max_links, 100, 500),
    {
        capped_exec(self.max_links, 100, 500)
    }
}

/// Parameters of `index_relationship`.
#[derive(Debug, Clone)]
pub struct IndexRelationshipRequest {
    pub source: String,
    pub source_type: String,
    pub target: String,
    pub target_type: String,
    pub relationship: String,
}

impl IndexRelationshipRequest {
    /// The answer once stored.
    pub fn confirmation(&self) -> (s: String)
        ensures
            s@ == "Successfully indexed relationship: **"@ + self.source@ + "** ("@ + self.source_type@
                + ") -["@ + self.relationship@ + "]-> **"@ + self.target@ + "** ("@ + self.target_type@
                + ")"@,
    {
        let mut o: Vec<char> = Vec::new();
        push_str(&mut o, "Successfully indexed relationship: **");
        push_str(&mut o, self.source.as_str());
        push_str(&mut o, "** (");
        push_str(&mut o, self.source_type.as_str());
        push_str(&mut o, ") -[");
        push_str(&mut o, self.relationship.as_str());
        push_str(&mut o, "]-> **");
        push_str(&mut o, self.target.as_str());
        push_str(&mut o, "** (");
        push_str(&mut o, self.target_type.as_str());
        push_str(&mut o, ")");
        string_from_chars(o.as_slice())
    }
}

/// Parameters of `query_graph`.
#[derive(Debug, Clone)]
pub struct QueryGraphRequest {
    pub entity: String,
    pub max_depth: Option<usize>,
}

impl QueryGraphRequest {
    /// Traversal depth: 2 by default, at most 4.
    pub fn effective_depth(&self) -> (n: usize)
        ensures
            n == capped(self.max_depth, 2, 4),
    {
        capped_exec(self.max_depth, 2, 4)
    }
}

/// A URL the tools accept: it starts with `http://` or `https://`.
pub open spec fn web_url(url: Seq<char>) -> bool {
    starts_with(url, "http://"@) || starts_with(url, "https://"@)
}

/// Whether `url` is a web URL.
pub fn is_web_url(url: &str) -> (b: bool)
    ensures
        b == web_url(url@),
{
    let c = chars_of(url);
    matches_at_exec(&c, &chars_of("http://"), 0) || matches_at_exec(&c, &chars_of("https://"), 0)
}

/// The modifier appended to the query for sub-query `i`.
pub open spec fn modifier(i: int) -> Seq<char> {
    if i == 0 {
        Seq::empty()
    } else if i == 1 {
        "documentation libraries"@
    } else if i == 2 {
        "examples tutorials guide"@
    } else if i == 3 {
        "comparison review github"@
    } else {
        "advanced pattern best practices"@
    }
}

/// The sub-queries a topic expands to: the query itself, then the query
/// with each modifier in turn; `breadth` of them, five at most.
pub open spec fn expanded(query: Seq<char>, breadth: usize) -> Seq<Seq<char>> {
    Seq::new(
        if breadth < 5 { breadth as nat } else { 5 },
        |i: int|
            if i == 0 {
                query
            } else {
                query + " "@ + modifier(i)
            },
    )
}

/// Expand a query into up to five sub-queries.
pub fn expand_query(query: &str, breadth: usize) -> (v: Vec<String>)
    ensures
        str_views(v@) == expanded(query@, breadth),
{
    let mut v: Vec<String> = Vec::new();
    let mut i: usize = 0;
    let n: usize = if breadth < 5 { breadth } else { 5 };
    while i < n
        invariant
            i <= n,
            n == (if breadth < 5 { breadth } else { 5 }),
            str_views(v@) == expanded(query@, breadth).take(i as int),
        decreases n - i,
    {
        let s = if i == 0 {
            owned(query)
        } else {
            let m = if i == 1 {
                "documentation libraries"
            } else if i == 2 {
                "examples tutorials guide"
            } else if i == 3 {
                "comparison review github"
            } else {
                "advanced pattern best practices"
            };
            let mut o: Vec<char> = Vec::new();
            push_str(&mut o, query);
            push_str(&mut o, " ");
            push_str(&mut o, m);
            string_from_chars(o.as_slice())
        };
        let ghost before = str_views(v@);
        v.push(s);
        assert(str_views(v@) =~= before.push(expanded(query@, breadth)[i as int]));
        assert(expanded(query@, breadth).take(i + 1) =~= expanded(query@, breadth).take(i as int).push(
            expanded(query@, breadth)[i as int],
        ));
        i = i + 1;
    }
    assert(expanded(query@, breadth).take(n as int) =~= expanded(query@, breadth));
    v
}

// ── Answers ────────────────────────────────────────────────

/// The numbered list `search_web` answers with, from result `k` on.
pub open spec fn results_text(rs: Seq<SearchResultView>) -> Seq<char>
    decreases rs.len(),
{
    if rs.len() == 0 {
        Seq::empty()
    } else {
        results_text(rs.drop_last()) + decimal(rs.len()) + ". **"@ + rs.last().title + "**\n   "@
            + rs.last().url + "\n   "@ + rs.last().snippet + "\n"@
    }
}

/// The list of search results, numbered from 1.
pub fn format_search_results(results: &Vec<SearchResult>) -> (s: String)
    ensures
        s@ == results_text(result_views(results@)),
{
    let ghost rv = result_views(results@);
    let mut o: Vec<char> = Vec::new();
    let mut i: usize = 0;
    while i < results.len()
        invariant
            i <= results.len(),
            rv == result_views(results@),
            o@ == results_text(rv.take(i as int)),
        decreases results.len() - i,
    {
        let r = &results[i];
        assert(rv.take(i + 1).drop_last() =~= rv.take(i as int));
        assert(rv.take(i + 1).last() == r@);
        push_decimal(&mut o, (i + 1) as u64);
        push_str(&mut o, ". **");
        push_str(&mut o, r.title.as_str());
        push_str(&mut o, "**\n   ");
        push_str(&mut o, r.url.as_str());
        push_str(&mut o, "\n   ");
        push_str(&mut o, r.snippet.as_str());
        push_str(&mut o, "\n");
        i = i + 1;
    }
    assert(rv.take(results.len() as int) =~= rv);
    string_from_chars(o.as_slice())
}

/// How `read_url` shows a single page.
pub fn format_page(page: &ExtractedContent) -> (s: String)
    ensures
        s@ == "# "@ + page.title@ + "\n\n**Source:** "@ + page.url@ + "\n\n---\n\n"@ + page.content_markdown@,
{
    let mut o: Vec<char> = Vec::new();
    push_str(&mut o, "# ");
    push_str(&mut o, page.title.as_str());
    push_str(&mut o, "\n\n**Source:** ");
    push_str(&mut o, page.url.as_str());
    push_str(&mut o, "\n\n---\n\n");
    push_str(&mut o, page.content_markdown.as_str());
    string_from_chars(o.as_slice())
}

/// The sections several pages are shown in.
pub open spec fn pages_text(ps: Seq<ExtractedView>) -> Seq<char>
    decreases ps.len(),
{
    if ps.len() == 0 {
        Seq::empty()
    } else {
        pages_text(ps.drop_last()) + "---\n## "@ + ps.last().title + "\n**Source:** "@ + ps.last().url
            + "\n\n"@ + ps.last().content_markdown + "\n\n"@
    }
}

/// How a crawl or a search-and-read shows its pages.
pub fn format_pages(pages: &Vec<ExtractedContent>) -> (s: String)
    ensures
        s@ == pages_text(pages@.map_values(|p: ExtractedContent| p@)),
{
    let ghost pv = pages@.map_values(|p: ExtractedContent| p@);
    let mut o: Vec<char> = Vec::new();
    let mut i: usize = 0;
    while i < pages.len()
        invariant
            i <= pages.len(),
            pv == pages@.map_values(|p: ExtractedContent| p@),
            o@ == pages_text(pv.take(i as int)),
        decreases pages.len() - i,
    {
        let p = &pages[i];
        assert(pv.take(i + 1).drop_last() =~= pv.take(i as int));
        assert(pv.take(i + 1).last() == p@);
        push_str(&mut o, "---\n## ");
        push_str(&mut o, p.title.as_str());
        push_str(&mut o, "\n**Source:** ");
        push_str(&mut o, p.url.as_str());
        push_str(&mut o, "\n\n");
        push_str(&mut o, p.content_markdown.as_str());
        push_str(&mut o, "\n\n");
        i = i + 1;
    }
    assert(pv.take(pages.len() as int) =~= pv);
    string_from_chars(o.as_slice())
}

/// The entries of a source listing, numbered from `first`.
pub open spec fn sources_text(es: Seq<SourceEntry>, first: int) -> Seq<char>
    decreases es.len(),
{
    if es.len() == 0 {
        Seq::empty()
    } else {
        let e = es.last();
        sources_text(es.drop_last(), first) + decimal((first + es.len() - 1) as nat) + ". **"@ + e.title@
            + "**\n   - **URL:** "@ + e.url@ + "\n   - **Indexed At:** "@ + e.indexed_at@
            + "\n   - **Source:** "@ + e.source@ + "\n\n"@
    }
}

#[verifier::spinoff_prover]
#[verifier::rlimit(30)]
/// How `list_sources` answers: a note when the page is empty, else the
/// total and the entries numbered from `offset + 1`.
pub fn format_sources(entries: &Vec<SourceEntry>, total: usize, offset: usize) -> (s: String)
    requires
        offset + entries@.len() <= u64::MAX,
    ensures
        s@ == (if entries@.len() == 0 {
            "No documents found in the local index matching your filters."@
        } else {
            "### Cached Sources (Total indexed: "@ + decimal(total as nat) + ")\n\n"@ + sources_text(
                entries@,
                offset + 1,
            )
        }),
{
    if entries.len() == 0 {
        return owned("No documents found in the local index matching your filters.");
    }
    let mut o: Vec<char> = Vec::new();
    push_str(&mut o, "### Cached Sources (Total indexed: ");
    push_decimal(&mut o, total as u64);
    push_str(&mut o, ")\n\n");
    let ghost head = o@;
    let mut i: usize = 0;
    while i < entries.len()
        invariant
            i <= entries.len(),
            offset + entries@.len() <= u64::MAX,
            o@ == head + sources_text(entries@.take(i as int), offset + 1),
        decreases entries.len() - i,
    {
        let e = &entries[i];
        assert(entries@.take(i + 1).drop_last() =~= entries@.take(i as int));
        assert(entries@.take(i + 1).last() == *e);
        push_decimal(&mut o, offset as u64 + i as u64 + 1);
        push_str(&mut o, ". **");
        push_str(&mut o, e.title.as_str());
        push_str(&mut o, "**\n   - **URL:** ");
        push_str(&mut o, e.url.as_str());
        push_str(&mut o, "\n   - **Indexed At:** ");
        push_str(&mut o, e.indexed_at.as_str());
        push_str(&mut o, "\n   - **Source:** ");
        push_str(&mut o, e.source.as_str());
        push_str(&mut o, "\n\n");
        i = i + 1;
    }
    assert(entries@.take(entries.len() as int) =~= entries@);
    string_from_chars(o.as_slice())
}

/// The entity lines of a graph answer.
pub open spec fn entities_text(ns: Seq<Node>) -> Seq<char>
    decreases ns.len(),
{
    if ns.len() == 0 {
        Seq::empty()
    } else {
        entities_text(ns.drop_last()) + "- **"@ + ns.last().name@ + "** ("@ + ns.last().entity_type@
            + ")\n"@
    }
}

/// The connection lines of a graph answer.
pub open spec fn connections_text(es: Seq<Edge>) -> Seq<char>
    decreases es.len(),
{
    if es.len() == 0 {
        Seq::empty()
    } else {
        connections_text(es.drop_last()) + "- **"@ + es.last().source@ + "** -["@
            + es.last().relationship_type@ + "]-> **"@ + es.last().target@ + "**\n"@
    }
}

/// How `query_graph` answers: a note when the entity is unknown, else its
/// entities and connections.
pub fn format_graph(start: &str, depth: usize, nodes: &Vec<Node>, edges: &Vec<Edge>) -> (s: String)
    ensures
        s@ == (if nodes@.len() == 0 {
            "Entity `"@ + start@ + "` not found in the knowledge graph."@
        } else {
            "### Knowledge Graph Query for `"@ + start@ + "` (Depth: "@ + decimal(depth as nat)
                + ")\n\n"@ + "#### Entities:\n"@ + entities_text(nodes@) + "\n#### Connections:\n"@
                + (if edges@.len() == 0 {
                "No active connections found.\n"@
            } else {
                connections_text(edges@)
            })
        }),
{
    let mut o: Vec<char> = Vec::new();
    if nodes.len() == 0 {
        push_str(&mut o, "Entity `");
        push_str(&mut o, start);
        push_str(&mut o, "` not found in the knowledge graph.");
        return string_from_chars(o.as_slice());
    }
    push_str(&mut o, "### Knowledge Graph Query for `");
    push_str(&mut o, start);
    push_str(&mut o, "` (Depth: ");
    push_decimal(&mut o, depth as u64);
    push_str(&mut o, ")\n\n");
    push_str(&mut o, "#### Entities:\n");
    let ghost h1 = o@;
    let mut i: usize = 0;
    while i < nodes.len()
        invariant
            i <= nodes.len(),
            o@ == h1 + entities_text(nodes@.take(i as int)),
        decreases nodes.len() - i,
    {
        assert(nodes@.take(i + 1).drop_last() =~= nodes@.take(i as int));
        assert(nodes@.take(i + 1).last() == nodes@[i as int]);
        push_str(&mut o, "- **");
        push_str(&mut o, nodes[i].name.as_str());
        push_str(&mut o, "** (");
        push_str(&mut o, nodes[i].entity_type.as_str());
        push_str(&mut o, ")\n");
        i = i + 1;
    }
    assert(nodes@.take(nodes.len() as int) =~= nodes@);
    push_str(&mut o, "\n#### Connections:\n");
    if edges.len() == 0 {
        push_str(&mut o, "No active connections found.\n");
    } else {
        let ghost h2 = o@;
        let mut j: usize = 0;
        while j < edges.len()
            invariant
                j <= edges.len(),
                o@ == h2 + connections_text(edges@.take(j as int)),
            decreases edges.len() - j,
        {
            assert(edges@.take(j + 1).drop_last() =~= edges@.take(j as int));
            assert(edges@.take(j + 1).last() == edges@[j as int]);
            push_str(&mut o, "- **");
            push_str(&mut o, edges[j].source.as_str());
            push_str(&mut o, "** -[");
            push_str(&mut o, edges[j].relationship_type.as_str());
            push_str(&mut o, "]-> **");
            push_str(&mut o, edges[j].target.as_str());
            push_str(&mut o, "**\n");
            j = j + 1;
        }
        assert(edges@.take(edges.len() as int) =~= edges@);
    }
    string_from_chars(o.as_slice())
}

/// Whether a request's `Authorization` header carries the expected bearer token.
pub open spec fn authorized(header: Option<Seq<char>>, token: Seq<char>) -> bool {
    match header {
        Some(h) => starts_with(h, "Bearer "@) && h.subrange(7, h.len() as int) == token,
        None => false,
    }
}

/// Checks the `Authorization` header against the expected token.
pub fn is_authorized(header: Option<&str>, token: &str) -> (b: bool)
    ensures
        b == authorized(
            match header {
                Some(h) => Some(h@),
                None => None,
            },
            token@,
        ),
{
    match header {
        None => false,
        Some(h) => {
            let c = chars_of(h);
            let bearer = chars_of("Bearer ");
            proof {
                reveal_strlit("Bearer ");
            }
            if !matches_at_exec(&c, &bearer, 0) {
                return false;
            }
            let rest = crate::text::slice_chars(&c, 7, c.len());
            crate::text::chars_eq(&rest, &chars_of(token))
        },
    }
}

/// The search backends the configuration can name.
#[derive(Debug, Clone, Copy, PartialEq, Eq)]
pub enum BackendKind {
    DuckDuckGo,
    Google,
    Bing,
    Brave,
    SearXng,
}

/// The backend a configured name selects; unknown names select none.
pub open spec fn backend_named(name: Seq<char>) -> Option<BackendKind> {
    if name == "duckduckgo"@ {
        Some(BackendKind::DuckDuckGo)
    } else if name == "google"@ {
        Some(BackendKind::Google)
    } else if name == "bing"@ {
        Some(BackendKind::Bing)
    } else if name == "brave"@ {
        Some(BackendKind::Brave)
    } else if name == "searxng"@ {
        Some(BackendKind::SearXng)
    } else {
        None
    }
}

impl BackendKind {
    /// The backend `name` selects.
    pub fn from_name(name: &str) -> (k: Option<BackendKind>)
        ensures
            k == backend_named(name@),
    {
        let n = chars_of(name);
        if crate::text::chars_eq(&n, &chars_of("duckduckgo")) {
            Some(BackendKind::DuckDuckGo)
        } else if crate::text::chars_eq(&n, &chars_of("google")) {
            Some(BackendKind::Google)
        } else if crate::text::chars_eq(&n, &chars_of("bing")) {
            Some(BackendKind::Bing)
        } else if crate::text::chars_eq(&n, &chars_of("brave")) {
            Some(BackendKind::Brave)
        } else if crate::text::chars_eq(&n, &chars_of("searxng")) {
            Some(BackendKind::SearXng)
        } else {
            None
        }
    }
}

/// `pages` with `p` in: replacing the page of the same URL, else added last.
pub open spec fn upsert(pages: Seq<ExtractedView>, p: ExtractedView) -> Seq<ExtractedView> {
    if exists|k: int| 0 <= k < pages.len() && pages[k].url == p.url {
        let k = choose|k: int| 0 <= k < pages.len() && pages[k].url == p.url;
        pages.update(k, p)
    } else {
        pages.push(p)
    }
}

/// All of `ps` put in one after the other.
pub open spec fn upsert_all(pages: Seq<ExtractedView>, ps: Seq<ExtractedView>) -> Seq<ExtractedView>
    decreases ps.len(),
{
    if ps.len() == 0 {
        pages
    } else {
        upsert(upsert_all(pages, ps.drop_last()), ps.last())
    }
}

/// No two pages share a URL.
pub open spec fn unique_urls(pages: Seq<ExtractedView>) -> bool {
    forall|i: int, j: int| 0 <= i < j < pages.len() ==> pages[i].url != pages[j].url
}

/// The section a sub-query adds to a research report.
pub open spec fn sub_query_section(sub: Seq<char>, outcome: Result<Seq<ExtractedView>, crate::error::ErrorView>) -> Seq<char> {
    "## Sub-Query: `"@ + sub + "`\n"@ + match outcome {
        Ok(ps) => if ps.len() == 0 {
            "   *No new pages crawled successfully.*\n\n"@
        } else {
            "   *Successfully retrieved "@ + decimal(ps.len()) + " pages.*\n\n"@
        },
        Err(e) => "   *Failed to search/crawl: "@ + crate::error::error_message_of(e) + "*\n\n"@,
    }
}

/// A research report being compiled.
pub struct DeepReport {
    pub output: String,
    /// The pages retrieved, one per URL.
    pub pages: Vec<ExtractedContent>,
    /// Sub-queries that retrieved pages.
    pub executed: usize,
}

/// The views of a list of pages.
pub open spec fn pages_of(v: Seq<ExtractedContent>) -> Seq<ExtractedView> {
    v.map_values(|p: ExtractedContent| p@)
}

/// The documents part of a finished report.
pub open spec fn documents_text(ps: Seq<ExtractedView>) -> Seq<char>
    decreases ps.len(),
{
    if ps.len() == 0 {
        Seq::empty()
    } else {
        documents_text(ps.drop_last()) + "### "@ + ps.last().title + "\n- **Source URL:** "@ + ps.last().url
            + "\n\n"@ + ps.last().content_markdown + "\n\n"@
    }
}

impl DeepReport {
    /// A report on `query`, opened with its title and the expansion used.
    pub fn new(query: &str, breadth: usize, max_pages: usize) -> (r: Self)
        ensures
            r.output@ == "# Deep Research Dossier: "@ + query@ + "\n\n"@
                + "*Executed query expansion with breadth "@ + decimal(breadth as nat)
                + ", crawling up to "@ + decimal(max_pages as nat) + " top pages per query.*\n\n"@,
            r.pages@.len() == 0,
            r.executed == 0,
    {
        let mut o: Vec<char> = Vec::new();
        push_str(&mut o, "# Deep Research Dossier: ");
        push_str(&mut o, query);
        push_str(&mut o, "\n\n");
        push_str(&mut o, "*Executed query expansion with breadth ");
        push_decimal(&mut o, breadth as u64);
        push_str(&mut o, ", crawling up to ");
        push_decimal(&mut o, max_pages as u64);
        push_str(&mut o, " top pages per query.*\n\n");
        DeepReport { output: string_from_chars(o.as_slice()), pages: Vec::new(), executed: 0 }
    }

    fn upsert_page(&mut self, p: ExtractedContent)
        requires
            unique_urls(pages_of(old(self).pages@)),
        ensures
            unique_urls(pages_of(final(self).pages@)),
            pages_of(final(self).pages@) == upsert(pages_of(old(self).pages@), p@),
            final(self).output == old(self).output,
            final(self).executed == old(self).executed,
    {
        let ghost pv = pages_of(self.pages@);
        let u = chars_of(p.url.as_str());
        let mut k: usize = 0;
        while k < self.pages.len()
            invariant
                k <= self.pages.len(),
                pv == pages_of(self.pages@),
                self.pages == old(self).pages,
                unique_urls(pv),
                u@ == p.url@,
                self.output == old(self).output,
                self.executed == old(self).executed,
                forall|j: int| 0 <= j < k ==> pv[j].url != p.url@,
            decreases self.pages.len() - k,
        {
            let c = chars_of(self.pages[k].url.as_str());
            if crate::text::chars_eq(&c, &u) {
                assert(pv[k as int].url == p.url@);
                let ghost found = k as int;
                proof {
                    let ch = choose|j: int| 0 <= j < pv.len() && pv[j].url == p@.url;
                    assert(ch == found) by {
                        if ch < found {
                        } else if ch > found {
                            assert(pv[found].url == pv[ch].url);
                        }
                    }
                }
                let ghost pview = p@;
                self.pages.set(k, p);
                assert(pages_of(self.pages@)[found] == pview);
                assert(upsert(pv, pview) == pv.update(found, pview));
                assert(pages_of(self.pages@) =~= pv.update(found, pview));
                return;
            }
            k = k + 1;
        }
        self.pages.push(p);
        assert(pages_of(self.pages@) =~= pv.push(pages_of(self.pages@).last()));
    }

    /// Adds the outcome of sub-query `sub`: its section, and its pages
    /// (a later page of the same URL replaces the earlier one).
    pub fn record(&mut self, sub: &str, outcome: Result<Vec<ExtractedContent>, crate::error::SearchXyzError>)
        requires
            unique_urls(pages_of(old(self).pages@)),
            old(self).executed < usize::MAX,
        ensures
            unique_urls(pages_of(final(self).pages@)),
            final(self).output@ == old(self).output@ + sub_query_section(
                sub@,
                match outcome {
                    Ok(v) => Ok(pages_of(v@)),
                    Err(e) => Err(e@),
                },
            ),
            pages_of(final(self).pages@) == (match outcome {
                Ok(v) => upsert_all(pages_of(old(self).pages@), pages_of(v@)),
                Err(_) => pages_of(old(self).pages@),
            }),
            final(self).executed == old(self).executed + (if outcome matches Ok(v) && v@.len() > 0 {
                1int
            } else {
                0
            }),
    {
        let mut o: Vec<char> = chars_of(self.output.as_str());
        push_str(&mut o, "## Sub-Query: `");
        push_str(&mut o, sub);
        push_str(&mut o, "`\n");
        match outcome {
            Ok(v) => {
                if v.len() == 0 {
                    push_str(&mut o, "   *No new pages crawled successfully.*\n\n");
                    self.output = string_from_chars(o.as_slice());
                    assert(pages_of(v@).len() == 0);
                    assert(upsert_all(pages_of(self.pages@), pages_of(v@)) == pages_of(self.pages@));
                    return;
                }
                push_str(&mut o, "   *Successfully retrieved ");
                push_decimal(&mut o, v.len() as u64);
                push_str(&mut o, " pages.*\n\n");
                self.output = string_from_chars(o.as_slice());
                let ghost start = pages_of(self.pages@);
                let ghost vv = pages_of(v@);
                let mut v = v;
                let mut taken: usize = 0;
                while v.len() > 0
                    invariant
                        taken <= vv.len(),
                        vv.len() <= usize::MAX,
                        pages_of(v@) == vv.subrange(taken as int, vv.len() as int),
                        pages_of(self.pages@) == upsert_all(start, vv.take(taken as int)),
                        unique_urls(pages_of(self.pages@)),
                        self.output@ == o@,
                        self.executed == old(self).executed,
                    decreases v.len(),
                {
                    let ghost before = v@;
                    assert(pages_of(before) == vv.subrange(taken as int, vv.len() as int));
                    let p = v.remove(0);
                    assert(v@ =~= before.subrange(1, before.len() as int));
                    assert(p == before[0]);
                    assert(p@ == vv[taken as int]) by {
                        assert(pages_of(before)[0] == before[0]@);
                        assert(vv.subrange(taken as int, vv.len() as int)[0] == vv[taken as int]);
                    }
                    assert(pages_of(v@) =~= vv.subrange(taken + 1, vv.len() as int)) by {
                        assert forall|j: int| 0 <= j < v@.len() implies pages_of(v@)[j] == vv[taken + 1 + j] by {
                            assert(v@[j] == before[j + 1]);
                            assert(pages_of(before)[j + 1] == before[j + 1]@);
                            assert(vv.subrange(taken as int, vv.len() as int)[j + 1] == vv[taken + 1 + j]);
                        }
                    }
                    self.upsert_page(p);
                    assert(vv.take(taken + 1).drop_last() =~= vv.take(taken as int));
                    taken = taken + 1;
                }
                assert(vv.take(taken as int) =~= vv);
                self.executed = self.executed + 1;
            },
            Err(e) => {
                let m = e.message();
                push_str(&mut o, "   *Failed to search/crawl: ");
                push_str(&mut o, m.as_str());
                push_str(&mut o, "*\n\n");
                self.output = string_from_chars(o.as_slice());
            },
        }
    }

    /// The finished report: a note when no sub-query retrieved a page;
    /// else the sections, a summary, and every page retrieved.
    pub fn finish(&self, query: &str) -> (s: String)
        ensures
            s@ == (if self.pages@.len() == 0 {
                "Deep Research failed to retrieve any results for the topic `"@ + query@ + "`."@
            } else {
                self.output@ + "*Summary: Executed "@ + decimal(self.executed as nat)
                    + " sub-queries successfully, retrieving a total of "@ + decimal(self.pages@.len())
                    + " unique pages.*\n\n"@ + "---\n## Compiled Research Documents\n\n"@
                    + documents_text(pages_of(self.pages@))
            }),
    {
        let mut o: Vec<char> = Vec::new();
        if self.pages.len() == 0 {
            push_str(&mut o, "Deep Research failed to retrieve any results for the topic `");
            push_str(&mut o, query);
            push_str(&mut o, "`.");
            return string_from_chars(o.as_slice());
        }
        push_str(&mut o, self.output.as_str());
        push_str(&mut o, "*Summary: Executed ");
        push_decimal(&mut o, self.executed as u64);
        push_str(&mut o, " sub-queries successfully, retrieving a total of ");
        push_decimal(&mut o, self.pages.len() as u64);
        push_str(&mut o, " unique pages.*\n\n");
        push_str(&mut o, "---\n## Compiled Research Documents\n\n");
        let ghost head = o@;
        let ghost pv = pages_of(self.pages@);
        let mut i: usize = 0;
        while i < self.pages.len()
            invariant
                i <= self.pages.len(),
                pv == pages_of(self.pages@),
                o@ == head + documents_text(pv.take(i as int)),
            decreases self.pages.len() - i,
        {
            let p = &self.pages[i];
            assert(pv.take(i + 1).drop_last() =~= pv.take(i as int));
            assert(pv.take(i + 1).last() == p@);
            push_str(&mut o, "### ");
            push_str(&mut o, p.title.as_str());
            push_str(&mut o, "\n- **Source URL:** ");
            push_str(&mut o, p.url.as_str());
            push_str(&mut o, "\n\n");
            push_str(&mut o, p.content_markdown.as_str());
            push_str(&mut o, "\n\n");
            i = i + 1;
        }
        assert(pv.take(self.pages.len() as int) =~= pv);
        string_from_chars(o.as_slice())
    }
}

/// Code-point (and so UTF-8 byte) lexicographic order: how strings sort.
pub open spec fn lex_lt(a: Seq<char>, b: Seq<char>) -> bool
    decreases a.len(),
{
    if a.len() == 0 {
        b.len() > 0
    } else if b.len() == 0 {
        false
    } else if a[0] != b[0] {
        a[0] < b[0]
    } else {
        lex_lt(a.drop_first(), b.drop_first())
    }
}

/// Two different strings are ordered one way or the other, never both.
pub proof fn lemma_lex_total(a: Seq<char>, b: Seq<char>)
    ensures
        a == b || lex_lt(a, b) || lex_lt(b, a),
        !(lex_lt(a, b) && lex_lt(b, a)),
        !lex_lt(a, a),
    decreases a.len(),
{
    if a.len() == 0 && b.len() == 0 {
        assert(a =~= b);
    }
    if a.len() > 0 && b.len() > 0 && a[0] == b[0] {
        lemma_lex_total(a.drop_first(), b.drop_first());
        if a.drop_first() == b.drop_first() {
            assert(a =~= seq![a[0]] + a.drop_first());
            assert(b =~= seq![b[0]] + b.drop_first());
        }
    }
    if a.len() > 0 {
        lemma_lex_total(a.drop_first(), a.drop_first());
    }
}

/// The order is transitive.
pub proof fn lemma_lex_trans(a: Seq<char>, b: Seq<char>, c: Seq<char>)
    requires
        lex_lt(a, b),
        lex_lt(b, c),
    ensures
        lex_lt(a, c),
    decreases a.len(),
{
    if a.len() > 0 && b.len() > 0 && c.len() > 0 && a[0] == b[0] && b[0] == c[0] {
        lemma_lex_trans(a.drop_first(), b.drop_first(), c.drop_first());
    }
}

/// Strictly increasing: sorted, each item once.
pub open spec fn strictly_sorted(s: Seq<Seq<char>>) -> bool {
    forall|i: int, j: int| 0 <= i < j < s.len() ==> lex_lt(s[i], s[j])
}

fn lex_lt_exec(a: &Vec<char>, b: &Vec<char>) -> (r: bool)
    ensures
        r == lex_lt(a@, b@),
{
    let mut i: usize = 0;
    assert(a@.subrange(0, a@.len() as int) =~= a@);
    assert(b@.subrange(0, b@.len() as int) =~= b@);
    while i < a.len() && i < b.len() && a[i] == b[i]
        invariant
            i <= a.len(),
            i <= b.len(),
            lex_lt(a@, b@) == lex_lt(a@.subrange(i as int, a@.len() as int), b@.subrange(i as int, b@.len() as int)),
        decreases a.len() - i,
    {
        assert(a@.subrange(i as int, a@.len() as int).drop_first() =~= a@.subrange(i + 1, a@.len() as int));
        assert(b@.subrange(i as int, b@.len() as int).drop_first() =~= b@.subrange(i + 1, b@.len() as int));
        i = i + 1;
    }
    if i == a.len() {
        i < b.len()
    } else if i == b.len() {
        false
    } else {
        a[i] < b[i]
    }
}

/// The pages a site map has found so far, kept sorted and without repeats.
pub struct SiteMapRun {
    pub found: Vec<String>,
}

impl SiteMapRun {
    /// A site map with nothing found yet.
    pub fn new() -> (r: Self)
        ensures
            r.found@.len() == 0,
    {
        SiteMapRun { found: Vec::new() }
    }

    /// Adds one page.
    pub fn add(&mut self, url: &str)
        requires
            strictly_sorted(str_views(old(self).found@)),
        ensures
            strictly_sorted(str_views(final(self).found@)),
            str_views(final(self).found@).to_set() == str_views(old(self).found@).to_set().insert(url@),
    {
        let ghost fv = str_views(self.found@);
        let u = chars_of(url);
        let mut p: usize = 0;
        while p < self.found.len() && lex_lt_exec(&chars_of(self.found[p].as_str()), &u)
            invariant
                p <= self.found.len(),
                fv == str_views(self.found@),
                self.found == old(self).found,
                u@ == url@,
                forall|k: int| 0 <= k < p ==> lex_lt(#[trigger] fv[k], url@),
            decreases self.found.len() - p,
        {
            p = p + 1;
        }
        if p < self.found.len() && crate::text::chars_eq(&chars_of(self.found[p].as_str()), &u) {
            assert(fv[p as int] == url@);
            assert(fv.to_set().insert(url@) =~= fv.to_set());
            return;
        }
        proof {
            if p < fv.len() {
                lemma_lex_total(fv[p as int], url@);
            }
        }
        self.found.insert(p, owned(url));
        let ghost nv = str_views(self.found@);
        assert(nv =~= fv.insert(p as int, url@));
        proof {
            assert forall|i: int, j: int| 0 <= i < j < nv.len() implies lex_lt(nv[i], nv[j]) by {
                if j < p {
                } else if j == p {
                    assert(nv[i] == fv[i]);
                } else if i < p {
                    assert(nv[j] == fv[j - 1]);
                    if j - 1 > p {
                        assert(lex_lt(fv[p as int], fv[j - 1]));
                        lemma_lex_trans(fv[i], url@, fv[p as int]);
                        lemma_lex_trans(fv[i], fv[p as int], fv[j - 1]);
                    } else {
                        lemma_lex_trans(fv[i], url@, fv[p as int]);
                    }
                } else if i == p {
                    assert(nv[j] == fv[j - 1]);
                    if j - 1 > p {
                        lemma_lex_trans(url@, fv[p as int], fv[j - 1]);
                    }
                } else {
                    assert(nv[i] == fv[i - 1] && nv[j] == fv[j - 1]);
                }
            }
            assert(nv.to_set() =~= fv.to_set().insert(url@)) by {
                assert forall|x: Seq<char>| nv.to_set().contains(x) <==> fv.to_set().insert(url@).contains(x) by {
                    if nv.contains(x) {
                        let k = choose|k: int| 0 <= k < nv.len() && nv[k] == x;
                        if k < p {
                            assert(fv[k] == x);
                        } else if k > p {
                            assert(fv[k - 1] == x);
                        }
                    }
                    if fv.contains(x) {
                        let k = choose|k: int| 0 <= k < fv.len() && fv[k] == x;
                        if k < p {
                            assert(nv[k] == x);
                        } else {
                            assert(nv[k + 1] == x);
                        }
                    }
                    if x == url@ {
                        assert(nv[p as int] == x);
                    }
                }
            }
        }
    }

    /// The answer: a note when nothing was found, else the pages in order.
    pub fn report(&self, url: &str) -> (s: String)
        ensures
            s@ == (if self.found@.len() == 0 {
                "No pages could be discovered for URL: "@ + url@
            } else {
                "### Site Map for "@ + url@ + "\n\n"@ + "Found "@ + decimal(self.found@.len()) + " pages:\n"@
                    + list_text(str_views(self.found@))
            }),
    {
        let mut o: Vec<char> = Vec::new();
        if self.found.len() == 0 {
            push_str(&mut o, "No pages could be discovered for URL: ");
            push_str(&mut o, url);
            return string_from_chars(o.as_slice());
        }
        push_str(&mut o, "### Site Map for ");
        push_str(&mut o, url);
        push_str(&mut o, "\n\n");
        push_str(&mut o, "Found ");
        push_decimal(&mut o, self.found.len() as u64);
        push_str(&mut o, " pages:\n");
        let ghost head = o@;
        let ghost fv = str_views(self.found@);
        let mut i: usize = 0;
        while i < self.found.len()
            invariant
                i <= self.found.len(),
                fv == str_views(self.found@),
                o@ == head + list_text(fv.take(i as int)),
            decreases self.found.len() - i,
        {
            assert(fv.take(i + 1).drop_last() =~= fv.take(i as int));
            assert(fv.take(i + 1).last() == self.found@[i as int]@);
            push_str(&mut o, "- ");
            push_str(&mut o, self.found[i].as_str());
            push_str(&mut o, "\n");
            i = i + 1;
        }
        assert(fv.take(self.found.len() as int) =~= fv);
        string_from_chars(o.as_slice())
    }
}

/// A markdown bullet list.
pub open spec fn list_text(items: Seq<Seq<char>>) -> Seq<char>
    decreases items.len(),
{
    if items.len() == 0 {
        Seq::empty()
    } else {
        list_text(items.drop_last()) + "- "@ + items.last() + "\n"@
    }
}

/// Whether the link spider should run: it is enabled and fewer than the
/// maximum pages are known.
pub fn should_crawl_links(crawl_links: bool, found: usize, max_links: usize) -> (b: bool)
    ensures
        b == (crawl_links && (found == 0 || found < max_links)),
{
    crawl_links && (found == 0 || found < max_links)
}

/// A defaulted, capped parameter never exceeds its cap.
pub proof fn lemma_capped_within(o: Option<usize>, d: usize, cap: usize)
    ensures
        capped(o, d, cap) <= cap,
{
}

/// A topic expands to as many sub-queries as asked, five at most, the first
/// being the query itself.
pub proof fn lemma_expansion(query: Seq<char>, breadth: usize)
    ensures
        expanded(query, breadth).len() == (if breadth < 5 { breadth as nat } else { 5 }),
        expanded(query, breadth).len() <= 5,
        breadth > 0 ==> expanded(query, breadth)[0] == query,
{
}

/// A site map lists each page once.
pub proof fn lemma_site_map_distinct(s: Seq<Seq<char>>, i: int, j: int)
    requires
        strictly_sorted(s),
        0 <= i < j < s.len(),
    ensures
        s[i] != s[j],
{
    lemma_lex_total(s[i], s[i]);
}

/// Where a read URL leads: a video's transcript, a repository's ingestion,
/// or the page itself.
#[derive(Debug, Clone, Copy, PartialEq, Eq)]
pub enum ReadTarget {
    YouTube,
    GitHub,
    Page,
}

/// The target of a URL handed to `read_url`: YouTube links go to their
/// captions, GitHub repository links to ingestion, the rest are pages.
pub open spec fn read_target_of(url: Seq<char>) -> ReadTarget {
    if crate::crawler::youtube::video_id_of(url) is Some {
        ReadTarget::YouTube
    } else if crate::crawler::github::github_parts(url) is Some {
        ReadTarget::GitHub
    } else {
        ReadTarget::Page
    }
}

/// Where `read_url` sends `url`.
pub fn read_target(url: &str) -> (t: ReadTarget)
    ensures
        t == read_target_of(url@),
{
    if crate::crawler::youtube::extract_video_id(url).is_some() {
        ReadTarget::YouTube
    } else if crate::crawler::github::parse_github_url(url).is_some() {
        ReadTarget::GitHub
    } else {
        ReadTarget::Page
    }
}

} // verus!
