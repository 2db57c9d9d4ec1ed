# searchxyz

An MCP server for AI agents that searches the web, crawls and extracts pages
into Markdown, keeps a local full-text recall index and a small knowledge
graph. Its decision logic is a library verified with Verus; the network,
file system, index storage and server plumbing sit in a thin program around
it.

## Layout

- `src/` — the verified library:
  - `text.rs`, `seqs.rs` — character-sequence routines and their specs.
  - `error.rs` — the error type, its view and its messages.
  - `config.rs` — defaults, environment overrides, validation.
  - `cache.rs` — the LRU page cache with per-entry TTL.
  - `urls.rs`, `html.rs` — URL parsing and HTML selection, through `url`
    and `scraper`.
  - `crawler/` — fetch decisions (retries with exponential backoff, content
    types, body limits), link discovery and scope, sitemaps, GitHub
    ingestion plans, YouTube transcripts, request fingerprints.
  - `search/` — result-page scraping and the Google, Bing, DuckDuckGo,
    Brave and SearXNG backends' request and response logic; backend
    fallback.
  - `extractor.rs` — noise stripping, main-content selection, Markdown.
  - `pipeline.rs` — the search-then-read plan and its outcome.
  - `index.rs` — what goes into the index, and the newest-first listing.
  - `tools.rs` — the MCP tools' parameters, formatting and reports.
  - `graph.rs` — the knowledge graph and its neighbourhood query.
- `app/` — the program: command line, HTTP and stdio transports, the HTTP
  clients and rate limiter, PDF text extraction, the Tantivy index, git and
  the file system. It performs what the library decides.
- `tests/` — tests of the library's public functions.

Contracts state results over spec functions and views; the laws the library
keeps (bounded retries, no page fetched twice, results never exceeding what
was asked, graph well-formedness, newest-first order, and others) are public
proof functions next to the code they are about.
