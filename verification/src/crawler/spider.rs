//! Recursive crawling: a breadth-first walk over a site, depth by depth,
//! that keeps the extracted pages and follows links on the start host.
use vstd::prelude::*;
use crate::crawler::frontier::{distinct, fresh, fresh_of, lemma_fresh, scope_filter, scoped_links};
use crate::error::{ErrorView, SearchXyzError};
use crate::extractor::{ExtractedContent, ExtractedView};
use crate::seqs::filter_map;
use crate::text::{opt_view, owned, str_views};
use crate::urls::{host_of, url_host};

verus! {

/// The state of one recursive crawl.
pub struct SpiderRun {
    /// The start page's host; links elsewhere are not followed.
    pub allowed_host: Option<String>,
    pub max_depth: usize,
    /// Pages already handed out to be fetched.
    pub visited: Vec<String>,
    /// Pages to fetch at the current depth.
    pub queue: Vec<String>,
    /// Links found at the current depth, for the next one.
    pub next: Vec<String>,
    /// Every page extracted so far.
    pub results: Vec<ExtractedContent>,
}

/// The views of a list of extracted pages.
pub open spec fn content_views(v: Seq<ExtractedContent>) -> Seq<ExtractedView> {
    v.map_values(|c: ExtractedContent| c@)
}

impl SpiderRun {
    /// A crawl of `start_url`, `max_depth` levels deep.
    pub fn new(start_url: &str, max_depth: usize) -> (s: Self)
        ensures
            opt_view(s.allowed_host) == host_of(start_url@),
            s.max_depth == max_depth,
            str_views(s.queue@) == seq![start_url@],
            s.visited@.len() == 0,
            s.next@.len() == 0,
            s.results@.len() == 0,
    {
        let mut queue: Vec<String> = Vec::new();
        queue.push(owned(start_url));
        assert(str_views(queue@) =~= seq![start_url@]);
        SpiderRun {
            allowed_host: url_host(start_url),
            max_depth,
            visited: Vec::new(),
            queue,
            next: Vec::new(),
            results: Vec::new(),
        }
    }

    /// Starts a depth: the queued pages not yet visited, each once; they
    /// count as visited from now on.
    pub fn take_batch(&mut self) -> (batch: Vec<String>)
        ensures
            str_views(batch@) == fresh(str_views(old(self).queue@), str_views(old(self).visited@)),
            str_views(final(self).visited@) == str_views(old(self).visited@) + str_views(batch@),
            distinct(str_views(old(self).visited@)) ==> distinct(str_views(final(self).visited@)),
            final(self).queue@.len() == 0,
            final(self).next == old(self).next,
            final(self).results == old(self).results,
            final(self).allowed_host == old(self).allowed_host,
            final(self).max_depth == old(self).max_depth,
    {
        let batch = fresh_of(&self.queue, &self.visited);
        let ghost old_v = str_views(self.visited@);
        let mut i: usize = 0;
        while i < batch.len()
            invariant
                i <= batch.len(),
                str_views(self.visited@) == old_v + str_views(batch@).take(i as int),
                self.next == old(self).next,
                self.results == old(self).results,
                self.allowed_host == old(self).allowed_host,
                self.max_depth == old(self).max_depth,
            decreases batch.len() - i,
        {
            let ghost before = str_views(self.visited@);
            self.visited.push(batch[i].clone());
            assert(str_views(self.visited@) =~= before.push(batch@[i as int]@));
            assert(str_views(batch@).take(i + 1) =~= str_views(batch@).take(i as int).push(batch@[i as int]@));
            i = i + 1;
        }
        assert(str_views(batch@).take(batch.len() as int) =~= str_views(batch@));
        proof {
            lemma_fresh(str_views(old(self).queue@), old_v);
        }
        self.queue = Vec::new();
        batch
    }

    /// Takes in a page extracted at `depth`: it is kept; below the last
    /// depth, its links on the allowed host join the next depth's pages
    /// (each once).
    pub fn add_page(&mut self, depth: usize, content: ExtractedContent)
        ensures
            content_views(final(self).results@) == content_views(old(self).results@).push(content@),
            str_views(final(self).next@) == (if depth + 1 < old(self).max_depth {
                str_views(old(self).next@) + fresh(
                    filter_map(str_views(content.links@), scope_filter(opt_view(old(self).allowed_host))),
                    str_views(old(self).next@),
                )
            } else {
                str_views(old(self).next@)
            }),
            final(self).visited == old(self).visited,
            final(self).queue == old(self).queue,
            final(self).allowed_host == old(self).allowed_host,
            final(self).max_depth == old(self).max_depth,
    {
        if depth < usize::MAX && depth + 1 < self.max_depth {
            let scoped = scoped_links(&self.allowed_host, &content.links);
            let new = fresh_of(&scoped, &self.next);
            let ghost n0 = str_views(self.next@);
            let mut i: usize = 0;
            while i < new.len()
                invariant
                    i <= new.len(),
                    str_views(self.next@) == n0 + str_views(new@).take(i as int),
                    self.visited == old(self).visited,
                    self.queue == old(self).queue,
                    self.results == old(self).results,
                    self.allowed_host == old(self).allowed_host,
                    self.max_depth == old(self).max_depth,
                decreases new.len() - i,
            {
                let ghost bn = str_views(self.next@);
                self.next.push(new[i].clone());
                assert(str_views(self.next@) =~= bn.push(new@[i as int]@));
                assert(str_views(new@).take(i + 1) =~= str_views(new@).take(i as int).push(new@[i as int]@));
                i = i + 1;
            }
            assert(str_views(new@).take(new.len() as int) =~= str_views(new@));
        }
        let ghost r0 = content_views(self.results@);
        self.results.push(content);
        assert(content_views(self.results@) =~= r0.push(self.results@.last()@));
    }

    /// Ends a depth: the links found in it are queued for the next.
    pub fn end_batch(&mut self)
        ensures
            final(self).queue == old(self).next,
            final(self).next@.len() == 0,
            final(self).visited == old(self).visited,
            final(self).results == old(self).results,
            final(self).allowed_host == old(self).allowed_host,
            final(self).max_depth == old(self).max_depth,
    {
        let mut q: Vec<String> = Vec::new();
        std::mem::swap(&mut q, &mut self.next);
        self.queue = q;
    }

    /// The crawl's outcome: the extracted pages, or a crawl failure of the
    /// start URL when none could be extracted.
    pub fn finish(self, start_url: &str) -> (r: Result<Vec<ExtractedContent>, SearchXyzError>)
        ensures
            match r {
                Ok(v) => self.results@.len() > 0 && v == self.results,
                Err(e) => self.results@.len() == 0 && e@ == (ErrorView::CrawlFailed {
                    url: start_url@,
                    reason: "Failed to crawl any pages within scope"@,
                }),
            },
    {
        if self.results.len() == 0 {
            Err(
                SearchXyzError::CrawlFailed {
                    url: owned(start_url),
                    reason: owned("Failed to crawl any pages within scope"),
                },
            )
        } else {
            Ok(self.results)
        }
    }
}

} // verus!
