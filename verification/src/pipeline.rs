//! The search → crawl → extract step that reads the top results of a query;
//! the fetching runs elsewhere, page by page, and reports back here.
use vstd::prelude::*;
use crate::error::{ErrorView, SearchXyzError, error_message_of};
use crate::extractor::{ExtractedContent, ExtractedView};
use crate::search::{SearchQuery, SearchResult, SearchResultView, result_views};
use crate::seqs::take_at_most;
use crate::text::{join, owned, push_str, str_views, string_from_chars};

verus! {

/// The search a read of `max_pages` pages runs: twice as many results, in
/// case some pages fail.
pub fn read_query(query: &str, max_pages: usize) -> (q: SearchQuery)
    requires
        max_pages <= usize::MAX / 2,
    ensures
        q.query@ == query@,
        q.max_results == 2 * max_pages,
{
    SearchQuery { query: owned(query), max_results: max_pages * 2 }
}

/// The pages to read: the URLs of the first `max_pages` results; a search
/// that found nothing is an error.
pub fn pages_to_read(query: &str, results: &Vec<SearchResult>, max_pages: usize) -> (r: Result<Vec<String>, SearchXyzError>)
    ensures
        match r {
            Ok(urls) => results@.len() > 0 && str_views(urls@) == take_at_most(
                result_views(results@).map_values(|x: SearchResultView| x.url),
                max_pages as nat,
            ) && urls@.len() <= max_pages,
            Err(e) => results@.len() == 0 && e@ == (ErrorView::SearchFailed {
                query: query@,
                reason: "No search results found"@,
            }),
        },
{
    if results.len() == 0 {
        return Err(SearchXyzError::SearchFailed { query: owned(query), reason: owned("No search results found") });
    }
    let ghost all = result_views(results@).map_values(|x: SearchResultView| x.url);
    let mut urls: Vec<String> = Vec::new();
    let mut i: usize = 0;
    while i < results.len() && i < max_pages
        invariant
            i <= results.len(),
            i <= max_pages,
            all == result_views(results@).map_values(|x: SearchResultView| x.url),
            str_views(urls@) == all.take(i as int),
        decreases results.len() - i,
    {
        let ghost before = str_views(urls@);
        urls.push(results[i].url.clone());
        assert(str_views(urls@) =~= before.push(all[i as int]));
        assert(all.take(i + 1) =~= all.take(i as int).push(all[i as int]));
        i = i + 1;
    }
    if i == results.len() {
        assert(all.take(i as int) =~= all);
    }
    assert(str_views(urls@).len() == urls@.len());
    proof {
        crate::seqs::lemma_take_at_most_len(all, max_pages as nat);
    }
    Ok(urls)
}

/// A read of planned pages: the pages read so far and what went wrong with
/// the others. Outcomes beyond the planned number of pages are refused.
pub struct ReadRun {
    extracted: Vec<ExtractedContent>,
    errors: Vec<String>,
    planned: usize,
}

/// The views of a list of extracted pages.
pub open spec fn page_views(v: Seq<ExtractedContent>) -> Seq<ExtractedView> {
    v.map_values(|c: ExtractedContent| c@)
}

impl ReadRun {
    /// The pages read so far.
    pub closed spec fn pages(&self) -> Seq<ExtractedView> {
        page_views(self.extracted@)
    }

    /// The messages of the pages that failed so far.
    pub closed spec fn error_messages(&self) -> Seq<Seq<char>> {
        str_views(self.errors@)
    }

    /// How many pages the read was planned for.
    pub closed spec fn planned(&self) -> nat {
        self.planned as nat
    }

    /// No more outcomes than planned pages.
    pub closed spec fn wf(&self) -> bool {
        self.extracted@.len() + self.errors@.len() <= self.planned
    }

    /// A read of the pages at `urls`, none in yet.
    pub fn new(urls: &Vec<String>) -> (r: Self)
        ensures
            r.wf(),
            r.pages().len() == 0,
            r.error_messages().len() == 0,
            r.planned() == urls@.len(),
    {
        let r = ReadRun { extracted: Vec::new(), errors: Vec::new(), planned: urls.len() };
        assert(r.pages() =~= Seq::<ExtractedView>::empty());
        r
    }

    /// Takes in one page's outcome: its content is kept, its error's
    /// message noted; once every planned page has reported, further
    /// outcomes are refused.
    pub fn record(&mut self, outcome: Result<ExtractedContent, SearchXyzError>)
        requires
            old(self).wf(),
        ensures
            final(self).wf(),
            final(self).planned() == old(self).planned(),
            old(self).pages().len() + old(self).error_messages().len() < old(self).planned() ==> match outcome {
                Ok(c) => final(self).pages() == old(self).pages().push(c@)
                    && final(self).error_messages() == old(self).error_messages(),
                Err(e) => final(self).error_messages() == old(self).error_messages().push(
                    error_message_of(e@),
                ) && final(self).pages() == old(self).pages(),
            },
            old(self).pages().len() + old(self).error_messages().len() >= old(self).planned() ==> (
                final(self).pages() == old(self).pages() && final(self).error_messages()
                    == old(self).error_messages()),
    {
        if self.extracted.len() + self.errors.len() >= self.planned {
            return;
        }
        match outcome {
            Ok(c) => {
                let ghost before = page_views(self.extracted@);
                self.extracted.push(c);
                assert(page_views(self.extracted@) =~= before.push(self.extracted@.last()@));
            },
            Err(e) => {
                let ghost before = str_views(self.errors@);
                let m = e.message();
                self.errors.push(m);
                assert(str_views(self.errors@) =~= before.push(error_message_of(e@)));
            },
        }
    }

    /// Notes a page whose task died before reporting; refused once every
    /// planned page has reported.
    pub fn record_panic(&mut self, detail: &str)
        requires
            old(self).wf(),
        ensures
            final(self).wf(),
            final(self).planned() == old(self).planned(),
            final(self).pages() == old(self).pages(),
            old(self).pages().len() + old(self).error_messages().len() < old(self).planned() ==> final(self).error_messages()
                == old(self).error_messages().push("Task panicked: "@ + detail@),
            old(self).pages().len() + old(self).error_messages().len() >= old(self).planned() ==> final(self).error_messages()
                == old(self).error_messages(),
    {
        if self.extracted.len() + self.errors.len() >= self.planned {
            return;
        }
        let mut o: Vec<char> = Vec::new();
        push_str(&mut o, "Task panicked: ");
        push_str(&mut o, detail);
        let ghost before = str_views(self.errors@);
        self.errors.push(string_from_chars(o.as_slice()));
        assert(str_views(self.errors@) =~= before.push("Task panicked: "@ + detail@));
    }

    /// The pages read so far.
    pub fn pages_read(&self) -> (v: &Vec<ExtractedContent>)
        ensures
            page_views(v@) == self.pages(),
    {
        &self.extracted
    }

    /// The read's outcome: the pages read, at least one and no more than
    /// planned, or, when none could be, a search failure listing every error
    /// on its own line.
    pub fn finish(self, query: &str) -> (r: Result<Vec<ExtractedContent>, SearchXyzError>)
        requires
            self.wf(),
        ensures
            match r {
                Ok(v) => 1 <= v@.len() <= self.planned() && page_views(v@) == self.pages(),
                Err(e) => self.pages().len() == 0 && e@ == (ErrorView::SearchFailed {
                    query: query@,
                    reason: "All pages failed to load or extract. Errors:\n"@ + join(
                        self.error_messages(),
                        "\n"@,
                    ),
                }),
            },
    {
        if self.extracted.len() == 0 {
            let parts = crate::text::chars_of_all(&self.errors);
            let sep = crate::text::chars_of("\n");
            let j = crate::text::join_chars(&parts, sep.as_slice());
            let mut o: Vec<char> = Vec::new();
            push_str(&mut o, "All pages failed to load or extract. Errors:\n");
            crate::text::push_all(&mut o, j.as_slice());
            Err(SearchXyzError::SearchFailed { query: owned(query), reason: string_from_chars(o.as_slice()) })
        } else {
            Ok(self.extracted)
        }
    }
}

} // verus!
