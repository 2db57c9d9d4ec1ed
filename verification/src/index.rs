//! The local index's own rules, apart from the search engine behind it: the
//! text a document is embedded from, the snippet shown for a hit, and the
//! newest-first paging of the indexed sources.
use vstd::prelude::*;
use crate::text::{chars_of, opt_view, owned, push_str, replace_all, replace_all_exec, str_views, string_from_chars};
use crate::seqs::take_at_most;

verus! {

/// Characters of a document an embedding is made from.
pub const EMBED_CHARS: usize = 4000;

/// The text a document's embedding is made from: `passage: `, its title, a
/// blank line and its content, cut to the first 4000 characters.
pub open spec fn embedding_text_of(title: Seq<char>, content: Seq<char>) -> Seq<char> {
    take_at_most("passage: "@ + title + "\n\n"@ + content, EMBED_CHARS as nat)
}

/// The text a document is embedded from.
pub fn embedding_text(title: &str, content: &str) -> (t: String)
    ensures
        t@ == embedding_text_of(title@, content@),
{
    let mut o: Vec<char> = Vec::new();
    push_str(&mut o, "passage: ");
    push_str(&mut o, title);
    push_str(&mut o, "\n\n");
    push_str(&mut o, content);
    if o.len() > EMBED_CHARS {
        o.truncate(EMBED_CHARS);
    }
    string_from_chars(o.as_slice())
}

/// The snippet shown for a hit: the first 250 characters of its content,
/// line breaks turned into spaces, then each double space made single.
pub open spec fn snippet_of(content: Seq<char>) -> Seq<char> {
    replace_all(replace_all(take_at_most(content, 250), "\n"@, " "@), "  "@, " "@)
}

/// The snippet of a hit's content.
pub fn index_snippet(content: &str) -> (s: String)
    ensures
        s@ == snippet_of(content@),
{
    let mut c = chars_of(content);
    if c.len() > 250 {
        c.truncate(250);
    }
    let nl = chars_of("\n");
    let sp = chars_of(" ");
    let dsp = chars_of("  ");
    proof {
        reveal_strlit("\n");
        reveal_strlit("  ");
    }
    let a = replace_all_exec(&c, &nl, &sp);
    let b = replace_all_exec(&a, &dsp, &sp);
    string_from_chars(b.as_slice())
}

/// An entry representing a document's source metadata.
#[derive(Debug, Clone)]
pub struct SourceEntry {
    pub url: String,
    pub title: String,
    pub source: String,
    pub indexed_at: String,
}

/// An indexed document as the index reports it: its ordering time (finest
/// precision) and its indexing time in whole seconds, when stored.
#[derive(Debug, Clone)]
pub struct SourceRow {
    pub sort_key: Option<i64>,
    pub url: String,
    pub title: String,
    pub source: String,
    pub indexed_secs: Option<i64>,
}

/// Time `a` is not earlier than `b`; a missing time is the earliest.
pub open spec fn not_earlier(a: Option<i64>, b: Option<i64>) -> bool {
    match (a, b) {
        (_, None) => true,
        (None, Some(_)) => false,
        (Some(x), Some(y)) => x >= y,
    }
}

/// `x` placed into `s` after the leading rows that are not earlier than it.
pub open spec fn insert_newest_first(s: Seq<SourceRow>, x: SourceRow) -> Seq<SourceRow>
    decreases s.len(),
{
    if s.len() == 0 {
        seq![x]
    } else if not_earlier(s[0].sort_key, x.sort_key) {
        seq![s[0]] + insert_newest_first(s.drop_first(), x)
    } else {
        seq![x] + s
    }
}

/// The rows newest first; rows of the same time keep their order.
pub open spec fn newest_first(s: Seq<SourceRow>) -> Seq<SourceRow>
    decreases s.len(),
{
    if s.len() == 0 {
        Seq::empty()
    } else {
        insert_newest_first(newest_first(s.drop_last()), s.last())
    }
}

/// Rows ordered newest first.
pub open spec fn is_newest_first(s: Seq<SourceRow>) -> bool {
    forall|i: int, j: int| 0 <= i < j < s.len() ==> not_earlier(s[i].sort_key, s[j].sort_key)
}

/// Where `insert_newest_first` puts `x`: after every leading row not earlier.
proof fn lemma_insert_at(s: Seq<SourceRow>, x: SourceRow, p: int)
    requires
        0 <= p <= s.len(),
        forall|k: int| 0 <= k < p ==> not_earlier(#[trigger] s[k].sort_key, x.sort_key),
        p == s.len() || !not_earlier(s[p].sort_key, x.sort_key),
    ensures
        insert_newest_first(s, x) == s.insert(p, x),
    decreases s.len(),
{
    if s.len() == 0 {
        assert(s.insert(p, x) =~= seq![x]);
    } else if p == 0 {
        assert(s.insert(0, x) =~= seq![x] + s);
    } else {
        let r = s.drop_first();
        assert forall|k: int| 0 <= k < p - 1 implies not_earlier(#[trigger] r[k].sort_key, x.sort_key) by {
            assert(r[k] == s[k + 1]);
        }
        lemma_insert_at(r, x, p - 1);
        assert(s.insert(p, x) =~= seq![s[0]] + r.insert(p - 1, x));
    }
}

/// Inserting into rows ordered newest first keeps them so.
pub proof fn lemma_insert_keeps_order(s: Seq<SourceRow>, x: SourceRow)
    requires
        is_newest_first(s),
    ensures
        is_newest_first(insert_newest_first(s, x)),
        insert_newest_first(s, x).len() == s.len() + 1,
    decreases s.len(),
{
    if s.len() > 0 && not_earlier(s[0].sort_key, x.sort_key) {
        let r = s.drop_first();
        assert(is_newest_first(r)) by {
            assert forall|i: int, j: int| 0 <= i < j < r.len() implies not_earlier(
                r[i].sort_key,
                r[j].sort_key,
            ) by {
                assert(r[i] == s[i + 1] && r[j] == s[j + 1]);
            }
        }
        lemma_insert_keeps_order(r, x);
        let t = insert_newest_first(r, x);
        let all = seq![s[0]] + t;
        assert forall|i: int, j: int| 0 <= i < j < all.len() implies not_earlier(
            all[i].sort_key,
            all[j].sort_key,
        ) by {
            if i == 0 {
                lemma_insert_members(r, x, j - 1);
                if t[j - 1] != x {
                    let k = choose|k: int| 0 <= k < r.len() && r[k] == t[j - 1];
                    assert(r[k] == s[k + 1]);
                }
            }
        }
    } else if s.len() > 0 {
        let all = seq![x] + s;
        assert forall|i: int, j: int| 0 <= i < j < all.len() implies not_earlier(
            all[i].sort_key,
            all[j].sort_key,
        ) by {
            if i == 0 {
                assert(not_earlier(x.sort_key, s[0].sort_key));
                assert(not_earlier(s[0].sort_key, s[j - 1].sort_key));
            } else {
                assert(all[i] == s[i - 1] && all[j] == s[j - 1]);
            }
        }
    }
}

/// Each row after insertion is `x` or a row of `s`.
proof fn lemma_insert_members(s: Seq<SourceRow>, x: SourceRow, j: int)
    requires
        0 <= j < insert_newest_first(s, x).len(),
    ensures
        insert_newest_first(s, x)[j] == x || exists|k: int|
            0 <= k < s.len() && s[k] == insert_newest_first(s, x)[j],
    decreases s.len(),
{
    if s.len() > 0 && not_earlier(s[0].sort_key, x.sort_key) {
        if j > 0 {
            let r = s.drop_first();
            lemma_insert_members(r, x, j - 1);
            if insert_newest_first(r, x)[j - 1] != x {
                let k = choose|k: int| 0 <= k < r.len() && r[k] == insert_newest_first(r, x)[j - 1];
                assert(s[k + 1] == r[k]);
            }
        } else {
            assert(s[0] == insert_newest_first(s, x)[0]);
        }
    } else if s.len() > 0 && j > 0 {
        assert(s[j - 1] == insert_newest_first(s, x)[j]);
    }
}

/// The stable ordering is newest first and keeps every row.
pub proof fn lemma_newest_first(s: Seq<SourceRow>)
    ensures
        is_newest_first(newest_first(s)),
        newest_first(s).len() == s.len(),
    decreases s.len(),
{
    if s.len() > 0 {
        lemma_newest_first(s.drop_last());
        lemma_insert_keeps_order(newest_first(s.drop_last()), s.last());
    }
}

/// What `chrono` prints, in RFC 3339, for a time in whole seconds since
/// the epoch, when it is in range.
pub uninterp spec fn spec_rfc3339(secs: i64) -> Option<Seq<char>>;

/// Wraps `chrono::DateTime::from_timestamp(secs, 0)` and `to_rfc3339`;
/// `None` out of range. Named by `spec_rfc3339`.
#[verifier::external_body]
fn rfc3339(secs: i64) -> (r: Option<String>)
    ensures
        opt_view(r) == spec_rfc3339(secs),
{
    chrono::DateTime::from_timestamp(secs, 0).map(|d| d.to_rfc3339())
}

/// The printed indexing time of a row; empty when it has none or it is out of range.
pub open spec fn indexed_at_text(secs: Option<i64>) -> Seq<char> {
    match secs {
        Some(s) => match spec_rfc3339(s) {
            Some(t) => t,
            None => Seq::empty(),
        },
        None => Seq::empty(),
    }
}

/// Whether `e` shows row `r`.
pub open spec fn shows(e: SourceEntry, r: SourceRow) -> bool {
    &&& e.url@ == r.url@
    &&& e.title@ == r.title@
    &&& e.source@ == r.source@
    &&& e.indexed_at@ == indexed_at_text(r.indexed_secs)
}

/// One page of the indexed sources, newest first: `limit` rows after the
/// first `offset`, with the number of all rows.
pub fn page_sources(rows: Vec<SourceRow>, limit: usize, offset: usize) -> (r: (Vec<SourceEntry>, usize))
    ensures
        r.1 == rows@.len(),
        ({
            let sorted = newest_first(rows@);
            let from = if offset < sorted.len() { offset as int } else { sorted.len() as int };
            let page = take_at_most(sorted.subrange(from, sorted.len() as int), limit as nat);
            &&& r.0@.len() == page.len()
            &&& forall|i: int| 0 <= i < page.len() ==> shows(#[trigger] r.0@[i], page[i])
        }),
{
    let total = rows.len();
    let mut sorted: Vec<SourceRow> = Vec::new();
    let mut i: usize = 0;
    while i < rows.len()
        invariant
            i <= rows.len(),
            sorted@ == newest_first(rows@.take(i as int)),
        decreases rows.len() - i,
    {
        let x = SourceRow {
            sort_key: rows[i].sort_key,
            url: rows[i].url.clone(),
            title: rows[i].title.clone(),
            source: rows[i].source.clone(),
            indexed_secs: rows[i].indexed_secs,
        };
        assert(x == rows@[i as int]);
        let mut p: usize = 0;
        while p < sorted.len() && not_earlier_exec(sorted[p].sort_key, x.sort_key)
            invariant
                p <= sorted.len(),
                forall|k: int| 0 <= k < p ==> not_earlier(#[trigger] sorted@[k].sort_key, x.sort_key),
            decreases sorted.len() - p,
        {
            p = p + 1;
        }
        proof {
            lemma_insert_at(sorted@, x, p as int);
            assert(rows@.take(i + 1).drop_last() =~= rows@.take(i as int));
        }
        sorted.insert(p, x);
        i = i + 1;
    }
    assert(rows@.take(rows.len() as int) =~= rows@);
    proof {
        lemma_newest_first(rows@);
    }
    let from = if offset < sorted.len() { offset } else { sorted.len() };
    let mut out: Vec<SourceEntry> = Vec::new();
    let mut k: usize = from;
    while k < sorted.len() && k - from < limit
        invariant
            from <= k <= sorted.len(),
            k - from <= limit,
            out@.len() == k - from,
            forall|j: int| 0 <= j < out@.len() ==> shows(#[trigger] out@[j], sorted@[from + j]),
        decreases sorted.len() - k,
    {
        let r = &sorted[k];
        let at = match r.indexed_secs {
            Some(s) => match rfc3339(s) {
                Some(t) => t,
                None => String::new(),
            },
            None => String::new(),
        };
        out.push(SourceEntry { url: r.url.clone(), title: r.title.clone(), source: r.source.clone(), indexed_at: at });
        k = k + 1;
    }
    (out, total)
}

fn not_earlier_exec(a: Option<i64>, b: Option<i64>) -> (r: bool)
    ensures
        r == not_earlier(a, b),
{
    match (a, b) {
        (_, None) => true,
        (None, Some(_)) => false,
        (Some(x), Some(y)) => x >= y,
    }
}

} // verus!
