//! Sitemap and robots.txt readers.
use vstd::prelude::*;
use crate::error::{ErrorView, SearchXyzError};
use crate::urls::{parse_url_or_error, spec_parse_url, spec_url_error};
use crate::text::{owned, push_str,
    chars_of, find, find_from, find_from_exec, lemma_find_from, lines, matches_at_exec, push_all,
    slice_chars, spec_lowercase, split_lines, starts_with, str_views, string_from_chars,
    strings_of_all, to_lowercase, trim, trim_range, views,
};

verus! {

/// URLs found in `<loc>..</loc>` elements at or after index `i`, each trimmed,
/// empty ones left out (the scan of `parse_sitemap_urls`).
pub open spec fn sitemap_locs_from(s: Seq<char>, i: int) -> Seq<Seq<char>>
    decreases s.len() + 1 - i,
{
    if i < 0 || i > s.len() {
        Seq::empty()
    } else {
        match find_from(s, "<loc>"@, i) {
            None => Seq::empty(),
            Some(a) => {
                let b = a + "<loc>"@.len();
                match find_from(s, "</loc>"@, b) {
                    None => Seq::empty(),
                    Some(e) => if i <= a && b <= e && e + "</loc>"@.len() <= s.len()
                        && "</loc>"@.len() > 0 {
                        let loc = trim(s.subrange(b, e));
                        let rest = sitemap_locs_from(s, e + "</loc>"@.len());
                        if loc.len() == 0 {
                            rest
                        } else {
                            seq![loc] + rest
                        }
                    } else {
                        Seq::empty()
                    },
                }
            },
        }
    }
}

pub open spec fn sitemap_locs(s: Seq<char>) -> Seq<Seq<char>> {
    sitemap_locs_from(s, 0)
}

/// Parse all URL `<loc>` tags from a sitemap XML payload.
pub fn parse_sitemap_urls(xml: &str) -> (urls: Vec<String>)
    ensures
        str_views(urls@) == sitemap_locs(xml@),
{
    let s = chars_of(xml);
    let open = chars_of("<loc>");
    let close = chars_of("</loc>");
    let mut out: Vec<Vec<char>> = Vec::new();
    let mut cursor: usize = 0;
    loop
        invariant
            cursor <= s.len(),
            s@ == xml@,
            open@ == "<loc>"@,
            close@ == "</loc>"@,
            views(out@) + sitemap_locs_from(s@, cursor as int) == sitemap_locs(s@),
        ensures
            views(out@) == sitemap_locs(xml@),
        decreases s.len() - cursor,
    {
        proof {
            reveal_strlit("<loc>");
            reveal_strlit("</loc>");
        }
        match find_from_exec(&s, &open, cursor) {
            None => {
                assert(sitemap_locs_from(s@, cursor as int) =~= Seq::empty());
                assert(views(out@) + Seq::<Seq<char>>::empty() =~= views(out@));
                break;
            },
            Some(a) => {
                proof {
                    lemma_find_from(s@, open@, cursor as int);
                }
                let b = a + open.len();
                match find_from_exec(&s, &close, b) {
                    None => {
                        assert(sitemap_locs_from(s@, cursor as int) =~= Seq::empty());
                        assert(views(out@) + Seq::<Seq<char>>::empty() =~= views(out@));
                        break;
                    },
                    Some(e) => {
                        proof {
                            lemma_find_from(s@, close@, b as int);
                        }
                        let (lo, hi) = trim_range(&s, b, e);
                        let next = e + close.len();
                        if lo < hi {
                            let mut loc: Vec<char> = Vec::new();
                            push_all(&mut loc, &s.as_slice()[lo..hi]);
                            let ghost old_out = out@;
                            out.push(loc);
                            proof {
                                assert(loc@ =~= s@.subrange(lo as int, hi as int));
                                assert(views(out@) =~= views(old_out).push(loc@));
                                assert(views(out@) + sitemap_locs_from(s@, next as int)
                                    =~= views(old_out) + (seq![loc@] + sitemap_locs_from(
                                    s@,
                                    next as int,
                                )));
                            }
                        }
                        cursor = next;
                    },
                }
            },
        }
    }
    let ghost parts = views(out@);
    let r = strings_of_all(&out);
    r
}


/// The URL a robots.txt line declares as a sitemap, if any: the trimmed text
/// after the first `:` of a trimmed line that starts (case-insensitively)
/// with `sitemap:`, when that text is not empty.
pub open spec fn robots_sitemap_entry(line: Seq<char>) -> Option<Seq<char>> {
    let t = trim(line);
    if starts_with(spec_lowercase(t), "sitemap:"@) {
        match find(t, seq![':']) {
            Some(k) => {
                let u = trim(t.subrange(k + 1, t.len() as int));
                if u.len() > 0 {
                    Some(u)
                } else {
                    None
                }
            },
            None => None,
        }
    } else {
        None
    }
}

/// The sitemap URLs declared by `ls`, in order.
pub open spec fn robots_sitemaps_of(ls: Seq<Seq<char>>) -> Seq<Seq<char>>
    decreases ls.len(),
{
    if ls.len() == 0 {
        Seq::empty()
    } else {
        robots_sitemaps_of(ls.drop_last()) + match robots_sitemap_entry(ls.last()) {
            Some(u) => seq![u],
            None => Seq::empty(),
        }
    }
}

/// The trimmed text after the first `:` of `t` (empty when there is none).
pub open spec fn after_first_colon(t: Seq<char>) -> Seq<char> {
    match find(t, seq![':']) {
        Some(k) => trim(t.subrange(k + 1, t.len() as int)),
        None => Seq::empty(),
    }
}

proof fn lemma_robots_sitemaps_of(ls: Seq<Seq<char>>)
    ensures
        forall|i: int|
            0 <= i < ls.len() && robots_sitemap_entry(#[trigger] ls[i]) is Some ==> robots_sitemaps_of(ls).contains(
                robots_sitemap_entry(ls[i])->0,
            ),
        forall|u: Seq<char>|
            #[trigger] robots_sitemaps_of(ls).contains(u) ==> exists|i: int|
                0 <= i < ls.len() && robots_sitemap_entry(#[trigger] ls[i]) == Some(u),
    decreases ls.len(),
{
    if ls.len() > 0 {
        let d = ls.drop_last();
        lemma_robots_sitemaps_of(d);
        let r = robots_sitemaps_of(ls);
        let rd = robots_sitemaps_of(d);
        assert forall|i: int|
            0 <= i < ls.len() && robots_sitemap_entry(#[trigger] ls[i]) is Some implies r.contains(
                robots_sitemap_entry(ls[i])->0,
            ) by {
            let u = robots_sitemap_entry(ls[i])->0;
            if i < d.len() {
                assert(d[i] == ls[i]);
                assert(rd.contains(u));
                let k = choose|k: int| 0 <= k < rd.len() && rd[k] == u;
                assert(r[k] == u);
            } else {
                assert(r[rd.len() as int] == u);
            }
        }
        assert forall|u: Seq<char>| #[trigger] r.contains(u) implies exists|i: int|
            0 <= i < ls.len() && robots_sitemap_entry(#[trigger] ls[i]) == Some(u) by {
            let k = choose|k: int| 0 <= k < r.len() && r[k] == u;
            if k < rd.len() {
                assert(rd[k] == u);
                assert(rd.contains(u));
                let i = choose|i: int| 0 <= i < d.len() && robots_sitemap_entry(#[trigger] d[i]) == Some(u);
                assert(ls[i] == d[i]);
            } else {
                assert(robots_sitemap_entry(ls[ls.len() - 1]) == Some(u));
            }
        }
    }
}

/// Law: each line of a robots.txt text that, trimmed and lower-cased,
/// starts with `sitemap:` — whatever the case of the word — names a sitemap:
/// the trimmed text after the line's first `:`, when not empty. Every
/// sitemap found comes from such a line.
pub proof fn lemma_robots_sitemaps(text: Seq<char>)
    ensures
        forall|i: int|
            0 <= i < lines(text).len() && starts_with(spec_lowercase(trim(#[trigger] lines(text)[i])), "sitemap:"@)
                && after_first_colon(trim(lines(text)[i])).len() > 0 ==> robots_sitemaps_of(lines(text)).contains(
                after_first_colon(trim(lines(text)[i])),
            ),
        forall|u: Seq<char>|
            #[trigger] robots_sitemaps_of(lines(text)).contains(u) ==> u.len() > 0 && exists|i: int|
                0 <= i < lines(text).len() && starts_with(spec_lowercase(trim(#[trigger] lines(text)[i])), "sitemap:"@)
                    && u == after_first_colon(trim(lines(text)[i])),
{
    let ls = lines(text);
    lemma_robots_sitemaps_of(ls);
    assert forall|i: int|
        0 <= i < ls.len() && starts_with(spec_lowercase(trim(#[trigger] ls[i])), "sitemap:"@)
            && after_first_colon(trim(ls[i])).len() > 0 implies robots_sitemaps_of(ls).contains(
        after_first_colon(trim(ls[i])),
    ) by {
        assert(robots_sitemap_entry(ls[i]) == Some(after_first_colon(trim(ls[i]))));
    }
    assert forall|u: Seq<char>| #[trigger] robots_sitemaps_of(ls).contains(u) implies u.len() > 0 && exists|i: int|
        0 <= i < ls.len() && starts_with(spec_lowercase(trim(#[trigger] ls[i])), "sitemap:"@)
            && u == after_first_colon(trim(ls[i])) by {
        let i = choose|i: int| 0 <= i < ls.len() && robots_sitemap_entry(#[trigger] ls[i]) == Some(u);
        assert(robots_sitemap_entry(ls[i]) == Some(u));
    }
}

/// Parse all `Sitemap:` lines from robots.txt payload.
pub fn parse_sitemaps_from_robots(robots_txt: &str) -> (sitemaps: Vec<String>)
    ensures
        str_views(sitemaps@) == robots_sitemaps_of(lines(robots_txt@)),
{
    let s = chars_of(robots_txt);
    let ls = split_lines(&s);
    let prefix = chars_of("sitemap:");
    let mut colon: Vec<char> = Vec::new();
    colon.push(':');
    let mut out: Vec<Vec<char>> = Vec::new();
    let mut i: usize = 0;
    while i < ls.len()
        invariant
            i <= ls.len(),
            views(ls@) == lines(robots_txt@),
            prefix@ == "sitemap:"@,
            colon@ == seq![':'],
            views(out@) == robots_sitemaps_of(views(ls@).take(i as int)),
        decreases ls.len() - i,
    {
        let ghost old_out = out@;
        let line = &ls[i];
        let (lo, hi) = trim_range(line, 0, line.len());
        let t = slice_chars(line, lo, hi);
        assert(line@.subrange(0, line@.len() as int) =~= line@);
        let lower = chars_of(to_lowercase(string_from_chars(t.as_slice()).as_str()).as_str());
        if matches_at_exec(&lower, &prefix, 0) {
            match crate::text::find_from_exec(&t, &colon, 0) {
                Some(k) => {
                    proof {
                        lemma_find_from(t@, colon@, 0);
                    }
                    let (a, b) = trim_range(&t, k + 1, t.len());
                    if a < b {
                        let u = slice_chars(&t, a, b);
                        out.push(u);
                        assert(views(out@) =~= views(old_out).push(u@));
                    }
                },
                None => {},
            }
        }
        assert(views(ls@).take(i + 1).drop_last() =~= views(ls@).take(i as int));
        assert(views(ls@).take(i + 1).last() == line@);
        i = i + 1;
    }
    assert(views(ls@).take(ls.len() as int) =~= views(ls@));
    strings_of_all(&out)
}

/// Where sitemaps of the start URL's site are looked for: `/sitemap.xml`
/// and `/robots.txt` under the URL's scheme and host; a URL that does not
/// parse, or has no host, is refused.
pub open spec fn sitemap_places(start: Seq<char>) -> Result<(Seq<char>, Seq<char>), ErrorView> {
    match spec_parse_url(start) {
        None => Err(ErrorView::CrawlFailed { url: start, reason: "Invalid URL: "@ + spec_url_error(start) }),
        Some(p) => match p.host {
            None => Err(ErrorView::CrawlFailed { url: start, reason: "URL has no host"@ }),
            Some(h) => Ok(
                (
                    p.scheme + "://"@ + h + "/sitemap.xml"@,
                    p.scheme + "://"@ + h + "/robots.txt"@,
                ),
            ),
        },
    }
}

/// The default sitemap and the robots file of the start URL's site.
pub fn sitemap_locations(start_url: &str) -> (r: Result<(String, String), SearchXyzError>)
    ensures
        match (r, sitemap_places(start_url@)) {
            (Ok((a, b)), Ok((x, y))) => a@ == x && b@ == y,
            (Err(e), Err(v)) => e@ == v,
            _ => false,
        },
{
    match parse_url_or_error(start_url) {
        Err(m) => {
            let mut o: Vec<char> = Vec::new();
            push_str(&mut o, "Invalid URL: ");
            push_str(&mut o, m.as_str());
            Err(SearchXyzError::CrawlFailed { url: owned(start_url), reason: string_from_chars(o.as_slice()) })
        },
        Ok(p) => match &p.host {
            None => Err(SearchXyzError::CrawlFailed { url: owned(start_url), reason: owned("URL has no host") }),
            Some(h) => {
                let mut a: Vec<char> = Vec::new();
                push_str(&mut a, p.scheme.as_str());
                push_str(&mut a, "://");
                push_str(&mut a, h.as_str());
                let mut b = a.clone();
                push_str(&mut a, "/sitemap.xml");
                push_str(&mut b, "/robots.txt");
                Ok((string_from_chars(a.as_slice()), string_from_chars(b.as_slice())))
            },
        },
    }
}

/// The error when neither the default sitemap nor any sitemap named in
/// robots.txt lists a page.
pub fn no_sitemap(start_url: &str) -> (e: SearchXyzError)
    ensures
        e@ == (ErrorView::CrawlFailed {
            url: start_url@,
            reason: "No sitemaps found or successfully parsed on host"@,
        }),
{
    SearchXyzError::CrawlFailed {
        url: owned(start_url),
        reason: owned("No sitemaps found or successfully parsed on host"),
    }
}

} // verus!
