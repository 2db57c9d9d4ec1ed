//! URL parsing: the parts of a parsed URL the library reads, as plain values.
use vstd::prelude::*;
use crate::text::{chars_eq, chars_of, opt_view};

verus! {

/// The parts of a parsed URL, as the `url` crate reports them.
#[derive(Debug, Clone)]
pub struct UrlParts {
    pub scheme: String,
    /// `host_str`
    pub host: Option<String>,
    pub path: String,
    /// `query_pairs`, percent-decoded, in order.
    pub query: Vec<(String, String)>,
    /// `path_segments`; `None` for URLs that cannot be a base.
    pub segments: Option<Vec<String>>,
}

/// Spec form of `UrlParts`.
pub struct UrlPartsView {
    pub scheme: Seq<char>,
    pub host: Option<Seq<char>>,
    pub path: Seq<char>,
    pub query: Seq<(Seq<char>, Seq<char>)>,
    pub segments: Option<Seq<Seq<char>>>,
}

impl View for UrlParts {
    type V = UrlPartsView;

    open spec fn view(&self) -> UrlPartsView {
        UrlPartsView {
            scheme: self.scheme@,
            host: match self.host {
                Some(h) => Some(h@),
                None => None,
            },
            path: self.path@,
            query: self.query@.map_values(|p: (String, String)| (p.0@, p.1@)),
            segments: match self.segments {
                Some(v) => Some(v@.map_values(|x: String| x@)),
                None => None,
            },
        }
    }
}

/// What `url::Url::parse` makes of a string, read through the accessors above.
pub uninterp spec fn spec_parse_url(s: Seq<char>) -> Option<UrlPartsView>;

/// Parses `s`, reading the parts the library uses.
pub fn parse_url(s: &str) -> (r: Option<UrlParts>)
    ensures
        match r {
            Some(p) => spec_parse_url(s@) == Some(p@),
            None => spec_parse_url(s@) is None,
        },
{
    match parse_url_or_error(s) {
        Ok(p) => Some(p),
        Err(_) => None,
    }
}

/// The first value given for key `k` among query pairs.
pub open spec fn first_query_value(q: Seq<(Seq<char>, Seq<char>)>, k: Seq<char>) -> Option<Seq<char>>
    decreases q.len(),
{
    if q.len() == 0 {
        None
    } else if q[0].0 == k {
        Some(q[0].1)
    } else {
        first_query_value(q.drop_first(), k)
    }
}

/// The first value given for `key` among the query pairs of `p`.
pub fn query_value(p: &UrlParts, key: &str) -> (r: Option<String>)
    ensures
        opt_view(r) == first_query_value(p@.query, key@),
{
    let ghost qv = p@.query;
    let k = chars_of(key);
    let mut i: usize = 0;
    assert(qv.subrange(0, qv.len() as int) =~= qv);
    while i < p.query.len()
        invariant
            i <= p.query.len(),
            qv == p@.query,
            k@ == key@,
            first_query_value(qv, key@) == first_query_value(qv.subrange(i as int, qv.len() as int), key@),
        decreases p.query.len() - i,
    {
        let c = chars_of(p.query[i].0.as_str());
        proof {
            assert(qv.subrange(i as int, qv.len() as int).drop_first() =~= qv.subrange(
                i + 1,
                qv.len() as int,
            ));
            assert(qv[i as int] == (p.query@[i as int].0@, p.query@[i as int].1@));
        }
        if chars_eq(&c, &k) {
            assert(qv.subrange(i as int, qv.len() as int)[0] == qv[i as int]);
            return Some(p.query[i].1.clone());
        }
        i = i + 1;
    }
    None
}

/// What the error of `url::Url::parse` prints for a string it refuses.
pub uninterp spec fn spec_url_error(s: Seq<char>) -> Seq<char>;

/// Wraps `url::Url::parse` and the accessors `scheme`, `host_str`, `path`,
/// `query_pairs` and `path_segments`: the parts are named by
/// `spec_parse_url`, the printed error of a refused string by
/// `spec_url_error`.
#[verifier::external_body]
pub(crate) fn parse_url_or_error(s: &str) -> (r: Result<UrlParts, String>)
    ensures
        match r {
            Ok(p) => spec_parse_url(s@) == Some(p@),
            Err(m) => spec_parse_url(s@) is None && m@ == spec_url_error(s@),
        },
{
    url::Url::parse(s).map_err(|e| e.to_string()).map(|u| UrlParts {
        scheme: u.scheme().to_string(),
        host: u.host_str().map(|h| h.to_string()),
        path: u.path().to_string(),
        query: u.query_pairs().map(|(k, v)| (k.into_owned(), v.into_owned())).collect(),
        segments: u.path_segments().map(|it| it.map(|x| x.to_string()).collect()),
    })
}

/// The absolute URL `href` resolves to against `base`, as `url` prints it.
pub uninterp spec fn spec_url_join(base: Seq<char>, href: Seq<char>) -> Option<Seq<char>>;

/// Wraps `url::Url::parse` of `base` followed by `Url::join` of `href` and
/// `to_string`; `None` when either step fails. Named by `spec_url_join`.
#[verifier::external_body]
pub(crate) fn url_join(base: &str, href: &str) -> (r: Option<String>)
    ensures
        opt_view(r) == spec_url_join(base@, href@),
{
    url::Url::parse(base).ok()?.join(href).ok().map(|u| u.to_string())
}

/// A URL without its fragment, as `url` prints it.
pub uninterp spec fn spec_url_without_fragment(s: Seq<char>) -> Option<Seq<char>>;

/// Wraps `url::Url::parse`, `Url::set_fragment(None)` and `to_string`;
/// `None` when `s` does not parse. Named by `spec_url_without_fragment`.
#[verifier::external_body]
pub(crate) fn url_without_fragment(s: &str) -> (r: Option<String>)
    ensures
        opt_view(r) == spec_url_without_fragment(s@),
{
    let mut u = url::Url::parse(s).ok()?;
    u.set_fragment(None);
    Some(u.to_string())
}

/// A URL in the form `url` prints it.
pub uninterp spec fn spec_url_string(s: Seq<char>) -> Option<Seq<char>>;

/// Wraps `url::Url::parse` and `to_string`; `None` when `s` does not
/// parse. Named by `spec_url_string`.
#[verifier::external_body]
pub(crate) fn url_string(s: &str) -> (r: Option<String>)
    ensures
        opt_view(r) == spec_url_string(s@),
{
    url::Url::parse(s).ok().map(|u| u.to_string())
}

/// The host of a URL when it parses and has one.
pub open spec fn host_of(s: Seq<char>) -> Option<Seq<char>> {
    match spec_parse_url(s) {
        Some(p) => p.host,
        None => None,
    }
}

/// The host of `s`, if it parses and has one.
pub fn url_host(s: &str) -> (r: Option<String>)
    ensures
        opt_view(r) == host_of(s@),
{
    match parse_url(s) {
        Some(p) => p.host,
        None => None,
    }
}

} // verus!
