//! Browser-like request headers, with a user agent drawn at random from a
//! fixed list of common desktop browsers.
use vstd::prelude::*;
use crate::text::owned;

verus! {

/// Number of user agents to draw from.
pub const USER_AGENT_COUNT: usize = 6;

/// The user agents requests are sent with.
pub open spec fn spec_user_agent(i: int) -> Seq<char> {
    if i == 0 {
        "Mozilla/5.0 (Windows NT 10.0; Win64; x64) AppleWebKit/537.36 (KHTML, like Gecko) Chrome/120.0.0.0 Safari/537.36"@
    } else if i == 1 {
        "Mozilla/5.0 (Macintosh; Intel Mac OS X 10_15_7) AppleWebKit/537.36 (KHTML, like Gecko) Chrome/120.0.0.0 Safari/537.36"@
    } else if i == 2 {
        "Mozilla/5.0 (X11; Linux x86_64) AppleWebKit/537.36 (KHTML, like Gecko) Chrome/120.0.0.0 Safari/537.36"@
    } else if i == 3 {
        "Mozilla/5.0 (Windows NT 10.0; Win64; x64; rv:109.0) Gecko/20100101 Firefox/120.0"@
    } else if i == 4 {
        "Mozilla/5.0 (Windows NT 10.0; Win64; x64) AppleWebKit/537.36 (KHTML, like Gecko) Chrome/121.0.0.0 Safari/537.36"@
    } else {
        "Mozilla/5.0 (Macintosh; Intel Mac OS X 10_15_7) AppleWebKit/605.1.15 (KHTML, like Gecko) Version/17.2.1 Safari/605.1.15"@
    }
}

/// The `i`-th user agent of the list.
pub fn user_agent(i: usize) -> (ua: &'static str)
    requires
        i < USER_AGENT_COUNT,
    ensures
        ua@ == spec_user_agent(i as int),
{
    if i == 0 {
        "Mozilla/5.0 (Windows NT 10.0; Win64; x64) AppleWebKit/537.36 (KHTML, like Gecko) Chrome/120.0.0.0 Safari/537.36"
    } else if i == 1 {
        "Mozilla/5.0 (Macintosh; Intel Mac OS X 10_15_7) AppleWebKit/537.36 (KHTML, like Gecko) Chrome/120.0.0.0 Safari/537.36"
    } else if i == 2 {
        "Mozilla/5.0 (X11; Linux x86_64) AppleWebKit/537.36 (KHTML, like Gecko) Chrome/120.0.0.0 Safari/537.36"
    } else if i == 3 {
        "Mozilla/5.0 (Windows NT 10.0; Win64; x64; rv:109.0) Gecko/20100101 Firefox/120.0"
    } else if i == 4 {
        "Mozilla/5.0 (Windows NT 10.0; Win64; x64) AppleWebKit/537.36 (KHTML, like Gecko) Chrome/121.0.0.0 Safari/537.36"
    } else {
        "Mozilla/5.0 (Macintosh; Intel Mac OS X 10_15_7) AppleWebKit/605.1.15 (KHTML, like Gecko) Version/17.2.1 Safari/605.1.15"
    }
}

/// A uniformly drawn index below `n`: wraps `rand::Rng::random_range` over
/// `0..n` on the thread-local generator. Of the result only its range is
/// known; which index comes out is chance.
#[verifier::external_body]
pub(crate) fn random_below(n: usize) -> (r: usize)
    requires
        n > 0,
    ensures
        r < n,
{
    rand::Rng::random_range(&mut rand::rng(), 0..n)
}

/// Builds browser-like request headers.
pub struct HeaderGenerator;

/// Whether `h` are the headers a request is sent with: a user agent of the
/// list, then the fixed `accept`, `accept-language` and `accept-encoding`
/// values, each as a (name, value) pair.
pub open spec fn browser_headers(h: Seq<(Seq<char>, Seq<char>)>) -> bool {
    &&& h.len() == 4
    &&& h[0].0 == "user-agent"@
    &&& exists|i: int| 0 <= i < USER_AGENT_COUNT && h[0].1 == spec_user_agent(i)
    &&& h[1] == ("accept"@,
    "text/html,application/xhtml+xml,application/xml;q=0.9,image/avif,image/webp,*/*;q=0.8"@)
    &&& h[2] == ("accept-language"@, "en-US,en;q=0.5"@)
    &&& h[3] == ("accept-encoding"@, "gzip, deflate, br"@)
}

/// The (name, value) pairs of a header list, as character sequences.
pub open spec fn header_views(v: Seq<(String, String)>) -> Seq<(Seq<char>, Seq<char>)> {
    v.map_values(|p: (String, String)| (p.0@, p.1@))
}

impl HeaderGenerator {
    /// Headers for one request, with a user agent drawn at random.
    pub fn random_headers() -> (h: Vec<(String, String)>)
        ensures
            browser_headers(header_views(h@)),
    {
        let k = random_below(USER_AGENT_COUNT);
        let ua = user_agent(k);
        let mut h: Vec<(String, String)> = Vec::new();
        h.push((owned("user-agent"), owned(ua)));
        h.push(
            (
                owned("accept"),
                owned(
                    "text/html,application/xhtml+xml,application/xml;q=0.9,image/avif,image/webp,*/*;q=0.8",
                ),
            ),
        );
        h.push((owned("accept-language"), owned("en-US,en;q=0.5")));
        h.push((owned("accept-encoding"), owned("gzip, deflate, br")));
        proof {
            let hv = header_views(h@);
            assert(hv[0].1 == spec_user_agent(k as int));
        }
        h
    }
}

} // verus!
