//! Character-level string utilities with exact specifications.
use vstd::prelude::*;

verus! {

/// `char::is_whitespace`: the Unicode `White_Space` property (25 code points).
pub open spec fn is_ws(c: char) -> bool {
    let u = c as u32;
    ||| (0x9 <= u && u <= 0xd)
    ||| u == 0x20
    ||| u == 0x85
    ||| u == 0xa0
    ||| u == 0x1680
    ||| (0x2000 <= u && u <= 0x200a)
    ||| u == 0x2028
    ||| u == 0x2029
    ||| u == 0x202f
    ||| u == 0x205f
    ||| u == 0x3000
}

pub fn is_ws_char(c: char) -> (b: bool)
    ensures
        b == is_ws(c),
{
    let u = c as u32;
    (0x9 <= u && u <= 0xd) || u == 0x20 || u == 0x85 || u == 0xa0 || u == 0x1680 || (0x2000 <= u
        && u <= 0x200a) || u == 0x2028 || u == 0x2029 || u == 0x202f || u == 0x205f || u == 0x3000
}

/// Leading white space removed (`str::trim_start`).
pub open spec fn trim_start(s: Seq<char>) -> Seq<char>
    decreases s.len(),
{
    if s.len() > 0 && is_ws(s[0]) {
        trim_start(s.drop_first())
    } else {
        s
    }
}

/// Trailing white space removed (`str::trim_end`).
pub open spec fn trim_end(s: Seq<char>) -> Seq<char>
    decreases s.len(),
{
    if s.len() > 0 && is_ws(s.last()) {
        trim_end(s.drop_last())
    } else {
        s
    }
}

/// `str::trim`.
pub open spec fn trim(s: Seq<char>) -> Seq<char> {
    trim_end(trim_start(s))
}

/// `p` occurs in `s` starting at index `i`.
pub open spec fn matches_at(s: Seq<char>, p: Seq<char>, i: int) -> bool {
    0 <= i && i + p.len() <= s.len() && s.subrange(i, i + p.len()) == p
}

/// Index of the first occurrence of `p` in `s` at or after `i`.
pub open spec fn find_from(s: Seq<char>, p: Seq<char>, i: int) -> Option<int>
    decreases s.len() + 1 - i,
{
    if i < 0 || i + p.len() > s.len() {
        None
    } else if matches_at(s, p, i) {
        Some(i)
    } else {
        find_from(s, p, i + 1)
    }
}

/// `str::find`.
pub open spec fn find(s: Seq<char>, p: Seq<char>) -> Option<int> {
    find_from(s, p, 0)
}

/// `str::contains`.
pub open spec fn contains(s: Seq<char>, p: Seq<char>) -> bool {
    find(s, p) is Some
}

/// `str::starts_with`.
pub open spec fn starts_with(s: Seq<char>, p: Seq<char>) -> bool {
    matches_at(s, p, 0)
}

/// The result of `find_from` is a real, first occurrence.
pub proof fn lemma_find_from(s: Seq<char>, p: Seq<char>, i: int)
    requires
        0 <= i,
    ensures
        match find_from(s, p, i) {
            Some(k) => i <= k && matches_at(s, p, k) && forall|j: int|
                i <= j < k ==> !matches_at(s, p, j),
            None => forall|j: int| i <= j ==> !matches_at(s, p, j),
        },
    decreases s.len() + 1 - i,
{
    if i + p.len() > s.len() {
    } else if matches_at(s, p, i) {
    } else {
        lemma_find_from(s, p, i + 1);
    }
}

/// `s` as a vector of characters.
pub fn chars_of(s: &str) -> (v: Vec<char>)
    ensures
        v@ == s@,
{
    let mut v: Vec<char> = Vec::new();
    for c in it: s.chars()
        invariant
            v@ == it.seq().take(it.index() as int),
            it.seq() == s@,
    {
        v.push(c);
    }
    v
}


/// Builds a `String` from characters (`String: FromIterator<&char>`).
#[verifier::external_body]
pub(crate) fn string_from_chars(v: &[char]) -> (s: String)
    ensures
        s@ == v@,
{
    v.iter().collect()
}

/// `char::to_lowercase` applied across a string, as `str::to_lowercase` does.
pub uninterp spec fn spec_lowercase(s: Seq<char>) -> Seq<char>;

/// An ASCII character: code below 128.
pub open spec fn is_ascii_char(c: char) -> bool {
    (c as u32) < 128
}

/// ASCII lower-casing of one character: `A`..`Z` become `a`..`z`, every other
/// character stays.
pub open spec fn ascii_lower(c: char) -> char {
    if 65 <= (c as u32) <= 90 {
        ((c as u32) + 32) as char
    } else {
        c
    }
}

/// ASCII upper-casing of one character: `a`..`z` become `A`..`Z`, every other
/// character stays.
pub open spec fn ascii_upper(c: char) -> char {
    if 97 <= (c as u32) <= 122 {
        ((c as u32) - 32) as char
    } else {
        c
    }
}

/// Every character is ASCII.
pub open spec fn all_ascii(s: Seq<char>) -> bool {
    forall|i: int| 0 <= i < s.len() ==> is_ascii_char(#[trigger] s[i])
}

/// ASCII lower-casing of a string, character by character.
pub open spec fn ascii_lowercase(s: Seq<char>) -> Seq<char> {
    s.map_values(|c: char| ascii_lower(c))
}

/// Wraps `str::to_lowercase`; its result is named by `spec_lowercase`. Of
/// ASCII text the result is stated: each character lower-cased on its own,
/// as the Unicode case mapping does for ASCII.
#[verifier::external_body]
pub(crate) fn to_lowercase(s: &str) -> (r: String)
    ensures
        r@ == spec_lowercase(s@),
        (forall|i: int| 0 <= i < s@.len() ==> is_ascii_char(#[trigger] s@[i])) ==> r@ == s@.map_values(
            |c: char| ascii_lower(c),
        ),
{
    s.to_lowercase()
}

/// Bounds of `trim(s[lo..hi])` inside `s`.
pub fn trim_range(s: &Vec<char>, lo: usize, hi: usize) -> (r: (usize, usize))
    requires
        lo <= hi <= s.len(),
    ensures
        lo <= r.0 <= r.1 <= hi,
        s@.subrange(r.0 as int, r.1 as int) == trim(s@.subrange(lo as int, hi as int)),
{
    let mut a = lo;
    while a < hi && is_ws_char(s[a])
        invariant
            lo <= a <= hi <= s.len(),
            trim_start(s@.subrange(lo as int, hi as int)) == trim_start(
                s@.subrange(a as int, hi as int),
            ),
        decreases hi - a,
    {
        assert(s@.subrange(a as int, hi as int).drop_first() =~= s@.subrange(
            a + 1,
            hi as int,
        ));
        a = a + 1;
    }
    assert(trim_start(s@.subrange(a as int, hi as int)) == s@.subrange(a as int, hi as int));
    let mut b = hi;
    while b > a && is_ws_char(s[b - 1])
        invariant
            lo <= a <= b <= hi <= s.len(),
            trim(s@.subrange(lo as int, hi as int)) == trim_end(s@.subrange(a as int, b as int)),
        decreases b - a,
    {
        assert(s@.subrange(a as int, b as int).drop_last() =~= s@.subrange(
            a as int,
            b - 1,
        ));
        b = b - 1;
    }
    (a, b)
}

/// Whether `p` occurs in `s` at position `i`.
pub fn matches_at_exec(s: &Vec<char>, p: &Vec<char>, i: usize) -> (b: bool)
    ensures
        b == matches_at(s@, p@, i as int),
{
    if i > s.len() || p.len() > s.len() - i {
        return false;
    }
    let mut k: usize = 0;
    while k < p.len()
        invariant
            i + p.len() <= s.len(),
            k <= p.len(),
            forall|j: int| 0 <= j < k ==> s@[i + j] == p@[j],
        decreases p.len() - k,
    {
        if s[i + k] != p[k] {
            assert(s@.subrange(i as int, i + p.len())[k as int] != p@[k as int]);
            return false;
        }
        k = k + 1;
    }
    assert(s@.subrange(i as int, i + p.len()) =~= p@);
    true
}

/// First occurrence of `p` in `s` at or after `from`.
pub fn find_from_exec(s: &Vec<char>, p: &Vec<char>, from: usize) -> (r: Option<usize>)
    ensures
        match r {
            Some(k) => find_from(s@, p@, from as int) == Some(k as int),
            None => find_from(s@, p@, from as int) is None,
        },
{
    let mut i = from;
    while i <= s.len() && p.len() <= s.len() - i
        invariant
            from <= i,
            find_from(s@, p@, from as int) == find_from(s@, p@, i as int),
        decreases s.len() + 1 - i,
    {
        if matches_at_exec(s, p, i) {
            return Some(i);
        }
        if i == s.len() {
            assert(s@.subrange(i as int, i as int) =~= p@);
            return None;
        }
        i = i + 1;
    }
    None
}

/// `a` and `b` hold the same characters.
pub fn chars_eq(a: &Vec<char>, b: &Vec<char>) -> (r: bool)
    ensures
        r == (a@ == b@),
{
    if a.len() != b.len() {
        return false;
    }
    let r = matches_at_exec(a, b, 0);
    assert(a@.subrange(0, b@.len() as int) =~= a@);
    r
}

/// Text of `s` with every non-overlapping occurrence of `f` (scanning from
/// index `i` left to right) replaced by `t`; the tail of `str::replace`.
pub open spec fn replace_from(s: Seq<char>, f: Seq<char>, t: Seq<char>, i: int) -> Seq<char>
    decreases s.len() + 1 - i,
{
    if f.len() == 0 || i < 0 || i > s.len() {
        s.subrange(if 0 <= i <= s.len() { i } else { s.len() as int }, s.len() as int)
    } else {
        match find_from(s, f, i) {
            None => s.subrange(i, s.len() as int),
            Some(m) => if i <= m && m + f.len() <= s.len() {
                s.subrange(i, m) + t + replace_from(s, f, t, m + f.len())
            } else {
                Seq::empty()
            },
        }
    }
}

/// `str::replace` with a non-empty pattern.
pub open spec fn replace_all(s: Seq<char>, f: Seq<char>, t: Seq<char>) -> Seq<char> {
    replace_from(s, f, t, 0)
}

pub fn replace_all_exec(s: &Vec<char>, f: &Vec<char>, t: &Vec<char>) -> (r: Vec<char>)
    requires
        f.len() > 0,
    ensures
        r@ == replace_all(s@, f@, t@),
{
    let mut out: Vec<char> = Vec::new();
    let mut i: usize = 0;
    loop
        invariant
            f.len() > 0,
            i <= s.len(),
            out@ + replace_from(s@, f@, t@, i as int) == replace_all(s@, f@, t@),
        decreases s.len() - i,
    {
        let ghost rest = replace_from(s@, f@, t@, i as int);
        match find_from_exec(s, f, i) {
            None => {
                let mut k = i;
                while k < s.len()
                    invariant
                        i <= k <= s.len(),
                        out@ + s@.subrange(k as int, s.len() as int) == replace_all(s@, f@, t@),
                    decreases s.len() - k,
                {
                    assert(s@.subrange(k as int, s.len() as int) =~= seq![s@[k as int]]
                        + s@.subrange(k + 1, s.len() as int));
                    assert(out@ + s@.subrange(k as int, s.len() as int) =~= out@.push(s@[k as int])
                        + s@.subrange(k + 1, s.len() as int));
                    out.push(s[k]);
                    k = k + 1;
                }
                assert(out@ + s@.subrange(s.len() as int, s.len() as int) =~= out@);
                return out;
            },
            Some(m) => {
                proof {
                    lemma_find_from(s@, f@, i as int);
                }
                let mut k = i;
                while k < m
                    invariant
                        i <= k <= m,
                        m + f.len() <= s.len(),
                        out@ + s@.subrange(k as int, m as int) + t@ + replace_from(
                            s@,
                            f@,
                            t@,
                            m + f.len(),
                        ) == replace_all(s@, f@, t@),
                    decreases m - k,
                {
                    assert(s@.subrange(k as int, m as int) =~= seq![s@[k as int]] + s@.subrange(
                        k + 1,
                        m as int,
                    ));
                    assert(out@ + s@.subrange(k as int, m as int) =~= out@.push(s@[k as int])
                        + s@.subrange(k + 1, m as int));
                    out.push(s[k]);
                    k = k + 1;
                }
                let mut j: usize = 0;
                while j < t.len()
                    invariant
                        j <= t.len(),
                        m + f.len() <= s.len(),
                        out@ + t@.subrange(j as int, t.len() as int) + replace_from(
                            s@,
                            f@,
                            t@,
                            m + f.len(),
                        ) == replace_all(s@, f@, t@),
                    decreases t.len() - j,
                {
                    assert(out@ + t@.subrange(j as int, t.len() as int) =~= out@.push(t@[j as int])
                        + t@.subrange(j + 1, t.len() as int));
                    out.push(t[j]);
                    j = j + 1;
                }
                assert(out@ + t@.subrange(t.len() as int, t.len() as int) =~= out@);
                assert(out@ + s@.subrange(m as int, m as int) + t@ =~= out@ + t@);
                i = m + f.len();
            },
        }
    }
}


/// The character of decimal digit `d`.
pub open spec fn digit(d: nat) -> char {
    if d == 0 { '0' } else if d == 1 { '1' } else if d == 2 { '2' } else if d == 3 { '3' }
    else if d == 4 { '4' } else if d == 5 { '5' } else if d == 6 { '6' } else if d == 7 { '7' }
    else if d == 8 { '8' } else { '9' }
}

/// Decimal rendering of `n` (what `Display` prints for unsigned integers).
pub open spec fn decimal(n: nat) -> Seq<char>
    decreases n,
{
    if n < 10 {
        seq![digit(n)]
    } else {
        decimal(n / 10).push(digit(n % 10))
    }
}

fn digit_char(d: u64) -> (c: char)
    requires
        d < 10,
    ensures
        c == digit(d as nat),
{
    if d == 0 { '0' } else if d == 1 { '1' } else if d == 2 { '2' } else if d == 3 { '3' }
    else if d == 4 { '4' } else if d == 5 { '5' } else if d == 6 { '6' } else if d == 7 { '7' }
    else if d == 8 { '8' } else { '9' }
}

pub fn decimal_chars(n: u64) -> (v: Vec<char>)
    ensures
        v@ == decimal(n as nat),
    decreases n,
{
    if n < 10 {
        let mut v = Vec::new();
        v.push(digit_char(n));
        v
    } else {
        let mut v = decimal_chars(n / 10);
        v.push(digit_char(n % 10));
        v
    }
}

/// Appends all of `b` to `a`.
pub fn push_all(a: &mut Vec<char>, b: &[char])
    ensures
        final(a)@ == old(a)@ + b@,
{
    let mut i: usize = 0;
    while i < b.len()
        invariant
            i <= b.len(),
            a@ == old(a)@ + b@.subrange(0, i as int),
        decreases b.len() - i,
    {
        assert(b@.subrange(0, i + 1) =~= b@.subrange(0, i as int).push(b@[i as int]));
        a.push(b[i]);
        i = i + 1;
    }
    assert(b@.subrange(0, b.len() as int) =~= b@);
}

/// Parts joined with `sep` between neighbours (`[..].join(sep)`).
pub open spec fn join(parts: Seq<Seq<char>>, sep: Seq<char>) -> Seq<char>
    decreases parts.len(),
{
    if parts.len() == 0 {
        Seq::empty()
    } else if parts.len() == 1 {
        parts[0]
    } else {
        join(parts.drop_last(), sep) + sep + parts.last()
    }
}

/// Views of a vector of character vectors.
pub open spec fn views(v: Seq<Vec<char>>) -> Seq<Seq<char>> {
    v.map_values(|x: Vec<char>| x@)
}

/// Views of a vector of strings.
pub open spec fn str_views(v: Seq<String>) -> Seq<Seq<char>> {
    v.map_values(|x: String| x@)
}

pub fn join_chars(parts: &Vec<Vec<char>>, sep: &[char]) -> (r: Vec<char>)
    ensures
        r@ == join(views(parts@), sep@),
{
    let mut out: Vec<char> = Vec::new();
    let mut i: usize = 0;
    while i < parts.len()
        invariant
            i <= parts.len(),
            out@ == join(views(parts@).take(i as int), sep@),
        decreases parts.len() - i,
    {
        assert(views(parts@).take(i + 1).drop_last() =~= views(parts@).take(i as int));
        assert(views(parts@).take(i + 1).last() == parts@[i as int]@);
        if i > 0 {
            push_all(&mut out, sep);
        }
        push_all(&mut out, parts[i].as_slice());
        if i == 0 {
            assert(views(parts@).take(1)[0] == parts@[0]@);
            assert(out@ =~= parts@[0]@);
        }
        i = i + 1;
    }
    assert(views(parts@).take(parts.len() as int) =~= views(parts@));
    out
}

/// The character vectors of a vector of strings.
pub fn chars_of_all(v: &Vec<String>) -> (r: Vec<Vec<char>>)
    ensures
        views(r@) == str_views(v@),
{
    let mut r: Vec<Vec<char>> = Vec::new();
    let mut i: usize = 0;
    while i < v.len()
        invariant
            i <= v.len(),
            views(r@) == str_views(v@).take(i as int),
        decreases v.len() - i,
    {
        let c = chars_of(v[i].as_str());
        let ghost old_r = r@;
        r.push(c);
        assert(views(r@) =~= views(old_r).push(v@[i as int]@));
        assert(str_views(v@).take(i + 1) =~= str_views(v@).take(i as int).push(v@[i as int]@));
        i = i + 1;
    }
    assert(str_views(v@).take(v.len() as int) =~= str_views(v@));
    r
}

/// Strings of a vector of character vectors.
pub fn strings_of_all(v: &Vec<Vec<char>>) -> (r: Vec<String>)
    ensures
        str_views(r@) == views(v@),
{
    let mut r: Vec<String> = Vec::new();
    let mut i: usize = 0;
    while i < v.len()
        invariant
            i <= v.len(),
            str_views(r@) == views(v@).take(i as int),
        decreases v.len() - i,
    {
        let c = string_from_chars(v[i].as_slice());
        let ghost old_r = r@;
        r.push(c);
        assert(str_views(r@) =~= str_views(old_r).push(v@[i as int]@));
        assert(views(v@).take(i + 1) =~= views(v@).take(i as int).push(v@[i as int]@));
        i = i + 1;
    }
    assert(views(v@).take(v.len() as int) =~= views(v@));
    r
}


/// A line without a `\r` that ended it.
pub open spec fn strip_cr(l: Seq<char>) -> Seq<char> {
    if l.len() > 0 && l.last() == '\r' {
        l.drop_last()
    } else {
        l
    }
}

/// The lines of `s` from index `i` on, as `str::lines` yields them: split at
/// `\n`, a `\r` before the `\n` removed, no empty line after a final `\n`.
pub open spec fn lines_from(s: Seq<char>, i: int) -> Seq<Seq<char>>
    decreases s.len() - i,
{
    if i < 0 || i >= s.len() {
        Seq::empty()
    } else {
        match find_from(s, seq!['\n'], i) {
            None => seq![s.subrange(i, s.len() as int)],
            Some(j) => if i <= j < s.len() {
                seq![strip_cr(s.subrange(i, j))] + lines_from(s, j + 1)
            } else {
                Seq::empty()
            },
        }
    }
}

/// `str::lines`.
pub open spec fn lines(s: Seq<char>) -> Seq<Seq<char>> {
    lines_from(s, 0)
}

/// Copy of `s[lo..hi]`.
pub fn slice_chars(s: &Vec<char>, lo: usize, hi: usize) -> (r: Vec<char>)
    requires
        lo <= hi <= s.len(),
    ensures
        r@ == s@.subrange(lo as int, hi as int),
{
    let mut r: Vec<char> = Vec::new();
    push_all(&mut r, &s.as_slice()[lo..hi]);
    assert(r@ =~= s@.subrange(lo as int, hi as int));
    r
}

pub fn split_lines(s: &Vec<char>) -> (r: Vec<Vec<char>>)
    ensures
        views(r@) == lines(s@),
{
    let mut out: Vec<Vec<char>> = Vec::new();
    let mut nl: Vec<char> = Vec::new();
    nl.push('\n');
    let mut i: usize = 0;
    while i < s.len()
        invariant
            i <= s.len(),
            nl@ == seq!['\n'],
            views(out@) + lines_from(s@, i as int) == lines(s@),
        decreases s.len() - i,
    {
        let ghost old_out = out@;
        match find_from_exec(s, &nl, i) {
            None => {
                let line = slice_chars(s, i, s.len());
                out.push(line);
                assert(views(out@) =~= views(old_out).push(line@));
                assert(lines_from(s@, s.len() as int) =~= Seq::empty());
                assert(views(out@) + lines_from(s@, s.len() as int) =~= views(old_out) + lines_from(
                    s@,
                    i as int,
                ));
                i = s.len();
            },
            Some(j) => {
                proof {
                    lemma_find_from(s@, nl@, i as int);
                }
                let mut line = slice_chars(s, i, j);
                if line.len() > 0 && line[line.len() - 1] == '\r' {
                    line.pop();
                    assert(line@ =~= strip_cr(s@.subrange(i as int, j as int)));
                }
                out.push(line);
                assert(views(out@) =~= views(old_out).push(line@));
                assert(views(out@) + lines_from(s@, j + 1) =~= views(old_out) + lines_from(
                    s@,
                    i as int,
                ));
                i = j + 1;
            },
        }
    }
    assert(lines_from(s@, i as int) =~= Seq::empty());
    assert(views(out@) + Seq::<Seq<char>>::empty() =~= views(out@));
    out
}


/// Appends the characters of `t` to `a`.
pub fn push_str(a: &mut Vec<char>, t: &str)
    ensures
        final(a)@ == old(a)@ + t@,
{
    let c = chars_of(t);
    push_all(a, c.as_slice());
}

/// Appends the decimal rendering of `n` to `a`.
pub fn push_decimal(a: &mut Vec<char>, n: u64)
    ensures
        final(a)@ == old(a)@ + decimal(n as nat),
{
    let c = decimal_chars(n);
    push_all(a, c.as_slice());
}


/// Pieces of `s` from index `i` on, split at every `c` (`str::split` with a
/// character pattern: always at least one piece, empty pieces kept).
pub open spec fn split_from(s: Seq<char>, c: char, i: int) -> Seq<Seq<char>>
    decreases s.len() + 1 - i,
{
    if i < 0 || i > s.len() {
        Seq::empty()
    } else {
        match find_from(s, seq![c], i) {
            None => seq![s.subrange(i, s.len() as int)],
            Some(j) => if i <= j < s.len() {
                seq![s.subrange(i, j)] + split_from(s, c, j + 1)
            } else {
                Seq::empty()
            },
        }
    }
}

/// `str::split` at a character.
pub open spec fn split(s: Seq<char>, c: char) -> Seq<Seq<char>> {
    split_from(s, c, 0)
}

/// Splitting always yields at least one part.
pub proof fn lemma_split_nonempty(s: Seq<char>, c: char)
    ensures
        split(s, c).len() > 0,
{
    lemma_find_from(s, seq![c], 0);
}

pub fn split_chars(s: &Vec<char>, c: char) -> (r: Vec<Vec<char>>)
    ensures
        views(r@) == split(s@, c),
{
    let mut out: Vec<Vec<char>> = Vec::new();
    let mut pat: Vec<char> = Vec::new();
    pat.push(c);
    let mut i: usize = 0;
    loop
        invariant_except_break
            views(out@) + split_from(s@, c, i as int) == split(s@, c),
        invariant
            i <= s.len(),
            pat@ == seq![c],
        ensures
            views(out@) == split(s@, c),
        decreases s.len() + 1 - i,
    {
        let ghost old_out = out@;
        match find_from_exec(s, &pat, i) {
            None => {
                let piece = slice_chars(s, i, s.len());
                out.push(piece);
                assert(views(out@) =~= views(old_out).push(piece@));
                assert(views(out@) =~= views(old_out) + split_from(s@, c, i as int));
                break;
            },
            Some(j) => {
                proof {
                    lemma_find_from(s@, pat@, i as int);
                }
                let piece = slice_chars(s, i, j);
                out.push(piece);
                assert(views(out@) =~= views(old_out).push(piece@));
                assert(views(out@) + split_from(s@, c, j + 1) =~= views(old_out) + split_from(
                    s@,
                    c,
                    i as int,
                ));
                i = j + 1;
            },
        }
    }
    out
}

/// `s` is an ASCII decimal digit.
pub open spec fn is_digit(c: char) -> bool {
    '0' <= c <= '9'
}

/// Value of the decimal digits `s[..n]`.
pub open spec fn digits_value(s: Seq<char>, n: int) -> nat
    decreases n,
{
    if n <= 0 || n > s.len() {
        0
    } else {
        (digits_value(s, n - 1) * 10 + ((s[n - 1] as u32) - ('0' as u32))) as nat
    }
}

/// The digits after an optional leading `+`.
pub open spec fn unsigned_digits(s: Seq<char>) -> Seq<char> {
    if s.len() > 0 && s[0] == '+' {
        s.drop_first()
    } else {
        s
    }
}

/// What `u64::from_str` accepts: an optional `+`, then one or more ASCII
/// digits whose value fits in a `u64`.
pub open spec fn parse_u64_spec(s: Seq<char>) -> Option<u64> {
    let d = unsigned_digits(s);
    if d.len() == 0 || exists|i: int| 0 <= i < d.len() && !is_digit(d[i]) {
        None
    } else if digits_value(d, d.len() as int) > u64::MAX {
        None
    } else {
        Some(digits_value(d, d.len() as int) as u64)
    }
}

/// What `usize::from_str` accepts.
pub open spec fn parse_usize_spec(s: Seq<char>) -> Option<usize> {
    match parse_u64_spec(s) {
        Some(v) => if v <= usize::MAX {
            Some(v as usize)
        } else {
            None
        },
        None => None,
    }
}

/// What `bool::from_str` accepts: exactly `true` or `false`.
pub open spec fn parse_bool_spec(s: Seq<char>) -> Option<bool> {
    if s == "true"@ {
        Some(true)
    } else if s == "false"@ {
        Some(false)
    } else {
        None
    }
}

proof fn lemma_digits_monotone(d: Seq<char>, k: int, n: int)
    requires
        0 <= k <= n <= d.len(),
        forall|i: int| 0 <= i < d.len() ==> is_digit(d[i]),
    ensures
        digits_value(d, k) <= digits_value(d, n),
    decreases n - k,
{
    if k < n {
        lemma_digits_monotone(d, k, n - 1);
        assert(digits_value(d, n) == digits_value(d, n - 1) * 10 + ((d[n - 1] as u32) - ('0' as u32)));
    }
}

/// `u64::from_str`.
pub fn parse_u64(s: &str) -> (r: Option<u64>)
    ensures
        r == parse_u64_spec(s@),
{
    let v = chars_of(s);
    let start: usize = if v.len() > 0 && v[0] == '+' { 1 } else { 0 };
    let ghost d = unsigned_digits(s@);
    assert(d =~= v@.subrange(start as int, v@.len() as int));
    if v.len() <= start {
        return None;
    }
    let mut acc: u64 = 0;
    let mut i: usize = start;
    while i < v.len()
        invariant
            start <= i <= v.len(),
            v@ == s@,
            d == unsigned_digits(s@),
            start == v@.len() - d.len(),
            d == v@.subrange(start as int, v@.len() as int),
            forall|k: int| 0 <= k < i - start ==> is_digit(d[k]),
            acc == digits_value(d, i - start),
        decreases v.len() - i,
    {
        let c = v[i];
        if !('0' <= c && c <= '9') {
            assert(!is_digit(d[i - start]));
            return None;
        }
        let dig: u64 = (c as u32 - '0' as u32) as u64;
        let ghost k = i - start + 1;
        assert(digits_value(d, k) == digits_value(d, k - 1) * 10 + ((d[k - 1] as u32) - ('0' as u32)));
        match acc.checked_mul(10) {
            None => {
                proof {
                    // a later non-digit gives `None` as well; otherwise the full value is larger
                    if forall|j: int| 0 <= j < d.len() ==> is_digit(d[j]) {
                        lemma_digits_monotone(d, k, d.len() as int);
                    }
                }
                return None;
            },
            Some(m) => match m.checked_add(dig) {
                None => {
                    proof {
                        if forall|j: int| 0 <= j < d.len() ==> is_digit(d[j]) {
                            lemma_digits_monotone(d, k, d.len() as int);
                        }
                    }
                    return None;
                },
                Some(a) => {
                    acc = a;
                },
            },
        }
        i = i + 1;
    }
    Some(acc)
}

/// `usize::from_str`.
pub fn parse_usize(s: &str) -> (r: Option<usize>)
    ensures
        r == parse_usize_spec(s@),
{
    match parse_u64(s) {
        Some(v) => if v <= usize::MAX as u64 {
            Some(v as usize)
        } else {
            None
        },
        None => None,
    }
}

/// `bool::from_str`.
pub fn parse_bool(s: &str) -> (r: Option<bool>)
    ensures
        r == parse_bool_spec(s@),
{
    let v = chars_of(s);
    let t = chars_of("true");
    let f = chars_of("false");
    if chars_eq(&v, &t) {
        Some(true)
    } else if chars_eq(&v, &f) {
        Some(false)
    } else {
        None
    }
}


/// View of an optional string.
pub open spec fn opt_view(o: Option<String>) -> Option<Seq<char>> {
    match o {
        Some(s) => Some(s@),
        None => None,
    }
}

/// Copy of an optional string.
pub fn clone_opt(o: &Option<String>) -> (r: Option<String>)
    ensures
        opt_view(r) == opt_view(*o),
{
    match o {
        Some(s) => Some(s.clone()),
        None => None,
    }
}

/// `s.contains(p)`.
pub fn str_contains(s: &str, p: &str) -> (b: bool)
    ensures
        b == contains(s@, p@),
{
    let sc = chars_of(s);
    let pc = chars_of(p);
    find_from_exec(&sc, &pc, 0).is_some()
}

/// `s.trim()`, owned.
pub fn trim_str(s: &str) -> (r: String)
    ensures
        r@ == trim(s@),
{
    let c = chars_of(s);
    let (lo, hi) = trim_range(&c, 0, c.len());
    assert(c@.subrange(0, c@.len() as int) =~= c@);
    let t = slice_chars(&c, lo, hi);
    string_from_chars(t.as_slice())
}

/// Bytes `char::len_utf8` counts for a character.
pub open spec fn utf8_width(c: char) -> nat {
    if (c as u32) < 0x80 {
        1
    } else if (c as u32) < 0x800 {
        2
    } else if (c as u32) < 0x10000 {
        3
    } else {
        4
    }
}

/// Length in bytes of the UTF-8 encoding of `s` (what `str::len` returns).
pub open spec fn utf8_len(s: Seq<char>) -> nat
    decreases s.len(),
{
    if s.len() == 0 {
        0
    } else {
        utf8_width(s[0]) + utf8_len(s.drop_first())
    }
}

/// How many leading characters of `s` fit in `n` bytes.
pub open spec fn fit_count(s: Seq<char>, n: int) -> nat
    decreases s.len(),
{
    if s.len() == 0 || utf8_width(s[0]) > n {
        0
    } else {
        1 + fit_count(s.drop_first(), n - utf8_width(s[0]))
    }
}

fn char_width(c: char) -> (w: usize)
    ensures
        w == utf8_width(c),
{
    let u = c as u32;
    if u < 0x80 {
        1
    } else if u < 0x800 {
        2
    } else if u < 0x10000 {
        3
    } else {
        4
    }
}

/// The UTF-8 length of `s`, or `None` once it exceeds `cap`.
pub fn utf8_len_upto(s: &Vec<char>, cap: usize) -> (r: Option<usize>)
    ensures
        match r {
            Some(n) => n == utf8_len(s@) && n <= cap,
            None => utf8_len(s@) > cap,
        },
{
    let mut total: usize = 0;
    let mut i: usize = 0;
    assert(s@.subrange(0, s@.len() as int) =~= s@);
    while i < s.len()
        invariant
            i <= s.len(),
            total <= cap,
            utf8_len(s@) == total + utf8_len(s@.subrange(i as int, s@.len() as int)),
        decreases s.len() - i,
    {
        assert(s@.subrange(i as int, s@.len() as int).drop_first() =~= s@.subrange(
            i + 1,
            s@.len() as int,
        ));
        let w = char_width(s[i]);
        if w > cap - total {
            return None;
        }
        total = total + w;
        i = i + 1;
    }
    Some(total)
}

/// The longest prefix of `s` whose UTF-8 encoding fits in `n` bytes.
pub fn utf8_prefix(s: &Vec<char>, n: usize) -> (r: Vec<char>)
    ensures
        r@ == s@.take(fit_count(s@, n as int) as int),
{
    let mut room: usize = n;
    let mut i: usize = 0;
    assert(s@.subrange(0, s@.len() as int) =~= s@);
    while i < s.len() && char_width(s[i]) <= room
        invariant
            i <= s.len(),
            room <= n,
            fit_count(s@, n as int) == i + fit_count(s@.subrange(i as int, s@.len() as int), room as int),
        decreases s.len() - i,
    {
        assert(s@.subrange(i as int, s@.len() as int).drop_first() =~= s@.subrange(
            i + 1,
            s@.len() as int,
        ));
        room = room - char_width(s[i]);
        i = i + 1;
    }
    slice_chars(s, 0, i)
}

/// An owned copy of `s`.
pub fn owned(s: &str) -> (r: String)
    ensures
        r@ == s@,
{
    s.to_owned()
}

} // verus!
