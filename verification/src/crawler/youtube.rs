//! YouTube transcript reading: caption-track selection and timed-text XML.
use vstd::prelude::*;
use crate::error::{ErrorView, SearchXyzError};
use crate::urls::{first_query_value, parse_url, spec_parse_url};
use crate::text::{
    chars_eq, owned, push_str, chars_of, find_from, find_from_exec, join, matches_at, join_chars, lemma_find_from, replace_all,
    replace_all_exec, slice_chars, opt_view, clone_opt, string_from_chars, trim, trim_range, views,
};

verus! {

/// The entity replacements of `decode_html_entities`, applied in this order.
pub open spec fn decode_entities(s: Seq<char>) -> Seq<char> {
    let a = replace_all(s, "&amp;"@, "&"@);
    let b = replace_all(a, "&quot;"@, "\""@);
    let c = replace_all(b, "&#39;"@, "'"@);
    let d = replace_all(c, "&apos;"@, "'"@);
    let e = replace_all(d, "&lt;"@, "<"@);
    replace_all(e, "&gt;"@, ">"@)
}

fn replace_lit(s: &Vec<char>, f: &str, t: &str) -> (r: Vec<char>)
    requires
        f@.len() > 0,
    ensures
        r@ == replace_all(s@, f@, t@),
{
    let fv = chars_of(f);
    let tv = chars_of(t);
    replace_all_exec(s, &fv, &tv)
}

fn decode_chars(s: &Vec<char>) -> (r: Vec<char>)
    ensures
        r@ == decode_entities(s@),
{
    proof {
        reveal_strlit("&amp;");
        reveal_strlit("&quot;");
        reveal_strlit("&#39;");
        reveal_strlit("&apos;");
        reveal_strlit("&lt;");
        reveal_strlit("&gt;");
    }
    let a = replace_lit(s, "&amp;", "&");
    let b = replace_lit(&a, "&quot;", "\"");
    let c = replace_lit(&b, "&#39;", "'");
    let d = replace_lit(&c, "&apos;", "'");
    let e = replace_lit(&d, "&lt;", "<");
    replace_lit(&e, "&gt;", ">")
}

/// Decode basic HTML entities inside subtitle text.
pub fn decode_html_entities(input: &str) -> (r: String)
    ensures
        r@ == decode_entities(input@),
{
    let s = chars_of(input);
    let d = decode_chars(&s);
    string_from_chars(d.as_slice())
}

/// Output so far and whether a tag is open, after reading all of `s`
/// (`<` opens a tag, `>` closes it, other characters are kept outside tags).
pub open spec fn strip_tags_state(s: Seq<char>) -> (Seq<char>, bool)
    decreases s.len(),
{
    if s.len() == 0 {
        (Seq::empty(), false)
    } else {
        let (o, in_tag) = strip_tags_state(s.drop_last());
        let c = s.last();
        if c == '<' {
            (o, true)
        } else if c == '>' {
            (o, false)
        } else if !in_tag {
            (o.push(c), false)
        } else {
            (o, true)
        }
    }
}

pub open spec fn strip_tags_spec(s: Seq<char>) -> Seq<char> {
    strip_tags_state(s).0
}

fn strip_tag_chars(s: &Vec<char>) -> (r: Vec<char>)
    ensures
        r@ == strip_tags_spec(s@),
{
    let mut out: Vec<char> = Vec::new();
    let mut in_tag = false;
    let mut i: usize = 0;
    while i < s.len()
        invariant
            i <= s.len(),
            (out@, in_tag) == strip_tags_state(s@.take(i as int)),
        decreases s.len() - i,
    {
        assert(s@.take(i + 1).drop_last() =~= s@.take(i as int));
        let c = s[i];
        if c == '<' {
            in_tag = true;
        } else if c == '>' {
            in_tag = false;
        } else if !in_tag {
            out.push(c);
        }
        i = i + 1;
    }
    assert(s@.take(s.len() as int) =~= s@);
    out
}

/// Removes markup tags, keeping the text between them.
pub fn strip_tags(input: &str) -> (r: String)
    ensures
        r@ == strip_tags_spec(input@),
{
    let s = chars_of(input);
    let o = strip_tag_chars(&s);
    string_from_chars(o.as_slice())
}

/// Caption lines of `<text ...>..</text>` elements at or after `i`: each body
/// trimmed, then (if not empty) entity-decoded and stripped of tags, kept when
/// still not empty.
pub open spec fn transcript_lines_from(s: Seq<char>, i: int) -> Seq<Seq<char>>
    decreases s.len() + 1 - i,
{
    if i < 0 || i > s.len() {
        Seq::empty()
    } else {
        match find_from(s, "<text"@, i) {
            None => Seq::empty(),
            Some(a) => match find_from(s, seq!['>'], a) {
                None => Seq::empty(),
                Some(g) => match find_from(s, "</text>"@, g + 1) {
                    None => Seq::empty(),
                    Some(c) => if i <= a <= g && g + 1 <= c && c + "</text>"@.len() <= s.len()
                        && "</text>"@.len() > 0 {
                        let raw = trim(s.subrange(g + 1, c));
                        let rest = transcript_lines_from(s, c + "</text>"@.len());
                        if raw.len() == 0 {
                            rest
                        } else {
                            let cleaned = strip_tags_spec(decode_entities(raw));
                            if cleaned.len() == 0 {
                                rest
                            } else {
                                seq![cleaned] + rest
                            }
                        }
                    } else {
                        Seq::empty()
                    },
                },
            },
        }
    }
}

/// The transcript: all caption lines joined by single spaces.
pub open spec fn transcript_of(s: Seq<char>) -> Seq<char> {
    join(transcript_lines_from(s, 0), seq![' '])
}

/// Parse the timed text XML format and merge lines into a continuous transcript.
pub fn parse_xml_transcript(xml: &str) -> (r: String)
    ensures
        r@ == transcript_of(xml@),
{
    let s = chars_of(xml);
    let open = chars_of("<text");
    let close = chars_of("</text>");
    let mut gt: Vec<char> = Vec::new();
    gt.push('>');
    let mut parts: Vec<Vec<char>> = Vec::new();
    let mut cursor: usize = 0;
    loop
        invariant
            cursor <= s.len(),
            s@ == xml@,
            open@ == "<text"@,
            close@ == "</text>"@,
            gt@ == seq!['>'],
            views(parts@) + transcript_lines_from(s@, cursor as int) == transcript_lines_from(
                s@,
                0,
            ),
        ensures
            views(parts@) == transcript_lines_from(xml@, 0),
        decreases s.len() - cursor,
    {
        proof {
            reveal_strlit("</text>");
        }
        let a = match find_from_exec(&s, &open, cursor) {
            None => {
                assert(transcript_lines_from(s@, cursor as int) =~= Seq::empty());
                assert(views(parts@) + Seq::<Seq<char>>::empty() =~= views(parts@));
                break;
            },
            Some(a) => a,
        };
        proof {
            lemma_find_from(s@, open@, cursor as int);
        }
        let g = match find_from_exec(&s, &gt, a) {
            None => {
                assert(transcript_lines_from(s@, cursor as int) =~= Seq::empty());
                assert(views(parts@) + Seq::<Seq<char>>::empty() =~= views(parts@));
                break;
            },
            Some(g) => g,
        };
        proof {
            lemma_find_from(s@, gt@, a as int);
        }
        let c = match find_from_exec(&s, &close, g + 1) {
            None => {
                assert(transcript_lines_from(s@, cursor as int) =~= Seq::empty());
                assert(views(parts@) + Seq::<Seq<char>>::empty() =~= views(parts@));
                break;
            },
            Some(c) => c,
        };
        proof {
            lemma_find_from(s@, close@, g + 1);
        }
        let (lo, hi) = trim_range(&s, g + 1, c);
        let next = c + close.len();
        if lo < hi {
            let raw = slice_chars(&s, lo, hi);
            let decoded = decode_chars(&raw);
            let cleaned = strip_tag_chars(&decoded);
            if cleaned.len() > 0 {
                let ghost old_parts = parts@;
                parts.push(cleaned);
                proof {
                    assert(views(parts@) =~= views(old_parts).push(cleaned@));
                    assert(views(parts@) + transcript_lines_from(s@, next as int) =~= views(
                        old_parts,
                    ) + (seq![cleaned@] + transcript_lines_from(s@, next as int)));
                }
            }
        }
        cursor = next;
    }
    let sep = chars_of(" ");
    proof {
        reveal_strlit(" ");
        assert(sep@ =~= seq![' ']);
    }
    let joined = join_chars(&parts, sep.as_slice());
    string_from_chars(joined.as_slice())
}


/// The player-response JSON text embedded in a watch page: what follows
/// `ytInitialPlayerResponse = ` up to the first `;var `, or failing that the
/// first `;</script>`, or failing that the first `</script>`; trimmed, and a
/// final `;` (with the white space before it) removed.
pub open spec fn player_json(s: Seq<char>) -> Option<Seq<char>> {
    let m = "ytInitialPlayerResponse = "@;
    match find_from(s, m, 0) {
        None => None,
        Some(st) => {
            let b = st + m.len();
            let end = match find_from(s, ";var "@, b) {
                Some(e) => Some(e),
                None => match find_from(s, ";</script>"@, b) {
                    Some(e) => Some(e),
                    None => find_from(s, "</script>"@, b),
                },
            };
            match end {
                None => None,
                Some(e) => if 0 <= b <= e <= s.len() {
                    let j = trim(s.subrange(b, e));
                    Some(
                        if j.len() > 0 && j.last() == ';' {
                            trim(j.drop_last())
                        } else {
                            j
                        },
                    )
                } else {
                    None
                },
            }
        },
    }
}

/// Locates the embedded player-response JSON of a watch page.
pub fn player_response_json(html: &str) -> (r: Option<String>)
    ensures
        match r {
            Some(j) => player_json(html@) == Some(j@),
            None => player_json(html@) is None,
        },
{
    let s = chars_of(html);
    let m = chars_of("ytInitialPlayerResponse = ");
    let st = match find_from_exec(&s, &m, 0) {
        None => return None,
        Some(st) => st,
    };
    proof {
        lemma_find_from(s@, m@, 0);
        assert(matches_at(s@, m@, st as int));
        assert(st + m@.len() <= s@.len());
    }
    let slen = s.len();
    assert(st + m.len() <= slen);
    let b = st + m.len();
    let p1 = chars_of(";var ");
    let p2 = chars_of(";</script>");
    let p3 = chars_of("</script>");
    let end = match find_from_exec(&s, &p1, b) {
        Some(e) => Some(e),
        None => match find_from_exec(&s, &p2, b) {
            Some(e) => Some(e),
            None => find_from_exec(&s, &p3, b),
        },
    };
    match end {
        None => None,
        Some(e) => {
            proof {
                lemma_find_from(s@, p1@, b as int);
                lemma_find_from(s@, p2@, b as int);
                lemma_find_from(s@, p3@, b as int);
            }
            let (lo, hi) = trim_range(&s, b, e);
            if lo < hi && s[hi - 1] == ';' {
                let (lo2, hi2) = trim_range(&s, lo, hi - 1);
                assert(s@.subrange(lo as int, hi as int).drop_last() =~= s@.subrange(
                    lo as int,
                    hi - 1,
                ));
                let j = slice_chars(&s, lo2, hi2);
                Some(string_from_chars(j.as_slice()))
            } else {
                let j = slice_chars(&s, lo, hi);
                Some(string_from_chars(j.as_slice()))
            }
        },
    }
}

/// A caption track listed in the player response.
#[derive(Debug, Clone)]
pub struct CaptionTrack {
    /// `languageCode`, when it is a string.
    pub language_code: Option<String>,
    /// `baseUrl`, when it is a string.
    pub base_url: Option<String>,
}

/// Spec form of `CaptionTrack`.
pub struct CaptionTrackView {
    pub language_code: Option<Seq<char>>,
    pub base_url: Option<Seq<char>>,
}

impl View for CaptionTrack {
    type V = CaptionTrackView;

    open spec fn view(&self) -> CaptionTrackView {
        CaptionTrackView {
            language_code: opt_view(self.language_code),
            base_url: opt_view(self.base_url),
        }
    }
}

/// The views of a list of tracks.
pub open spec fn track_views(v: Seq<CaptionTrack>) -> Seq<CaptionTrackView> {
    v.map_values(|t: CaptionTrack| t@)
}

/// Index of the first track whose language code is `lang`.
pub open spec fn first_lang_track(tracks: Seq<CaptionTrackView>, lang: Seq<char>) -> Option<int> {
    if exists|i: int| 0 <= i < tracks.len() && tracks[i].language_code == Some(lang) {
        Some(
            choose|i: int|
                0 <= i < tracks.len() && tracks[i].language_code == Some(lang) && forall|j: int|
                    0 <= j < i ==> tracks[j].language_code != Some(lang),
        )
    } else {
        None
    }
}

/// The caption URL chosen among `tracks`: the base URL of the first track in
/// `lang`; when there is none (or it has no base URL), that of the first track.
pub open spec fn chosen_caption(tracks: Seq<CaptionTrackView>, lang: Seq<char>) -> Option<Seq<char>> {
    let sel = match first_lang_track(tracks, lang) {
        Some(i) => tracks[i].base_url,
        None => None,
    };
    if sel is None && tracks.len() > 0 {
        tracks[0].base_url
    } else {
        sel
    }
}

/// Chooses the caption URL among the listed tracks.
pub fn select_caption_url(tracks: &Vec<CaptionTrack>, lang: &str) -> (r: Option<String>)
    ensures
        opt_view(r) == chosen_caption(track_views(tracks@), lang@),
{
    let ghost tv = track_views(tracks@);
    let l = chars_of(lang);
    let mut sel: Option<String> = None;
    let mut i: usize = 0;
    let mut found = false;
    while i < tracks.len()
        invariant_except_break
            !found,
            sel is None,
        invariant
            i <= tracks.len(),
            l@ == lang@,
            tv == track_views(tracks@),
            forall|j: int| 0 <= j < i ==> tv[j].language_code != Some(lang@),
        ensures
            found ==> (i < tracks.len() && tv[i as int].language_code == Some(lang@) && opt_view(
                sel,
            ) == tv[i as int].base_url && forall|j: int|
                0 <= j < i ==> tv[j].language_code != Some(lang@)),
            !found ==> (sel is None && forall|j: int|
                0 <= j < tracks.len() ==> tv[j].language_code != Some(lang@)),
        decreases tracks.len() - i,
    {
        let t = &tracks[i];
        assert(tv[i as int] == t@);
        match &t.language_code {
            Some(code) => {
                let c = chars_of(code.as_str());
                if crate::text::chars_eq(&c, &l) {
                    sel = clone_opt(&t.base_url);
                    found = true;
                    break;
                }
            },
            None => {},
        }
        i = i + 1;
    }
    proof {
        if found {
            let k = first_lang_track(tv, lang@);
            assert(k is Some);
            let kk = k->0;
            assert(kk == i) by {
                if kk < i {
                } else if kk > i {
                }
            }
        } else {
            assert(first_lang_track(tv, lang@) is None);
        }
    }
    if sel.is_none() && tracks.len() > 0 {
        assert(tv[0] == tracks@[0]@);
        clone_opt(&tracks[0].base_url)
    } else {
        sel
    }
}

/// The string fields `fields` of each element of the array that the JSON
/// pointer `pointer` reaches in the JSON text `json`, as `serde_json` reads
/// them (a field that is missing or not a string is `None`); `None` when the
/// text is not JSON or the pointer reaches no array.
pub uninterp spec fn spec_json_string_rows(
    json: Seq<char>,
    pointer: Seq<char>,
    fields: Seq<Seq<char>>,
) -> Option<Seq<Seq<Option<Seq<char>>>>>;

/// The views of rows of optional strings.
pub open spec fn rows_view(v: Seq<Vec<Option<String>>>) -> Seq<Seq<Option<Seq<char>>>> {
    v.map_values(|r: Vec<Option<String>>| r@.map_values(|x: Option<String>| opt_view(x)))
}

/// Wraps `serde_json::from_str` into a `serde_json::Value`, then
/// `Value::pointer`, `as_array`, and for each element `get` and `as_str` of
/// each field; the rows are named by `spec_json_string_rows`, one entry per
/// field in each row.
#[verifier::external_body]
fn json_string_rows(json: &str, pointer: &str, fields: &Vec<String>) -> (r: Option<Vec<Vec<Option<String>>>>)
    ensures
        match r {
            Some(v) => spec_json_string_rows(json@, pointer@, fields@.map_values(|f: String| f@))
                == Some(rows_view(v@)) && forall|i: int|
                0 <= i < v@.len() ==> (#[trigger] v@[i])@.len() == fields@.len(),
            None => spec_json_string_rows(json@, pointer@, fields@.map_values(|f: String| f@)) is None,
        },
{
    let v: serde_json::Value = serde_json::from_str(json).ok()?;
    let arr = v.pointer(pointer)?.as_array()?;
    Some(arr.iter().map(|t| fields.iter().map(|f| t.get(f.as_str()).and_then(|x| x.as_str()).map(|x| x.to_string())).collect()).collect())
}

/// A caption track from its row of (`languageCode`, `baseUrl`).
pub open spec fn track_of_row(r: Seq<Option<Seq<char>>>) -> CaptionTrackView {
    CaptionTrackView { language_code: r[0], base_url: r[1] }
}

/// The caption tracks a player-response JSON text lists under
/// `captions.playerCaptionsTracklistRenderer.captionTracks`, with their
/// `languageCode` and `baseUrl`.
pub open spec fn caption_tracks_of(json: Seq<char>) -> Option<Seq<CaptionTrackView>> {
    match spec_json_string_rows(
        json,
        "/captions/playerCaptionsTracklistRenderer/captionTracks"@,
        seq!["languageCode"@, "baseUrl"@],
    ) {
        None => None,
        Some(rows) => Some(rows.map_values(|r: Seq<Option<Seq<char>>>| track_of_row(r))),
    }
}

/// The caption tracks of a player-response JSON text.
fn caption_tracks(json: &str) -> (r: Option<Vec<CaptionTrack>>)
    ensures
        match r {
            Some(v) => caption_tracks_of(json@) == Some(track_views(v@)),
            None => caption_tracks_of(json@) is None,
        },
{
    let mut fields: Vec<String> = Vec::new();
    fields.push(owned("languageCode"));
    fields.push(owned("baseUrl"));
    assert(fields@.map_values(|f: String| f@) =~= seq!["languageCode"@, "baseUrl"@]);
    let rows = match json_string_rows(json, "/captions/playerCaptionsTracklistRenderer/captionTracks", &fields) {
        None => return None,
        Some(rows) => rows,
    };
    let ghost rv = rows_view(rows@);
    let mut out: Vec<CaptionTrack> = Vec::new();
    let mut i: usize = 0;
    while i < rows.len()
        invariant
            i <= rows.len(),
            out.len() == i,
            rv == rows_view(rows@),
            forall|k: int| 0 <= k < rows@.len() ==> (#[trigger] rows@[k])@.len() == 2,
            forall|k: int| 0 <= k < i ==> (#[trigger] out@[k])@ == track_of_row(rv[k]),
        decreases rows.len() - i,
    {
        assert(rows@[i as int]@.len() == 2);
        let t = CaptionTrack {
            language_code: clone_opt(&rows[i][0]),
            base_url: clone_opt(&rows[i][1]),
        };
        assert(rv[i as int][0] == opt_view(rows@[i as int]@[0]));
        assert(rv[i as int][1] == opt_view(rows@[i as int]@[1]));
        out.push(t);
        i = i + 1;
    }
    assert(track_views(out@) =~= rv.map_values(|r: Seq<Option<Seq<char>>>| track_of_row(r)));
    Some(out)
}

/// The timed-text URL a watch page leads to: in its player response, the
/// track chosen for `lang`.
pub open spec fn timedtext_url_of(html: Seq<char>, lang: Seq<char>) -> Option<Seq<char>> {
    match player_json(html) {
        None => None,
        Some(j) => match caption_tracks_of(j) {
            None => None,
            Some(ts) => chosen_caption(ts, lang),
        },
    }
}

/// Find the transcript XML timedtext track URL from the video HTML source.
pub fn find_timedtext_url(html: &str, lang: &str) -> (r: Option<String>)
    ensures
        opt_view(r) == timedtext_url_of(html@, lang@),
{
    let j = match player_response_json(html) {
        None => return None,
        Some(j) => j,
    };
    match caption_tracks(j.as_str()) {
        None => None,
        Some(ts) => select_caption_url(&ts, lang),
    }
}

/// `s` without its leading `/` characters.
pub open spec fn trim_leading_slashes(s: Seq<char>) -> Seq<char>
    decreases s.len(),
{
    if s.len() > 0 && s[0] == '/' {
        trim_leading_slashes(s.drop_first())
    } else {
        s
    }
}

/// Where a YouTube URL puts its video ID: the `v` query value on
/// `youtube.com` (with or without `www.` or `m.`), the path without leading
/// slashes on `youtu.be`; nothing for other hosts or an empty short path.
pub open spec fn video_id_candidate_of(url: Seq<char>) -> Option<Seq<char>> {
    match spec_parse_url(url) {
        None => None,
        Some(p) => {
            let host = match p.host {
                Some(h) => h,
                None => Seq::<char>::empty(),
            };
            if host == "www.youtube.com"@ || host == "youtube.com"@ || host == "m.youtube.com"@ {
                first_query_value(p.query, "v"@)
            } else if host == "youtu.be"@ {
                let path = trim_leading_slashes(p.path);
                if path.len() > 0 {
                    Some(path)
                } else {
                    None
                }
            } else {
                None
            }
        },
    }
}

/// The video ID of a YouTube URL: the value found where the URL puts it,
/// when it has the 11 characters of a video ID.
pub open spec fn video_id_of(url: Seq<char>) -> Option<Seq<char>> {
    match video_id_candidate_of(url) {
        Some(id) => if id.len() == 11 {
            Some(id)
        } else {
            None
        },
        None => None,
    }
}

/// The video ID a found value gives: the value when it has 11 characters.
pub open spec fn eleven(v: Option<Seq<char>>) -> Option<Seq<char>> {
    match v {
        Some(x) => if x.len() == 11 {
            Some(x)
        } else {
            None
        },
        None => None,
    }
}

/// Law: the video ID of a URL. On `youtube.com`, `www.youtube.com` and
/// `m.youtube.com` it is the first `v` query value; on `youtu.be` the path
/// without its leading slashes (when not empty); each only when it has 11
/// characters. A URL that does not parse, or names another host, has none;
/// every ID found has 11 characters.
pub proof fn lemma_video_id(url: Seq<char>)
    ensures
        video_id_of(url) is Some ==> video_id_of(url)->0.len() == 11,
        spec_parse_url(url) is None ==> video_id_of(url) is None,
        spec_parse_url(url) is Some && (spec_parse_url(url)->0.host == Some("www.youtube.com"@)
            || spec_parse_url(url)->0.host == Some("youtube.com"@) || spec_parse_url(url)->0.host
            == Some("m.youtube.com"@)) ==> video_id_of(url) == eleven(
            first_query_value(spec_parse_url(url)->0.query, "v"@),
        ),
        spec_parse_url(url) is Some && spec_parse_url(url)->0.host == Some("youtu.be"@) ==> video_id_of(url)
            == eleven(
            if trim_leading_slashes(spec_parse_url(url)->0.path).len() > 0 {
                Some(trim_leading_slashes(spec_parse_url(url)->0.path))
            } else {
                None
            },
        ),
        spec_parse_url(url) is Some && spec_parse_url(url)->0.host != Some("www.youtube.com"@)
            && spec_parse_url(url)->0.host != Some("youtube.com"@) && spec_parse_url(url)->0.host
            != Some("m.youtube.com"@) && spec_parse_url(url)->0.host != Some("youtu.be"@)
            ==> video_id_of(url) is None,
{
    if spec_parse_url(url) is Some {
        let p = spec_parse_url(url)->0;
        if p.host == Some("youtu.be"@) {
            reveal_strlit("youtu.be");
            reveal_strlit("www.youtube.com");
            reveal_strlit("youtube.com");
            reveal_strlit("m.youtube.com");
            assert("youtu.be"@.len() != "www.youtube.com"@.len());
            assert("youtu.be"@.len() != "youtube.com"@.len());
            assert("youtu.be"@.len() != "m.youtube.com"@.len());
        }
        if p.host is None {
            assert("www.youtube.com"@.len() > 0) by {
                reveal_strlit("www.youtube.com");
            }
            assert("youtube.com"@.len() > 0) by {
                reveal_strlit("youtube.com");
            }
            assert("m.youtube.com"@.len() > 0) by {
                reveal_strlit("m.youtube.com");
            }
            assert("youtu.be"@.len() > 0) by {
                reveal_strlit("youtu.be");
            }
        }
    }
}

/// Extract the 11-character video ID from the YouTube URL formats.
pub fn extract_video_id(url: &str) -> (r: Option<String>)
    ensures
        opt_view(r) == video_id_of(url@),
{
    match video_id_candidate(url) {
        Some(id) => if id.as_str().unicode_len() == 11 {
            Some(id)
        } else {
            None
        },
        None => None,
    }
}

fn video_id_candidate(url: &str) -> (r: Option<String>)
    ensures
        opt_view(r) == video_id_candidate_of(url@),
{
    let p = match parse_url(url) {
        None => return None,
        Some(p) => p,
    };
    let host: Vec<char> = match &p.host {
        Some(h) => chars_of(h.as_str()),
        None => Vec::new(),
    };
    let w = chars_of("www.youtube.com");
    let y = chars_of("youtube.com");
    let m = chars_of("m.youtube.com");
    let b = chars_of("youtu.be");
    if chars_eq(&host, &w) || chars_eq(&host, &y) || chars_eq(&host, &m) {
        let ghost qv = p@.query;
        let v = chars_of("v");
        let mut i: usize = 0;
        assert(qv.subrange(0, qv.len() as int) =~= qv);
        while i < p.query.len()
            invariant
                i <= p.query.len(),
                qv == p@.query,
                v@ == "v"@,
                video_id_candidate_of(url@) == first_query_value(qv, "v"@),
                first_query_value(qv, "v"@) == first_query_value(qv.subrange(i as int, qv.len() as int), "v"@),
            decreases p.query.len() - i,
        {
            let k = chars_of(p.query[i].0.as_str());
            proof {
                assert(qv.subrange(i as int, qv.len() as int).drop_first() =~= qv.subrange(
                    i + 1,
                    qv.len() as int,
                ));
                assert(qv[i as int] == (p.query@[i as int].0@, p.query@[i as int].1@));
            }
            if chars_eq(&k, &v) {
                assert(qv.subrange(i as int, qv.len() as int)[0] == qv[i as int]);
                return Some(p.query[i].1.clone());
            }
            i = i + 1;
        }
        None
    } else if chars_eq(&host, &b) {
        let path = chars_of(p.path.as_str());
        let mut i: usize = 0;
        assert(path@.subrange(0, path@.len() as int) =~= path@);
        while i < path.len() && path[i] == '/'
            invariant
                i <= path.len(),
                video_id_candidate_of(url@) == (if trim_leading_slashes(path@).len() > 0 {
                    Some(trim_leading_slashes(path@))
                } else {
                    None
                }),
                trim_leading_slashes(path@) == trim_leading_slashes(path@.subrange(i as int, path@.len() as int)),
            decreases path.len() - i,
        {
            assert(path@.subrange(i as int, path@.len() as int).drop_first() =~= path@.subrange(
                i + 1,
                path@.len() as int,
            ));
            i = i + 1;
        }
        if i < path.len() {
            let rest = slice_chars(&path, i, path.len());
            Some(string_from_chars(rest.as_slice()))
        } else {
            assert(path@.subrange(i as int, path@.len() as int) =~= Seq::<char>::empty());
            None
        }
    } else {
        None
    }
}

/// The watch page a transcript request fetches first, or the error for a URL
/// that names no video.
pub open spec fn watch_page_of(url: Seq<char>) -> Result<Seq<char>, ErrorView> {
    match video_id_of(url) {
        Some(id) => Ok("https://www.youtube.com/watch?v="@ + id),
        None => Err(
            ErrorView::CrawlFailed {
                url,
                reason: "Invalid YouTube URL: could not parse Video ID"@,
            },
        ),
    }
}

/// First step of reading a video's transcript: the watch page to fetch.
pub fn transcript_watch_url(url: &str) -> (r: Result<String, SearchXyzError>)
    ensures
        match (r, watch_page_of(url@)) {
            (Ok(a), Ok(b)) => a@ == b,
            (Err(x), Err(y)) => x@ == y,
            _ => false,
        },
{
    match extract_video_id(url) {
        Some(id) => {
            let mut o: Vec<char> = Vec::new();
            push_str(&mut o, "https://www.youtube.com/watch?v=");
            push_str(&mut o, id.as_str());
            Ok(string_from_chars(o.as_slice()))
        },
        None => Err(
            SearchXyzError::CrawlFailed {
                url: owned(url),
                reason: owned("Invalid YouTube URL: could not parse Video ID"),
            },
        ),
    }
}

/// Second step: the English caption track the watch page lists, or the error
/// for a video without captions.
pub open spec fn track_url_of(url: Seq<char>, html: Seq<char>) -> Result<Seq<char>, ErrorView> {
    match timedtext_url_of(html, "en"@) {
        Some(t) => Ok(t),
        None => Err(
            ErrorView::CrawlFailed {
                url,
                reason: "No captions or transcript tracks found for this video"@,
            },
        ),
    }
}

/// Second step of reading a transcript, on the fetched watch page.
pub fn transcript_track_url(url: &str, watch_html: &str) -> (r: Result<String, SearchXyzError>)
    ensures
        match (r, track_url_of(url@, watch_html@)) {
            (Ok(a), Ok(b)) => a@ == b,
            (Err(x), Err(y)) => x@ == y,
            _ => false,
        },
{
    match find_timedtext_url(watch_html, "en") {
        Some(t) => Ok(t),
        None => Err(
            SearchXyzError::CrawlFailed {
                url: owned(url),
                reason: owned("No captions or transcript tracks found for this video"),
            },
        ),
    }
}

/// Last step: the transcript read from the fetched timed text, or the error
/// when it holds no text.
pub open spec fn transcript_outcome(url: Seq<char>, xml: Seq<char>) -> Result<Seq<char>, ErrorView> {
    let t = transcript_of(xml);
    if t.len() == 0 {
        Err(
            ErrorView::CrawlFailed {
                url,
                reason: "Transcript download resulted in empty content"@,
            },
        )
    } else {
        Ok(t)
    }
}

/// Last step of reading a transcript, on the fetched timed-text XML.
pub fn transcript_from_xml(url: &str, xml: &str) -> (r: Result<String, SearchXyzError>)
    ensures
        match (r, transcript_outcome(url@, xml@)) {
            (Ok(a), Ok(b)) => a@ == b,
            (Err(x), Err(y)) => x@ == y,
            _ => false,
        },
{
    let t = parse_xml_transcript(xml);
    if t.as_str().is_empty() {
        Err(
            SearchXyzError::CrawlFailed {
                url: owned(url),
                reason: owned("Transcript download resulted in empty content"),
            },
        )
    } else {
        Ok(t)
    }
}

} // verus!
