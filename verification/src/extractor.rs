//! Turning a fetched page into readable text: the page's title and
//! description, its main content with noisy elements left out, normalised
//! to markdown-like lines, and its links. PDF text passes through as is.
use vstd::prelude::*;
use crate::config::ExtractorConfig;
use crate::error::{ErrorView, SearchXyzError};
use crate::html::{
    FlatNode, FlatNodeView, MatchView, NodeKind, NodeKindView, first_inner_html, fragment_nodes,
    match_views, node_views, select_all, spec_first_inner_html, spec_fragment_nodes,
    spec_select_all,
};
use crate::seqs::{filter_map, lemma_filter_map_step};
use crate::text::{
    chars_eq, chars_of, contains, lines, opt_view, owned, push_all, push_str, slice_chars,
    split_lines, str_contains, str_views, string_from_chars, trim, trim_range, utf8_len,
    utf8_len_upto,
};
use crate::urls::{parse_url, spec_parse_url, spec_url_join, spec_url_string, url_join, url_string};

verus! {

/// Extracted content from a crawled page.
#[derive(Debug, Clone)]
pub struct ExtractedContent {
    pub url: String,
    pub title: String,
    pub description: String,
    pub content_markdown: String,
    pub links: Vec<String>,
}

/// Spec form of `ExtractedContent`.
pub struct ExtractedView {
    pub url: Seq<char>,
    pub title: Seq<char>,
    pub description: Seq<char>,
    pub content_markdown: Seq<char>,
    pub links: Seq<Seq<char>>,
}

impl View for ExtractedContent {
    type V = ExtractedView;

    open spec fn view(&self) -> ExtractedView {
        ExtractedView {
            url: self.url@,
            title: self.title@,
            description: self.description@,
            content_markdown: self.content_markdown@,
            links: str_views(self.links@),
        }
    }
}

// ── Markdown normalisation ──────────────────────────────────

/// Lines trimmed; a run of blank lines becomes one empty line (none when
/// the run follows another blank); every kept line ends with `\n`.
pub open spec fn md_lines(ls: Seq<Seq<char>>, prev_blank: bool) -> Seq<char>
    decreases ls.len(),
{
    if ls.len() == 0 {
        Seq::empty()
    } else {
        let t = trim(ls[0]);
        if t.len() == 0 {
            if prev_blank {
                md_lines(ls.drop_first(), true)
            } else {
                seq!['\n'] + md_lines(ls.drop_first(), true)
            }
        } else {
            t + seq!['\n'] + md_lines(ls.drop_first(), false)
        }
    }
}

/// The normalised text: blank-line runs collapsed, lines trimmed, the whole trimmed.
pub open spec fn markdown_of(text: Seq<char>) -> Seq<char> {
    trim(md_lines(lines(text), false))
}

/// Normalise white space for the final markdown output.
pub fn html_to_markdown(text: &str) -> (r: String)
    ensures
        r@ == markdown_of(text@),
{
    let c = chars_of(text);
    let ls = split_lines(&c);
    let ghost lv = crate::text::views(ls@);
    let mut out: Vec<char> = Vec::new();
    let mut prev_blank = false;
    let mut i: usize = 0;
    assert(lv.subrange(0, lv.len() as int) =~= lv);
    while i < ls.len()
        invariant
            i <= ls.len(),
            lv == crate::text::views(ls@),
            lv == lines(text@),
            out@ + md_lines(lv.subrange(i as int, lv.len() as int), prev_blank) == md_lines(lv, false),
        decreases ls.len() - i,
    {
        let ghost rest = lv.subrange(i as int, lv.len() as int);
        assert(rest.drop_first() =~= lv.subrange(i + 1, lv.len() as int));
        assert(rest[0] == ls@[i as int]@);
        let line = &ls[i];
        let (lo, hi) = trim_range(line, 0, line.len());
        assert(line@.subrange(0, line@.len() as int) =~= line@);
        if lo == hi {
            if !prev_blank {
                out.push('\n');
                assert(out@ + md_lines(rest.drop_first(), true) =~= out@.drop_last() + (seq!['\n']
                    + md_lines(rest.drop_first(), true)));
            }
            prev_blank = true;
        } else {
            let ghost before = out@;
            let t = slice_chars(line, lo, hi);
            push_all(&mut out, t.as_slice());
            out.push('\n');
            assert(out@ + md_lines(rest.drop_first(), false) =~= before + (t@ + seq!['\n']
                + md_lines(rest.drop_first(), false)));
            prev_blank = false;
        }
        i = i + 1;
    }
    assert(lv.subrange(i as int, lv.len() as int) =~= Seq::<Seq<char>>::empty());
    assert(out@ + Seq::<char>::empty() =~= out@);
    let (lo, hi) = trim_range(&out, 0, out.len());
    assert(out@.subrange(0, out@.len() as int) =~= out@);
    let t = slice_chars(&out, lo, hi);
    string_from_chars(t.as_slice())
}

// ── Noise stripping ─────────────────────────────────────────

/// Elements that stand on lines of their own.
pub open spec fn is_block(name: Seq<char>) -> bool {
    name == "p"@ || name == "div"@ || name == "br"@ || name == "h1"@ || name == "h2"@ || name
        == "h3"@ || name == "h4"@ || name == "h5"@ || name == "h6"@ || name == "li"@ || name
        == "tr"@ || name == "blockquote"@ || name == "pre"@ || name == "hr"@
}

/// The markdown heading mark of an element.
pub open spec fn heading_mark(name: Seq<char>) -> Seq<char> {
    if name == "h1"@ {
        "# "@
    } else if name == "h2"@ {
        "## "@
    } else if name == "h3"@ {
        "### "@
    } else if name == "h4"@ {
        "#### "@
    } else {
        Seq::empty()
    }
}

/// The text of node `i` and what is below it, `fuel` levels deep: nothing
/// for a stripped node; a text node's trimmed text and a space, when not
/// empty; an element's children, between line breaks for block elements
/// and after a heading mark for headings.
pub open spec fn walk(nodes: Seq<FlatNodeView>, i: int, fuel: nat) -> Seq<char>
    decreases fuel, 0nat,
{
    if fuel == 0 || i < 0 || i >= nodes.len() {
        Seq::empty()
    } else if nodes[i].skipped {
        Seq::empty()
    } else {
        match nodes[i].kind {
            NodeKindView::Text(t) => if trim(t).len() > 0 {
                trim(t).push(' ')
            } else {
                Seq::empty()
            },
            NodeKindView::Element(name) => {
                let br: Seq<char> = if is_block(name) {
                    seq!['\n']
                } else {
                    Seq::empty()
                };
                br + heading_mark(name) + walk_kids(nodes, nodes[i].children, (fuel - 1) as nat) + br
            },
            NodeKindView::Other => walk_kids(nodes, nodes[i].children, (fuel - 1) as nat),
        }
    }
}

/// The texts of a list of children, in order.
pub open spec fn walk_kids(nodes: Seq<FlatNodeView>, kids: Seq<usize>, fuel: nat) -> Seq<char>
    decreases fuel, kids.len(),
{
    if kids.len() == 0 {
        Seq::empty()
    } else {
        walk(nodes, kids[0] as int, fuel) + walk_kids(nodes, kids.drop_first(), fuel)
    }
}

/// The text of an HTML fragment without the elements the strip selectors
/// match: the walk from its first node, as deep as the tree has nodes.
pub open spec fn stripped_text(html: Seq<char>, strip: Seq<Seq<char>>) -> Seq<char> {
    let (nodes, first) = spec_fragment_nodes(html, strip);
    match first {
        Some(i) => walk(nodes, i as int, nodes.len()),
        None => Seq::empty(),
    }
}

/// Elements whose text is set on a line of its own: paragraphs, divisions,
/// line breaks, headings, list items, table rows, quotations, preformatted
/// text and rules.
pub open spec fn line_elements() -> Seq<Seq<char>> {
    seq![
        "p"@, "div"@, "br"@, "h1"@, "h2"@, "h3"@, "h4"@, "h5"@, "h6"@, "li"@, "tr"@,
        "blockquote"@, "pre"@, "hr"@,
    ]
}

/// Law: the text of a kept element listed in `line_elements` (`li`
/// among them) is set on a line of its own: a line break, then its heading
/// mark and its children's text, then a line break. Any other element adds
/// no line break and no mark: its text is its children's.
pub proof fn lemma_line_elements(nodes: Seq<FlatNodeView>, i: int, fuel: nat, name: Seq<char>)
    requires
        0 <= i < nodes.len(),
        fuel > 0,
        !nodes[i].skipped,
        nodes[i].kind == NodeKindView::Element(name),
    ensures
        line_elements().contains(name) ==> walk(nodes, i, fuel) == seq!['\n'] + heading_mark(name)
            + walk_kids(nodes, nodes[i].children, (fuel - 1) as nat) + seq!['\n'],
        line_elements().contains(name) ==> walk(nodes, i, fuel)[0] == '\n' && walk(nodes, i, fuel).last()
            == '\n',
        !line_elements().contains(name) ==> walk(nodes, i, fuel) == walk_kids(
            nodes,
            nodes[i].children,
            (fuel - 1) as nat,
        ),
{
    let l = line_elements();
    if l.contains(name) {
        let k = choose|k: int| 0 <= k < l.len() && l[k] == name;
        assert(is_block(name));
    } else {
        assert(!is_block(name)) by {
            if is_block(name) {
                if name == "p"@ { assert(l[0] == name); }
                if name == "div"@ { assert(l[1] == name); }
                if name == "br"@ { assert(l[2] == name); }
                if name == "h1"@ { assert(l[3] == name); }
                if name == "h2"@ { assert(l[4] == name); }
                if name == "h3"@ { assert(l[5] == name); }
                if name == "h4"@ { assert(l[6] == name); }
                if name == "h5"@ { assert(l[7] == name); }
                if name == "h6"@ { assert(l[8] == name); }
                if name == "li"@ { assert(l[9] == name); }
                if name == "tr"@ { assert(l[10] == name); }
                if name == "blockquote"@ { assert(l[11] == name); }
                if name == "pre"@ { assert(l[12] == name); }
                if name == "hr"@ { assert(l[13] == name); }
            }
        }
        assert(name != "h1"@ && name != "h2"@ && name != "h3"@ && name != "h4"@) by {
            if name == "h1"@ { assert(l[3] == name); }
            if name == "h2"@ { assert(l[4] == name); }
            if name == "h3"@ { assert(l[5] == name); }
            if name == "h4"@ { assert(l[6] == name); }
        }
        assert(Seq::<char>::empty() + Seq::<char>::empty() + walk_kids(nodes, nodes[i].children, (fuel - 1) as nat)
            + Seq::<char>::empty() =~= walk_kids(nodes, nodes[i].children, (fuel - 1) as nat));
    }
}

fn is_block_exec(name: &str) -> (b: bool)
    ensures
        b == is_block(name@),
{
    let n = chars_of(name);
    chars_eq(&n, &chars_of("p")) || chars_eq(&n, &chars_of("div")) || chars_eq(&n, &chars_of("br"))
        || chars_eq(&n, &chars_of("h1")) || chars_eq(&n, &chars_of("h2")) || chars_eq(
        &n,
        &chars_of("h3"),
    ) || chars_eq(&n, &chars_of("h4")) || chars_eq(&n, &chars_of("h5")) || chars_eq(
        &n,
        &chars_of("h6"),
    ) || chars_eq(&n, &chars_of("li")) || chars_eq(&n, &chars_of("tr")) || chars_eq(
        &n,
        &chars_of("blockquote"),
    ) || chars_eq(&n, &chars_of("pre")) || chars_eq(&n, &chars_of("hr"))
}

fn push_heading_mark(out: &mut Vec<char>, name: &str)
    ensures
        final(out)@ == old(out)@ + heading_mark(name@),
{
    let n = chars_of(name);
    if chars_eq(&n, &chars_of("h1")) {
        push_str(out, "# ");
    } else if chars_eq(&n, &chars_of("h2")) {
        push_str(out, "## ");
    } else if chars_eq(&n, &chars_of("h3")) {
        push_str(out, "### ");
    } else if chars_eq(&n, &chars_of("h4")) {
        push_str(out, "#### ");
    } else {
        assert(old(out)@ + Seq::<char>::empty() =~= old(out)@);
    }
}

fn walk_exec(nodes: &Vec<FlatNode>, i: usize, fuel: usize, out: &mut Vec<char>)
    ensures
        final(out)@ == old(out)@ + walk(node_views(nodes@), i as int, fuel as nat),
    decreases fuel, 0nat,
{
    let ghost nv = node_views(nodes@);
    if fuel == 0 || i >= nodes.len() {
        assert(old(out)@ + Seq::<char>::empty() =~= old(out)@);
        return;
    }
    let n = &nodes[i];
    assert(nv[i as int] == n@);
    if n.skipped {
        assert(old(out)@ + Seq::<char>::empty() =~= old(out)@);
        return;
    }
    match &n.kind {
        NodeKind::Text(t) => {
            let c = chars_of(t.as_str());
            let (lo, hi) = trim_range(&c, 0, c.len());
            assert(c@.subrange(0, c@.len() as int) =~= c@);
            if lo < hi {
                let s = slice_chars(&c, lo, hi);
                push_all(out, s.as_slice());
                out.push(' ');
                assert(out@ =~= old(out)@ + trim(t@).push(' '));
            } else {
                assert(old(out)@ + Seq::<char>::empty() =~= old(out)@);
            }
        },
        NodeKind::Element(name) => {
            let b = is_block_exec(name.as_str());
            let ghost start = out@;
            if b {
                out.push('\n');
            }
            let ghost br: Seq<char> = if b {
                seq!['\n']
            } else {
                Seq::empty()
            };
            assert(out@ =~= start + br);
            push_heading_mark(out, name.as_str());
            walk_kids_exec(nodes, &n.children, 0, fuel - 1, out);
            if b {
                out.push('\n');
            }
            assert(n.children@.subrange(0, n.children@.len() as int) =~= n.children@);
            assert(out@ =~= start + (br + heading_mark(name@) + walk_kids(nv, n.children@, (fuel - 1) as nat) + br));
        },
        NodeKind::Other => {
            walk_kids_exec(nodes, &n.children, 0, fuel - 1, out);
            assert(n.children@.subrange(0, n.children@.len() as int) =~= n.children@);
        },
    }
}

fn walk_kids_exec(nodes: &Vec<FlatNode>, kids: &Vec<usize>, from: usize, fuel: usize, out: &mut Vec<char>)
    requires
        from <= kids@.len(),
    ensures
        final(out)@ == old(out)@ + walk_kids(
            node_views(nodes@),
            kids@.subrange(from as int, kids@.len() as int),
            fuel as nat,
        ),
    decreases fuel, kids@.len() - from,
{
    let ghost ks = kids@.subrange(from as int, kids@.len() as int);
    if from == kids.len() {
        assert(old(out)@ + Seq::<char>::empty() =~= old(out)@);
        return;
    }
    assert(ks[0] == kids@[from as int]);
    assert(ks.drop_first() =~= kids@.subrange(from + 1, kids@.len() as int));
    walk_exec(nodes, kids[from], fuel, out);
    walk_kids_exec(nodes, kids, from + 1, fuel, out);
    assert(out@ =~= old(out)@ + walk_kids(node_views(nodes@), ks, fuel as nat));
}

// ── The pipeline ────────────────────────────────────────────

/// The title a PDF document gets: the last `/`-separated part of its URL,
/// trimmed, or `PDF Document` when that is empty.
pub open spec fn pdf_title(url: Seq<char>) -> Seq<char> {
    let t = trim(crate::text::split(url, '/').last());
    if t.len() == 0 {
        "PDF Document"@
    } else {
        t
    }
}

/// The first match's text or attribute, or nothing.
pub open spec fn first_of(ms: Seq<MatchView>) -> Option<MatchView> {
    if ms.len() > 0 {
        Some(ms[0])
    } else {
        None
    }
}

/// A page's title: the trimmed text of its first `title` element.
pub open spec fn page_title(html: Seq<char>) -> Seq<char> {
    match first_of(spec_select_all(html, "title"@, "content"@)) {
        Some(m) => trim(m.text),
        None => Seq::empty(),
    }
}

/// A page's description: the trimmed `content` of its first description meta element.
pub open spec fn page_description(html: Seq<char>) -> Seq<char> {
    match first_of(spec_select_all(html, "meta[name=\"description\"]"@, "content"@)) {
        Some(m) => match m.attr {
            Some(c) => trim(c),
            None => Seq::empty(),
        },
        None => Seq::empty(),
    }
}

/// The first content selector with a match, from position `k` on.
pub open spec fn first_content(html: Seq<char>, sels: Seq<Seq<char>>, k: int) -> Option<Seq<char>>
    decreases sels.len() - k,
{
    if k < 0 || k >= sels.len() {
        None
    } else {
        match spec_first_inner_html(html, sels[k]) {
            Some(h) => Some(h),
            None => first_content(html, sels, k + 1),
        }
    }
}

/// A page's main content: the inner HTML of the first match of the first
/// content selector that matches, else that of `body`, else nothing.
pub open spec fn main_content(html: Seq<char>, sels: Seq<Seq<char>>) -> Seq<char> {
    match first_content(html, sels, 0) {
        Some(h) => h,
        None => match spec_first_inner_html(html, "body"@) {
            Some(h) => h,
            None => Seq::empty(),
        },
    }
}

/// The link a page's `a[href]` element gives: its target resolved against
/// the page URL when that parses, else taken as an absolute URL.
pub open spec fn link_of(base: Seq<char>, m: MatchView) -> Option<Seq<char>> {
    match m.attr {
        None => None,
        Some(h) => if spec_parse_url(base) is Some {
            spec_url_join(base, h)
        } else {
            spec_url_string(h)
        },
    }
}

/// `link_of` as a function of the match.
pub open spec fn link_reader(base: Seq<char>) -> spec_fn(MatchView) -> Option<Seq<char>> {
    |m: MatchView| link_of(base, m)
}

/// A page's links, in page order.
pub open spec fn page_links(html: Seq<char>, base: Seq<char>) -> Seq<Seq<char>> {
    filter_map(spec_select_all(html, "a[href]"@, "href"@), link_reader(base))
}

/// What extraction yields: a PDF passes through under its URL's last part;
/// an HTML page gives its title, description, stripped and normalised main
/// content and links, unless the content is shorter (in bytes, trimmed)
/// than the minimum.
pub open spec fn extraction(
    config: ExtractorConfig,
    url: Seq<char>,
    body: Seq<char>,
    content_type: Option<Seq<char>>,
) -> Result<ExtractedView, ErrorView> {
    if content_type is Some && contains(content_type->0, "application/pdf"@) {
        Ok(
            ExtractedView {
                url,
                title: pdf_title(url),
                description: "Extracted PDF Document Text"@,
                content_markdown: body,
                links: Seq::empty(),
            },
        )
    } else {
        let md = markdown_of(
            stripped_text(main_content(body, str_views(config.content_selectors@)), str_views(config.strip_selectors@)),
        );
        if utf8_len(trim(md)) < config.min_content_length {
            Err(ErrorView::EmptyContent { url, min_length: config.min_content_length })
        } else {
            Ok(
                ExtractedView {
                    url,
                    title: page_title(body),
                    description: page_description(body),
                    content_markdown: md,
                    links: page_links(body, url),
                },
            )
        }
    }
}

/// Pipeline that converts raw HTML into clean markdown text.
pub struct ExtractionPipeline {
    pub config: ExtractorConfig,
}

impl ExtractionPipeline {
    /// A pipeline with these settings.
    pub fn new(config: ExtractorConfig) -> (p: Self)
        ensures
            p.config == config,
    {
        ExtractionPipeline { config }
    }

    /// Extract readable content from raw HTML or PDF plain text.
    pub fn extract(&self, url: &str, body: &str, content_type: Option<&str>) -> (r: Result<ExtractedContent, SearchXyzError>)
        ensures
            match (r, extraction(
                self.config,
                url@,
                body@,
                match content_type {
                    Some(c) => Some(c@),
                    None => None,
                },
            )) {
                (Ok(a), Ok(b)) => a@ == b,
                (Err(x), Err(y)) => x@ == y,
                _ => false,
            },
    {
        match content_type {
            Some(ct) => {
                if str_contains(ct, "application/pdf") {
                    let title = Self::pdf_title_exec(url);
                    let links: Vec<String> = Vec::new();
                    assert(str_views(links@) =~= Seq::<Seq<char>>::empty());
                    return Ok(
                        ExtractedContent {
                            url: owned(url),
                            title,
                            description: owned("Extracted PDF Document Text"),
                            content_markdown: owned(body),
                            links,
                        },
                    );
                }
            },
            None => {},
        }
        let content_html = self.find_main_content(body);
        let cleaned = self.strip_noise(content_html.as_str());
        let markdown = html_to_markdown(cleaned.as_str());
        let mc = chars_of(markdown.as_str());
        let (lo, hi) = trim_range(&mc, 0, mc.len());
        assert(mc@.subrange(0, mc@.len() as int) =~= mc@);
        let tm = slice_chars(&mc, lo, hi);
        let min = self.config.min_content_length;
        if min > 0 {
            match utf8_len_upto(&tm, min - 1) {
                Some(_) => {
                    return Err(SearchXyzError::EmptyContent { url: owned(url), min_length: min });
                },
                None => {},
            }
        }
        Ok(
            ExtractedContent {
                url: owned(url),
                title: Self::extract_title(body),
                description: Self::extract_meta_description(body),
                content_markdown: markdown,
                links: Self::extract_links(body, url),
            },
        )
    }

    fn pdf_title_exec(url: &str) -> (t: String)
        ensures
            t@ == pdf_title(url@),
    {
        let c = chars_of(url);
        let parts = crate::text::split_chars(&c, '/');
        assert(parts@.len() > 0) by {
            crate::text::lemma_split_nonempty(c@, '/');
        }
        let last = &parts[parts.len() - 1];
        assert(crate::text::views(parts@).last() == last@);
        let (lo, hi) = trim_range(last, 0, last.len());
        assert(last@.subrange(0, last@.len() as int) =~= last@);
        if lo == hi {
            owned("PDF Document")
        } else {
            let t = slice_chars(last, lo, hi);
            string_from_chars(t.as_slice())
        }
    }

    fn extract_title(body: &str) -> (t: String)
        ensures
            t@ == page_title(body@),
    {
        let ms = select_all(body, "title", "content");
        if ms.len() > 0 {
            assert(match_views(ms@)[0] == ms@[0]@);
            crate::text::trim_str(ms[0].text.as_str())
        } else {
            String::new()
        }
    }

    fn extract_meta_description(body: &str) -> (t: String)
        ensures
            t@ == page_description(body@),
    {
        let ms = select_all(body, "meta[name=\"description\"]", "content");
        if ms.len() > 0 {
            assert(match_views(ms@)[0] == ms@[0]@);
            match &ms[0].attr {
                Some(c) => crate::text::trim_str(c.as_str()),
                None => String::new(),
            }
        } else {
            String::new()
        }
    }

    /// Walk the content selectors and return the first match's inner HTML,
    /// falling back to the page body.
    fn find_main_content(&self, body: &str) -> (h: String)
        ensures
            h@ == main_content(body@, str_views(self.config.content_selectors@)),
    {
        let sels = &self.config.content_selectors;
        let ghost sv = str_views(sels@);
        let mut k: usize = 0;
        while k < sels.len()
            invariant
                k <= sels.len(),
                sv == str_views(sels@),
                sv == str_views(self.config.content_selectors@),
                first_content(body@, sv, 0) == first_content(body@, sv, k as int),
            decreases sels.len() - k,
        {
            assert(sv[k as int] == sels@[k as int]@);
            match first_inner_html(body, sels[k].as_str()) {
                Some(h) => {
                    return h;
                },
                None => {},
            }
            k = k + 1;
        }
        match first_inner_html(body, "body") {
            Some(h) => h,
            None => String::new(),
        }
    }

    /// Remove noisy elements (script, style, nav, etc.) from an HTML fragment.
    fn strip_noise(&self, html: &str) -> (t: String)
        ensures
            t@ == stripped_text(html@, str_views(self.config.strip_selectors@)),
    {
        let (nodes, first) = fragment_nodes(html, &self.config.strip_selectors);
        let mut out: Vec<char> = Vec::new();
        match first {
            Some(i) => walk_exec(&nodes, i, nodes.len(), &mut out),
            None => {},
        }
        string_from_chars(out.as_slice())
    }

    fn extract_links(body: &str, base_url: &str) -> (links: Vec<String>)
        ensures
            str_views(links@) == page_links(body@, base_url@),
    {
        let ms = select_all(body, "a[href]", "href");
        let ghost mv = match_views(ms@);
        let ghost f = link_reader(base_url@);
        let base_ok = parse_url(base_url).is_some();
        let mut links: Vec<String> = Vec::new();
        let mut i: usize = 0;
        assert(mv.take(ms.len() as int) =~= mv);
        while i < ms.len()
            invariant
                i <= ms.len(),
                mv == match_views(ms@),
                mv.take(ms.len() as int) == mv,
                f == link_reader(base_url@),
                base_ok == spec_parse_url(base_url@) is Some,
                str_views(links@) == filter_map(mv.take(i as int), f),
            decreases ms.len() - i,
        {
            proof {
                lemma_filter_map_step(mv, f, i as int);
                assert(mv[i as int] == ms@[i as int]@);
            }
            let ghost old_l = links@;
            match &ms[i].attr {
                Some(h) => {
                    let j = if base_ok {
                        url_join(base_url, h.as_str())
                    } else {
                        url_string(h.as_str())
                    };
                    match j {
                        Some(u) => {
                            links.push(u);
                            assert(str_views(links@) =~= str_views(old_l).push(links@.last()@));
                        },
                        None => {},
                    }
                },
                None => {},
            }
            i = i + 1;
        }
        links
    }
}

} // verus!
