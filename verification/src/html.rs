//! Reading HTML documents: what the parsers of this library need of a page,
//! taken out of the document tree as plain values. The tree itself is built
//! and searched by `scraper`; every result here is a function of the page
//! text and the CSS selectors handed in.
use vstd::prelude::*;
use crate::text::{join, opt_view, str_views};

verus! {

/// What a result container holds: for each part selector the text of its
/// first match (`None` when nothing matches), the given attribute of the
/// first link match, and all the container's text joined by spaces.
#[derive(Debug, Clone)]
pub struct Block {
    pub firsts: Vec<Option<String>>,
    pub href: Option<String>,
    pub text: String,
}

/// Spec form of `Block`.
pub struct BlockView {
    pub firsts: Seq<Option<Seq<char>>>,
    pub href: Option<Seq<char>>,
    pub text: Seq<char>,
}

impl View for Block {
    type V = BlockView;

    open spec fn view(&self) -> BlockView {
        BlockView {
            firsts: self.firsts@.map_values(|o: Option<String>| opt_view(o)),
            href: opt_view(self.href),
            text: self.text@,
        }
    }
}

/// The views of a list of blocks.
pub open spec fn block_views(v: Seq<Block>) -> Seq<BlockView> {
    v.map_values(|b: Block| b@)
}

/// For each element matching `container`, the text of the first match of
/// each part selector, as `scraper` finds them.
pub uninterp spec fn spec_block_parts(html: Seq<char>, container: Seq<char>, parts: Seq<Seq<char>>) -> Seq<Seq<Option<Seq<char>>>>;

/// Wraps `scraper::Html::parse_document`, `Selector::parse`, `select` and
/// `text`: per element matching `container`, in document order, the text of
/// the first match of each part selector (`None` when none matches or the
/// selector does not parse); none when `container` does not parse. Named by
/// `spec_block_parts`.
#[verifier::external_body]
pub(crate) fn select_block_parts(html: &str, container: &str, parts: &Vec<String>) -> (r: Vec<Vec<Option<String>>>)
    ensures
        r@.map_values(|v: Vec<Option<String>>| v@.map_values(|o: Option<String>| opt_view(o)))
            == spec_block_parts(html@, container@, str_views(parts@)),
        forall|i: int| 0 <= i < r@.len() ==> (#[trigger] r@[i])@.len() == parts@.len(),
{
    let doc = scraper::Html::parse_document(html);
    let Ok(c) = scraper::Selector::parse(container) else { return Vec::new() };
    let ps: Vec<_> = parts.iter().map(|p| scraper::Selector::parse(p).ok()).collect();
    doc.select(&c).map(|e| ps.iter().map(|p| p.as_ref().and_then(|p| e.select(p).next()).map(|m| m.text().collect())).collect()).collect()
}

/// For each element matching `container`, the given attribute of its first
/// `link` match and its text pieces, as `scraper` finds them.
pub uninterp spec fn spec_block_links(html: Seq<char>, container: Seq<char>, link: Seq<char>, attr: Seq<char>) -> Seq<(Option<Seq<char>>, Seq<Seq<char>>)>;

/// Wraps `scraper::Html::parse_document`, `Selector::parse`, `select`,
/// `attr` and `text`: per element matching `container`, in document order,
/// the attribute of its first `link` match and its text nodes; none when a
/// selector does not parse. Named by `spec_block_links`.
#[verifier::external_body]
pub(crate) fn select_block_links(html: &str, container: &str, link: &str, attr: &str) -> (r: Vec<(Option<String>, Vec<String>)>)
    ensures
        r@.map_values(|p: (Option<String>, Vec<String>)| (opt_view(p.0), str_views(p.1@)))
            == spec_block_links(html@, container@, link@, attr@),
{
    let doc = scraper::Html::parse_document(html);
    let (Ok(c), Ok(l)) = (scraper::Selector::parse(container), scraper::Selector::parse(link)) else { return Vec::new() };
    doc.select(&c).map(|e| (e.select(&l).next().and_then(|m| m.attr(attr)).map(|v| v.to_string()), e.text().map(|t| t.to_string()).collect())).collect()
}

/// The blocks a page's result containers make: the part texts of one
/// reading next to the link and text pieces (joined by spaces) of the other.
pub open spec fn blocks_of(
    parts: Seq<Seq<Option<Seq<char>>>>,
    links: Seq<(Option<Seq<char>>, Seq<Seq<char>>)>,
) -> Seq<BlockView> {
    Seq::new(
        if parts.len() < links.len() { parts.len() } else { links.len() },
        |i: int| BlockView { firsts: parts[i], href: links[i].0, text: join(links[i].1, " "@) },
    )
}

/// The blocks of the elements matching `container`.
pub open spec fn spec_select_blocks(
    html: Seq<char>,
    container: Seq<char>,
    parts: Seq<Seq<char>>,
    link: Seq<char>,
    attr: Seq<char>,
) -> Seq<BlockView> {
    blocks_of(spec_block_parts(html, container, parts), spec_block_links(html, container, link, attr))
}

/// Reads the result blocks of a page.
pub fn select_blocks(html: &str, container: &str, parts: &Vec<String>, link: &str, attr: &str) -> (r: Vec<Block>)
    ensures
        block_views(r@) == spec_select_blocks(html@, container@, str_views(parts@), link@, attr@),
        forall|i: int| 0 <= i < r@.len() ==> (#[trigger] r@[i]).firsts@.len() == parts@.len(),
{
    let ps = select_block_parts(html, container, parts);
    let ls = select_block_links(html, container, link, attr);
    let ghost pv = ps@.map_values(|v: Vec<Option<String>>| v@.map_values(|o: Option<String>| opt_view(o)));
    let ghost lv = ls@.map_values(|p: (Option<String>, Vec<String>)| (opt_view(p.0), str_views(p.1@)));
    let ghost want = blocks_of(pv, lv);
    let n = if ps.len() < ls.len() { ps.len() } else { ls.len() };
    let mut r: Vec<Block> = Vec::new();
    let mut i: usize = 0;
    while i < n
        invariant
            i <= n,
            n <= ps.len(),
            n <= ls.len(),
            n == want.len(),
            want == blocks_of(pv, lv),
            pv == ps@.map_values(|v: Vec<Option<String>>| v@.map_values(|o: Option<String>| opt_view(o))),
            lv == ls@.map_values(|p: (Option<String>, Vec<String>)| (opt_view(p.0), str_views(p.1@))),
            forall|k: int| 0 <= k < ps@.len() ==> (#[trigger] ps@[k])@.len() == parts@.len(),
            block_views(r@) == want.take(i as int),
            forall|k: int| 0 <= k < r@.len() ==> (#[trigger] r@[k]).firsts@.len() == parts@.len(),
        decreases n - i,
    {
        let mut firsts: Vec<Option<String>> = Vec::new();
        let mut k: usize = 0;
        while k < ps[i].len()
            invariant
                i < ps.len(),
                k <= ps@[i as int]@.len(),
                firsts@.map_values(|o: Option<String>| opt_view(o)) == ps@[i as int]@.map_values(
                    |o: Option<String>| opt_view(o),
                ).take(k as int),
                firsts@.len() == k,
            decreases ps@[i as int]@.len() - k,
        {
            let c = crate::text::clone_opt(&ps[i][k]);
            let ghost before = firsts@.map_values(|o: Option<String>| opt_view(o));
            firsts.push(c);
            assert(firsts@.map_values(|o: Option<String>| opt_view(o)) =~= before.push(opt_view(ps@[i as int]@[k as int])));
            assert(ps@[i as int]@.map_values(|o: Option<String>| opt_view(o)).take(k + 1) =~= ps@[i as int]@.map_values(
                |o: Option<String>| opt_view(o),
            ).take(k as int).push(opt_view(ps@[i as int]@[k as int])));
            k = k + 1;
        }
        assert(ps@[i as int]@.map_values(|o: Option<String>| opt_view(o)).take(k as int) =~= ps@[i as int]@.map_values(
            |o: Option<String>| opt_view(o),
        ));
        let pieces = crate::text::chars_of_all(&ls[i].1);
        let sep = crate::text::chars_of(" ");
        let text = crate::text::join_chars(&pieces, sep.as_slice());
        let b = Block { firsts, href: crate::text::clone_opt(&ls[i].0), text: crate::text::string_from_chars(text.as_slice()) };
        let ghost before = block_views(r@);
        r.push(b);
        proof {
            assert(pv[i as int] == ps@[i as int]@.map_values(|o: Option<String>| opt_view(o)));
            assert(lv[i as int] == (opt_view(ls@[i as int].0), str_views(ls@[i as int].1@)));
            assert(block_views(r@) =~= before.push(want[i as int]));
            assert(want.take(i + 1) =~= want.take(i as int).push(want[i as int]));
        }
        i = i + 1;
    }
    assert(want.take(n as int) =~= want);
    r
}

/// A heading and the elements above it: for each of its nearest ancestors
/// (parent first), the tag name and the given attribute when the ancestor
/// is an element, `None` when it is another kind of node.
#[derive(Debug, Clone)]
pub struct Heading {
    pub text: String,
    pub ancestors: Vec<Option<(String, Option<String>)>>,
}

/// Spec form of `Heading`.
pub struct HeadingView {
    pub text: Seq<char>,
    pub ancestors: Seq<Option<(Seq<char>, Option<Seq<char>>)>>,
}

impl View for Heading {
    type V = HeadingView;

    open spec fn view(&self) -> HeadingView {
        HeadingView {
            text: self.text@,
            ancestors: self.ancestors@.map_values(
                |a: Option<(String, Option<String>)>|
                    match a {
                        Some(p) => Some((p.0@, opt_view(p.1))),
                        None => None,
                    },
            ),
        }
    }
}

/// The views of a list of headings.
pub open spec fn heading_views(v: Seq<Heading>) -> Seq<HeadingView> {
    v.map_values(|h: Heading| h@)
}

/// The headings `scraper` finds in `html`, with up to `depth` ancestors each.
pub uninterp spec fn spec_select_headings(
    html: Seq<char>,
    heading: Seq<char>,
    depth: usize,
    attr: Seq<char>,
) -> Seq<HeadingView>;

/// Wraps `scraper::Html::parse_document`, `Selector::parse`, `select`,
/// `text`, `ancestors`, `ElementRef::wrap`, `name` and `attr`: one `Heading`
/// per match of `heading`, in document order (none when the selector does
/// not parse). The list is named by `spec_select_headings`.
#[verifier::external_body]
pub(crate) fn select_headings(html: &str, heading: &str, depth: usize, attr: &str) -> (r: Vec<Heading>)
    ensures
        heading_views(r@) == spec_select_headings(html@, heading@, depth, attr@),
{
    let doc = scraper::Html::parse_document(html);
    let Ok(h) = scraper::Selector::parse(heading) else { return Vec::new() };
    doc.select(&h).map(|e| Heading {
        text: e.text().collect(),
        ancestors: e.ancestors().take(depth).map(|n| scraper::ElementRef::wrap(n).map(|a| (a.value().name().to_string(), a.attr(attr).map(|v| v.to_string())))).collect(),
    }).collect()
}

/// One element matching a selector: its text, and the given attribute.
#[derive(Debug, Clone)]
pub struct Match {
    pub text: String,
    pub attr: Option<String>,
}

/// Spec form of `Match`.
pub struct MatchView {
    pub text: Seq<char>,
    pub attr: Option<Seq<char>>,
}

impl View for Match {
    type V = MatchView;

    open spec fn view(&self) -> MatchView {
        MatchView { text: self.text@, attr: opt_view(self.attr) }
    }
}

/// The views of a list of matches.
pub open spec fn match_views(v: Seq<Match>) -> Seq<MatchView> {
    v.map_values(|m: Match| m@)
}

/// The elements `scraper` finds in `html` for `selector`, in document order.
pub uninterp spec fn spec_select_all(html: Seq<char>, selector: Seq<char>, attr: Seq<char>) -> Seq<MatchView>;

/// Wraps `scraper::Html::parse_document`, `Selector::parse`, `select`,
/// `text` and `attr`: every match of `selector`, in document order (none
/// when the selector does not parse). The list is named by `spec_select_all`.
#[verifier::external_body]
pub(crate) fn select_all(html: &str, selector: &str, attr: &str) -> (r: Vec<Match>)
    ensures
        match_views(r@) == spec_select_all(html@, selector@, attr@),
{
    let doc = scraper::Html::parse_document(html);
    let Ok(s) = scraper::Selector::parse(selector) else { return Vec::new() };
    doc.select(&s).map(|e| Match { text: e.text().collect(), attr: e.attr(attr).map(|v| v.to_string()) }).collect()
}

/// The elements `scraper` finds for `selector` in `html` read as a fragment.
pub uninterp spec fn spec_select_in_fragment(html: Seq<char>, selector: Seq<char>, attr: Seq<char>) -> Seq<MatchView>;

/// Wraps `scraper::Html::parse_fragment`, `Selector::parse`, `select`,
/// `text` and `attr`: every match of `selector`, in document order (none
/// when the selector does not parse). The list is named by
/// `spec_select_in_fragment`.
#[verifier::external_body]
pub(crate) fn select_in_fragment(html: &str, selector: &str, attr: &str) -> (r: Vec<Match>)
    ensures
        match_views(r@) == spec_select_in_fragment(html@, selector@, attr@),
{
    let doc = scraper::Html::parse_fragment(html);
    let Ok(s) = scraper::Selector::parse(selector) else { return Vec::new() };
    doc.select(&s).map(|e| Match { text: e.text().collect(), attr: e.attr(attr).map(|v| v.to_string()) }).collect()
}

/// The kind of a node of a parsed fragment.
#[derive(Debug, Clone)]
pub enum NodeKind {
    /// A text node and its text.
    Text(String),
    /// An element and its tag name.
    Element(String),
    /// Any other node (the document, comments, ...).
    Other,
}

/// A node of a parsed fragment: its kind, whether a strip selector matches
/// it, and the positions of its children in the node list.
#[derive(Debug, Clone)]
pub struct FlatNode {
    pub kind: NodeKind,
    pub skipped: bool,
    pub children: Vec<usize>,
}

/// Spec form of `NodeKind`.
pub enum NodeKindView {
    Text(Seq<char>),
    Element(Seq<char>),
    Other,
}

/// Spec form of `FlatNode`.
pub struct FlatNodeView {
    pub kind: NodeKindView,
    pub skipped: bool,
    pub children: Seq<usize>,
}

impl View for FlatNode {
    type V = FlatNodeView;

    open spec fn view(&self) -> FlatNodeView {
        FlatNodeView {
            kind: match self.kind {
                NodeKind::Text(t) => NodeKindView::Text(t@),
                NodeKind::Element(n) => NodeKindView::Element(n@),
                NodeKind::Other => NodeKindView::Other,
            },
            skipped: self.skipped,
            children: self.children@,
        }
    }
}

/// The views of a node list.
pub open spec fn node_views(v: Seq<FlatNode>) -> Seq<FlatNodeView> {
    v.map_values(|n: FlatNode| n@)
}

/// The kinds of the nodes `scraper` builds for a fragment, in its node
/// order, and the position of the fragment's first node.
pub uninterp spec fn spec_fragment_kinds(html: Seq<char>) -> (Seq<NodeKindView>, Option<usize>);

/// The views of a list of node kinds.
pub open spec fn kind_views(v: Seq<NodeKind>) -> Seq<NodeKindView> {
    v.map_values(
        |k: NodeKind|
            match k {
                NodeKind::Text(t) => NodeKindView::Text(t@),
                NodeKind::Element(n) => NodeKindView::Element(n@),
                NodeKind::Other => NodeKindView::Other,
            },
    )
}

/// Wraps `scraper::Html::parse_fragment` and the tree's `nodes`, `value`,
/// `id` and `children`: each node's kind, in node order, and the position
/// of the root's first child. Named by `spec_fragment_kinds`.
#[verifier::external_body]
pub(crate) fn fragment_kinds(html: &str) -> (r: (Vec<NodeKind>, Option<usize>))
    ensures
        (kind_views(r.0@), r.1) == spec_fragment_kinds(html@),
{
    let f = scraper::Html::parse_fragment(html);
    let at: std::collections::HashMap<_, usize> = f.tree.nodes().enumerate().map(|(i, n)| (n.id(), i)).collect();
    let kinds = f.tree.nodes().map(|n| match n.value() { scraper::Node::Text(t) => NodeKind::Text(t.text.to_string()), scraper::Node::Element(e) => NodeKind::Element(e.name().to_string()), _ => NodeKind::Other }).collect();
    (kinds, f.tree.root().children().next().map(|c| at[&c.id()]))
}

/// The children's positions of each node `scraper` builds for a fragment.
pub uninterp spec fn spec_fragment_children(html: Seq<char>) -> Seq<Seq<usize>>;

/// Wraps `scraper::Html::parse_fragment` and the tree's `nodes`, `id` and
/// `children`: for each node, in node order, its children's positions.
/// Named by `spec_fragment_children`.
#[verifier::external_body]
pub(crate) fn fragment_children(html: &str) -> (r: Vec<Vec<usize>>)
    ensures
        r@.map_values(|v: Vec<usize>| v@) == spec_fragment_children(html@),
{
    let f = scraper::Html::parse_fragment(html);
    let at: std::collections::HashMap<_, usize> = f.tree.nodes().enumerate().map(|(i, n)| (n.id(), i)).collect();
    f.tree.nodes().map(|n| n.children().map(|c| at[&c.id()]).collect()).collect()
}

/// Which nodes of a fragment the strip selectors match, in node order.
pub uninterp spec fn spec_fragment_skips(html: Seq<char>, strip: Seq<Seq<char>>) -> Seq<bool>;

/// Wraps `scraper::Html::parse_fragment`, `Selector::parse`, `select` and
/// the tree's `nodes` and `id`: for each node, in node order, whether one of
/// the strip selectors that parse matches it. Named by `spec_fragment_skips`.
#[verifier::external_body]
pub(crate) fn fragment_skips(html: &str, strip: &Vec<String>) -> (r: Vec<bool>)
    ensures
        r@ == spec_fragment_skips(html@, str_views(strip@)),
{
    let f = scraper::Html::parse_fragment(html);
    let ids: std::collections::HashSet<_> = strip.iter().filter_map(|s| scraper::Selector::parse(s).ok()).flat_map(|s| f.select(&s).map(|e| e.id()).collect::<Vec<_>>()).collect();
    f.tree.nodes().map(|n| ids.contains(&n.id())).collect()
}

/// The nodes of a fragment: kind, whether stripped, and children, as the
/// three readings give them (the tree is built the same way each time).
pub open spec fn nodes_of(kinds: Seq<NodeKindView>, skips: Seq<bool>, kids: Seq<Seq<usize>>) -> Seq<FlatNodeView> {
    Seq::new(
        if kinds.len() <= skips.len() && kinds.len() <= kids.len() {
            kinds.len()
        } else if skips.len() <= kids.len() {
            skips.len()
        } else {
            kids.len()
        },
        |i: int| FlatNodeView { kind: kinds[i], skipped: skips[i], children: kids[i] },
    )
}

/// The nodes of a fragment, and the position of its first node.
pub open spec fn spec_fragment_nodes(html: Seq<char>, strip: Seq<Seq<char>>) -> (Seq<FlatNodeView>, Option<usize>) {
    let (kinds, first) = spec_fragment_kinds(html);
    (nodes_of(kinds, spec_fragment_skips(html, strip), spec_fragment_children(html)), first)
}

/// Reads the nodes of a fragment.
pub fn fragment_nodes(html: &str, strip: &Vec<String>) -> (r: (Vec<FlatNode>, Option<usize>))
    ensures
        (node_views(r.0@), r.1) == spec_fragment_nodes(html@, str_views(strip@)),
{
    let (kinds, first) = fragment_kinds(html);
    let skips = fragment_skips(html, strip);
    let kids = fragment_children(html);
    let ghost kv = kind_views(kinds@);
    let ghost cv = kids@.map_values(|v: Vec<usize>| v@);
    let ghost want = nodes_of(kv, skips@, cv);
    let n = if kinds.len() <= skips.len() && kinds.len() <= kids.len() {
        kinds.len()
    } else if skips.len() <= kids.len() {
        skips.len()
    } else {
        kids.len()
    };
    let mut nodes: Vec<FlatNode> = Vec::new();
    let mut i: usize = 0;
    while i < n
        invariant
            i <= n,
            n == want.len(),
            n <= kinds.len() && n <= skips.len() && n <= kids.len(),
            want == nodes_of(kv, skips@, cv),
            kv == kind_views(kinds@),
            cv == kids@.map_values(|v: Vec<usize>| v@),
            node_views(nodes@) == want.take(i as int),
        decreases n - i,
    {
        let kind = match &kinds[i] {
            NodeKind::Text(t) => NodeKind::Text(t.clone()),
            NodeKind::Element(e) => NodeKind::Element(e.clone()),
            NodeKind::Other => NodeKind::Other,
        };
        let mut children: Vec<usize> = Vec::new();
        let mut k: usize = 0;
        while k < kids[i].len()
            invariant
                i < kids.len(),
                k <= kids@[i as int]@.len(),
                children@ == kids@[i as int]@.take(k as int),
            decreases kids@[i as int]@.len() - k,
        {
            children.push(kids[i][k]);
            assert(kids@[i as int]@.take(k + 1) =~= kids@[i as int]@.take(k as int).push(kids@[i as int]@[k as int]));
            k = k + 1;
        }
        assert(kids@[i as int]@.take(k as int) =~= kids@[i as int]@);
        let node = FlatNode { kind, skipped: skips[i], children };
        let ghost before = node_views(nodes@);
        nodes.push(node);
        proof {
            assert(kv[i as int] == node@.kind);
            assert(cv[i as int] == kids@[i as int]@);
            assert(node_views(nodes@) =~= before.push(want[i as int]));
            assert(want.take(i + 1) =~= want.take(i as int).push(want[i as int]));
        }
        i = i + 1;
    }
    assert(want.take(n as int) =~= want);
    (nodes, first)
}

/// The inner HTML of the first element `scraper` finds in `html` for `selector`.
pub uninterp spec fn spec_first_inner_html(html: Seq<char>, selector: Seq<char>) -> Option<Seq<char>>;

/// Wraps `scraper::Html::parse_document`, `Selector::parse`, `select` and
/// `inner_html` on the first match (none when the selector does not parse);
/// named by `spec_first_inner_html`.
#[verifier::external_body]
pub(crate) fn first_inner_html(html: &str, selector: &str) -> (r: Option<String>)
    ensures
        opt_view(r) == spec_first_inner_html(html@, selector@),
{
    let doc = scraper::Html::parse_document(html);
    let s = scraper::Selector::parse(selector).ok()?;
    doc.select(&s).next().map(|e| e.inner_html())
}

} // verus!
