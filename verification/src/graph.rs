//! Knowledge graph of entities and typed relationships.
use vstd::prelude::*;
use crate::text::{
    all_ascii, ascii_lowercase, ascii_upper, chars_eq, chars_of, contains, is_ascii_char, slice_chars,
    spec_lowercase, starts_with, string_from_chars, to_lowercase, views,
};

verus! {

/// An entity.
#[derive(Debug, Clone, PartialEq, Eq, Hash)]
pub struct Node {
    pub name: String,
    pub entity_type: String,
}

/// A directed, typed relationship between two entities.
#[derive(Debug, Clone, PartialEq, Eq, Hash)]
pub struct Edge {
    pub source: String,
    pub target: String,
    pub relationship_type: String,
}

impl View for Node {
    type V = (Seq<char>, Seq<char>);

    open spec fn view(&self) -> (Seq<char>, Seq<char>) {
        (self.name@, self.entity_type@)
    }
}

impl View for Edge {
    type V = (Seq<char>, Seq<char>, Seq<char>);

    open spec fn view(&self) -> (Seq<char>, Seq<char>, Seq<char>) {
        (self.source@, self.target@, self.relationship_type@)
    }
}

/// Abstract graph: nodes as (name, type) in insertion order, edges as
/// (source, target, relationship) in insertion order.
pub struct GraphView {
    pub nodes: Seq<(Seq<char>, Seq<char>)>,
    pub edges: Seq<(Seq<char>, Seq<char>, Seq<char>)>,
}

/// The graph: entity nodes keyed by name, and relationship edges.
#[derive(Debug, Clone, Default)]
pub struct KnowledgeGraph {
    pub nodes: Vec<Node>,
    pub edges: Vec<Edge>,
}

impl View for KnowledgeGraph {
    type V = GraphView;

    open spec fn view(&self) -> GraphView {
        GraphView {
            nodes: self.nodes@.map_values(|n: Node| n@),
            edges: self.edges@.map_values(|e: Edge| e@),
        }
    }
}

/// Some node is called `name`.
pub open spec fn has_node(g: GraphView, name: Seq<char>) -> bool {
    exists|i: int| 0 <= i < g.nodes.len() && g.nodes[i].0 == name
}

/// Well-formedness: node names are unique, edges are unique, and every edge
/// joins two existing nodes.
pub open spec fn wf(g: GraphView) -> bool {
    &&& forall|i: int, j: int|
        0 <= i < j < g.nodes.len() ==> g.nodes[i].0 != g.nodes[j].0
    &&& forall|i: int, j: int| 0 <= i < j < g.edges.len() ==> g.edges[i] != g.edges[j]
    &&& forall|i: int|
        0 <= i < g.edges.len() ==> has_node(g, #[trigger] g.edges[i].0) && has_node(g, g.edges[i].1)
}

/// Position of the first node called `name`.
pub open spec fn node_index(g: GraphView, name: Seq<char>) -> int {
    choose|i: int|
        0 <= i < g.nodes.len() && g.nodes[i].0 == name && forall|j: int|
            0 <= j < i ==> g.nodes[j].0 != name
}

/// Where some node is called `name`, `node_index` is the first such node.
pub proof fn lemma_node_index(g: GraphView, name: Seq<char>)
    requires
        has_node(g, name),
    ensures
        0 <= node_index(g, name) < g.nodes.len(),
        g.nodes[node_index(g, name)].0 == name,
        forall|j: int| 0 <= j < node_index(g, name) ==> g.nodes[j].0 != name,
{
    let i = choose|i: int| 0 <= i < g.nodes.len() && g.nodes[i].0 == name;
    lemma_first_from(g, name, i);
}

proof fn lemma_first_from(g: GraphView, name: Seq<char>, i: int)
    requires
        0 <= i < g.nodes.len(),
        g.nodes[i].0 == name,
    ensures
        exists|k: int|
            0 <= k < g.nodes.len() && g.nodes[k].0 == name && forall|j: int|
                0 <= j < k ==> g.nodes[j].0 != name,
    decreases i,
{
    if exists|j: int| 0 <= j < i && g.nodes[j].0 == name {
        let j = choose|j: int| 0 <= j < i && g.nodes[j].0 == name;
        lemma_first_from(g, name, j);
    } else {
        assert(forall|j: int| 0 <= j < i ==> g.nodes[j].0 != name);
    }
}

/// Adding a node: a new name is appended; an existing node whose type is
/// empty takes the given type; any other existing node is left as it is.
pub open spec fn spec_add_node(g: GraphView, name: Seq<char>, ty: Seq<char>) -> GraphView {
    if has_node(g, name) {
        if g.nodes[node_index(g, name)].1.len() == 0 {
            GraphView { nodes: g.nodes.update(node_index(g, name), (name, ty)), edges: g.edges }
        } else {
            g
        }
    } else {
        GraphView { nodes: g.nodes.push((name, ty)), edges: g.edges }
    }
}

/// Adding an edge: both endpoints are added as nodes, then the edge is
/// appended unless the same edge is already there.
pub open spec fn spec_add_edge(
    g: GraphView,
    s: Seq<char>,
    st: Seq<char>,
    t: Seq<char>,
    tt: Seq<char>,
    r: Seq<char>,
) -> GraphView {
    let g2 = spec_add_node(spec_add_node(g, s, st), t, tt);
    if g2.edges.contains((s, t, r)) {
        g2
    } else {
        GraphView { nodes: g2.nodes, edges: g2.edges.push((s, t, r)) }
    }
}

impl KnowledgeGraph {
    pub open spec fn wf(&self) -> bool {
        wf(self@)
    }

    /// An empty graph.
    pub fn new() -> (g: Self)
        ensures
            g@.nodes == Seq::<(Seq<char>, Seq<char>)>::empty(),
            g@.edges == Seq::<(Seq<char>, Seq<char>, Seq<char>)>::empty(),
            g.wf(),
    {
        let g = KnowledgeGraph { nodes: Vec::new(), edges: Vec::new() };
        assert(g@.nodes =~= Seq::<(Seq<char>, Seq<char>)>::empty());
        assert(g@.edges =~= Seq::<(Seq<char>, Seq<char>, Seq<char>)>::empty());
        g
    }

    /// Whether a node named `name` exists.
    pub fn contains_node(&self, name: &str) -> (b: bool)
        ensures
            b == has_node(self@, name@),
    {
        let mut i: usize = 0;
        while i < self.nodes.len()
            invariant
                i <= self.nodes.len(),
                forall|j: int| 0 <= j < i ==> self@.nodes[j].0 != name@,
            decreases self.nodes.len() - i,
        {
            let c = chars_of(self.nodes[i].name.as_str());
            let n = chars_of(name);
            if chars_eq(&c, &n) {
                assert(self@.nodes[i as int].0 == name@);
                return true;
            }
            i = i + 1;
        }
        false
    }

    /// Add or update an entity node: a new name is added; an existing node
    /// whose type is empty takes the given type; otherwise it is kept.
    pub fn add_node(&mut self, name: String, entity_type: String)
        ensures
            final(self)@ == spec_add_node(old(self)@, name@, entity_type@),
    {
        let mut i: usize = 0;
        while i < self.nodes.len()
            invariant
                i <= self.nodes.len(),
                *self == *old(self),
                forall|j: int| 0 <= j < i ==> self@.nodes[j].0 != name@,
            decreases self.nodes.len() - i,
        {
            if self.nodes[i].name == name {
                let ghost g = self@;
                assert(g.nodes[i as int].0 == name@);
                assert(has_node(g, name@));
                proof {
                    lemma_node_index(g, name@);
                    let k = node_index(g, name@);
                    if k < i {
                        assert(g.nodes[k].0 != name@);
                    } else if k > i {
                        assert(g.nodes[i as int].0 != name@);
                    }
                    assert(k == i);
                }
                if self.nodes[i].entity_type.as_str().unicode_len() == 0 {
                    self.nodes.set(i, Node { name, entity_type });
                    assert(self@.nodes =~= g.nodes.update(i as int, (name@, entity_type@)));
                    assert(self@.edges =~= g.edges);
                }
                return;
            }
            i = i + 1;
        }
        let ghost g = self@;
        self.nodes.push(Node { name, entity_type });
        assert(self@.nodes =~= g.nodes.push((name@, entity_type@)));
        assert(self@.edges =~= g.edges);
    }

    /// Add a relationship edge, ensuring both endpoint nodes exist.
    pub fn add_edge(
        &mut self,
        source: String,
        source_type: String,
        target: String,
        target_type: String,
        relationship_type: String,
    )
        ensures
            final(self)@ == spec_add_edge(
                old(self)@,
                source@,
                source_type@,
                target@,
                target_type@,
                relationship_type@,
            ),
    {
        self.add_node(source.clone(), source_type);
        self.add_node(target.clone(), target_type);
        let ghost g2 = self@;
        assert(g2 == spec_add_node(
            spec_add_node(old(self)@, source@, source_type@),
            target@,
            target_type@,
        ));
        let mut i: usize = 0;
        while i < self.edges.len()
            invariant
                i <= self.edges.len(),
                self@ == g2,
                g2 == spec_add_node(
                    spec_add_node(old(self)@, source@, source_type@),
                    target@,
                    target_type@,
                ),
                forall|j: int|
                    0 <= j < i ==> self@.edges[j] != (source@, target@, relationship_type@),
            decreases self.edges.len() - i,
        {
            let e = &self.edges[i];
            if e.source == source && e.target == target && e.relationship_type
                == relationship_type {
                assert(self@.edges[i as int] == (source@, target@, relationship_type@));
                assert(g2.edges.contains((source@, target@, relationship_type@)));
                return;
            }
            i = i + 1;
        }
        assert(!g2.edges.contains((source@, target@, relationship_type@)));
        self.edges.push(Edge { source, target, relationship_type });
        assert(self@.edges =~= g2.edges.push((source@, target@, relationship_type@)));
        assert(self@.nodes =~= g2.nodes);
    }
}

/// The first node called `m` in `g1` is still the first in `g2` when the
/// names up to it are the same.
proof fn lemma_first_kept(g1: GraphView, g2: GraphView, m: Seq<char>, k: int)
    requires
        0 <= k < g1.nodes.len(),
        k < g2.nodes.len(),
        g1.nodes[k].0 == m,
        forall|j: int| 0 <= j < k ==> g1.nodes[j].0 != m,
        forall|j: int| 0 <= j <= k ==> g2.nodes[j].0 == g1.nodes[j].0,
    ensures
        has_node(g2, m),
        node_index(g2, m) == k,
{
    assert(g2.nodes[k].0 == m);
    lemma_node_index(g2, m);
    let k2 = node_index(g2, m);
    if k2 < k {
        assert(g2.nodes[k2].0 == g1.nodes[k2].0);
    } else if k2 > k {
        assert(g2.nodes[k].0 != m);
    }
}

/// What adding a node does to the node list: names stay where they are (a
/// new name is appended), a node keeps its type unless it is the node called
/// `name` and its type is empty, and the edges stay.
proof fn lemma_add_node_shape(g: GraphView, name: Seq<char>, ty: Seq<char>)
    ensures
        spec_add_node(g, name, ty).edges == g.edges,
        has_node(g, name) ==> spec_add_node(g, name, ty).nodes.len() == g.nodes.len(),
        !has_node(g, name) ==> spec_add_node(g, name, ty).nodes == g.nodes.push((name, ty)),
        forall|k: int|
            0 <= k < g.nodes.len() ==> #[trigger] spec_add_node(g, name, ty).nodes[k].0
                == g.nodes[k].0,
        forall|k: int|
            0 <= k < g.nodes.len() && (g.nodes[k].1.len() > 0 || g.nodes[k].0 != name)
                ==> #[trigger] spec_add_node(g, name, ty).nodes[k] == g.nodes[k],
        has_node(spec_add_node(g, name, ty), name),
        forall|m: Seq<char>|
            #[trigger] has_node(spec_add_node(g, name, ty), m) <==> (has_node(g, m) || m == name),
{
    let g2 = spec_add_node(g, name, ty);
    if has_node(g, name) {
        lemma_node_index(g, name);
        let i = node_index(g, name);
        assert(g2.nodes[i].0 == name);
        assert forall|m: Seq<char>| #[trigger] has_node(g2, m) <==> (has_node(g, m) || m == name) by {
            if has_node(g, m) {
                let k = choose|k: int| 0 <= k < g.nodes.len() && g.nodes[k].0 == m;
                assert(g2.nodes[k].0 == m);
            }
            if has_node(g2, m) {
                let k = choose|k: int| 0 <= k < g2.nodes.len() && g2.nodes[k].0 == m;
                assert(g.nodes[k].0 == m);
            }
        }
    } else {
        assert(g2.nodes[g.nodes.len() as int].0 == name);
        assert forall|m: Seq<char>| #[trigger] has_node(g2, m) <==> (has_node(g, m) || m == name) by {
            if has_node(g, m) {
                let k = choose|k: int| 0 <= k < g.nodes.len() && g.nodes[k].0 == m;
                assert(g2.nodes[k].0 == m);
            }
            if has_node(g2, m) && m != name {
                let k = choose|k: int| 0 <= k < g2.nodes.len() && g2.nodes[k].0 == m;
                assert(k < g.nodes.len());
                assert(g.nodes[k].0 == m);
            }
        }
    }
}

/// The node called `n` is there, and adding it again with type `y` changes
/// nothing: its type is not empty, or is `y` already.
pub open spec fn settled(h: GraphView, n: Seq<char>, y: Seq<char>) -> bool {
    has_node(h, n) && (h.nodes[node_index(h, n)].1.len() > 0 || h.nodes[node_index(h, n)].1 == y)
}

proof fn lemma_settled_fixed(h: GraphView, n: Seq<char>, y: Seq<char>)
    requires
        settled(h, n, y),
    ensures
        spec_add_node(h, n, y) == h,
{
    lemma_node_index(h, n);
    let i = node_index(h, n);
    if h.nodes[i].1.len() == 0 {
        assert(h.nodes.update(i, (n, y)) =~= h.nodes);
    }
}

proof fn lemma_add_settles(h: GraphView, n: Seq<char>, y: Seq<char>)
    ensures
        settled(spec_add_node(h, n, y), n, y),
{
    let g2 = spec_add_node(h, n, y);
    lemma_add_node_shape(h, n, y);
    if has_node(h, n) {
        lemma_node_index(h, n);
        let i = node_index(h, n);
        lemma_first_kept(h, g2, n, i);
    } else {
        let last = h.nodes.len() as int;
        lemma_first_kept(g2, g2, n, last);
    }
}

proof fn lemma_settled_kept(h: GraphView, m: Seq<char>, z: Seq<char>, n: Seq<char>, y: Seq<char>)
    requires
        settled(h, m, z),
    ensures
        settled(spec_add_node(h, n, y), m, z),
{
    let g2 = spec_add_node(h, n, y);
    lemma_add_node_shape(h, n, y);
    lemma_node_index(h, m);
    let k = node_index(h, m);
    lemma_first_kept(h, g2, m, k);
    if h.nodes[k].1.len() > 0 || m != n {
        assert(g2.nodes[k] == h.nodes[k]);
    } else {
        assert(h.nodes[k].1 == z);
        if g2.nodes[k] != h.nodes[k] {
            assert(has_node(h, n));
            lemma_node_index(h, n);
            assert(node_index(h, n) == k);
            assert(g2.nodes[k] == (n, y));
            if y.len() == 0 {
                assert(y =~= z);
            }
        }
    }
}

/// Adding a node keeps the graph well formed.
pub proof fn lemma_add_node_wf(g: GraphView, name: Seq<char>, ty: Seq<char>)
    requires
        wf(g),
    ensures
        wf(spec_add_node(g, name, ty)),
        has_node(spec_add_node(g, name, ty), name),
        forall|n: Seq<char>| has_node(g, n) ==> has_node(#[trigger] spec_add_node(g, name, ty), n),
{
    let g2 = spec_add_node(g, name, ty);
    lemma_add_node_shape(g, name, ty);
    assert forall|i: int|
        0 <= i < g2.edges.len() implies has_node(g2, #[trigger] g2.edges[i].0) && has_node(
        g2,
        g2.edges[i].1,
    ) by {
        assert(has_node(g, g.edges[i].0));
        assert(has_node(g, g.edges[i].1));
    }
    assert forall|i: int, j: int| 0 <= i < j < g2.nodes.len() implies g2.nodes[i].0
        != g2.nodes[j].0 by {
        if j < g.nodes.len() {
            assert(g2.nodes[i].0 == g.nodes[i].0);
            assert(g2.nodes[j].0 == g.nodes[j].0);
        } else {
            assert(g2.nodes[i].0 == g.nodes[i].0);
            assert(has_node(g, g.nodes[i].0));
        }
    }
}

/// Law: adding an edge keeps the graph well formed (unique names, unique
/// edges, endpoints present), and afterwards both endpoints exist and the
/// edge is present.
pub proof fn lemma_add_edge_wf(
    g: GraphView,
    s: Seq<char>,
    st: Seq<char>,
    t: Seq<char>,
    tt: Seq<char>,
    r: Seq<char>,
)
    requires
        wf(g),
    ensures
        wf(spec_add_edge(g, s, st, t, tt, r)),
        has_node(spec_add_edge(g, s, st, t, tt, r), s),
        has_node(spec_add_edge(g, s, st, t, tt, r), t),
        spec_add_edge(g, s, st, t, tt, r).edges.contains((s, t, r)),
{
    let g1 = spec_add_node(g, s, st);
    lemma_add_node_wf(g, s, st);
    let g2 = spec_add_node(g1, t, tt);
    lemma_add_node_wf(g1, t, tt);
    assert(has_node(g2, s));
    let g3 = spec_add_edge(g, s, st, t, tt, r);
    assert(g3.nodes == g2.nodes);
    assert(has_node(g3, s) && has_node(g3, t)) by {
        let i = choose|i: int| 0 <= i < g2.nodes.len() && g2.nodes[i].0 == s;
        assert(g3.nodes[i].0 == s);
        let k = choose|k: int| 0 <= k < g2.nodes.len() && g2.nodes[k].0 == t;
        assert(g3.nodes[k].0 == t);
    }
    if !g2.edges.contains((s, t, r)) {
        assert(g3.edges[g2.edges.len() as int] == (s, t, r));
        assert forall|i: int| 0 <= i < g3.edges.len() implies has_node(
            g3,
            #[trigger] g3.edges[i].0,
        ) && has_node(g3, g3.edges[i].1) by {
            if i < g2.edges.len() {
                assert(g3.edges[i] == g2.edges[i]);
                assert(has_node(g2, g2.edges[i].0));
                assert(has_node(g2, g2.edges[i].1));
                let a = choose|a: int| 0 <= a < g2.nodes.len() && g2.nodes[a].0 == g2.edges[i].0;
                assert(g3.nodes[a].0 == g3.edges[i].0);
                let b = choose|b: int| 0 <= b < g2.nodes.len() && g2.nodes[b].0 == g2.edges[i].1;
                assert(g3.nodes[b].0 == g3.edges[i].1);
            }
        }
        assert forall|i: int, j: int| 0 <= i < j < g3.edges.len() implies g3.edges[i]
            != g3.edges[j] by {
            if j == g2.edges.len() {
                assert(g2.edges[i] == g3.edges[i]);
            }
        }
    }
}

/// Law: adding the same edge twice has the same effect as adding it once.
pub proof fn lemma_add_edge_idempotent(
    g: GraphView,
    s: Seq<char>,
    st: Seq<char>,
    t: Seq<char>,
    tt: Seq<char>,
    r: Seq<char>,
)
    ensures
        spec_add_edge(spec_add_edge(g, s, st, t, tt, r), s, st, t, tt, r) == spec_add_edge(
            g,
            s,
            st,
            t,
            tt,
            r,
        ),
{
    let g1 = spec_add_edge(g, s, st, t, tt, r);
    let a = spec_add_node(g, s, st);
    let b = spec_add_node(a, t, tt);
    lemma_add_settles(g, s, st);
    lemma_settled_kept(a, s, st, t, tt);
    lemma_add_settles(a, t, tt);
    assert(g1.nodes == b.nodes);
    assert(settled(g1, s, st));
    assert(settled(g1, t, tt));
    lemma_settled_fixed(g1, s, st);
    lemma_settled_fixed(g1, t, tt);
    assert(spec_add_node(spec_add_node(g1, s, st), t, tt) == g1);
    if !b.edges.contains((s, t, r)) {
        assert(g1.edges[b.edges.len() as int] == (s, t, r));
    }
    assert(g1.edges.contains((s, t, r)));
}

/// Law: adding a node never renames a node, never changes a node whose type
/// is not empty, and leaves the edges as they are.
pub proof fn lemma_add_node_keeps_existing(g: GraphView, name: Seq<char>, ty: Seq<char>, i: int)
    requires
        0 <= i < g.nodes.len(),
    ensures
        spec_add_node(g, name, ty).nodes[i].0 == g.nodes[i].0,
        g.nodes[i].1.len() > 0 ==> spec_add_node(g, name, ty).nodes[i] == g.nodes[i],
        spec_add_node(g, name, ty).edges == g.edges,
{
    lemma_add_node_shape(g, name, ty);
}

/// Law: a node that exists with an empty type takes the type it is added
/// with; every other node is left as it is.
pub proof fn lemma_add_node_fills_empty_type(g: GraphView, name: Seq<char>, ty: Seq<char>, i: int)
    requires
        wf(g),
        0 <= i < g.nodes.len(),
        g.nodes[i].0 == name,
        g.nodes[i].1.len() == 0,
    ensures
        spec_add_node(g, name, ty).nodes == g.nodes.update(i, (name, ty)),
        spec_add_node(g, name, ty).edges == g.edges,
{
    lemma_first_kept(g, g, name, i);
}


/// Index of the first node whose lower-cased name equals the lower-cased `name`.
pub open spec fn first_ci_match(g: GraphView, name: Seq<char>) -> Option<int> {
    if exists|i: int|
        0 <= i < g.nodes.len() && spec_lowercase(g.nodes[i].0) == spec_lowercase(name) {
        Some(
            choose|i: int|
                0 <= i < g.nodes.len() && spec_lowercase(g.nodes[i].0) == spec_lowercase(name)
                    && forall|j: int|
                    0 <= j < i ==> spec_lowercase(g.nodes[j].0) != spec_lowercase(name),
        )
    } else {
        None
    }
}

/// The node an entity name refers to: the node of that exact name, else the
/// first node whose name matches case-insensitively.
pub open spec fn canonical_name(g: GraphView, name: Seq<char>) -> Option<Seq<char>> {
    if has_node(g, name) {
        Some(name)
    } else {
        match first_ci_match(g, name) {
            Some(i) => Some(g.nodes[i].0),
            None => None,
        }
    }
}

/// Index of the first node whose ASCII-lower-cased name equals the
/// ASCII-lower-cased `name`.
pub open spec fn first_ascii_ci_match(g: GraphView, name: Seq<char>) -> Option<int> {
    if exists|i: int|
        0 <= i < g.nodes.len() && ascii_lowercase(g.nodes[i].0) == ascii_lowercase(name) {
        Some(
            choose|i: int|
                0 <= i < g.nodes.len() && ascii_lowercase(g.nodes[i].0) == ascii_lowercase(name)
                    && forall|j: int|
                    0 <= j < i ==> ascii_lowercase(g.nodes[j].0) != ascii_lowercase(name),
        )
    } else {
        None
    }
}

/// `canonical_name` where every name is ASCII, so that lower-casing is
/// ASCII lower-casing.
pub open spec fn canonical_name_ascii(g: GraphView, name: Seq<char>) -> Option<Seq<char>> {
    if has_node(g, name) {
        Some(name)
    } else {
        match first_ascii_ci_match(g, name) {
            Some(i) => Some(g.nodes[i].0),
            None => None,
        }
    }
}

/// The node names and `name` are all ASCII.
pub open spec fn ascii_names(g: GraphView, name: Seq<char>) -> bool {
    all_ascii(name) && forall|j: int| 0 <= j < g.nodes.len() ==> all_ascii(#[trigger] g.nodes[j].0)
}

/// Some edge joins `a` and `b` (in either direction).
pub open spec fn linked(g: GraphView, a: Seq<char>, b: Seq<char>) -> bool {
    exists|j: int|
        0 <= j < g.edges.len() && ((g.edges[j].0 == a && g.edges[j].1 == b) || (g.edges[j].1 == a
            && g.edges[j].0 == b))
}

/// Names within `k` edge steps of `c`.
pub open spec fn within(g: GraphView, c: Seq<char>, k: nat) -> Set<Seq<char>>
    decreases k,
{
    if k == 0 {
        set![c]
    } else {
        let r = within(g, c, (k - 1) as nat);
        r.union(Set::new(|b: Seq<char>| exists|a: Seq<char>| r.contains(a) && linked(g, a, b)))
    }
}

/// The nodes whose names are in `r`, in order.
pub open spec fn nodes_in(ns: Seq<(Seq<char>, Seq<char>)>, r: Set<Seq<char>>) -> Seq<
    (Seq<char>, Seq<char>),
>
    decreases ns.len(),
{
    if ns.len() == 0 {
        Seq::empty()
    } else {
        nodes_in(ns.drop_last(), r) + if r.contains(ns.last().0) {
            seq![ns.last()]
        } else {
            Seq::empty()
        }
    }
}

/// The edges with an endpoint in `r`, in order.
pub open spec fn edges_touching(es: Seq<(Seq<char>, Seq<char>, Seq<char>)>, r: Set<Seq<char>>) -> Seq<
    (Seq<char>, Seq<char>, Seq<char>),
>
    decreases es.len(),
{
    if es.len() == 0 {
        Seq::empty()
    } else {
        edges_touching(es.drop_last(), r) + if r.contains(es.last().0) || r.contains(es.last().1) {
            seq![es.last()]
        } else {
            Seq::empty()
        }
    }
}

/// What a neighbourhood query answers: the nodes within `d` steps of the
/// entity, and the edges touching a node within `d - 1` steps (none for `d == 0`);
/// nothing when the entity is unknown.
pub open spec fn neighborhood(g: GraphView, start: Seq<char>, d: nat) -> (
    Seq<(Seq<char>, Seq<char>)>,
    Seq<(Seq<char>, Seq<char>, Seq<char>)>,
) {
    match canonical_name(g, start) {
        None => (Seq::empty(), Seq::empty()),
        Some(c) => (
            nodes_in(g.nodes, within(g, c, d)),
            if d == 0 {
                Seq::empty()
            } else {
                edges_touching(g.edges, within(g, c, (d - 1) as nat))
            },
        ),
    }
}

/// Names reached from `r` through the first `j` edges.
pub open spec fn reached_by(
    es: Seq<(Seq<char>, Seq<char>, Seq<char>)>,
    r: Set<Seq<char>>,
    j: int,
    x: Seq<char>,
) -> bool
    decreases j,
{
    if j <= 0 {
        false
    } else {
        reached_by(es, r, j - 1, x) || (r.contains(es[j - 1].0) && x == es[j - 1].1) || (r.contains(
            es[j - 1].1,
        ) && x == es[j - 1].0)
    }
}

proof fn lemma_reached_by(g: GraphView, r: Set<Seq<char>>, j: int, x: Seq<char>)
    requires
        0 <= j <= g.edges.len(),
    ensures
        reached_by(g.edges, r, j, x) <==> exists|jj: int|
            0 <= jj < j && ((r.contains(g.edges[jj].0) && x == g.edges[jj].1) || (r.contains(
                g.edges[jj].1,
            ) && x == g.edges[jj].0)),
    decreases j,
{
    if j > 0 {
        lemma_reached_by(g, r, j - 1, x);
        if reached_by(g.edges, r, j, x) {
            if !reached_by(g.edges, r, j - 1, x) {
                let jj = j - 1;
                assert((r.contains(g.edges[jj].0) && x == g.edges[jj].1) || (r.contains(
                    g.edges[jj].1,
                ) && x == g.edges[jj].0));
            }
        }
    }
}

proof fn lemma_step_is_within(g: GraphView, c: Seq<char>, k: nat, x: Seq<char>)
    ensures
        within(g, c, k + 1).contains(x) <==> (within(g, c, k).contains(x) || reached_by(
            g.edges,
            within(g, c, k),
            g.edges.len() as int,
            x,
        )),
{
    let r = within(g, c, k);
    lemma_reached_by(g, r, g.edges.len() as int, x);
    assert(within(g, c, k + 1) == r.union(
        Set::new(|b: Seq<char>| exists|a: Seq<char>| r.contains(a) && linked(g, a, b)),
    ));
    if reached_by(g.edges, r, g.edges.len() as int, x) {
        let jj = choose|jj: int|
            0 <= jj < g.edges.len() && ((r.contains(g.edges[jj].0) && x == g.edges[jj].1) || (
            r.contains(g.edges[jj].1) && x == g.edges[jj].0));
        if r.contains(g.edges[jj].0) && x == g.edges[jj].1 {
            assert(linked(g, g.edges[jj].0, x));
        } else {
            assert(linked(g, g.edges[jj].1, x));
        }
    }
    if (exists|a: Seq<char>| r.contains(a) && linked(g, a, x)) {
        let a = choose|a: Seq<char>| r.contains(a) && linked(g, a, x);
        let jj = choose|jj: int|
            0 <= jj < g.edges.len() && ((g.edges[jj].0 == a && g.edges[jj].1 == x) || (
            g.edges[jj].1 == a && g.edges[jj].0 == x));
        assert((r.contains(g.edges[jj].0) && x == g.edges[jj].1) || (r.contains(g.edges[jj].1)
            && x == g.edges[jj].0));
    }
}

/// Once a step adds nothing, further steps add nothing.
proof fn lemma_within_stable(g: GraphView, c: Seq<char>, k: nat, m: nat)
    requires
        within(g, c, k + 1) =~= within(g, c, k),
        k <= m,
    ensures
        within(g, c, m) == within(g, c, k),
    decreases m - k,
{
    if m > k {
        lemma_within_stable(g, c, k, (m - 1) as nat);
        assert(within(g, c, m) =~= within(g, c, k + 1));
    }
}

/// Law: the neighbourhood only grows with the depth.
pub proof fn lemma_within_monotone(g: GraphView, c: Seq<char>, k: nat, m: nat)
    requires
        k <= m,
    ensures
        within(g, c, k).subset_of(within(g, c, m)),
    decreases m - k,
{
    if m > k {
        lemma_within_monotone(g, c, k, (m - 1) as nat);
    }
}

/// Law: the queried entity itself is always within its neighbourhood.
pub proof fn lemma_within_contains_start(g: GraphView, c: Seq<char>, k: nat)
    ensures
        within(g, c, k).contains(c),
{
    lemma_within_monotone(g, c, 0, k);
}

fn name_in(v: &Vec<Vec<char>>, x: &Vec<char>) -> (b: bool)
    ensures
        b == views(v@).contains(x@),
{
    let mut i: usize = 0;
    while i < v.len()
        invariant
            i <= v.len(),
            forall|j: int| 0 <= j < i ==> v@[j]@ != x@,
        decreases v.len() - i,
    {
        if chars_eq(&v[i], x) {
            assert(views(v@)[i as int] == x@);
            return true;
        }
        i = i + 1;
    }
    assert forall|j: int| 0 <= j < views(v@).len() implies views(v@)[j] != x@ by {
        assert(views(v@)[j] == v@[j]@);
    }
    false
}

fn copy_names(v: &Vec<Vec<char>>) -> (r: Vec<Vec<char>>)
    ensures
        views(r@) == views(v@),
{
    let mut r: Vec<Vec<char>> = Vec::new();
    let mut i: usize = 0;
    while i < v.len()
        invariant
            i <= v.len(),
            views(r@) == views(v@).take(i as int),
        decreases v.len() - i,
    {
        let c = slice_chars(&v[i], 0, v[i].len());
        assert(v@[i as int]@.subrange(0, v@[i as int]@.len() as int) =~= v@[i as int]@);
        let ghost old_r = r@;
        r.push(c);
        assert(views(r@) =~= views(old_r).push(v@[i as int]@));
        assert(views(v@).take(i + 1) =~= views(v@).take(i as int).push(v@[i as int]@));
        i = i + 1;
    }
    assert(views(v@).take(v.len() as int) =~= views(v@));
    r
}

fn copy_node(n: &Node) -> (r: Node)
    ensures
        r@ == n@,
{
    Node { name: n.name.clone(), entity_type: n.entity_type.clone() }
}

fn copy_edge(e: &Edge) -> (r: Edge)
    ensures
        r@ == e@,
{
    Edge {
        source: e.source.clone(),
        target: e.target.clone(),
        relationship_type: e.relationship_type.clone(),
    }
}

impl KnowledgeGraph {
    /// Find a node case-insensitively: the exact name first, else the first
    /// node whose name matches ignoring case.
    pub fn find_canonical_node_name(&self, name: &str) -> (r: Option<String>)
        ensures
            match r {
                Some(n) => canonical_name(self@, name@) == Some(n@),
                None => canonical_name(self@, name@) is None,
            },
            ascii_names(self@, name@) ==> match r {
                Some(n) => canonical_name_ascii(self@, name@) == Some(n@),
                None => canonical_name_ascii(self@, name@) is None,
            },
    {
        if self.contains_node(name) {
            return Some(string_from_chars(chars_of(name).as_slice()));
        }
        let ghost asc = ascii_names(self@, name@);
        let lower_s = to_lowercase(name);
        let lower = chars_of(lower_s.as_str());
        let mut i: usize = 0;
        while i < self.nodes.len()
            invariant
                i <= self.nodes.len(),
                !has_node(self@, name@),
                asc == ascii_names(self@, name@),
                lower@ == spec_lowercase(name@),
                asc ==> lower@ == ascii_lowercase(name@),
                forall|j: int|
                    0 <= j < i ==> spec_lowercase(self@.nodes[j].0) != spec_lowercase(name@),
                asc ==> forall|j: int|
                    0 <= j < i ==> ascii_lowercase(self@.nodes[j].0) != ascii_lowercase(name@),
            decreases self.nodes.len() - i,
        {
            let ks = to_lowercase(self.nodes[i].name.as_str());
            let k = chars_of(ks.as_str());
            proof {
                if asc {
                    assert(all_ascii(self@.nodes[i as int].0));
                    assert(self.nodes@[i as int].name@ == self@.nodes[i as int].0);
                }
            }
            if chars_eq(&k, &lower) {
                proof {
                    assert(spec_lowercase(self@.nodes[i as int].0) == spec_lowercase(name@));
                    let f = first_ci_match(self@, name@);
                    assert(f is Some);
                    let ff = f->0;
                    assert(ff == i) by {
                        if ff < i {
                        } else if ff > i {
                        }
                    }
                    if asc {
                        assert(ascii_lowercase(self@.nodes[i as int].0) == ascii_lowercase(name@));
                        let fa = first_ascii_ci_match(self@, name@);
                        assert(fa is Some);
                        let fb = fa->0;
                        assert(fb == i) by {
                            if fb < i {
                            } else if fb > i {
                            }
                        }
                    }
                }
                return Some(self.nodes[i].name.clone());
            }
            i = i + 1;
        }
        None
    }

    /// Query the neighbours of an entity up to `max_depth` edge steps away.
    pub fn query_neighbors(&self, start_entity: &str, max_depth: usize) -> (r: (
        Vec<Node>,
        Vec<Edge>,
    ))
        ensures
            (r.0@.map_values(|n: Node| n@), r.1@.map_values(|e: Edge| e@)) == neighborhood(
                self@,
                start_entity@,
                max_depth as nat,
            ),
    {
        let ghost g = self@;
        let canonical = match self.find_canonical_node_name(start_entity) {
            Some(c) => c,
            None => {
                let a: Vec<Node> = Vec::new();
                let b: Vec<Edge> = Vec::new();
                assert(a@.map_values(|n: Node| n@) =~= Seq::empty());
                assert(b@.map_values(|e: Edge| e@) =~= Seq::empty());
                return (a, b);
            },
        };
        let ghost c = canonical@;
        let (srcs, tgts) = self.endpoints();
        let mut reached: Vec<Vec<char>> = Vec::new();
        reached.push(chars_of(canonical.as_str()));
        assert(views(reached@) =~= seq![c]);
        assert forall|x: Seq<char>| views(reached@).contains(x) <==> within(g, c, 0).contains(x) by {
            if views(reached@).contains(x) {
                assert(views(reached@)[0] == x);
            }
            if within(g, c, 0).contains(x) {
                assert(views(reached@)[0] == x);
            }
        }
        let mut inner: Vec<Vec<char>> = Vec::new();
        let mut step: usize = 0;
        while step < max_depth
            invariant_except_break
                step > 0 ==> forall|x: Seq<char>|
                    views(inner@).contains(x) <==> within(g, c, (step - 1) as nat).contains(x),
            invariant
                step <= max_depth,
                g == self@,
                srcs.len() == g.edges.len(),
                tgts.len() == g.edges.len(),
                forall|jj: int| 0 <= jj < g.edges.len() ==> srcs@[jj]@ == g.edges[jj].0,
                forall|jj: int| 0 <= jj < g.edges.len() ==> tgts@[jj]@ == g.edges[jj].1,
                forall|x: Seq<char>|
                    views(reached@).contains(x) <==> within(g, c, step as nat).contains(x),
            ensures
                forall|x: Seq<char>|
                    views(reached@).contains(x) <==> within(g, c, max_depth as nat).contains(x),
                max_depth > 0 ==> forall|x: Seq<char>|
                    views(inner@).contains(x) <==> within(g, c, (max_depth - 1) as nat).contains(x),
            decreases max_depth - step,
        {
            let (next, changed) = expand_step(&srcs, &tgts, &reached, Ghost(g), Ghost(c), Ghost(step as nat));
            if !changed {
                proof {
                    assert(within(g, c, (step + 1) as nat) =~= within(g, c, step as nat)) by {
                        assert forall|x: Seq<char>| within(g, c, (step + 1) as nat).contains(x) implies within(g, c, step as nat).contains(x) by {
                            assert(views(next@).contains(x));
                        }
                        lemma_within_monotone(g, c, step as nat, (step + 1) as nat);
                    }
                    lemma_within_stable(g, c, step as nat, max_depth as nat);
                    lemma_within_stable(g, c, step as nat, (max_depth - 1) as nat);
                }
                inner = copy_names(&reached);
                break;
            }
            inner = reached;
            reached = next;
            step = step + 1;
        }
        let ns = self.nodes_within(&reached, Ghost(within(g, c, max_depth as nat)));
        let es = if max_depth > 0 {
            self.edges_touching_names(&inner, Ghost(within(g, c, (max_depth - 1) as nat)))
        } else {
            let es: Vec<Edge> = Vec::new();
            assert(es@.map_values(|e: Edge| e@) =~= Seq::empty());
            es
        };
        (ns, es)
    }

    /// Source and target names of every edge.
    fn endpoints(&self) -> (r: (Vec<Vec<char>>, Vec<Vec<char>>))
        ensures
            r.0.len() == self@.edges.len(),
            r.1.len() == self@.edges.len(),
            forall|jj: int| 0 <= jj < self@.edges.len() ==> r.0@[jj]@ == self@.edges[jj].0,
            forall|jj: int| 0 <= jj < self@.edges.len() ==> r.1@[jj]@ == self@.edges[jj].1,
    {
        let mut srcs: Vec<Vec<char>> = Vec::new();
        let mut tgts: Vec<Vec<char>> = Vec::new();
        let mut j: usize = 0;
        while j < self.edges.len()
            invariant
                j <= self.edges.len(),
                srcs.len() == j,
                tgts.len() == j,
                forall|jj: int| 0 <= jj < j ==> srcs@[jj]@ == self@.edges[jj].0,
                forall|jj: int| 0 <= jj < j ==> tgts@[jj]@ == self@.edges[jj].1,
            decreases self.edges.len() - j,
        {
            srcs.push(chars_of(self.edges[j].source.as_str()));
            tgts.push(chars_of(self.edges[j].target.as_str()));
            j = j + 1;
        }
        (srcs, tgts)
    }

    /// The nodes whose names are in `names` (which stands for `r`), in order.
    fn nodes_within(&self, names: &Vec<Vec<char>>, Ghost(r): Ghost<Set<Seq<char>>>) -> (ns: Vec<Node>)
        requires
            forall|x: Seq<char>| views(names@).contains(x) <==> r.contains(x),
        ensures
            ns@.map_values(|n: Node| n@) == nodes_in(self@.nodes, r),
    {
        let ghost g = self@;
        let mut ns: Vec<Node> = Vec::new();
        let mut i: usize = 0;
        while i < self.nodes.len()
            invariant
                i <= self.nodes.len(),
                g == self@,
                forall|x: Seq<char>| views(names@).contains(x) <==> r.contains(x),
                ns@.map_values(|n: Node| n@) == nodes_in(g.nodes.take(i as int), r),
            decreases self.nodes.len() - i,
        {
            assert(g.nodes.take(i + 1).drop_last() =~= g.nodes.take(i as int));
            assert(g.nodes.take(i + 1).last() == g.nodes[i as int]);
            let nm = chars_of(self.nodes[i].name.as_str());
            let ghost before = ns@;
            if name_in(names, &nm) {
                ns.push(copy_node(&self.nodes[i]));
                assert(ns@.map_values(|n: Node| n@) =~= before.map_values(|n: Node| n@).push(
                    g.nodes[i as int],
                ));
            } else {
                assert(ns@.map_values(|n: Node| n@) =~= before.map_values(|n: Node| n@) + Seq::<(Seq<char>, Seq<char>)>::empty());
            }
            i = i + 1;
        }
        assert(g.nodes.take(self.nodes.len() as int) =~= g.nodes);
        ns
    }

    /// The edges with an endpoint in `names` (which stands for `r`), in order.
    fn edges_touching_names(&self, names: &Vec<Vec<char>>, Ghost(r): Ghost<Set<Seq<char>>>) -> (es: Vec<Edge>)
        requires
            forall|x: Seq<char>| views(names@).contains(x) <==> r.contains(x),
        ensures
            es@.map_values(|e: Edge| e@) == edges_touching(self@.edges, r),
    {
        let ghost g = self@;
        let mut es: Vec<Edge> = Vec::new();
        let mut j: usize = 0;
        while j < self.edges.len()
            invariant
                j <= self.edges.len(),
                g == self@,
                forall|x: Seq<char>| views(names@).contains(x) <==> r.contains(x),
                es@.map_values(|e: Edge| e@) == edges_touching(g.edges.take(j as int), r),
            decreases self.edges.len() - j,
        {
            assert(g.edges.take(j + 1).drop_last() =~= g.edges.take(j as int));
            assert(g.edges.take(j + 1).last() == g.edges[j as int]);
            let s = chars_of(self.edges[j].source.as_str());
            let t = chars_of(self.edges[j].target.as_str());
            let ghost before = es@;
            if name_in(names, &s) || name_in(names, &t) {
                es.push(copy_edge(&self.edges[j]));
                assert(es@.map_values(|e: Edge| e@) =~= before.map_values(|e: Edge| e@).push(
                    g.edges[j as int],
                ));
            } else {
                assert(es@.map_values(|e: Edge| e@) =~= before.map_values(|e: Edge| e@) + Seq::<(Seq<char>, Seq<char>, Seq<char>)>::empty());
            }
            j = j + 1;
        }
        assert(g.edges.take(self.edges.len() as int) =~= g.edges);
        es
    }
}

proof fn lemma_push_contains(s: Seq<Seq<char>>, a: Seq<char>, x: Seq<char>)
    ensures
        s.push(a).contains(x) <==> (s.contains(x) || x == a),
{
    if s.push(a).contains(x) && x != a {
        let i = choose|i: int| 0 <= i < s.push(a).len() && s.push(a)[i] == x;
        assert(s[i] == x);
    }
    if s.contains(x) {
        let i = choose|i: int| 0 <= i < s.len() && s[i] == x;
        assert(s.push(a)[i] == x);
    }
    if x == a {
        assert(s.push(a)[s.len() as int] == x);
    }
}

/// One breadth step: the names of `reached` (standing for `within(g, c, k)`)
/// together with every name one edge away; `changed` tells whether any was new.
fn expand_step(
    srcs: &Vec<Vec<char>>,
    tgts: &Vec<Vec<char>>,
    reached: &Vec<Vec<char>>,
    Ghost(g): Ghost<GraphView>,
    Ghost(c): Ghost<Seq<char>>,
    Ghost(k): Ghost<nat>,
) -> (r: (Vec<Vec<char>>, bool))
    requires
        srcs.len() == g.edges.len(),
        tgts.len() == g.edges.len(),
        forall|jj: int| 0 <= jj < g.edges.len() ==> srcs@[jj]@ == g.edges[jj].0,
        forall|jj: int| 0 <= jj < g.edges.len() ==> tgts@[jj]@ == g.edges[jj].1,
        forall|x: Seq<char>| views(reached@).contains(x) <==> within(g, c, k).contains(x),
    ensures
        forall|x: Seq<char>| views(r.0@).contains(x) <==> within(g, c, k + 1).contains(x),
        !r.1 ==> forall|x: Seq<char>| views(r.0@).contains(x) ==> within(g, c, k).contains(x),
{
    let ghost w = within(g, c, k);
    let mut next = copy_names(reached);
    let mut changed = false;
    let mut e: usize = 0;
    while e < srcs.len()
        invariant
            e <= srcs.len(),
            srcs.len() == g.edges.len(),
            tgts.len() == g.edges.len(),
            forall|jj: int| 0 <= jj < g.edges.len() ==> srcs@[jj]@ == g.edges[jj].0,
            forall|jj: int| 0 <= jj < g.edges.len() ==> tgts@[jj]@ == g.edges[jj].1,
            forall|x: Seq<char>| views(reached@).contains(x) <==> w.contains(x),
            forall|x: Seq<char>|
                views(next@).contains(x) <==> (w.contains(x) || reached_by(g.edges, w, e as int, x)),
            !changed ==> forall|x: Seq<char>| views(next@).contains(x) ==> w.contains(x),
        decreases srcs.len() - e,
    {
        let ghost before = views(next@);
        assert(forall|x: Seq<char>| before.contains(x) <==> (w.contains(x) || reached_by(g.edges, w, e as int, x)));
        let ghost es = g.edges[e as int];
        let c1 = name_in(reached, &srcs[e]);
        let c2 = if c1 { !name_in(&next, &tgts[e]) } else { false };
        if c1 && c2 {
            let t = slice_chars(&tgts[e], 0, tgts[e].len());
            assert(tgts@[e as int]@.subrange(0, tgts@[e as int]@.len() as int) =~= tgts@[e as int]@);
            let ghost bn = next@;
            next.push(t);
            assert(views(next@) =~= views(bn).push(es.1));
            changed = true;
        }
        let ghost mid = views(next@);
        proof {
            assert forall|x: Seq<char>| mid.contains(x) <==> (before.contains(x) || (w.contains(es.0) && x == es.1)) by {
                if c1 && c2 {
                    lemma_push_contains(before, es.1, x);
                }
            }
        }
        let d1 = name_in(reached, &tgts[e]);
        let d2 = if d1 { !name_in(&next, &srcs[e]) } else { false };
        if d1 && d2 {
            let t = slice_chars(&srcs[e], 0, srcs[e].len());
            assert(srcs@[e as int]@.subrange(0, srcs@[e as int]@.len() as int) =~= srcs@[e as int]@);
            let ghost bn = next@;
            next.push(t);
            assert(views(next@) =~= views(bn).push(es.0));
            changed = true;
        }
        proof {
            assert forall|x: Seq<char>| views(next@).contains(x) <==> (mid.contains(x) || (w.contains(es.1) && x == es.0)) by {
                if d1 && d2 {
                    lemma_push_contains(mid, es.0, x);
                }
            }
            assert forall|x: Seq<char>| views(next@).contains(x) <==> (w.contains(x) || reached_by(g.edges, w, e + 1, x)) by {
                assert(e + 1 - 1 == e);
                assert(g.edges[(e + 1) - 1] == es);
                assert(reached_by(g.edges, w, e + 1, x) == (reached_by(g.edges, w, e as int, x) || (w.contains(es.0) && x == es.1) || (w.contains(es.1) && x == es.0)));
                assert(views(next@).contains(x) <==> (mid.contains(x) || (w.contains(es.1) && x == es.0)));
                assert(mid.contains(x) <==> (before.contains(x) || (w.contains(es.0) && x == es.1)));
                assert(before.contains(x) <==> (w.contains(x) || reached_by(g.edges, w, e as int, x)));
            }
        }
        e = e + 1;
    }
    proof {
        assert forall|x: Seq<char>|
            views(next@).contains(x) <==> within(g, c, k + 1).contains(x) by {
            lemma_step_is_within(g, c, k, x);
        }
    }
    (next, changed)
}


/// The technology and topic keywords looked for in content (lower case).
pub open spec fn heuristic_keywords() -> Seq<Seq<char>> {
    seq![
        "rust"@, "python"@, "javascript"@, "typescript"@, "go"@, "java"@,
        "c++"@, "docker"@, "kubernetes"@, "aws"@, "gcp"@, "azure"@,
        "sqlite"@, "postgresql"@, "mysql"@, "mongodb"@, "redis"@, "elasticsearch"@,
        "tokio"@, "actix"@, "axum"@, "fastapi"@, "django"@, "flask"@,
        "react"@, "vue"@, "next.js"@, "tailwind"@, "npm"@, "cargo"@,
        "git"@, "github"@, "linux"@, "windows"@, "macos"@, "mcp"@,
        "tantivy"@, "fastembed"@, "neural"@, "embedding"@, "search"@, "crawl"@,
        "vector"@, "semantic"@, "llm"@, "ai"@, "gemini"@,
    ]
}

const KEYWORDS: [&'static str; 47] = [
        "rust", "python", "javascript", "typescript", "go", "java",
        "c++", "docker", "kubernetes", "aws", "gcp", "azure",
        "sqlite", "postgresql", "mysql", "mongodb", "redis", "elasticsearch",
        "tokio", "actix", "axum", "fastapi", "django", "flask",
        "react", "vue", "next.js", "tailwind", "npm", "cargo",
        "git", "github", "linux", "windows", "macos", "mcp",
        "tantivy", "fastembed", "neural", "embedding", "search", "crawl",
        "vector", "semantic", "llm", "ai", "gemini",
];

fn keyword_at(i: usize) -> (k: &'static str)
    requires
        i < 47,
    ensures
        k@ == heuristic_keywords()[i as int],
{
    let a = KEYWORDS;
    assert(a@.map_values(|s: &str| s@) =~= heuristic_keywords());
    assert(a@.map_values(|s: &str| s@)[i as int] == a@[i as int]@);
    a[i]
}

/// Keywords with a display spelling of their own.
pub open spec fn capital_pairs() -> Seq<(Seq<char>, Seq<char>)> {
    seq![
        ("rust"@, "Rust"@), ("python"@, "Python"@), ("javascript"@, "JavaScript"@),
        ("typescript"@, "TypeScript"@), ("go"@, "Go"@), ("java"@, "Java"@),
        ("c++"@, "C++"@), ("docker"@, "Docker"@), ("kubernetes"@, "Kubernetes"@),
        ("aws"@, "AWS"@), ("gcp"@, "GCP"@), ("azure"@, "Azure"@),
        ("sqlite"@, "SQLite"@), ("postgresql"@, "PostgreSQL"@), ("mysql"@, "MySQL"@),
        ("mongodb"@, "MongoDB"@), ("redis"@, "Redis"@), ("elasticsearch"@, "Elasticsearch"@),
        ("tokio"@, "Tokio"@), ("actix"@, "Actix"@), ("axum"@, "Axum"@),
        ("fastapi"@, "FastAPI"@), ("django"@, "Django"@), ("flask"@, "Flask"@),
        ("react"@, "React"@), ("vue"@, "Vue"@), ("next.js"@, "Next.js"@),
        ("tailwind"@, "Tailwind"@), ("npm"@, "NPM"@), ("cargo"@, "Cargo"@),
        ("git"@, "Git"@), ("github"@, "GitHub"@), ("linux"@, "Linux"@),
        ("windows"@, "Windows"@), ("macos"@, "macOS"@), ("mcp"@, "MCP"@),
        ("tantivy"@, "Tantivy"@), ("fastembed"@, "Fastembed"@), ("llm"@, "LLM"@),
        ("ai"@, "AI"@), ("gemini"@, "Gemini"@),
    ]
}

/// The listed keywords, character by character, so that callers can tell
/// whether a keyword has a listed spelling.
pub proof fn lemma_capital_keys()
    ensures
        capital_pairs().len() == 41,
        capital_pairs()[0].0 == seq!['r', 'u', 's', 't'],
        capital_pairs()[1].0 == seq!['p', 'y', 't', 'h', 'o', 'n'],
        capital_pairs()[2].0 == seq!['j', 'a', 'v', 'a', 's', 'c', 'r', 'i', 'p', 't'],
        capital_pairs()[3].0 == seq!['t', 'y', 'p', 'e', 's', 'c', 'r', 'i', 'p', 't'],
        capital_pairs()[4].0 == seq!['g', 'o'],
        capital_pairs()[5].0 == seq!['j', 'a', 'v', 'a'],
        capital_pairs()[6].0 == seq!['c', '+', '+'],
        capital_pairs()[7].0 == seq!['d', 'o', 'c', 'k', 'e', 'r'],
        capital_pairs()[8].0 == seq!['k', 'u', 'b', 'e', 'r', 'n', 'e', 't', 'e', 's'],
        capital_pairs()[9].0 == seq!['a', 'w', 's'],
        capital_pairs()[10].0 == seq!['g', 'c', 'p'],
        capital_pairs()[11].0 == seq!['a', 'z', 'u', 'r', 'e'],
        capital_pairs()[12].0 == seq!['s', 'q', 'l', 'i', 't', 'e'],
        capital_pairs()[13].0 == seq!['p', 'o', 's', 't', 'g', 'r', 'e', 's', 'q', 'l'],
        capital_pairs()[14].0 == seq!['m', 'y', 's', 'q', 'l'],
        capital_pairs()[15].0 == seq!['m', 'o', 'n', 'g', 'o', 'd', 'b'],
        capital_pairs()[16].0 == seq!['r', 'e', 'd', 'i', 's'],
        capital_pairs()[17].0 == seq!['e', 'l', 'a', 's', 't', 'i', 'c', 's', 'e', 'a', 'r', 'c', 'h'],
        capital_pairs()[18].0 == seq!['t', 'o', 'k', 'i', 'o'],
        capital_pairs()[19].0 == seq!['a', 'c', 't', 'i', 'x'],
        capital_pairs()[20].0 == seq!['a', 'x', 'u', 'm'],
        capital_pairs()[21].0 == seq!['f', 'a', 's', 't', 'a', 'p', 'i'],
        capital_pairs()[22].0 == seq!['d', 'j', 'a', 'n', 'g', 'o'],
        capital_pairs()[23].0 == seq!['f', 'l', 'a', 's', 'k'],
        capital_pairs()[24].0 == seq!['r', 'e', 'a', 'c', 't'],
        capital_pairs()[25].0 == seq!['v', 'u', 'e'],
        capital_pairs()[26].0 == seq!['n', 'e', 'x', 't', '.', 'j', 's'],
        capital_pairs()[27].0 == seq!['t', 'a', 'i', 'l', 'w', 'i', 'n', 'd'],
        capital_pairs()[28].0 == seq!['n', 'p', 'm'],
        capital_pairs()[29].0 == seq!['c', 'a', 'r', 'g', 'o'],
        capital_pairs()[30].0 == seq!['g', 'i', 't'],
        capital_pairs()[31].0 == seq!['g', 'i', 't', 'h', 'u', 'b'],
        capital_pairs()[32].0 == seq!['l', 'i', 'n', 'u', 'x'],
        capital_pairs()[33].0 == seq!['w', 'i', 'n', 'd', 'o', 'w', 's'],
        capital_pairs()[34].0 == seq!['m', 'a', 'c', 'o', 's'],
        capital_pairs()[35].0 == seq!['m', 'c', 'p'],
        capital_pairs()[36].0 == seq!['t', 'a', 'n', 't', 'i', 'v', 'y'],
        capital_pairs()[37].0 == seq!['f', 'a', 's', 't', 'e', 'm', 'b', 'e', 'd'],
        capital_pairs()[38].0 == seq!['l', 'l', 'm'],
        capital_pairs()[39].0 == seq!['a', 'i'],
        capital_pairs()[40].0 == seq!['g', 'e', 'm', 'i', 'n', 'i'],
{
    reveal_strlit("rust");
    assert("rust"@ =~= seq!['r', 'u', 's', 't']);
    reveal_strlit("python");
    assert("python"@ =~= seq!['p', 'y', 't', 'h', 'o', 'n']);
    reveal_strlit("javascript");
    assert("javascript"@ =~= seq!['j', 'a', 'v', 'a', 's', 'c', 'r', 'i', 'p', 't']);
    reveal_strlit("typescript");
    assert("typescript"@ =~= seq!['t', 'y', 'p', 'e', 's', 'c', 'r', 'i', 'p', 't']);
    reveal_strlit("go");
    assert("go"@ =~= seq!['g', 'o']);
    reveal_strlit("java");
    assert("java"@ =~= seq!['j', 'a', 'v', 'a']);
    reveal_strlit("c++");
    assert("c++"@ =~= seq!['c', '+', '+']);
    reveal_strlit("docker");
    assert("docker"@ =~= seq!['d', 'o', 'c', 'k', 'e', 'r']);
    reveal_strlit("kubernetes");
    assert("kubernetes"@ =~= seq!['k', 'u', 'b', 'e', 'r', 'n', 'e', 't', 'e', 's']);
    reveal_strlit("aws");
    assert("aws"@ =~= seq!['a', 'w', 's']);
    reveal_strlit("gcp");
    assert("gcp"@ =~= seq!['g', 'c', 'p']);
    reveal_strlit("azure");
    assert("azure"@ =~= seq!['a', 'z', 'u', 'r', 'e']);
    reveal_strlit("sqlite");
    assert("sqlite"@ =~= seq!['s', 'q', 'l', 'i', 't', 'e']);
    reveal_strlit("postgresql");
    assert("postgresql"@ =~= seq!['p', 'o', 's', 't', 'g', 'r', 'e', 's', 'q', 'l']);
    reveal_strlit("mysql");
    assert("mysql"@ =~= seq!['m', 'y', 's', 'q', 'l']);
    reveal_strlit("mongodb");
    assert("mongodb"@ =~= seq!['m', 'o', 'n', 'g', 'o', 'd', 'b']);
    reveal_strlit("redis");
    assert("redis"@ =~= seq!['r', 'e', 'd', 'i', 's']);
    reveal_strlit("elasticsearch");
    assert("elasticsearch"@ =~= seq!['e', 'l', 'a', 's', 't', 'i', 'c', 's', 'e', 'a', 'r', 'c', 'h']);
    reveal_strlit("tokio");
    assert("tokio"@ =~= seq!['t', 'o', 'k', 'i', 'o']);
    reveal_strlit("actix");
    assert("actix"@ =~= seq!['a', 'c', 't', 'i', 'x']);
    reveal_strlit("axum");
    assert("axum"@ =~= seq!['a', 'x', 'u', 'm']);
    reveal_strlit("fastapi");
    assert("fastapi"@ =~= seq!['f', 'a', 's', 't', 'a', 'p', 'i']);
    reveal_strlit("django");
    assert("django"@ =~= seq!['d', 'j', 'a', 'n', 'g', 'o']);
    reveal_strlit("flask");
    assert("flask"@ =~= seq!['f', 'l', 'a', 's', 'k']);
    reveal_strlit("react");
    assert("react"@ =~= seq!['r', 'e', 'a', 'c', 't']);
    reveal_strlit("vue");
    assert("vue"@ =~= seq!['v', 'u', 'e']);
    reveal_strlit("next.js");
    assert("next.js"@ =~= seq!['n', 'e', 'x', 't', '.', 'j', 's']);
    reveal_strlit("tailwind");
    assert("tailwind"@ =~= seq!['t', 'a', 'i', 'l', 'w', 'i', 'n', 'd']);
    reveal_strlit("npm");
    assert("npm"@ =~= seq!['n', 'p', 'm']);
    reveal_strlit("cargo");
    assert("cargo"@ =~= seq!['c', 'a', 'r', 'g', 'o']);
    reveal_strlit("git");
    assert("git"@ =~= seq!['g', 'i', 't']);
    reveal_strlit("github");
    assert("github"@ =~= seq!['g', 'i', 't', 'h', 'u', 'b']);
    reveal_strlit("linux");
    assert("linux"@ =~= seq!['l', 'i', 'n', 'u', 'x']);
    reveal_strlit("windows");
    assert("windows"@ =~= seq!['w', 'i', 'n', 'd', 'o', 'w', 's']);
    reveal_strlit("macos");
    assert("macos"@ =~= seq!['m', 'a', 'c', 'o', 's']);
    reveal_strlit("mcp");
    assert("mcp"@ =~= seq!['m', 'c', 'p']);
    reveal_strlit("tantivy");
    assert("tantivy"@ =~= seq!['t', 'a', 'n', 't', 'i', 'v', 'y']);
    reveal_strlit("fastembed");
    assert("fastembed"@ =~= seq!['f', 'a', 's', 't', 'e', 'm', 'b', 'e', 'd']);
    reveal_strlit("llm");
    assert("llm"@ =~= seq!['l', 'l', 'm']);
    reveal_strlit("ai");
    assert("ai"@ =~= seq!['a', 'i']);
    reveal_strlit("gemini");
    assert("gemini"@ =~= seq!['g', 'e', 'm', 'i', 'n', 'i']);
}


const CAPITAL_IN: [&'static str; 41] = [
        "rust", "python", "javascript", "typescript", "go", "java",
        "c++", "docker", "kubernetes", "aws", "gcp", "azure",
        "sqlite", "postgresql", "mysql", "mongodb", "redis", "elasticsearch",
        "tokio", "actix", "axum", "fastapi", "django", "flask",
        "react", "vue", "next.js", "tailwind", "npm", "cargo",
        "git", "github", "linux", "windows", "macos", "mcp",
        "tantivy", "fastembed", "llm", "ai", "gemini",
];

const CAPITAL_OUT: [&'static str; 41] = [
        "Rust", "Python", "JavaScript", "TypeScript", "Go", "Java",
        "C++", "Docker", "Kubernetes", "AWS", "GCP", "Azure",
        "SQLite", "PostgreSQL", "MySQL", "MongoDB", "Redis", "Elasticsearch",
        "Tokio", "Actix", "Axum", "FastAPI", "Django", "Flask",
        "React", "Vue", "Next.js", "Tailwind", "NPM", "Cargo",
        "Git", "GitHub", "Linux", "Windows", "macOS", "MCP",
        "Tantivy", "Fastembed", "LLM", "AI", "Gemini",
];

/// `char::to_uppercase` of one character, collected into a string.
pub uninterp spec fn spec_char_to_upper(c: char) -> Seq<char>;

/// Wraps `char::to_uppercase`; its result is named by `spec_char_to_upper`.
/// Of an ASCII character the result is stated: the one character
/// upper-cased (`a`..`z` to `A`..`Z`; any other stays, having no upper-case
/// mapping of its own).
#[verifier::external_body]
fn char_to_upper(c: char) -> (s: String)
    ensures
        s@ == spec_char_to_upper(c),
        crate::text::is_ascii_char(c) ==> s@ == seq![crate::text::ascii_upper(c)],
{
    c.to_uppercase().collect()
}

/// The display form of a keyword: its listed spelling, else the keyword with
/// its first character upper-cased.
pub open spec fn capitalized(kw: Seq<char>) -> Seq<char> {
    if exists|i: int| 0 <= i < capital_pairs().len() && capital_pairs()[i].0 == kw {
        let i = choose|i: int|
            0 <= i < capital_pairs().len() && capital_pairs()[i].0 == kw && forall|j: int|
                0 <= j < i ==> capital_pairs()[j].0 != kw;
        capital_pairs()[i].1
    } else if kw.len() == 0 {
        Seq::empty()
    } else {
        spec_char_to_upper(kw[0]) + kw.drop_first()
    }
}


/// `capitalized` of a keyword whose first character is ASCII: a listed
/// spelling, else the first character ASCII-upper-cased.
pub open spec fn capitalized_ascii(kw: Seq<char>) -> Seq<char> {
    if exists|i: int| 0 <= i < capital_pairs().len() && capital_pairs()[i].0 == kw {
        capitalized(kw)
    } else if kw.len() == 0 {
        Seq::empty()
    } else {
        seq![ascii_upper(kw[0])] + kw.drop_first()
    }
}

fn capital_at(i: usize) -> (r: (&'static str, &'static str))
    requires
        i < 41,
    ensures
        (r.0@, r.1@) == capital_pairs()[i as int],
{
    let a = CAPITAL_IN;
    let b = CAPITAL_OUT;
    assert(capital_pairs().len() == 41);
    assert(a@.map_values(|s: &str| s@) =~= capital_pairs().map_values(|p: (Seq<char>, Seq<char>)| p.0));
    assert(b@.map_values(|s: &str| s@) =~= capital_pairs().map_values(|p: (Seq<char>, Seq<char>)| p.1));
    assert(a@.map_values(|s: &str| s@)[i as int] == a@[i as int]@);
    assert(b@.map_values(|s: &str| s@)[i as int] == b@[i as int]@);
    (a[i], b[i])
}

/// The display form of a matched keyword.
pub fn capitalize_keyword(kw: &str) -> (r: String)
    ensures
        r@ == capitalized(kw@),
        kw@.len() > 0 && is_ascii_char(kw@[0]) ==> r@ == capitalized_ascii(kw@),
{
    let k = chars_of(kw);
    let mut i: usize = 0;
    while i < 41
        invariant
            i <= 41,
            k@ == kw@,
            capital_pairs().len() == 41,
            forall|j: int| 0 <= j < i ==> capital_pairs()[j].0 != kw@,
        decreases 41 - i,
    {
        let (a, b) = capital_at(i);
        let ac = chars_of(a);
        if chars_eq(&ac, &k) {
            proof {
                assert(capital_pairs()[i as int].0 == kw@);
                let w = choose|w: int|
                    0 <= w < capital_pairs().len() && capital_pairs()[w].0 == kw@ && forall|j: int|
                        0 <= j < w ==> capital_pairs()[j].0 != kw@;
                assert(w == i) by {
                    if w < i {
                    } else if w > i {
                    }
                }
            }
            return string_from_chars(chars_of(b).as_slice());
        }
        i = i + 1;
    }
    if k.len() == 0 {
        return string_from_chars(k.as_slice());
    }
    let upper = char_to_upper(k[0]);
    let up = chars_of(upper.as_str());
    let mut out = up;
    crate::text::push_all(&mut out, &k.as_slice()[1..k.len()]);
    assert(k@.subrange(1, k@.len() as int) =~= k@.drop_first());
    string_from_chars(out.as_slice())
}

/// `kw` is mentioned in the lower-cased text `lc`: after a space, at the very
/// start, or right before a `:`.
pub open spec fn mentions(lc: Seq<char>, kw: Seq<char>) -> bool {
    contains(lc, seq![' '] + kw) || starts_with(lc, kw) || contains(lc, kw + seq![':'])
}

/// The keywords of `ks` mentioned in `lc`, in order.
pub open spec fn mentioned_terms(lc: Seq<char>, ks: Seq<Seq<char>>) -> Seq<Seq<char>>
    decreases ks.len(),
{
    if ks.len() == 0 {
        Seq::empty()
    } else {
        mentioned_terms(lc, ks.drop_last()) + if mentions(lc, ks.last()) {
            seq![ks.last()]
        } else {
            Seq::empty()
        }
    }
}

/// The document links to each term in turn.
pub open spec fn spec_apply_mentions(g: GraphView, doc: Seq<char>, terms: Seq<Seq<char>>) -> GraphView
    decreases terms.len(),
{
    if terms.len() == 0 {
        g
    } else {
        spec_add_edge(
            spec_apply_mentions(g, doc, terms.drop_last()),
            doc,
            "Document"@,
            capitalized(terms.last()),
            "Technology/Topic"@,
            "mentions"@,
        )
    }
}

/// What the heuristics do given the lower-cased content `lc`: when it
/// mentions any keyword, a `Document` node for the URL is added, and a
/// `mentions` edge from it to a `Technology/Topic` node for each keyword.
pub open spec fn heuristics_from(g: GraphView, url: Seq<char>, lc: Seq<char>) -> GraphView {
    let terms = mentioned_terms(lc, heuristic_keywords());
    if terms.len() == 0 {
        g
    } else {
        spec_apply_mentions(spec_add_node(g, url, "Document"@), url, terms)
    }
}

/// What `extract_heuristics` does to a graph: the heuristics on the
/// lower-cased content.
pub open spec fn spec_extract_heuristics(g: GraphView, url: Seq<char>, content: Seq<char>) -> GraphView {
    heuristics_from(g, url, spec_lowercase(content))
}

fn mentions_exec(lc: &Vec<char>, kw: &Vec<char>) -> (b: bool)
    ensures
        b == mentions(lc@, kw@),
{
    let mut p1: Vec<char> = Vec::new();
    p1.push(' ');
    crate::text::push_all(&mut p1, kw.as_slice());
    let mut p2: Vec<char> = Vec::new();
    crate::text::push_all(&mut p2, kw.as_slice());
    p2.push(':');
    assert(p1@ =~= seq![' '] + kw@);
    assert(p2@ =~= kw@ + seq![':']);
    let a = crate::text::find_from_exec(lc, &p1, 0).is_some();
    let b = crate::text::matches_at_exec(lc, kw, 0);
    let c = crate::text::find_from_exec(lc, &p2, 0).is_some();
    a || b || c
}

impl KnowledgeGraph {
    /// Extract key technologies/topics from content and link them to the Document node.
    pub fn extract_heuristics(&mut self, url: &str, _title: &str, content: &str)
        ensures
            final(self)@ == spec_extract_heuristics(old(self)@, url@, content@),
            all_ascii(content@) ==> final(self)@ == heuristics_from(old(self)@, url@, ascii_lowercase(content@)),
    {
        let lcs = to_lowercase(content);
        let lc = chars_of(lcs.as_str());
        let ghost ks = heuristic_keywords();
        let mut matched: Vec<&'static str> = Vec::new();
        let mut i: usize = 0;
        while i < 47
            invariant
                i <= 47,
                ks == heuristic_keywords(),
                ks.len() == 47,
                lc@ == spec_lowercase(content@),
                matched@.map_values(|s: &str| s@) == mentioned_terms(lc@, ks.take(i as int)),
            decreases 47 - i,
        {
            let kw = keyword_at(i);
            let kwc = chars_of(kw);
            assert(ks.take(i + 1).drop_last() =~= ks.take(i as int));
            assert(ks.take(i + 1).last() == kw@);
            let ghost before = matched@;
            if mentions_exec(&lc, &kwc) {
                matched.push(kw);
                assert(matched@.map_values(|s: &str| s@) =~= before.map_values(|s: &str| s@).push(kw@));
            } else {
                assert(matched@.map_values(|s: &str| s@) =~= before.map_values(|s: &str| s@) + Seq::<Seq<char>>::empty());
            }
            i = i + 1;
        }
        assert(ks.take(47) =~= ks);
        let ghost terms = matched@.map_values(|s: &str| s@);
        if matched.len() == 0 {
            return;
        }
        let doc = string_from_chars(chars_of(url).as_slice());
        self.add_node(doc, string_from_chars(chars_of("Document").as_slice()));
        let ghost g1 = self@;
        let mut j: usize = 0;
        while j < matched.len()
            invariant
                j <= matched.len(),
                terms == matched@.map_values(|s: &str| s@),
                self@ == spec_apply_mentions(g1, url@, terms.take(j as int)),
            decreases matched.len() - j,
        {
            assert(terms.take(j + 1).drop_last() =~= terms.take(j as int));
            assert(terms.take(j + 1).last() == matched@[j as int]@);
            let term = capitalize_keyword(matched[j]);
            self.add_edge(
                string_from_chars(chars_of(url).as_slice()),
                string_from_chars(chars_of("Document").as_slice()),
                term,
                string_from_chars(chars_of("Technology/Topic").as_slice()),
                string_from_chars(chars_of("mentions").as_slice()),
            );
            j = j + 1;
        }
        assert(terms.take(matched.len() as int) =~= terms);
    }
}


/// `kw` stands in the lower-cased text `lc` as a word: at its very start,
/// right after a space, or right before a `:`.
pub open spec fn at_word_boundary(lc: Seq<char>, kw: Seq<char>) -> bool {
    starts_with(lc, kw) || contains(lc, seq![' '] + kw) || contains(lc, kw + seq![':'])
}

/// The `mentions` edge from a document to a keyword's topic.
pub open spec fn mention_edge(doc: Seq<char>, kw: Seq<char>) -> (Seq<char>, Seq<char>, Seq<char>) {
    (doc, capitalized(kw), "mentions"@)
}

proof fn lemma_add_edge_parts(
    g: GraphView,
    s: Seq<char>,
    st: Seq<char>,
    t: Seq<char>,
    tt: Seq<char>,
    r: Seq<char>,
)
    ensures
        spec_add_edge(g, s, st, t, tt, r).edges.contains((s, t, r)),
        forall|e: (Seq<char>, Seq<char>, Seq<char>)|
            g.edges.contains(e) ==> #[trigger] spec_add_edge(g, s, st, t, tt, r).edges.contains(e),
        forall|e: (Seq<char>, Seq<char>, Seq<char>)|
            #[trigger] spec_add_edge(g, s, st, t, tt, r).edges.contains(e) ==> g.edges.contains(e) || e
                == (s, t, r),
        forall|n: Seq<char>|
            #[trigger] has_node(spec_add_edge(g, s, st, t, tt, r), n) <==> (has_node(g, n) || n == s
                || n == t),
{
    let g1 = spec_add_node(g, s, st);
    let g2 = spec_add_node(g1, t, tt);
    lemma_add_node_shape(g, s, st);
    lemma_add_node_shape(g1, t, tt);
    let g3 = spec_add_edge(g, s, st, t, tt, r);
    assert(g3.nodes == g2.nodes);
    assert forall|n: Seq<char>| #[trigger] has_node(g3, n) <==> has_node(g2, n) by {
        if has_node(g3, n) {
            let i = choose|i: int| 0 <= i < g3.nodes.len() && g3.nodes[i].0 == n;
            assert(g2.nodes[i].0 == n);
        }
        if has_node(g2, n) {
            let i = choose|i: int| 0 <= i < g2.nodes.len() && g2.nodes[i].0 == n;
            assert(g3.nodes[i].0 == n);
        }
    }
    if !g2.edges.contains((s, t, r)) {
        assert(g3.edges[g2.edges.len() as int] == (s, t, r));
        assert forall|e: (Seq<char>, Seq<char>, Seq<char>)| g.edges.contains(e) implies #[trigger] g3.edges.contains(e) by {
            let i = choose|i: int| 0 <= i < g2.edges.len() && g2.edges[i] == e;
            assert(g3.edges[i] == e);
        }
        assert forall|e: (Seq<char>, Seq<char>, Seq<char>)| #[trigger] g3.edges.contains(e) implies g.edges.contains(e)
            || e == (s, t, r) by {
            let i = choose|i: int| 0 <= i < g3.edges.len() && g3.edges[i] == e;
            if i < g2.edges.len() {
                assert(g2.edges[i] == e);
            }
        }
    }
}

proof fn lemma_apply_mentions_parts(g: GraphView, doc: Seq<char>, terms: Seq<Seq<char>>)
    ensures
        forall|t: Seq<char>|
            terms.contains(t) ==> #[trigger] spec_apply_mentions(g, doc, terms).edges.contains(
                mention_edge(doc, t),
            ),
        forall|e: (Seq<char>, Seq<char>, Seq<char>)|
            #[trigger] spec_apply_mentions(g, doc, terms).edges.contains(e) ==> g.edges.contains(e)
                || exists|t: Seq<char>| terms.contains(t) && e == mention_edge(doc, t),
        forall|n: Seq<char>|
            #[trigger] has_node(spec_apply_mentions(g, doc, terms), n) ==> has_node(g, n) || n == doc
                || exists|t: Seq<char>| terms.contains(t) && n == capitalized(t),
    decreases terms.len(),
{
    if terms.len() > 0 {
        let d = terms.drop_last();
        let last = terms.last();
        lemma_apply_mentions_parts(g, doc, d);
        let a = spec_apply_mentions(g, doc, d);
        let r = spec_apply_mentions(g, doc, terms);
        lemma_add_edge_parts(a, doc, "Document"@, capitalized(last), "Technology/Topic"@, "mentions"@);
        assert(terms[terms.len() - 1] == last);
        assert forall|t: Seq<char>| terms.contains(t) implies #[trigger] r.edges.contains(mention_edge(doc, t)) by {
            if t != last {
                let i = choose|i: int| 0 <= i < terms.len() && terms[i] == t;
                assert(d[i] == t);
                assert(a.edges.contains(mention_edge(doc, t)));
            }
        }
        assert forall|e: (Seq<char>, Seq<char>, Seq<char>)| #[trigger] r.edges.contains(e) implies g.edges.contains(e)
            || exists|t: Seq<char>| terms.contains(t) && e == mention_edge(doc, t) by {
            if e == mention_edge(doc, last) {
            } else {
                assert(a.edges.contains(e));
                if !g.edges.contains(e) {
                    let t = choose|t: Seq<char>| d.contains(t) && e == mention_edge(doc, t);
                    let i = choose|i: int| 0 <= i < d.len() && d[i] == t;
                    assert(terms[i] == t);
                }
            }
        }
        assert forall|n: Seq<char>| #[trigger] has_node(r, n) implies has_node(g, n) || n == doc
            || exists|t: Seq<char>| terms.contains(t) && n == capitalized(t) by {
            if n != doc && n != capitalized(last) {
                assert(has_node(a, n));
                if !has_node(g, n) {
                    let t = choose|t: Seq<char>| d.contains(t) && n == capitalized(t);
                    let i = choose|i: int| 0 <= i < d.len() && d[i] == t;
                    assert(terms[i] == t);
                }
            }
        }
    }
}

proof fn lemma_mentioned_terms(lc: Seq<char>, ks: Seq<Seq<char>>)
    ensures
        forall|t: Seq<char>|
            #[trigger] mentioned_terms(lc, ks).contains(t) <==> (ks.contains(t) && at_word_boundary(lc, t)),
    decreases ks.len(),
{
    if ks.len() > 0 {
        let d = ks.drop_last();
        lemma_mentioned_terms(lc, d);
        let m = mentioned_terms(lc, ks);
        let md = mentioned_terms(lc, d);
        assert forall|t: Seq<char>| #[trigger] m.contains(t) <==> (ks.contains(t) && at_word_boundary(lc, t)) by {
            if m.contains(t) {
                let i = choose|i: int| 0 <= i < m.len() && m[i] == t;
                if i < md.len() {
                    assert(md[i] == t);
                    let j = choose|j: int| 0 <= j < d.len() && d[j] == t;
                    assert(ks[j] == t);
                } else {
                    assert(ks[ks.len() - 1] == t);
                }
            }
            if ks.contains(t) && at_word_boundary(lc, t) {
                let j = choose|j: int| 0 <= j < ks.len() && ks[j] == t;
                if j < d.len() {
                    assert(d[j] == t);
                    assert(md.contains(t));
                    let i = choose|i: int| 0 <= i < md.len() && md[i] == t;
                    assert(m[i] == t);
                } else {
                    assert(m[md.len() as int] == t);
                }
            }
        }
    }
}

/// Law: a keyword adds its topic and a `mentions` edge exactly when it
/// stands in the lower-cased content as a word (at the start, after a
/// space, or before a `:`). Every edge the heuristics add is such a
/// `mentions` edge, and every node they add is the document or such a
/// topic; a keyword found only inside another word (`go` in `django`) adds
/// nothing.
pub proof fn lemma_heuristics_mentions(g: GraphView, url: Seq<char>, lc: Seq<char>)
    ensures
        forall|kw: Seq<char>|
            heuristic_keywords().contains(kw) && at_word_boundary(lc, kw) ==> #[trigger] heuristics_from(
                g,
                url,
                lc,
            ).edges.contains(mention_edge(url, kw)),
        forall|e: (Seq<char>, Seq<char>, Seq<char>)|
            #[trigger] heuristics_from(g, url, lc).edges.contains(e) ==> g.edges.contains(e) || exists|
                kw: Seq<char>,
            |
                heuristic_keywords().contains(kw) && at_word_boundary(lc, kw) && e == mention_edge(url, kw),
        forall|n: Seq<char>|
            #[trigger] has_node(heuristics_from(g, url, lc), n) ==> has_node(g, n) || n == url || exists|
                kw: Seq<char>,
            | heuristic_keywords().contains(kw) && at_word_boundary(lc, kw) && n == capitalized(kw),
{
    let ks = heuristic_keywords();
    let terms = mentioned_terms(lc, ks);
    lemma_mentioned_terms(lc, ks);
    if terms.len() > 0 {
        let g1 = spec_add_node(g, url, "Document"@);
        lemma_add_node_shape(g, url, "Document"@);
        lemma_apply_mentions_parts(g1, url, terms);
        let r = heuristics_from(g, url, lc);
        assert forall|kw: Seq<char>| ks.contains(kw) && at_word_boundary(lc, kw) implies #[trigger] r.edges.contains(
            mention_edge(url, kw),
        ) by {
            assert(terms.contains(kw));
        }
        assert forall|e: (Seq<char>, Seq<char>, Seq<char>)| #[trigger] r.edges.contains(e) implies g.edges.contains(e)
            || exists|kw: Seq<char>| ks.contains(kw) && at_word_boundary(lc, kw) && e == mention_edge(url, kw) by {
            if !g1.edges.contains(e) {
                let t = choose|t: Seq<char>| terms.contains(t) && e == mention_edge(url, t);
                assert(terms.contains(t));
            }
        }
        assert forall|n: Seq<char>| #[trigger] has_node(r, n) implies has_node(g, n) || n == url || exists|
            kw: Seq<char>,
        | ks.contains(kw) && at_word_boundary(lc, kw) && n == capitalized(kw) by {
            if !has_node(g1, n) && n != url {
                let t = choose|t: Seq<char>| terms.contains(t) && n == capitalized(t);
                assert(terms.contains(t));
            }
        }
    } else {
        assert forall|kw: Seq<char>| ks.contains(kw) && at_word_boundary(lc, kw) implies false by {
            assert(terms.contains(kw));
        }
    }
}

} // verus!
