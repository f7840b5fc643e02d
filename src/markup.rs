//! Markup as plain values: the open/close events of selected elements, and the
//! node tree that they describe.

use vstd::prelude::*;
use ego_tree::iter::Edge;
use scraper::{Html, Node, Selector};

verus! {

/// Position of the participant-identifier attribute among an element's attributes.
pub const ATTR_IDENTIFIER: usize = 0;

/// Position of the field-name attribute among an element's attributes.
pub const ATTR_FIELD: usize = 1;

/// Position of the link-target attribute among an element's attributes.
pub const ATTR_HREF: usize = 2;

/// One node of a document: an element with its tag and the values of the
/// attributes that were asked for, a text node, or anything else (a comment,
/// a doctype).
pub enum NodeData {
    Element { tag: String, attrs: Vec<Option<String>> },
    Text(String),
    Other,
}

/// One event of a walk through an element's subtree: a node is entered, or the
/// most recently entered node that is still open is left.
pub enum Markup {
    Open(NodeData),
    Close,
}

pub enum NodeDataV {
    Element { tag: Seq<char>, attrs: Seq<Option<Seq<char>>> },
    Text(Seq<char>),
    Other,
}

pub enum MarkupV {
    Open(NodeDataV),
    Close,
}

pub open spec fn opt_text(a: Option<String>) -> Option<Seq<char>> {
    match a {
        Some(s) => Some(s@),
        None => None,
    }
}

impl View for NodeData {
    type V = NodeDataV;

    open spec fn view(&self) -> NodeDataV {
        match self {
            NodeData::Element { tag, attrs } => NodeDataV::Element {
                tag: tag@,
                attrs: attrs@.map_values(|a: Option<String>| opt_text(a)),
            },
            NodeData::Text(t) => NodeDataV::Text(t@),
            NodeData::Other => NodeDataV::Other,
        }
    }
}

impl View for Markup {
    type V = MarkupV;

    open spec fn view(&self) -> MarkupV {
        match self {
            Markup::Open(d) => MarkupV::Open(d@),
            Markup::Close => MarkupV::Close,
        }
    }
}

pub open spec fn markup_view(m: Seq<Markup>) -> Seq<MarkupV> {
    m.map_values(|x: Markup| x@)
}

pub open spec fn selection_view(s: Seq<Vec<Markup>>) -> Seq<Seq<MarkupV>> {
    s.map_values(|v: Vec<Markup>| markup_view(v@))
}

pub open spec fn texts_view(s: Seq<String>) -> Seq<Seq<char>> {
    s.map_values(|t: String| t@)
}

/// The elements that a CSS selector matches in an HTML document, in the order
/// in which the parsed document holds them, each as the events of a walk
/// through its subtree (it is itself the first node opened); an element's
/// attributes are reduced to the values of the named ones, in that order.
/// A selector that does not parse matches nothing.
pub uninterp spec fn selected_markup(
    document: Seq<char>,
    selector: Seq<char>,
    attr_names: Seq<Seq<char>>,
) -> Seq<Seq<MarkupV>>;

/// Relies on scraper's `Html::parse_document`, `Selector::parse` and
/// `Html::select`, and on ego_tree's `traverse`: the document is parsed once,
/// and each selector's matches are walked; nothing else is computed here.
#[verifier::external_body]
pub(crate) fn select_markup(document: &str, selectors: &Vec<String>, attr_names: &Vec<String>) -> (r: Vec<Vec<Vec<Markup>>>)
    ensures
        r@.len() == selectors@.len(),
        forall|i: int| 0 <= i < r@.len() ==> selection_view(#[trigger] r@[i]@) == selected_markup(
            document@, selectors@[i]@, texts_view(attr_names@)),
{
    let html = Html::parse_document(document);
    selectors.iter().map(|s| Selector::parse(s).map(|sel| html.select(&sel).map(|e| e.traverse().map(|edge| match edge {
        Edge::Open(n) => Markup::Open(match n.value() {
            Node::Element(x) => NodeData::Element { tag: x.name().into(),
                attrs: attr_names.iter().map(|a| x.attr(a).map(Into::into)).collect() },
            Node::Text(t) => NodeData::Text((**t).into()),
            _ => NodeData::Other,
        }),
        Edge::Close(_) => Markup::Close,
    }).collect()).collect()).unwrap_or_default()).collect()
}

/// A node of a tree, with the positions of its children in document order.
pub struct TreeNode {
    pub data: NodeData,
    pub children: Vec<usize>,
}

pub struct NodeV {
    pub data: NodeDataV,
    pub children: Seq<usize>,
}

impl View for TreeNode {
    type V = NodeV;

    open spec fn view(&self) -> NodeV {
        NodeV { data: self.data@, children: self.children@ }
    }
}

/// The nodes of an element's subtree in the order in which they are opened;
/// the element itself, when there is one, is at position 0.
pub struct Tree {
    pub nodes: Vec<TreeNode>,
}

impl View for Tree {
    type V = Seq<NodeV>;

    open spec fn view(&self) -> Seq<NodeV> {
        self.nodes@.map_values(|n: TreeNode| n@)
    }
}

/// Nodes built so far, and the positions of the nodes still open, innermost last.
pub struct BuildState {
    pub nodes: Seq<NodeV>,
    pub open: Seq<usize>,
}

/// One event applied: an opened node is appended and becomes the next child of
/// the innermost open node; a close leaves the innermost open node (and is
/// ignored when none is open).
pub open spec fn build_step(st: BuildState, m: MarkupV) -> BuildState {
    match m {
        MarkupV::Open(d) => {
            let k = st.nodes.len() as usize;
            let added = st.nodes.push(NodeV { data: d, children: seq![] });
            let linked = if st.open.len() > 0 {
                let p = st.open.last() as int;
                added.update(p, NodeV { data: added[p].data, children: added[p].children.push(k) })
            } else {
                added
            };
            BuildState { nodes: linked, open: st.open.push(k) }
        },
        MarkupV::Close => {
            if st.open.len() > 0 {
                BuildState { nodes: st.nodes, open: st.open.drop_last() }
            } else {
                st
            }
        },
    }
}

pub open spec fn build_state(ms: Seq<MarkupV>) -> BuildState
    decreases ms.len(),
{
    if ms.len() == 0 {
        BuildState { nodes: seq![], open: seq![] }
    } else {
        build_step(build_state(ms.drop_last()), ms.last())
    }
}

/// The tree that a sequence of events describes.
pub open spec fn tree_of(ms: Seq<MarkupV>) -> Seq<NodeV> {
    build_state(ms).nodes
}

/// Every child position and every open position names a node.
pub open spec fn links_ok(nodes: Seq<NodeV>, open: Seq<usize>) -> bool {
    &&& forall|i: int| 0 <= i < open.len() ==> (#[trigger] open[i]) < nodes.len()
    &&& forall|i: int, j: int|
        0 <= i < nodes.len() && 0 <= j < nodes[i].children.len() ==> (#[trigger] nodes[i].children[j])
            < nodes.len()
}

impl NodeData {
    /// A copy of the node's data.
    pub fn duplicate(&self) -> (r: NodeData)
        ensures
            r@ == self@,
    {
        match self {
            NodeData::Element { tag, attrs } => {
                let mut copied: Vec<Option<String>> = Vec::new();
                let mut i: usize = 0;
                while i < attrs.len()
                    invariant
                        i <= attrs@.len(),
                        copied@.len() == i,
                        forall|j: int| 0 <= j < i ==> opt_text(#[trigger] copied@[j]) == opt_text(attrs@[j]),
                    decreases attrs@.len() - i,
                {
                    let a = match &attrs[i] {
                        Some(s) => Some(s.clone()),
                        None => None,
                    };
                    copied.push(a);
                    i = i + 1;
                }
                let r = NodeData::Element { tag: tag.clone(), attrs: copied };
                assert(r@ == self@) by {
                    assert(copied@.map_values(|a: Option<String>| opt_text(a)) =~= attrs@.map_values(
                        |a: Option<String>| opt_text(a),
                    ));
                }
                r
            },
            NodeData::Text(t) => NodeData::Text(t.clone()),
            NodeData::Other => NodeData::Other,
        }
    }
}

/// Builds the tree that a sequence of events describes.
pub fn build_tree(markup: &Vec<Markup>) -> (r: Tree)
    ensures
        r@ == tree_of(markup_view(markup@)),
        links_ok(r@, seq![]),
{
    let mut nodes: Vec<TreeNode> = Vec::new();
    let mut open: Vec<usize> = Vec::new();
    let mut i: usize = 0;
    assert(nodes@.map_values(|n: TreeNode| n@) =~= seq![]);
    assert(markup_view(markup@).take(0) =~= seq![]);
    while i < markup.len()
        invariant
            i <= markup@.len(),
            nodes@.len() <= i,
            build_state(markup_view(markup@).take(i as int)) == (BuildState {
                nodes: nodes@.map_values(|n: TreeNode| n@),
                open: open@,
            }),
            links_ok(nodes@.map_values(|n: TreeNode| n@), open@),
        decreases markup@.len() - i,
    {
        let ghost before = BuildState { nodes: nodes@.map_values(|n: TreeNode| n@), open: open@ };
        let ghost ms = markup_view(markup@);
        assert(ms.take(i + 1).drop_last() =~= ms.take(i as int));
        assert(ms.take(i + 1).last() == markup@[i as int]@);
        match &markup[i] {
            Markup::Open(d) => {
                let k = nodes.len();
                nodes.push(TreeNode { data: d.duplicate(), children: Vec::new() });
                if open.len() > 0 {
                    let p = open[open.len() - 1];
                    nodes[p].children.push(k);
                }
                open.push(k);
            },
            Markup::Close => {
                if open.len() > 0 {
                    open.pop();
                }
            },
        }
        assert(nodes@.map_values(|n: TreeNode| n@) =~= build_step(before, ms[i as int]).nodes);
        assert(open@ =~= build_step(before, ms[i as int]).open);
        i = i + 1;
    }
    assert(markup_view(markup@).take(markup@.len() as int) =~= markup_view(markup@));
    Tree { nodes }
}

} // verus!
