//! The syntax tree that the parser builds.

use vstd::prelude::*;

verus! {

/// A node of the syntax tree.
#[derive(Debug, PartialEq, Eq)]
#[allow(inconsistent_fields)]
pub enum NodeType {
    /// The top-level container.
    Root,
    /// A selector and the block that follows it.
    Rule { selector: String, children: Vec<NodeType> },
    /// A directive introduced by `@`: `value` is set where it ended in `;`
    /// after a `:`, `children` where it opened a block.
    Atrule { name: String, params: String, value: Option<String>, children: Option<Vec<NodeType>> },
    /// A property and its value.
    Decl { property: String, value: String, important: bool },
}

/// A node of the syntax tree, as a value of the specification.
#[allow(inconsistent_fields)]
pub enum NodeView {
    Root,
    Rule { selector: Seq<char>, children: Seq<NodeView> },
    Atrule {
        name: Seq<char>,
        params: Seq<char>,
        value: Option<Seq<char>>,
        children: Option<Seq<NodeView>>,
    },
    Decl { property: Seq<char>, value: Seq<char>, important: bool },
}

/// The view of one node.
pub open spec fn node_view(n: NodeType) -> NodeView
    decreases n, 0nat,
{
    match n {
        NodeType::Root => NodeView::Root,
        NodeType::Rule { selector, children } => NodeView::Rule {
            selector: selector@,
            children: views_prefix(children@, children@.len()),
        },
        NodeType::Atrule { name, params, value, children } => NodeView::Atrule {
            name: name@,
            params: params@,
            value: match value {
                Some(v) => Some(v@),
                None => None,
            },
            children: match children {
                Some(c) => Some(views_prefix(c@, c@.len())),
                None => None,
            },
        },
        NodeType::Decl { property, value, important } => NodeView::Decl {
            property: property@,
            value: value@,
            important,
        },
    }
}

/// The views of the first `k` nodes of `s`.
pub open spec fn views_prefix(s: Seq<NodeType>, k: nat) -> Seq<NodeView>
    decreases s, k,
{
    if k == 0 || k > s.len() {
        Seq::empty()
    } else {
        views_prefix(s, (k - 1) as nat).push(node_view(s[k - 1]))
    }
}

/// The views of a sequence of nodes.
pub open spec fn nodes_view(s: Seq<NodeType>) -> Seq<NodeView> {
    views_prefix(s, s.len())
}

} // verus!
