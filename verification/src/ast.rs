//! A parse tree reduced to what patching needs: string literals, which edits
//! rewrite, other tokens, which they must leave alone, and inner nodes, which
//! give the tree its shape.

use vstd::prelude::*;
use crate::text::option_string_view;
use crate::dependency::{AstParentKind, JsAstPath};

verus! {

/// Byte range of a node in the module's source text.
#[derive(Clone, Copy, Debug, PartialEq, Eq, Structural, Hash)]
pub struct Span {
    pub lo: u32,
    pub hi: u32,
}

/// A string literal: the value it denotes and the text it was written as.
#[derive(Debug, Clone, PartialEq, Eq)]
pub struct Str {
    pub span: Span,
    pub value: String,
    pub raw: Option<String>,
}

/// A node of the parse tree.
#[derive(Debug, PartialEq, Eq)]
pub enum Node {
    /// A string literal.
    Str(Str),
    /// Any other leaf: identifier, number, punctuation, comment.
    Token { span: Span, text: String },
    /// An inner node of some syntactic kind, with its children in order.
    Branch { kind: u32, span: Span, children: Vec<Node> },
}

/// Mathematical content of a [`Node`].
pub enum NodeView {
    Str { span: Span, value: Seq<char>, raw: Option<Seq<char>> },
    Token { span: Span, text: Seq<char> },
    Branch { kind: u32, span: Span, children: Seq<NodeView> },
}

/// What a node holds by itself, its children set aside.
pub enum NodeLabel {
    Str { span: Span, value: Seq<char>, raw: Option<Seq<char>> },
    Token { span: Span, text: Seq<char> },
    Branch { kind: u32, span: Span, arity: nat },
}

pub open spec fn node_view(node: Node) -> NodeView
    decreases node,
{
    match node {
        Node::Str(s) => NodeView::Str {
            span: s.span,
            value: s.value@,
            raw: option_string_view(s.raw),
        },
        Node::Token { span, text } => NodeView::Token { span, text: text@ },
        Node::Branch { kind, span, children } => NodeView::Branch {
            kind,
            span,
            children: Seq::new(
                children@.len(),
                |i: int|
                    if 0 <= i < children@.len() {
                        node_view(children@[i])
                    } else {
                        NodeView::Token { span, text: Seq::empty() }
                    },
            ),
        },
    }
}

impl View for Node {
    type V = NodeView;

    open spec fn view(&self) -> NodeView {
        node_view(*self)
    }
}

pub open spec fn node_views(nodes: Seq<Node>) -> Seq<NodeView> {
    Seq::new(nodes.len(), |i: int| nodes[i]@)
}

/// The view of an inner node is made of the views of its children.
pub proof fn lemma_branch_view(kind: u32, span: Span, children: Vec<Node>)
    ensures
        (Node::Branch { kind, span, children })@ == (NodeView::Branch {
            kind,
            span,
            children: node_views(children@),
        }),
{
    let view = (Node::Branch { kind, span, children })@;
    assert(view->Branch_children =~= node_views(children@));
}

impl NodeView {
    /// What the node holds by itself.
    pub open spec fn label(self) -> NodeLabel {
        match self {
            NodeView::Str { span, value, raw } => NodeLabel::Str { span, value, raw },
            NodeView::Token { span, text } => NodeLabel::Token { span, text },
            NodeView::Branch { kind, span, children } => NodeLabel::Branch {
                kind,
                span,
                arity: children.len(),
            },
        }
    }

    /// Whether a step can be taken from this node: it is an inner node of the
    /// kind the step names and has a child at the step's position.
    pub open spec fn admits(self, step: AstParentKind) -> bool {
        self matches NodeView::Branch { kind, children, .. } && step.parent == kind && step.index
            < children.len()
    }

    /// The node a path leads to from this node; none where some step cannot be
    /// taken.
    pub open spec fn node_at(self, path: Seq<AstParentKind>) -> Option<NodeView>
        decreases path.len(),
    {
        if path.len() == 0 {
            Some(self)
        } else if self.admits(path[0]) {
            self->Branch_children[path[0].index as int].node_at(path.skip(1))
        } else {
            None
        }
    }

    /// What the node at a path holds by itself, where the path leads to one.
    pub open spec fn label_at(self, path: Seq<AstParentKind>) -> Option<NodeLabel> {
        match self.node_at(path) {
            Some(node) => Some(node.label()),
            None => None,
        }
    }

    /// The path leads to a string literal.
    pub open spec fn addresses_str(self, path: Seq<AstParentKind>) -> bool {
        self.node_at(path) matches Some(NodeView::Str { .. })
    }
}

impl Node {
    /// The node a path leads to from this node; none where some step cannot be
    /// taken.
    pub fn node_at(&self, path: &JsAstPath) -> (found: Option<&Node>)
        ensures
            found is Some == self@.node_at(path@) is Some,
            found matches Some(node) ==> self@.node_at(path@) == Some(node@),
    {
        let mut current: &Node = self;
        let mut depth: usize = 0;
        assert(path@.skip(0) =~= path@);
        while depth < path.len()
            invariant
                depth <= path.len(),
                self@.node_at(path@) == current@.node_at(path@.skip(depth as int)),
            decreases path.len() - depth,
        {
            let step = path[depth];
            match current {
                Node::Branch { kind, span, children } => {
                    proof {
                        lemma_branch_view(*kind, *span, *children);
                        assert(path@.skip(depth as int).skip(1) =~= path@.skip(depth + 1));
                    }
                    if step.parent == *kind && step.index < children.len() {
                        current = &children[step.index];
                    } else {
                        return None;
                    }
                },
                _ => {
                    return None;
                },
            }
            depth += 1;
        }
        Some(current)
    }

    /// Tells whether a path leads to a string literal.
    pub fn addresses_str(&self, path: &JsAstPath) -> (yes: bool)
        ensures
            yes == self@.addresses_str(path@),
    {
        match self.node_at(path) {
            Some(Node::Str(_)) => true,
            _ => false,
        }
    }
}

} // verus!
