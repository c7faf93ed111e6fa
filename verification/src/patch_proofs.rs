//! What holds of edits applied to a tree: an edit changes the node it is bound
//! to and nothing else, and edits bound to different nodes do not interfere.

use vstd::prelude::*;
use crate::ast::NodeView;
use crate::codegen::{AstVisitorView, RewriteView};
use crate::dependency::AstParentKind;
use crate::patch::{entering, step_to};

verus! {

/// Two paths with the same first step and the same remainder are the same
/// path.
proof fn lemma_same_head_same_tail(p: Seq<AstParentKind>, q: Seq<AstParentKind>)
    requires
        p.len() > 0,
        q.len() > 0,
        p[0] == q[0],
        p.skip(1) == q.skip(1),
    ensures
        p == q,
{
    assert(p.len() == q.len()) by {
        assert(p.skip(1).len() == p.len() - 1);
        assert(q.skip(1).len() == q.len() - 1);
    }
    assert forall|k: int| 0 <= k < p.len() implies p[k] == q[k] by {
        if k > 0 {
            assert(p.skip(1)[k - 1] == p[k]);
            assert(q.skip(1)[k - 1] == q[k]);
        }
    }
    assert(p =~= q);
}

/// An edit never changes which steps can be taken from the root.
pub proof fn lemma_rewrite_keeps_steps(
    tree: NodeView,
    path: Seq<AstParentKind>,
    rewrite: RewriteView,
    step: AstParentKind,
)
    ensures
        tree.rewrite_at(path, rewrite).admits(step) == tree.admits(step),
{
}

/// After an edit at a path that leads to a node, that node is the old one
/// with the edit applied to it.
pub proof fn lemma_rewrite_at_target(
    tree: NodeView,
    path: Seq<AstParentKind>,
    rewrite: RewriteView,
)
    requires
        tree.node_at(path) is Some,
    ensures
        tree.rewrite_at(path, rewrite).node_at(path) == Some(
            tree.node_at(path)->Some_0.rewritten(rewrite),
        ),
    decreases path.len(),
{
    if path.len() > 0 {
        let index = path[0].index as int;
        lemma_rewrite_at_target(tree->Branch_children[index], path.skip(1), rewrite);
    }
}

/// An edit at one path leaves what every node at another path holds by itself
/// as it was, and makes no node appear or disappear.
pub proof fn lemma_rewrite_elsewhere(
    tree: NodeView,
    path: Seq<AstParentKind>,
    rewrite: RewriteView,
    other: Seq<AstParentKind>,
)
    requires
        other != path,
    ensures
        tree.rewrite_at(path, rewrite).label_at(other) == tree.label_at(other),
    decreases other.len(),
{
    let after = tree.rewrite_at(path, rewrite);
    if other.len() == 0 {
        assert(path.len() > 0) by {
            if path.len() == 0 {
                assert(path =~= other);
            }
        }
    } else if path.len() == 0 {
    } else if !tree.admits(path[0]) {
    } else if !tree.admits(other[0]) {
    } else {
        let i = path[0].index as int;
        let j = other[0].index as int;
        let children = tree->Branch_children;
        if i == j {
            if path.skip(1) == other.skip(1) {
                lemma_same_head_same_tail(path, other);
            }
            lemma_rewrite_elsewhere(children[i], path.skip(1), rewrite, other.skip(1));
        }
    }
}

/// An edit never changes which paths lead to string literals.
pub proof fn lemma_rewrite_keeps_literals(
    tree: NodeView,
    path: Seq<AstParentKind>,
    rewrite: RewriteView,
    other: Seq<AstParentKind>,
)
    ensures
        tree.rewrite_at(path, rewrite).addresses_str(other) == tree.addresses_str(other),
{
    if other == path {
        if tree.node_at(path) is Some {
            lemma_rewrite_at_target(tree, path, rewrite);
        } else {
            lemma_rewrite_stale(tree, path, rewrite);
        }
    } else {
        lemma_rewrite_elsewhere(tree, path, rewrite, other);
    }
}

/// An edit at a path that leads nowhere changes nothing.
pub proof fn lemma_rewrite_stale(tree: NodeView, path: Seq<AstParentKind>, rewrite: RewriteView)
    requires
        tree.node_at(path) is None,
    ensures
        tree.rewrite_at(path, rewrite) == tree,
    decreases path.len(),
{
    if path.len() > 0 && tree.admits(path[0]) {
        let index = path[0].index as int;
        let children = tree->Branch_children;
        lemma_rewrite_stale(children[index], path.skip(1), rewrite);
        assert(children.update(index, children[index]) =~= children);
    }
}

/// Edits at two different paths can be applied in either order.
pub proof fn lemma_rewrite_commutes(
    tree: NodeView,
    first: Seq<AstParentKind>,
    first_rewrite: RewriteView,
    second: Seq<AstParentKind>,
    second_rewrite: RewriteView,
)
    requires
        first != second,
    ensures
        tree.rewrite_at(first, first_rewrite).rewrite_at(second, second_rewrite)
            == tree.rewrite_at(second, second_rewrite).rewrite_at(first, first_rewrite),
    decreases first.len(),
{
    let left = tree.rewrite_at(first, first_rewrite).rewrite_at(second, second_rewrite);
    let right = tree.rewrite_at(second, second_rewrite).rewrite_at(first, first_rewrite);
    if first.len() == 0 {
        assert(second.len() > 0) by {
            if second.len() == 0 {
                assert(first =~= second);
            }
        }
    } else if second.len() == 0 {
    } else if !tree.admits(first[0]) {
    } else if !tree.admits(second[0]) {
    } else {
        let i = first[0].index as int;
        let j = second[0].index as int;
        let children = tree->Branch_children;
        let a = children[i].rewrite_at(first.skip(1), first_rewrite);
        let b = children[j].rewrite_at(second.skip(1), second_rewrite);
        if i == j {
            if first.skip(1) == second.skip(1) {
                lemma_same_head_same_tail(first, second);
            }
            lemma_rewrite_commutes(
                children[i],
                first.skip(1),
                first_rewrite,
                second.skip(1),
                second_rewrite,
            );
            let both = a.rewrite_at(second.skip(1), second_rewrite);
            assert(left->Branch_children =~= children.update(i, both));
            assert(right->Branch_children =~= children.update(i, both));
        } else {
            assert(left->Branch_children =~= children.update(i, a).update(j, b));
            assert(right->Branch_children =~= children.update(i, a).update(j, b));
        }
    }
}

/// Where no edit of a list begins with a step, none enters the child at that
/// step.
pub proof fn lemma_entering_none(visitors: Seq<AstVisitorView>, step: AstParentKind)
    requires
        forall|t: int| 0 <= t < visitors.len() ==> !(#[trigger] visitors[t]).enters(step),
    ensures
        entering(visitors, step) == Seq::<AstVisitorView>::empty(),
    decreases visitors.len(),
{
    if visitors.len() > 0 {
        let rest = visitors.drop_last();
        assert forall|t: int| 0 <= t < rest.len() implies !(#[trigger] rest[t]).enters(step) by {
            assert(rest[t] == visitors[t]);
        }
        lemma_entering_none(rest, step);
        assert(!visitors[visitors.len() - 1].enters(step));
    }
}

/// Applying a list of edits to an inner node is applying, to each child, the
/// edits that lead into it: the node keeps kind, span and number of
/// children, and no edit reaches across from one child to another.
pub proof fn lemma_apply_by_children(
    kind: u32,
    span: crate::ast::Span,
    children: Seq<NodeView>,
    visitors: Seq<AstVisitorView>,
)
    requires
        children.len() <= usize::MAX,
    ensures
        (NodeView::Branch { kind, span, children }).apply(visitors) == (NodeView::Branch {
            kind,
            span,
            children: Seq::new(
                children.len(),
                |j: int| children[j].apply(entering(visitors, step_to(kind, j))),
            ),
        }),
    decreases visitors.len(),
{
    let tree = NodeView::Branch { kind, span, children };
    let parts = Seq::new(
        children.len(),
        |j: int| children[j].apply(entering(visitors, step_to(kind, j))),
    );
    if visitors.len() == 0 {
        assert(parts =~= children);
    } else {
        let rest = visitors.drop_last();
        let last = visitors.last();
        lemma_apply_by_children(kind, span, children, rest);
        let earlier = Seq::new(
            children.len(),
            |j: int| children[j].apply(entering(rest, step_to(kind, j))),
        );
        let middle = NodeView::Branch { kind, span, children: earlier };
        assert(tree.apply(rest) == middle);
        assert(tree.apply(visitors) == middle.rewrite_at(last.path, last.rewrite));
        if last.path.len() > 0 && middle.admits(last.path[0]) {
            let i = last.path[0].index as int;
            assert(last.path[0] == step_to(kind, i));
            assert(last.enters(step_to(kind, i)));
            assert(entering(visitors, step_to(kind, i)).drop_last() =~= entering(
                rest,
                step_to(kind, i),
            ));
            assert forall|j: int| 0 <= j < children.len() implies #[trigger] parts[j]
                == earlier.update(i, earlier[i].rewrite_at(last.path.skip(1), last.rewrite))[j] by {
                if j != i {
                    assert(!last.enters(step_to(kind, j)));
                }
            }
            assert(parts =~= earlier.update(
                i,
                earlier[i].rewrite_at(last.path.skip(1), last.rewrite),
            ));
        } else {
            assert forall|j: int| 0 <= j < children.len() implies #[trigger] parts[j]
                == earlier[j] by {
                assert(!last.enters(step_to(kind, j)));
            }
            assert(parts =~= earlier);
        }
    }
}

/// A list of edits leaves what a node holds by itself as it was, unless one
/// of the edits is bound to that node's path.
pub proof fn lemma_apply_elsewhere(
    tree: NodeView,
    visitors: Seq<AstVisitorView>,
    other: Seq<AstParentKind>,
)
    requires
        forall|i: int| 0 <= i < visitors.len() ==> (#[trigger] visitors[i]).path != other,
    ensures
        tree.apply(visitors).label_at(other) == tree.label_at(other),
    decreases visitors.len(),
{
    if visitors.len() > 0 {
        let rest = visitors.drop_last();
        assert forall|i: int| 0 <= i < rest.len() implies (#[trigger] rest[i]).path != other by {
            assert(rest[i] == visitors[i]);
        }
        lemma_apply_elsewhere(tree, rest, other);
        lemma_rewrite_elsewhere(
            tree.apply(rest),
            visitors.last().path,
            visitors.last().rewrite,
            other,
        );
    }
}

/// A list of edits never changes which paths lead to string literals: the
/// tree keeps its shape.
pub proof fn lemma_apply_keeps_literals(
    tree: NodeView,
    visitors: Seq<AstVisitorView>,
    other: Seq<AstParentKind>,
)
    ensures
        tree.apply(visitors).addresses_str(other) == tree.addresses_str(other),
    decreases visitors.len(),
{
    if visitors.len() > 0 {
        lemma_apply_keeps_literals(tree, visitors.drop_last(), other);
        lemma_rewrite_keeps_literals(
            tree.apply(visitors.drop_last()),
            visitors.last().path,
            visitors.last().rewrite,
            other,
        );
    }
}

/// Two edits bound to different string literals of one tree: the order in
/// which they are applied does not matter, each literal ends up as its own
/// edit says, and what every other node holds by itself is as before.
pub proof fn lemma_disjoint_composition(
    tree: NodeView,
    first: AstVisitorView,
    second: AstVisitorView,
)
    requires
        first.path != second.path,
        tree.addresses_str(first.path),
        tree.addresses_str(second.path),
    ensures
        tree.apply(seq![first, second]) == tree.apply(seq![second, first]),
        tree.apply(seq![first, second]).node_at(first.path) == Some(
            tree.node_at(first.path)->Some_0.rewritten(first.rewrite),
        ),
        tree.apply(seq![first, second]).node_at(second.path) == Some(
            tree.node_at(second.path)->Some_0.rewritten(second.rewrite),
        ),
        forall|other: Seq<AstParentKind>|
            other != first.path && other != second.path ==> #[trigger] tree.label_at(other)
                == tree.apply(seq![first, second]).label_at(other),
{
    let one = tree.rewrite_at(first.path, first.rewrite);
    let two = tree.rewrite_at(second.path, second.rewrite);
    lemma_apply_pair(tree, first, second);
    lemma_apply_pair(tree, second, first);
    lemma_rewrite_commutes(tree, first.path, first.rewrite, second.path, second.rewrite);
    let out = tree.apply(seq![first, second]);
    // the second literal, rewritten last on the left-hand order
    lemma_rewrite_elsewhere(tree, first.path, first.rewrite, second.path);
    lemma_rewrite_keeps_literals(tree, first.path, first.rewrite, second.path);
    lemma_rewrite_at_target(one, second.path, second.rewrite);
    lemma_node_with_same_label(one, tree, second.path);
    // the first literal, rewritten last on the right-hand order
    lemma_rewrite_elsewhere(tree, second.path, second.rewrite, first.path);
    lemma_rewrite_keeps_literals(tree, second.path, second.rewrite, first.path);
    lemma_rewrite_at_target(two, first.path, first.rewrite);
    lemma_node_with_same_label(two, tree, first.path);
    assert forall|other: Seq<AstParentKind>|
        other != first.path && other != second.path implies #[trigger] tree.label_at(other)
        == out.label_at(other) by {
        lemma_rewrite_elsewhere(tree, first.path, first.rewrite, other);
        lemma_rewrite_elsewhere(one, second.path, second.rewrite, other);
    }
}

/// Applying a list of two edits is applying one and then the other.
proof fn lemma_apply_pair(tree: NodeView, first: AstVisitorView, second: AstVisitorView)
    ensures
        tree.apply(seq![first, second]) == tree.rewrite_at(first.path, first.rewrite).rewrite_at(
            second.path,
            second.rewrite,
        ),
{
    let both = seq![first, second];
    assert(both.drop_last() =~= seq![first]);
    assert(seq![first].drop_last() =~= Seq::<AstVisitorView>::empty());
    reveal_with_fuel(NodeView::apply, 3);
}

/// Two string literals that hold the same by themselves are the same node.
proof fn lemma_node_with_same_label(a: NodeView, b: NodeView, path: Seq<AstParentKind>)
    requires
        a.label_at(path) == b.label_at(path),
        b.addresses_str(path),
    ensures
        a.node_at(path) == b.node_at(path),
{
}

} // verus!
