//! Applying edits to a parse tree. All edits of a module are applied in one
//! traversal that follows the edits' paths and enters no subtree that no
//! edit leads into, so the work grows with the number of edits and not with
//! the size of the module.

use vstd::prelude::*;
use crate::ast::{lemma_branch_view, node_views, Node, NodeView};
use crate::patch_proofs::{lemma_apply_by_children, lemma_entering_none};
use crate::codegen::{
    visitor_views, AstVisitor, AstVisitorView, Rewrite, RewriteView, StaleAstPathError,
};
use crate::dependency::{AstParentKind, JsAstPath};
use crate::text::clone_option_string;

verus! {

impl NodeView {
    /// This node after an edit was applied to it: a string literal takes the
    /// edit's value and literal text and keeps its span; any other node stays
    /// as it is.
    pub open spec fn rewritten(self, rewrite: RewriteView) -> NodeView {
        match (self, rewrite) {
            (NodeView::Str { span, .. }, RewriteView::SetStr { value, raw }) => NodeView::Str {
                span,
                value,
                raw,
            },
            _ => self,
        }
    }

    /// This tree after an edit was applied at a path. Where the path cannot be
    /// walked, the tree stays as it is.
    pub open spec fn rewrite_at(self, path: Seq<AstParentKind>, rewrite: RewriteView) -> NodeView
        decreases path.len(),
    {
        if path.len() == 0 {
            self.rewritten(rewrite)
        } else if self.admits(path[0]) {
            let index = path[0].index as int;
            NodeView::Branch {
                kind: self->Branch_kind,
                span: self->Branch_span,
                children: self->Branch_children.update(
                    index,
                    self->Branch_children[index].rewrite_at(path.skip(1), rewrite),
                ),
            }
        } else {
            self
        }
    }

    /// This tree after a list of edits was applied in order.
    pub open spec fn apply(self, visitors: Seq<AstVisitorView>) -> NodeView
        decreases visitors.len(),
    {
        if visitors.len() == 0 {
            self
        } else {
            self.apply(visitors.drop_last()).rewrite_at(
                visitors.last().path,
                visitors.last().rewrite,
            )
        }
    }

    /// Every edit of the list is bound to a string literal of this tree.
    pub open spec fn all_address_str(self, visitors: Seq<AstVisitorView>) -> bool {
        forall|i: int|
            0 <= i < visitors.len() ==> self.addresses_str((#[trigger] visitors[i]).path)
    }
}

impl AstVisitorView {
    /// The edit's path begins with this step.
    pub open spec fn enters(self, step: AstParentKind) -> bool {
        self.path.len() > 0 && self.path[0] == step
    }

    /// The edit as the child sees it that its first step leads to.
    pub open spec fn inner(self) -> AstVisitorView {
        AstVisitorView { path: self.path.skip(1), rewrite: self.rewrite }
    }
}

/// The edits of a list whose paths begin with a step, in their order, each as
/// the child at that step sees it.
pub open spec fn entering(visitors: Seq<AstVisitorView>, step: AstParentKind) -> Seq<
    AstVisitorView,
>
    decreases visitors.len(),
{
    if visitors.len() == 0 {
        Seq::empty()
    } else if visitors.last().enters(step) {
        entering(visitors.drop_last(), step).push(visitors.last().inner())
    } else {
        entering(visitors.drop_last(), step)
    }
}

/// The edits that a list of positions picks from a list of edits, each with
/// what is left of its path below a depth.
pub open spec fn selected(visitors: Seq<AstVisitorView>, pending: Seq<usize>, depth: int) -> Seq<
    AstVisitorView,
> {
    Seq::new(
        pending.len(),
        |t: int|
            AstVisitorView {
                path: visitors[pending[t] as int].path.skip(depth),
                rewrite: visitors[pending[t] as int].rewrite,
            },
    )
}

/// Every position names an edit, and every edit named reaches the depth and
/// is no longer than the limit.
pub open spec fn pending_fits(
    visitors: Seq<AstVisitor>,
    pending: Seq<usize>,
    depth: int,
    limit: int,
) -> bool {
    forall|t: int|
        0 <= t < pending.len() ==> (#[trigger] pending[t]) < visitors.len() && depth
            <= visitors[pending[t] as int].path@.len() <= limit
}

/// The step from a node of a kind to its child at a position.
pub open spec fn step_to(kind: u32, index: int) -> AstParentKind {
    AstParentKind { parent: kind, index: index as usize }
}

impl Node {
    /// Applies one edit to this node itself.
    pub fn rewrite(&mut self, rewrite: &Rewrite)
        ensures
            final(self)@ == old(self)@.rewritten(rewrite@),
    {
        match self {
            Node::Str(literal) => {
                match rewrite {
                    Rewrite::SetStr { value, raw } => {
                        literal.value = value.clone();
                        literal.raw = clone_option_string(raw);
                    },
                }
            },
            _ => {},
        }
    }

    /// Applies one edit at the node that the rest of a path, from `depth` on,
    /// leads to. Where that rest cannot be walked, nothing changes.
    pub fn rewrite_at(&mut self, path: &JsAstPath, depth: usize, rewrite: &Rewrite)
        requires
            depth <= path.len(),
        ensures
            final(self)@ == old(self)@.rewrite_at(path@.skip(depth as int), rewrite@),
        decreases path.len() - depth,
    {
        if depth == path.len() {
            self.rewrite(rewrite);
        } else {
            match self {
                Node::Branch { kind, span, children } => {
                    let ghost before = *children;
                    let step = path[depth];
                    proof {
                        lemma_branch_view(*kind, *span, before);
                    }
                    if step.parent == *kind && step.index < children.len() {
                        let child = &mut children[step.index];
                        child.rewrite_at(path, depth + 1, rewrite);
                        proof {
                            assert(path@.skip(depth as int).skip(1) =~= path@.skip(depth + 1));
                            lemma_branch_view(*kind, *span, *children);
                            assert(node_views(children@) =~= node_views(before@).update(
                                step.index as int,
                                before@[step.index as int]@.rewrite_at(
                                    path@.skip(depth + 1),
                                    rewrite@,
                                ),
                            ));
                        }
                    }
                },
                _ => {},
            }
        }
    }
}

/// The positions of the pending edits that take a step at a depth.
fn gather(
    visitors: &Vec<AstVisitor>,
    pending: &Vec<usize>,
    depth: usize,
    limit: usize,
    step: AstParentKind,
) -> (group: Vec<usize>)
    requires
        pending_fits(visitors@, pending@, depth as int, limit as int),
    ensures
        pending_fits(visitors@, group@, depth + 1, limit as int),
        selected(visitor_views(visitors@), group@, depth + 1) == entering(
            selected(visitor_views(visitors@), pending@, depth as int),
            step,
        ),
{
    let ghost views = visitor_views(visitors@);
    let ghost all = selected(views, pending@, depth as int);
    let mut group: Vec<usize> = Vec::new();
    let mut t: usize = 0;
    assert(all.take(0) =~= Seq::empty());
    assert(selected(views, group@, depth + 1) =~= Seq::empty());
    while t < pending.len()
        invariant
            t <= pending.len(),
            views == visitor_views(visitors@),
            all == selected(views, pending@, depth as int),
            pending_fits(visitors@, pending@, depth as int, limit as int),
            pending_fits(visitors@, group@, depth + 1, limit as int),
            selected(views, group@, depth + 1) == entering(all.take(t as int), step),
        decreases pending.len() - t,
    {
        let position: usize = pending[t];
        let path = &visitors[position].path;
        let ghost earlier = group@;
        proof {
            assert(all.take(t + 1).drop_last() =~= all.take(t as int));
            assert(all.take(t + 1).last() == all[t as int]);
            assert(views[position as int].path == path@);
        }
        if path.len() > depth && path[depth] == step {
            group.push(position);
            proof {
                assert(path@.skip(depth as int).skip(1) =~= path@.skip(depth + 1));
                assert(selected(views, group@, depth + 1) =~= selected(
                    views,
                    earlier,
                    depth + 1,
                ).push(all[t as int].inner()));
            }
        }
        t += 1;
    }
    assert(all.take(pending.len() as int) =~= all);
    group
}

/// Tells whether one of the first pending edits takes a step at a depth.
fn entered_before(
    visitors: &Vec<AstVisitor>,
    pending: &Vec<usize>,
    depth: usize,
    limit: usize,
    upto: usize,
    step: AstParentKind,
) -> (yes: bool)
    requires
        upto <= pending.len(),
        pending_fits(visitors@, pending@, depth as int, limit as int),
    ensures
        yes == exists|t: int|
            0 <= t < upto && (#[trigger] selected(
                visitor_views(visitors@),
                pending@,
                depth as int,
            )[t]).enters(step),
{
    let ghost all = selected(visitor_views(visitors@), pending@, depth as int);
    let mut t: usize = 0;
    while t < upto
        invariant
            t <= upto <= pending.len(),
            all == selected(visitor_views(visitors@), pending@, depth as int),
            pending_fits(visitors@, pending@, depth as int, limit as int),
            forall|k: int| 0 <= k < t ==> !(#[trigger] all[k]).enters(step),
        decreases upto - t,
    {
        let path = &visitors[pending[t]].path;
        assert(visitor_views(visitors@)[pending[t as int] as int].path == path@);
        if path.len() > depth && path[depth] == step {
            assert(all[t as int].enters(step));
            return true;
        }
        t += 1;
    }
    false
}

/// Applies the pending edits to the children of an inner node: each child
/// that some edit leads into is visited once, with all the edits that lead
/// into it; the other children are not touched.
fn apply_to_children(
    children: &mut Vec<Node>,
    kind: u32,
    visitors: &Vec<AstVisitor>,
    pending: &Vec<usize>,
    depth: usize,
    limit: usize,
)
    requires
        pending_fits(visitors@, pending@, depth as int, limit as int),
    ensures
        final(children)@.len() == old(children)@.len(),
        forall|j: int|
            0 <= j < old(children)@.len() ==> (#[trigger] final(children)@[j])@ == old(
                children,
            )@[j]@.apply(
                entering(
                    selected(visitor_views(visitors@), pending@, depth as int),
                    step_to(kind, j),
                ),
            ),
    decreases limit - depth, 0nat,
{
    let ghost views = visitor_views(visitors@);
    let ghost all = selected(views, pending@, depth as int);
    let mut t: usize = 0;
    while t < pending.len()
        invariant
            t <= pending.len(),
            views == visitor_views(visitors@),
            all == selected(views, pending@, depth as int),
            pending_fits(visitors@, pending@, depth as int, limit as int),
            children@.len() == old(children)@.len(),
            forall|j: int|
                0 <= j < children@.len() ==> (#[trigger] children@[j])@ == (if exists|k: int|
                    0 <= k < t && (#[trigger] all[k]).enters(step_to(kind, j)) {
                    old(children)@[j]@.apply(entering(all, step_to(kind, j)))
                } else {
                    old(children)@[j]@
                }),
        decreases pending.len() - t,
    {
        let position: usize = pending[t];
        let path = &visitors[position].path;
        let ghost before = children@;
        let mut visited: bool = false;
        let ghost mut index: int = 0;
        proof {
            assert(views[position as int].path == path@);
        }
        if path.len() > depth {
            let step = path[depth];
            if step.parent == kind && step.index < children.len() {
                proof {
                    index = step.index as int;
                    assert(step == step_to(kind, index));
                    assert(all[t as int].enters(step));
                }
                if !entered_before(visitors, pending, depth, limit, t, step) {
                    let group = gather(visitors, pending, depth, limit, step);
                    let child = &mut children[step.index];
                    apply_pending(child, visitors, &group, depth + 1, limit);
                    visited = true;
                }
            }
        }
        proof {
            assert forall|j: int| 0 <= j < children@.len() implies (#[trigger] children@[j])@ == (
            if exists|k: int| 0 <= k < t + 1 && (#[trigger] all[k]).enters(step_to(kind, j)) {
                old(children)@[j]@.apply(entering(all, step_to(kind, j)))
            } else {
                old(children)@[j]@
            }) by {
                let was = exists|k: int| 0 <= k < t && (#[trigger] all[k]).enters(step_to(kind, j));
                let is = exists|k: int|
                    0 <= k < t + 1 && (#[trigger] all[k]).enters(step_to(kind, j));
                assert(before[j]@ == (if was {
                    old(children)@[j]@.apply(entering(all, step_to(kind, j)))
                } else {
                    old(children)@[j]@
                }));
                if all[t as int].enters(step_to(kind, j)) {
                    assert(is);
                    assert(j == index);
                } else {
                    if is {
                        let k = choose|k: int|
                            0 <= k < t + 1 && (#[trigger] all[k]).enters(step_to(kind, j));
                        assert(k < t);
                        assert(was);
                    }
                    assert(is == was);
                    if visited {
                        assert(j != index);
                    }
                }
            }
        }
        t += 1;
    }
    proof {
        assert forall|j: int| 0 <= j < old(children)@.len() implies (#[trigger] children@[j])@
            == old(children)@[j]@.apply(entering(all, step_to(kind, j))) by {
            if !(exists|k: int|
                0 <= k < pending.len() && (#[trigger] all[k]).enters(step_to(kind, j))) {
                lemma_entering_none(all, step_to(kind, j));
            }
        }
    }
}

/// Applies the pending edits to a subtree, below the depth their paths have
/// been followed to.
fn apply_pending(
    node: &mut Node,
    visitors: &Vec<AstVisitor>,
    pending: &Vec<usize>,
    depth: usize,
    limit: usize,
)
    requires
        pending_fits(visitors@, pending@, depth as int, limit as int),
    ensures
        final(node)@ == old(node)@.apply(
            selected(visitor_views(visitors@), pending@, depth as int),
        ),
    decreases limit - depth, 1nat,
{
    let ghost views = visitor_views(visitors@);
    let ghost all = selected(views, pending@, depth as int);
    match node {
        Node::Branch { kind, span, children } => {
            let ghost before = *children;
            proof {
                broadcast use vstd::std_specs::vec::axiom_spec_len;

                assert(before@.len() == before.len());
            }
            apply_to_children(children, *kind, visitors, pending, depth, limit);
            proof {
                lemma_branch_view(*kind, *span, before);
                lemma_branch_view(*kind, *span, *children);
                lemma_apply_by_children(*kind, *span, node_views(before@), all);
                assert(node_views(children@) =~= Seq::new(
                    before@.len(),
                    |j: int| node_views(before@)[j].apply(entering(all, step_to(*kind, j))),
                ));
            }
        },
        _ => {
            let mut t: usize = 0;
            assert(all.take(0) =~= Seq::empty());
            while t < pending.len()
                invariant
                    t <= pending.len(),
                    views == visitor_views(visitors@),
                    all == selected(views, pending@, depth as int),
                    pending_fits(visitors@, pending@, depth as int, limit as int),
                    !(node@ is Branch),
                    node@ == old(node)@.apply(all.take(t as int)),
                decreases pending.len() - t,
            {
                let visitor = &visitors[pending[t]];
                proof {
                    assert(all.take(t + 1).drop_last() =~= all.take(t as int));
                    assert(all.take(t + 1).last() == all[t as int]);
                    assert(views[pending[t as int] as int] == visitor@);
                }
                if visitor.path.len() == depth {
                    node.rewrite(&visitor.rewrite);
                }
                t += 1;
            }
            assert(all.take(pending.len() as int) =~= all);
        },
    }
}

/// Applies the edits to a module's parse tree. All of them must be bound to
/// string literals of the tree: the first one that is not is reported, and
/// the tree is then left as it was. Otherwise the tree is traversed once,
/// and it ends as if the edits had been applied one after the other.
pub fn apply_visitors(root: &mut Node, visitors: &Vec<AstVisitor>) -> (outcome: Result<
    (),
    StaleAstPathError,
>)
    ensures
        outcome is Ok == old(root)@.all_address_str(visitor_views(visitors@)),
        outcome is Ok ==> final(root)@ == old(root)@.apply(visitor_views(visitors@)),
        outcome matches Err(stale) ==> {
            &&& final(root)@ == old(root)@
            &&& stale.visitor < visitors.len()
            &&& !old(root)@.addresses_str(visitors[stale.visitor as int].path@)
            &&& forall|j: int|
                0 <= j < stale.visitor ==> old(root)@.addresses_str(
                    (#[trigger] visitors[j]).path@,
                )
        },
{
    let ghost views = visitor_views(visitors@);
    let mut checked: usize = 0;
    while checked < visitors.len()
        invariant
            checked <= visitors.len(),
            *root == *old(root),
            views == visitor_views(visitors@),
            forall|j: int| 0 <= j < checked ==> root@.addresses_str((#[trigger] visitors[j]).path@),
        decreases visitors.len() - checked,
    {
        if !root.addresses_str(&visitors[checked].path) {
            assert(views[checked as int].path == visitors[checked as int].path@);
            return Err(StaleAstPathError { visitor: checked });
        }
        checked += 1;
    }
    assert(old(root)@.all_address_str(views)) by {
        assert forall|i: int| 0 <= i < views.len() implies old(root)@.addresses_str(
            (#[trigger] views[i]).path,
        ) by {
            assert(views[i].path == visitors[i].path@);
        }
    }
    let mut pending: Vec<usize> = Vec::new();
    let mut limit: usize = 0;
    let mut next: usize = 0;
    while next < visitors.len()
        invariant
            next <= visitors.len(),
            pending@.len() == next,
            forall|t: int| 0 <= t < next ==> (#[trigger] pending@[t]) == t,
            forall|t: int| 0 <= t < next ==> (#[trigger] visitors[t]).path@.len() <= limit,
        decreases visitors.len() - next,
    {
        if visitors[next].path.len() > limit {
            limit = visitors[next].path.len();
        }
        pending.push(next);
        next += 1;
    }
    proof {
        assert forall|t: int| 0 <= t < views.len() implies selected(views, pending@, 0)[t]
            == views[t] by {
            assert(views[t].path.skip(0) =~= views[t].path);
        }
        assert(selected(views, pending@, 0) =~= views);
    }
    apply_pending(root, visitors, &pending, 0, limit);
    Ok(())
}

} // verus!
