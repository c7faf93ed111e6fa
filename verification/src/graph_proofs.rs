//! What holds of dependency ids over the life of a module graph, and of the
//! edits a declined-module reference produces under a finished compilation.

use vstd::prelude::*;
use crate::ast::NodeView;
use crate::codegen::{quoted, AstVisitorView, RewriteView};
use crate::dependency::{id_after_set, id_after_sets, AstParentKind, DependencyId};
use crate::module_graph::{CompilationView, ModuleGraphView};
use crate::module_hot_decline::ModuleHotDeclineDependencyView;
use crate::patch_proofs::{lemma_rewrite_at_target, lemma_rewrite_elsewhere};

verus! {

/// An id once set is kept for good: however many ids a dependency is given
/// afterwards, and whichever, none among them included, it carries the first
/// one.
pub proof fn lemma_id_is_set_once(id: DependencyId, given: Seq<Option<DependencyId>>)
    ensures
        id_after_sets(Some(id), given) == Some(id),
        id_after_sets(None, seq![Some(id)] + given) == Some(id),
    decreases given.len(),
{
    if given.len() == 0 {
        assert(seq![Some(id)] + given =~= seq![Some(id)]);
        assert(seq![Some(id)].drop_last() =~= Seq::<Option<DependencyId>>::empty());
        reveal_with_fuel(id_after_sets, 2);
    } else {
        lemma_id_is_set_once(id, given.drop_last());
        assert((seq![Some(id)] + given).drop_last() =~= seq![Some(id)] + given.drop_last());
        assert((seq![Some(id)] + given).last() == given.last());
    }
}

/// A dependency without an id stays without one as long as it is given
/// none, and takes the first id that it is given.
pub proof fn lemma_id_is_unset_until_given(given: Option<DependencyId>)
    ensures
        id_after_set(None, None) is None,
        id_after_set(None, given) == given,
{
}

/// A dependency that comes with an id this graph never handed out leaves
/// registration with that id, the graph is as before, and the id is still
/// not one of the graph's and resolves to nothing in it.
pub proof fn lemma_foreign_id_is_not_registered(graph: ModuleGraphView, known: DependencyId)
    requires
        !graph.has_issued(known),
    ensures
        graph.registered_id(Some(known)) == known,
        graph.register(Some(known)) == graph,
        !graph.register(Some(known)).has_issued(known),
        graph.register(Some(known)).resolve(known) is None,
{
}

/// A dependency that comes without an id leaves registration with an id that
/// the graph had not handed out before, and has handed out since.
pub proof fn lemma_registration_is_fresh(graph: ModuleGraphView)
    requires
        graph.targets.len() < usize::MAX,
    ensures
        !graph.has_issued(graph.registered_id(None)),
        graph.register(None).has_issued(graph.registered_id(None)),
        graph.register(None).resolve(graph.registered_id(None)) is None,
{
}

/// Registering a dependency a second time gives it the id it already has and
/// leaves the graph as the first registration left it.
pub proof fn lemma_registration_happens_once(graph: ModuleGraphView, current: Option<DependencyId>)
    ensures
        ({
            let id = graph.registered_id(current);
            let after = graph.register(current);
            after.registered_id(Some(id)) == id && after.register(Some(id)) == after
        }),
{
}

/// Two dependencies that both come without an id, registered one after the
/// other, leave with different ids.
pub proof fn lemma_registered_ids_differ(graph: ModuleGraphView)
    requires
        graph.targets.len() + 1 < usize::MAX,
    ensures
        graph.registered_id(None) != graph.register(None).registered_id(None),
{
}

/// An id that the graph has handed out stays handed out, whatever is added,
/// registered or resolved afterwards.
pub proof fn lemma_issued_ids_are_kept(
    graph: ModuleGraphView,
    id: DependencyId,
    module_identifier: Seq<char>,
    current: Option<DependencyId>,
    dependency: DependencyId,
    module: usize,
)
    requires
        graph.has_issued(id),
    ensures
        graph.with_module(module_identifier).has_issued(id),
        graph.register(current).has_issued(id),
        graph.with_target(dependency, module).has_issued(id),
{
}

/// The empty graph is well formed, and so is a well-formed graph after a
/// module was added, a dependency registered or a resolution recorded.
pub proof fn lemma_well_formed_is_kept(
    graph: ModuleGraphView,
    module_identifier: Seq<char>,
    current: Option<DependencyId>,
    dependency: DependencyId,
    module: usize,
)
    requires
        graph.well_formed(),
    ensures
        ModuleGraphView::empty().well_formed(),
        graph.with_module(module_identifier).well_formed(),
        graph.register(current).well_formed(),
        graph.with_target(dependency, module).well_formed(),
{
}

/// Adding a module or registering a dependency does not change what an id
/// already handed out resolves to; recording a resolution changes it for the
/// one dependency named and for no other.
pub proof fn lemma_resolution_is_kept(
    graph: ModuleGraphView,
    id: DependencyId,
    module_identifier: Seq<char>,
    current: Option<DependencyId>,
    dependency: DependencyId,
    module: usize,
)
    requires
        graph.well_formed(),
        graph.has_issued(id),
    ensures
        graph.with_module(module_identifier).resolve(id) == graph.resolve(id),
        graph.register(current).resolve(id) == graph.resolve(id),
        dependency != id ==> graph.with_target(dependency, module).resolve(id) == graph.resolve(id),
        graph.can_resolve(id, module) ==> graph.with_target(id, module).resolve(id) == Some(
            graph.modules[module as int],
        ),
{
}

/// A declined-module reference whose id resolves to a module produces exactly
/// one edit. Applied to a tree in which the reference's path leads to a
/// string literal, the edit gives that literal the module's final identifier
/// as value and the identifier in double quotes as literal text, keeps its
/// span, and leaves what every other node holds by itself as it was.
pub proof fn lemma_resolved_reference_patches_its_literal(
    dependency: ModuleHotDeclineDependencyView,
    compilation: CompilationView,
    tree: NodeView,
)
    requires
        dependency.id is Some,
        compilation.resolved_module_id(dependency.id->Some_0) is Some,
        tree.addresses_str(dependency.ast_path),
    ensures
        ({
            let module_id = compilation.resolved_module_id(dependency.id->Some_0)->Some_0;
            let visitors = dependency.visitors(compilation);
            let patched = tree.apply(visitors);
            &&& visitors.len() == 1
            &&& visitors[0].path == dependency.ast_path
            &&& visitors[0].rewrite == (RewriteView::SetStr {
                value: module_id,
                raw: Some(quoted(module_id)),
            })
            &&& patched.node_at(dependency.ast_path) == Some(
                NodeView::Str {
                    span: tree.node_at(dependency.ast_path)->Some_0->Str_span,
                    value: module_id,
                    raw: Some(quoted(module_id)),
                },
            )
            &&& forall|other: Seq<AstParentKind>|
                other != dependency.ast_path ==> #[trigger] tree.label_at(other)
                    == patched.label_at(other)
        }),
{
    let visitors = dependency.visitors(compilation);
    let patched = tree.apply(visitors);
    assert(visitors.drop_last() =~= Seq::empty());
    reveal_with_fuel(NodeView::apply, 2);
    assert(patched == tree.rewrite_at(visitors[0].path, visitors[0].rewrite));
    lemma_rewrite_at_target(tree, dependency.ast_path, visitors[0].rewrite);
    assert forall|other: Seq<AstParentKind>| other != dependency.ast_path implies #[trigger] tree.label_at(
        other,
    ) == patched.label_at(other) by {
        lemma_rewrite_elsewhere(tree, dependency.ast_path, visitors[0].rewrite, other);
    }
}

/// A declined-module reference that is not registered, or whose id resolves
/// to no module, produces no edit, and applying what it produces leaves any
/// tree as it was.
pub proof fn lemma_unresolved_reference_patches_nothing(
    dependency: ModuleHotDeclineDependencyView,
    compilation: CompilationView,
    tree: NodeView,
)
    requires
        dependency.id matches Some(id) ==> compilation.resolved_module_id(id) is None,
    ensures
        dependency.visitors(compilation) == Seq::<AstVisitorView>::empty(),
        tree.apply(dependency.visitors(compilation)) == tree,
{
}

} // verus!
