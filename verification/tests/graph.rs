use transform_core::dependency::{
    clone_ast_path, AstParentKind, Dependency, DependencyCategory, DependencyId, DependencyType,
};
use transform_core::module_graph::{ChunkGraph, Compilation, ModuleGraph};
use transform_core::module_hot_decline::ModuleHotDeclineDependency;

fn dependency(request: &str) -> ModuleHotDeclineDependency {
    ModuleHotDeclineDependency::new(request.to_string(), None, Vec::new())
}

#[test]
fn id_is_unset_until_registration_and_set_after() {
    let mut graph = ModuleGraph::new();
    let mut first = dependency("./a");
    assert_eq!(first.id(), None);
    let id = graph.add_dependency(&mut first);
    assert_eq!(id, DependencyId(0));
    assert_eq!(first.id(), Some(DependencyId(0)));
    assert_eq!(graph.dependency_count(), 1);
}

#[test]
fn registering_again_keeps_the_id_and_the_graph() {
    let mut graph = ModuleGraph::new();
    let mut first = dependency("./a");
    let id = graph.add_dependency(&mut first);
    let again = graph.add_dependency(&mut first);
    assert_eq!(again, id);
    assert_eq!(first.id(), Some(id));
    assert_eq!(graph.dependency_count(), 1);
}

#[test]
fn ids_are_handed_out_in_order_and_differ() {
    let mut graph = ModuleGraph::new();
    let mut a = dependency("./a");
    let mut b = dependency("./b");
    let mut c = dependency("./c");
    let ia = graph.add_dependency(&mut a);
    let ib = graph.add_dependency(&mut b);
    let ic = graph.add_dependency(&mut c);
    assert_eq!((ia, ib, ic), (DependencyId(0), DependencyId(1), DependencyId(2)));
    assert_eq!(graph.dependency_count(), 3);
}

#[test]
fn registration_keeps_category_and_type() {
    let mut graph = ModuleGraph::new();
    let mut a = dependency("./a");
    graph.add_dependency(&mut a);
    assert_eq!(*a.category(), DependencyCategory::CommonJS);
    assert_eq!(*a.dependency_type(), DependencyType::ModuleHotDecline);
}

#[test]
fn the_id_outlives_later_changes_of_the_graph() {
    let mut graph = ModuleGraph::new();
    let mut a = dependency("./a");
    let id = graph.add_dependency(&mut a);
    let module = graph.add_module("/a.js".to_string());
    let mut b = dependency("./b");
    graph.add_dependency(&mut b);
    assert!(graph.set_resolved_module(id, module));
    assert_eq!(a.id(), Some(id));
    assert_eq!(graph.add_dependency(&mut a), id);
    let found = graph.module_graph_module_by_dependency_id(&id).unwrap();
    assert_eq!(found.handle, module);
    assert_eq!(found.module_identifier, "/a.js");
}

#[test]
fn modules_take_slots_in_order() {
    let mut graph = ModuleGraph::new();
    assert_eq!(graph.module_count(), 0);
    assert_eq!(graph.add_module("/a.js".to_string()), 0);
    assert_eq!(graph.add_module("/b.js".to_string()), 1);
    assert_eq!(graph.module_count(), 2);
}

#[test]
fn resolution_needs_a_known_dependency_and_a_known_module() {
    let mut graph = ModuleGraph::new();
    let module = graph.add_module("/a.js".to_string());
    let mut a = dependency("./a");
    let id = graph.add_dependency(&mut a);
    assert!(!graph.set_resolved_module(DependencyId(5), module));
    assert!(!graph.set_resolved_module(id, 7));
    assert!(graph.module_graph_module_by_dependency_id(&id).is_none());
    assert!(graph.set_resolved_module(id, module));
    assert!(graph.module_graph_module_by_dependency_id(&id).is_some());
    assert!(graph.module_graph_module_by_dependency_id(&DependencyId(5)).is_none());
}

#[test]
fn a_later_resolution_replaces_an_earlier_one() {
    let mut graph = ModuleGraph::new();
    let first = graph.add_module("/a.js".to_string());
    let second = graph.add_module("/b.js".to_string());
    let mut a = dependency("./a");
    let id = graph.add_dependency(&mut a);
    assert!(graph.set_resolved_module(id, first));
    assert!(graph.set_resolved_module(id, second));
    let found = graph.module_graph_module_by_dependency_id(&id).unwrap();
    assert_eq!(found.module_identifier, "/b.js");
}

#[test]
fn chunk_graph_keeps_the_last_identifier_given() {
    let mut chunk_graph = ChunkGraph::new();
    assert_eq!(chunk_graph.get_module_id(0), None);
    chunk_graph.set_module_id(3, "three".to_string());
    assert_eq!(chunk_graph.get_module_id(3), Some(&"three".to_string()));
    assert_eq!(chunk_graph.get_module_id(0), None);
    assert_eq!(chunk_graph.get_module_id(2), None);
    assert_eq!(chunk_graph.get_module_id(4), None);
    chunk_graph.set_module_id(0, "zero".to_string());
    chunk_graph.set_module_id(3, "drei".to_string());
    assert_eq!(chunk_graph.get_module_id(0), Some(&"zero".to_string()));
    assert_eq!(chunk_graph.get_module_id(3), Some(&"drei".to_string()));
}

#[test]
fn module_id_comes_from_the_chunk_graph() {
    let mut graph = ModuleGraph::new();
    let mut chunk_graph = ChunkGraph::new();
    graph.add_module("/a.js".to_string());
    let module = graph.add_module("/b.js".to_string());
    chunk_graph.set_module_id(module, "./b.js".to_string());
    let mut a = dependency("./b");
    let id = graph.add_dependency(&mut a);
    graph.set_resolved_module(id, module);
    let found = graph.module_graph_module_by_dependency_id(&id).unwrap();
    assert_eq!(found.id(&chunk_graph), "./b.js");
}

#[test]
fn a_compilation_is_sealed_when_every_module_has_its_identifier() {
    let mut graph = ModuleGraph::new();
    let mut chunk_graph = ChunkGraph::new();
    let a = graph.add_module("/a.js".to_string());
    let b = graph.add_module("/b.js".to_string());
    chunk_graph.set_module_id(a, "a".to_string());
    let open = Compilation::new(graph, chunk_graph);
    assert!(!open.is_sealed());

    let mut graph = ModuleGraph::new();
    let mut chunk_graph = ChunkGraph::new();
    graph.add_module("/a.js".to_string());
    graph.add_module("/b.js".to_string());
    chunk_graph.set_module_id(a, "a".to_string());
    chunk_graph.set_module_id(b, "b".to_string());
    assert!(Compilation::new(graph, chunk_graph).is_sealed());
    assert!(Compilation::new(ModuleGraph::new(), ChunkGraph::new()).is_sealed());
}

#[test]
fn a_path_is_copied_step_by_step() {
    let path = vec![
        AstParentKind { parent: 3, index: 1 },
        AstParentKind { parent: 4, index: 0 },
    ];
    assert_eq!(clone_ast_path(&path), path);
    assert_eq!(clone_ast_path(&Vec::new()), Vec::new());
}

#[test]
fn an_id_once_set_is_kept() {
    let mut a = dependency("./a");
    a.set_id(None);
    assert_eq!(a.id(), None);
    a.set_id(Some(DependencyId(3)));
    assert_eq!(a.id(), Some(DependencyId(3)));
    a.set_id(None);
    assert_eq!(a.id(), Some(DependencyId(3)));
    a.set_id(Some(DependencyId(8)));
    assert_eq!(a.id(), Some(DependencyId(3)));
    a.set_id(Some(DependencyId(3)));
    assert_eq!(a.id(), Some(DependencyId(3)));
}

#[test]
fn a_registered_id_cannot_be_unset_or_replaced() {
    let mut graph = ModuleGraph::new();
    let mut a = dependency("./a");
    let mut b = dependency("./b");
    graph.add_dependency(&mut a);
    let id = graph.add_dependency(&mut b);
    assert_eq!(id, DependencyId(1));
    b.set_id(None);
    b.set_id(Some(DependencyId(0)));
    assert_eq!(b.id(), Some(DependencyId(1)));
    assert_eq!(graph.add_dependency(&mut b), DependencyId(1));
    assert_eq!(graph.dependency_count(), 2);
}

#[test]
fn the_graph_knows_the_ids_it_handed_out() {
    let mut graph = ModuleGraph::new();
    assert!(!graph.has_issued(&DependencyId(0)));
    let mut a = dependency("./a");
    let id = graph.add_dependency(&mut a);
    assert!(graph.has_issued(&id));
    assert!(!graph.has_issued(&DependencyId(1)));
}

#[test]
fn a_dependency_with_an_id_of_another_graph_takes_no_slot() {
    let mut other = ModuleGraph::new();
    let mut first = dependency("./first");
    let mut second = dependency("./second");
    other.add_dependency(&mut first);
    let foreign = other.add_dependency(&mut second);
    assert_eq!(foreign, DependencyId(1));

    let mut graph = ModuleGraph::new();
    let module = graph.add_module("/m.js".to_string());
    assert_eq!(graph.add_dependency(&mut second), foreign);
    assert_eq!(second.id(), Some(foreign));
    assert_eq!(graph.dependency_count(), 0);
    assert!(!graph.has_issued(&foreign));
    assert!(!graph.set_resolved_module(foreign, module));
    assert!(graph.module_graph_module_by_dependency_id(&foreign).is_none());
}
