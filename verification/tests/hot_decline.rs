use transform_core::codegen::{
    CodeGeneratable, CodeGeneratableContext, CodeGeneratableResult, Rewrite,
};
use transform_core::dependency::{
    AstParentKind, Dependency, DependencyCategory, DependencyId, DependencyType, ErrorSpan,
    ModuleDependency,
};
use transform_core::module_graph::{ChunkGraph, Compilation, ModuleGraph};
use transform_core::module_hot_decline::ModuleHotDeclineDependency;

fn sample_path() -> Vec<AstParentKind> {
    vec![
        AstParentKind { parent: 1, index: 0 },
        AstParentKind { parent: 7, index: 2 },
        AstParentKind { parent: 9, index: 0 },
    ]
}

fn generate_for(dependency: &ModuleHotDeclineDependency, compilation: &Compilation) -> CodeGeneratableResult {
    assert!(compilation.is_sealed());
    let mut context = CodeGeneratableContext { compilation };
    match dependency.generate(&mut context) {
        Ok(result) => result,
        Err(error) => panic!("generate failed: {:?}", error),
    }
}

#[test]
fn new_dependency_has_no_id_and_fixed_tags() {
    let span = ErrorSpan { start: 10, end: 25 };
    let dependency = ModuleHotDeclineDependency::new("./a".to_string(), Some(span), sample_path());
    assert_eq!(dependency.id(), None);
    assert_eq!(*dependency.category(), DependencyCategory::CommonJS);
    assert_eq!(*dependency.dependency_type(), DependencyType::ModuleHotDecline);
    assert_eq!(dependency.request(), "./a");
    assert_eq!(dependency.user_request(), "./a");
    assert_eq!(dependency.span(), Some(&span));
    assert_eq!(dependency.ast_path(), &sample_path());
}

#[test]
fn new_dependency_without_span() {
    let dependency = ModuleHotDeclineDependency::new("./a".to_string(), None, Vec::new());
    assert_eq!(dependency.span(), None);
    assert!(dependency.ast_path().is_empty());
}

#[test]
fn resolved_dependency_yields_one_edit_with_quoted_id() {
    let mut module_graph = ModuleGraph::new();
    let mut chunk_graph = ChunkGraph::new();
    let module = module_graph.add_module("/src/a.js".to_string());
    chunk_graph.set_module_id(module, "moduleA".to_string());
    let mut dependency = ModuleHotDeclineDependency::new("./a".to_string(), None, sample_path());
    let id = module_graph.add_dependency(&mut dependency);
    assert!(module_graph.set_resolved_module(id, module));
    let compilation = Compilation::new(module_graph, chunk_graph);

    let result = generate_for(&dependency, &compilation);
    assert_eq!(result.visitors.len(), 1);
    assert!(result.runtime_helpers.is_empty());
    assert_eq!(result.visitors[0].path, sample_path());
    match &result.visitors[0].rewrite {
        Rewrite::SetStr { value, raw } => {
            assert_eq!(value, "moduleA");
            assert_eq!(raw.as_deref(), Some("\"moduleA\""));
        }
    }
}

#[test]
fn unresolved_dependency_yields_no_edit_and_succeeds() {
    let mut module_graph = ModuleGraph::new();
    let mut chunk_graph = ChunkGraph::new();
    let module = module_graph.add_module("/src/a.js".to_string());
    chunk_graph.set_module_id(module, "moduleA".to_string());
    let mut dependency = ModuleHotDeclineDependency::new("./gone".to_string(), None, sample_path());
    module_graph.add_dependency(&mut dependency);
    let compilation = Compilation::new(module_graph, chunk_graph);

    let mut context = CodeGeneratableContext { compilation: &compilation };
    let result = dependency.generate(&mut context);
    assert!(result.is_ok());
    let result = generate_for(&dependency, &compilation);
    assert!(result.visitors.is_empty());
    assert!(result.runtime_helpers.is_empty());
}

#[test]
fn unregistered_dependency_yields_no_edit() {
    let compilation = Compilation::new(ModuleGraph::new(), ChunkGraph::new());
    let dependency = ModuleHotDeclineDependency::new("./a".to_string(), None, sample_path());
    let result = generate_for(&dependency, &compilation);
    assert!(result.visitors.is_empty());
}

#[test]
fn id_of_another_graph_resolves_to_nothing() {
    let compilation = Compilation::new(ModuleGraph::new(), ChunkGraph::new());
    let mut dependency = ModuleHotDeclineDependency::new("./a".to_string(), None, sample_path());
    dependency.set_id(Some(DependencyId(41)));
    let result = generate_for(&dependency, &compilation);
    assert!(result.visitors.is_empty());
}
