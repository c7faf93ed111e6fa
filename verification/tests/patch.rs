use transform_core::ast::{Node, Span, Str};
use transform_core::codegen::{
    quote_module_id, AstVisitor, CodeGeneratable, CodeGeneratableContext, Rewrite,
    StaleAstPathError,
};
use transform_core::dependency::AstParentKind;
use transform_core::module_graph::{ChunkGraph, Compilation, ModuleGraph};
use transform_core::module_hot_decline::ModuleHotDeclineDependency;
use transform_core::patch::apply_visitors;

const MODULE: u32 = 1;
const CALL: u32 = 2;
const ARGS: u32 = 3;

fn span(lo: u32, hi: u32) -> Span {
    Span { lo, hi }
}

fn literal(lo: u32, hi: u32, value: &str) -> Node {
    Node::Str(Str { span: span(lo, hi), value: value.to_string(), raw: Some(format!("'{}'", value)) })
}

fn token(lo: u32, hi: u32, text: &str) -> Node {
    Node::Token { span: span(lo, hi), text: text.to_string() }
}

fn call(lo: u32, hi: u32, callee: &str, argument: Node) -> Node {
    Node::Branch {
        kind: CALL,
        span: span(lo, hi),
        children: vec![
            token(lo, lo + 18, callee),
            Node::Branch { kind: ARGS, span: span(lo + 18, hi), children: vec![argument] },
        ],
    }
}

// module.hot.decline('./a'); /* keep */ module.hot.decline('./b');
fn tree_with(first: Node, second: Node) -> Node {
    Node::Branch {
        kind: MODULE,
        span: span(0, 70),
        children: vec![
            call(0, 25, "module.hot.decline", first),
            token(26, 36, "/* keep */"),
            call(37, 62, "module.hot.decline", second),
        ],
    }
}

fn tree() -> Node {
    tree_with(literal(19, 24, "./a"), literal(56, 61, "./b"))
}

fn path_to_argument(statement: usize) -> Vec<AstParentKind> {
    vec![
        AstParentKind { parent: MODULE, index: statement },
        AstParentKind { parent: CALL, index: 1 },
        AstParentKind { parent: ARGS, index: 0 },
    ]
}

fn set(statement: usize, id: &str) -> AstVisitor {
    AstVisitor {
        path: path_to_argument(statement),
        rewrite: Rewrite::SetStr { value: id.to_string(), raw: Some(quote_module_id(id)) },
    }
}

fn rewritten(lo: u32, hi: u32, id: &str) -> Node {
    Node::Str(Str { span: span(lo, hi), value: id.to_string(), raw: Some(format!("\"{}\"", id)) })
}

#[test]
fn quoting_wraps_in_double_quotes_and_escapes_nothing() {
    assert_eq!(quote_module_id("moduleA"), "\"moduleA\"");
    assert_eq!(quote_module_id(""), "\"\"");
    assert_eq!(quote_module_id("a\"b\\c"), "\"a\"b\\c\"");
}

#[test]
fn node_at_walks_the_path() {
    let root = tree();
    assert_eq!(root.node_at(&Vec::new()), Some(&tree()));
    assert_eq!(root.node_at(&path_to_argument(0)), Some(&literal(19, 24, "./a")));
    assert_eq!(root.node_at(&path_to_argument(2)), Some(&literal(56, 61, "./b")));
    assert_eq!(
        root.node_at(&vec![AstParentKind { parent: MODULE, index: 1 }]),
        Some(&token(26, 36, "/* keep */"))
    );
    assert_eq!(root.node_at(&vec![AstParentKind { parent: MODULE, index: 3 }]), None);
    assert_eq!(root.node_at(&vec![AstParentKind { parent: CALL, index: 0 }]), None);
    assert_eq!(root.node_at(&path_to_argument(1)), None);
}

#[test]
fn addresses_str_only_where_a_literal_stands() {
    let root = tree();
    assert!(root.addresses_str(&path_to_argument(0)));
    assert!(root.addresses_str(&path_to_argument(2)));
    assert!(!root.addresses_str(&path_to_argument(1)));
    assert!(!root.addresses_str(&Vec::new()));
    assert!(!root.addresses_str(&vec![AstParentKind { parent: MODULE, index: 1 }]));
    let mut deeper = path_to_argument(0);
    deeper.push(AstParentKind { parent: ARGS, index: 0 });
    assert!(!root.addresses_str(&deeper));
}

#[test]
fn one_edit_changes_one_literal() {
    let mut root = tree();
    assert_eq!(apply_visitors(&mut root, &vec![set(0, "moduleA")]), Ok(()));
    assert_eq!(root, tree_with(rewritten(19, 24, "moduleA"), literal(56, 61, "./b")));
}

#[test]
fn two_edits_at_different_literals_change_exactly_those() {
    let mut root = tree();
    assert_eq!(apply_visitors(&mut root, &vec![set(0, "moduleA"), set(2, "moduleB")]), Ok(()));
    assert_eq!(root, tree_with(rewritten(19, 24, "moduleA"), rewritten(56, 61, "moduleB")));
}

#[test]
fn the_order_of_edits_at_different_literals_does_not_matter() {
    let mut one = tree();
    let mut other = tree();
    assert_eq!(apply_visitors(&mut one, &vec![set(0, "moduleA"), set(2, "moduleB")]), Ok(()));
    assert_eq!(apply_visitors(&mut other, &vec![set(2, "moduleB"), set(0, "moduleA")]), Ok(()));
    assert_eq!(one, other);
}

#[test]
fn of_two_edits_at_one_literal_the_later_one_stays() {
    let mut root = tree();
    assert_eq!(apply_visitors(&mut root, &vec![set(0, "first"), set(0, "second")]), Ok(()));
    assert_eq!(root, tree_with(rewritten(19, 24, "second"), literal(56, 61, "./b")));
}

#[test]
fn no_edit_leaves_the_tree() {
    let mut root = tree();
    assert_eq!(apply_visitors(&mut root, &Vec::new()), Ok(()));
    assert_eq!(root, tree());
}

#[test]
fn a_stale_path_is_reported_and_nothing_is_changed() {
    let mut root = tree();
    let outcome = apply_visitors(&mut root, &vec![set(0, "moduleA"), set(1, "x"), set(5, "y")]);
    assert_eq!(outcome, Err(StaleAstPathError { visitor: 1 }));
    assert_eq!(root, tree());
}

#[test]
fn a_path_of_the_wrong_kind_is_stale() {
    let mut root = tree();
    let visitor = AstVisitor {
        path: vec![
            AstParentKind { parent: MODULE, index: 0 },
            AstParentKind { parent: ARGS, index: 1 },
            AstParentKind { parent: ARGS, index: 0 },
        ],
        rewrite: Rewrite::SetStr { value: "x".to_string(), raw: None },
    };
    assert_eq!(apply_visitors(&mut root, &vec![visitor]), Err(StaleAstPathError { visitor: 0 }));
    assert_eq!(root, tree());
}

#[test]
fn rewrite_on_a_node_changes_literals_only() {
    let mut node = literal(1, 4, "a");
    node.rewrite(&Rewrite::SetStr { value: "b".to_string(), raw: None });
    assert_eq!(node, Node::Str(Str { span: span(1, 4), value: "b".to_string(), raw: None }));

    let mut other = token(1, 4, "a");
    other.rewrite(&Rewrite::SetStr { value: "b".to_string(), raw: None });
    assert_eq!(other, token(1, 4, "a"));
}

#[test]
fn rewrite_at_from_a_depth_walks_the_rest_of_the_path() {
    let mut root = tree();
    let rewrite = Rewrite::SetStr { value: "z".to_string(), raw: Some("\"z\"".to_string()) };
    match &mut root {
        Node::Branch { children, .. } => {
            children[2].rewrite_at(&path_to_argument(2), 1, &rewrite);
        }
        _ => panic!("branch expected"),
    }
    assert_eq!(root, tree_with(literal(19, 24, "./a"), rewritten(56, 61, "z")));

    let mut untouched = tree();
    untouched.rewrite_at(&path_to_argument(1), 0, &rewrite);
    assert_eq!(untouched, tree());
}

#[test]
fn generated_edits_patch_the_declined_module_names() {
    let mut module_graph = ModuleGraph::new();
    let mut chunk_graph = ChunkGraph::new();
    let a = module_graph.add_module("/src/a.js".to_string());
    let b = module_graph.add_module("/src/b.js".to_string());
    chunk_graph.set_module_id(a, "moduleA".to_string());
    chunk_graph.set_module_id(b, "./src/b.js".to_string());
    let mut first = ModuleHotDeclineDependency::new("./a".to_string(), None, path_to_argument(0));
    let mut second = ModuleHotDeclineDependency::new("./b".to_string(), None, path_to_argument(2));
    let first_id = module_graph.add_dependency(&mut first);
    let second_id = module_graph.add_dependency(&mut second);
    assert!(module_graph.set_resolved_module(first_id, a));
    assert!(module_graph.set_resolved_module(second_id, b));
    let compilation = Compilation::new(module_graph, chunk_graph);
    assert!(compilation.is_sealed());

    let mut visitors = Vec::new();
    for dependency in [&first, &second] {
        let mut context = CodeGeneratableContext { compilation: &compilation };
        let mut generated = dependency.generate(&mut context).unwrap();
        visitors.append(&mut generated.visitors);
    }
    assert_eq!(visitors.len(), 2);

    let mut root = tree();
    assert_eq!(apply_visitors(&mut root, &visitors), Ok(()));
    assert_eq!(root, tree_with(rewritten(19, 24, "moduleA"), rewritten(56, 61, "./src/b.js")));
}

#[test]
fn an_unresolved_reference_keeps_its_source_text() {
    let mut module_graph = ModuleGraph::new();
    let mut first = ModuleHotDeclineDependency::new("./a".to_string(), None, path_to_argument(0));
    module_graph.add_dependency(&mut first);
    let compilation = Compilation::new(module_graph, ChunkGraph::new());
    let mut context = CodeGeneratableContext { compilation: &compilation };
    let generated = first.generate(&mut context).unwrap();
    let mut root = tree();
    assert_eq!(apply_visitors(&mut root, &generated.visitors), Ok(()));
    assert_eq!(root, tree());
}

#[test]
fn an_edit_with_an_empty_path_is_bound_to_the_root() {
    let mut root = literal(0, 5, "./a");
    let visitor = AstVisitor {
        path: Vec::new(),
        rewrite: Rewrite::SetStr { value: "m".to_string(), raw: Some("\"m\"".to_string()) },
    };
    assert_eq!(apply_visitors(&mut root, &vec![visitor]), Ok(()));
    assert_eq!(root, rewritten(0, 5, "m"));
}

#[test]
fn an_edit_with_an_empty_path_on_an_inner_root_is_stale() {
    let mut root = tree();
    let visitor = AstVisitor {
        path: Vec::new(),
        rewrite: Rewrite::SetStr { value: "m".to_string(), raw: None },
    };
    assert_eq!(apply_visitors(&mut root, &vec![visitor]), Err(StaleAstPathError { visitor: 0 }));
    assert_eq!(root, tree());
}

// A deeper tree: literals at several depths below the same children.
fn nested() -> Node {
    Node::Branch {
        kind: MODULE,
        span: span(0, 100),
        children: vec![
            Node::Branch {
                kind: CALL,
                span: span(0, 50),
                children: vec![
                    literal(1, 4, "p"),
                    Node::Branch {
                        kind: ARGS,
                        span: span(5, 50),
                        children: vec![literal(6, 9, "q"), token(10, 11, ","), literal(12, 15, "r")],
                    },
                ],
            },
            literal(51, 54, "s"),
            token(55, 56, ";"),
        ],
    }
}

fn step(parent: u32, index: usize) -> AstParentKind {
    AstParentKind { parent, index }
}

fn edit(path: Vec<AstParentKind>, id: &str) -> AstVisitor {
    AstVisitor {
        path,
        rewrite: Rewrite::SetStr { value: id.to_string(), raw: Some(quote_module_id(id)) },
    }
}

#[test]
fn one_traversal_gives_what_edit_after_edit_gives() {
    let visitors = vec![
        edit(vec![step(MODULE, 0), step(CALL, 1), step(ARGS, 2)], "r1"),
        edit(vec![step(MODULE, 1)], "s1"),
        edit(vec![step(MODULE, 0), step(CALL, 0)], "p1"),
        edit(vec![step(MODULE, 0), step(CALL, 1), step(ARGS, 0)], "q1"),
        edit(vec![step(MODULE, 0), step(CALL, 1), step(ARGS, 2)], "r2"),
        edit(vec![step(MODULE, 1)], "s2"),
        edit(vec![step(MODULE, 0), step(CALL, 1), step(ARGS, 0)], "q2"),
    ];
    let mut at_once = nested();
    assert_eq!(apply_visitors(&mut at_once, &visitors), Ok(()));

    let mut in_turn = nested();
    for visitor in &visitors {
        in_turn.rewrite_at(&visitor.path, 0, &visitor.rewrite);
    }
    assert_eq!(at_once, in_turn);

    let expected = Node::Branch {
        kind: MODULE,
        span: span(0, 100),
        children: vec![
            Node::Branch {
                kind: CALL,
                span: span(0, 50),
                children: vec![
                    rewritten(1, 4, "p1"),
                    Node::Branch {
                        kind: ARGS,
                        span: span(5, 50),
                        children: vec![
                            rewritten(6, 9, "q2"),
                            token(10, 11, ","),
                            rewritten(12, 15, "r2"),
                        ],
                    },
                ],
            },
            rewritten(51, 54, "s2"),
            token(55, 56, ";"),
        ],
    };
    assert_eq!(at_once, expected);
}

#[test]
fn a_stale_edit_among_nested_ones_is_the_one_reported() {
    let visitors = vec![
        edit(vec![step(MODULE, 0), step(CALL, 1), step(ARGS, 2)], "r1"),
        edit(vec![step(MODULE, 0), step(CALL, 1), step(ARGS, 1)], "comma"),
        edit(vec![step(MODULE, 0), step(CALL, 1)], "args"),
    ];
    let mut root = nested();
    assert_eq!(apply_visitors(&mut root, &visitors), Err(StaleAstPathError { visitor: 1 }));
    assert_eq!(root, nested());
}
