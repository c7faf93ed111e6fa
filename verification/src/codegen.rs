//! Code generation: what a dependency hands back once the graphs are
//! complete. The result is a list of edits, each bound to one address in the
//! module's parse tree.

use vstd::prelude::*;
use vstd::string::StringExecFns;
use crate::dependency::{AstParentKind, JsAstPath};
use crate::module_graph::Compilation;
use crate::text::{option_string_view, string_views};

verus! {

/// What an edit does to the node it is bound to.
#[derive(Debug, Clone, PartialEq, Eq)]
pub enum Rewrite {
    /// Replace value and literal text of a string literal.
    SetStr { value: String, raw: Option<String> },
}

/// Mathematical content of a [`Rewrite`].
pub enum RewriteView {
    SetStr { value: Seq<char>, raw: Option<Seq<char>> },
}

impl View for Rewrite {
    type V = RewriteView;

    open spec fn view(&self) -> RewriteView {
        match self {
            Rewrite::SetStr { value, raw } => RewriteView::SetStr {
                value: value@,
                raw: option_string_view(*raw),
            },
        }
    }
}

/// An edit bound to an address: it applies to the node at exactly that path
/// and to no other.
#[derive(Debug, Clone, PartialEq, Eq)]
pub struct AstVisitor {
    pub path: JsAstPath,
    pub rewrite: Rewrite,
}

/// Mathematical content of an [`AstVisitor`].
pub struct AstVisitorView {
    pub path: Seq<AstParentKind>,
    pub rewrite: RewriteView,
}

impl View for AstVisitor {
    type V = AstVisitorView;

    open spec fn view(&self) -> AstVisitorView {
        AstVisitorView { path: self.path@, rewrite: self.rewrite@ }
    }
}

pub open spec fn visitor_views(visitors: Seq<AstVisitor>) -> Seq<AstVisitorView> {
    Seq::new(visitors.len(), |i: int| visitors[i]@)
}

/// Outcome of generating code for one dependency.
#[derive(Debug, Clone, PartialEq, Eq)]
pub struct CodeGeneratableResult {
    /// The edits, in the order they were produced.
    pub visitors: Vec<AstVisitor>,
    /// Names of runtime helpers the generated code relies on.
    pub runtime_helpers: Vec<String>,
}

/// Mathematical content of a [`CodeGeneratableResult`].
pub struct CodeGeneratableResultView {
    pub visitors: Seq<AstVisitorView>,
    pub runtime_helpers: Seq<Seq<char>>,
}

impl View for CodeGeneratableResult {
    type V = CodeGeneratableResultView;

    open spec fn view(&self) -> CodeGeneratableResultView {
        CodeGeneratableResultView {
            visitors: visitor_views(self.visitors@),
            runtime_helpers: string_views(self.runtime_helpers@),
        }
    }
}

impl Default for CodeGeneratableResult {
    fn default() -> (result: CodeGeneratableResult)
        ensures
            result@.visitors == Seq::<AstVisitorView>::empty(),
            result@.runtime_helpers == Seq::<Seq<char>>::empty(),
    {
        let result = CodeGeneratableResult { visitors: Vec::new(), runtime_helpers: Vec::new() };
        assert(result@.visitors =~= Seq::<AstVisitorView>::empty());
        assert(result@.runtime_helpers =~= Seq::<Seq<char>>::empty());
        result
    }
}

impl CodeGeneratableResult {
    /// Appends one edit.
    pub fn push_visitor(&mut self, visitor: AstVisitor)
        ensures
            final(self)@.visitors == old(self)@.visitors.push(visitor@),
            final(self)@.runtime_helpers == old(self)@.runtime_helpers,
    {
        self.visitors.push(visitor);
        assert(visitor_views(self.visitors@) =~= visitor_views(old(self).visitors@).push(
            visitor@,
        ));
    }
}

/// A path that no longer leads to a node of the expected form. This is never
/// the user's fault: the tree changed shape after the path was recorded.
#[derive(Clone, Copy, Debug, PartialEq, Eq, Structural)]
pub struct StaleAstPathError {
    /// Position of the offending edit in the list that was applied.
    pub visitor: usize,
}

/// The error type of `rspack_error`, in which a dependency reports that it
/// cannot generate code. Nothing is known of a value of it here; it is only
/// handed on.
#[verifier::external_type_specification]
#[verifier::external_body]
pub struct ExError(rspack_error::Error);

/// What a dependency may read while generating code: both graphs, complete
/// and no longer changing.
pub struct CodeGeneratableContext<'a> {
    pub compilation: &'a Compilation,
}

/// A dependency that can turn its resolution into edits.
pub trait CodeGeneratable {
    /// Produces the edits for this dependency. The graphs must be complete,
    /// and the context is only read.
    fn generate(&self, code_generatable_context: &mut CodeGeneratableContext<'_>) -> (result:
        Result<CodeGeneratableResult, rspack_error::Error>)
        requires
            old(code_generatable_context).compilation@.sealed(),
        ensures
            *final(code_generatable_context) == *old(code_generatable_context),
    ;
}

/// A text between double quotes, nothing escaped.
pub open spec fn quoted(text: Seq<char>) -> Seq<char> {
    seq!['"'] + text + seq!['"']
}

/// Wraps a module identifier in double quotes, as it appears in generated
/// source.
pub fn quote_module_id(module_id: &str) -> (literal: String)
    ensures
        literal@ == quoted(module_id@),
{
    proof {
        reveal_strlit("\"");
    }
    let mut literal = String::from_str("\"");
    literal.append(module_id);
    literal.append("\"");
    assert(literal@ =~= quoted(module_id@));
    literal
}

} // verus!
