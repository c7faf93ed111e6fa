//! The reference made by `module.hot.decline("./x")`: a module named in a hot
//! update refusal. It may stay unresolved without harm.

use vstd::prelude::*;
use vstd::string::StringExecFns;
use crate::codegen::{
    quote_module_id, quoted, AstVisitor, AstVisitorView, CodeGeneratable,
    CodeGeneratableContext, CodeGeneratableResult, CodeGeneratableResultView,
    Rewrite, RewriteView,
};
use crate::dependency::{
    clone_ast_path, id_after_set, AstParentKind, Dependency, DependencyCategory, DependencyId, DependencyType,
    ErrorSpan, JsAstPath, ModuleDependency,
};
use crate::module_graph::CompilationView;

verus! {

#[derive(Debug, Clone)]
pub struct ModuleHotDeclineDependency {
    id: Option<DependencyId>,
    request: String,
    category: DependencyCategory,
    dependency_type: DependencyType,
    span: Option<ErrorSpan>,
    ast_path: JsAstPath,
}

/// Mathematical content of a [`ModuleHotDeclineDependency`].
pub struct ModuleHotDeclineDependencyView {
    pub id: Option<DependencyId>,
    pub request: Seq<char>,
    pub category: DependencyCategory,
    pub dependency_type: DependencyType,
    pub span: Option<ErrorSpan>,
    pub ast_path: Seq<AstParentKind>,
}

impl View for ModuleHotDeclineDependency {
    type V = ModuleHotDeclineDependencyView;

    closed spec fn view(&self) -> ModuleHotDeclineDependencyView {
        ModuleHotDeclineDependencyView {
            id: self.id,
            request: self.request@,
            category: self.category,
            dependency_type: self.dependency_type,
            span: self.span,
            ast_path: self.ast_path@,
        }
    }
}

impl ModuleHotDeclineDependencyView {
    /// The edits this dependency asks for under a given compilation: where its
    /// id resolves to a module, one edit at its own path that sets the string
    /// literal to the module's final identifier and its literal text to that
    /// identifier in double quotes; otherwise none.
    pub open spec fn visitors(self, compilation: CompilationView) -> Seq<AstVisitorView> {
        match self.id {
            Some(id) => match compilation.resolved_module_id(id) {
                Some(module_id) => seq![
                    AstVisitorView {
                        path: self.ast_path,
                        rewrite: RewriteView::SetStr {
                            value: module_id,
                            raw: Some(quoted(module_id)),
                        },
                    },
                ],
                None => Seq::empty(),
            },
            None => Seq::empty(),
        }
    }
}

impl ModuleHotDeclineDependency {
    pub fn new(request: String, span: Option<ErrorSpan>, ast_path: JsAstPath) -> (dependency: Self)
        ensures
            dependency@ == (ModuleHotDeclineDependencyView {
                id: None,
                request: request@,
                category: DependencyCategory::CommonJS,
                dependency_type: DependencyType::ModuleHotDecline,
                span,
                ast_path: ast_path@,
            }),
    {
        Self {
            id: None,
            request,
            category: DependencyCategory::CommonJS,
            dependency_type: DependencyType::ModuleHotDecline,
            span,
            ast_path,
        }
    }

    /// The address of the string literal that names the declined module.
    pub fn ast_path(&self) -> (path: &JsAstPath)
        ensures
            path@ == self@.ast_path,
    {
        &self.ast_path
    }
}

impl Dependency for ModuleHotDeclineDependency {
    open spec fn spec_id(&self) -> Option<DependencyId> {
        self@.id
    }

    open spec fn spec_category(&self) -> DependencyCategory {
        self@.category
    }

    open spec fn spec_dependency_type(&self) -> DependencyType {
        self@.dependency_type
    }

    open spec fn same_but_id(&self, other: &Self) -> bool {
        other@ == (ModuleHotDeclineDependencyView { id: other@.id, ..self@ })
    }

    fn id(&self) -> (id: Option<DependencyId>) {
        self.id
    }

    fn set_id(&mut self, id: Option<DependencyId>)
        ensures
            final(self)@ == (ModuleHotDeclineDependencyView {
                id: id_after_set(old(self)@.id, id),
                ..old(self)@
            }),
    {
        if self.id.is_none() {
            self.id = id;
        }
    }

    fn category(&self) -> (category: &DependencyCategory) {
        &self.category
    }

    fn dependency_type(&self) -> (dependency_type: &DependencyType) {
        &self.dependency_type
    }
}

impl ModuleDependency for ModuleHotDeclineDependency {
    open spec fn spec_request(&self) -> Seq<char> {
        self@.request
    }

    open spec fn spec_user_request(&self) -> Seq<char> {
        self@.request
    }

    open spec fn spec_span(&self) -> Option<ErrorSpan> {
        self@.span
    }

    fn request(&self) -> (request: &str) {
        self.request.as_str()
    }

    fn user_request(&self) -> (request: &str) {
        self.request.as_str()
    }

    fn span(&self) -> (span: Option<&ErrorSpan>) {
        self.span.as_ref()
    }
}

impl CodeGeneratable for ModuleHotDeclineDependency {
    fn generate(&self, code_generatable_context: &mut CodeGeneratableContext<'_>) -> (result:
        Result<CodeGeneratableResult, rspack_error::Error>)
        ensures
            result matches Ok(code_gen) && code_gen@ == (CodeGeneratableResultView {
                visitors: self@.visitors(old(code_generatable_context).compilation@),
                runtime_helpers: Seq::empty(),
            }),
    {
        let compilation = code_generatable_context.compilation;
        let mut code_gen = CodeGeneratableResult::default();
        if let Some(id) = self.id() {
            if let Some(module) = compilation.module_graph.module_graph_module_by_dependency_id(
                &id,
            ) {
                let module_id = String::from_str(module.id(&compilation.chunk_graph));
                let raw = quote_module_id(module_id.as_str());
                code_gen.push_visitor(
                    AstVisitor {
                        path: clone_ast_path(&self.ast_path),
                        rewrite: Rewrite::SetStr { value: module_id, raw: Some(raw) },
                    },
                );
                assert(code_gen@.visitors =~= self@.visitors(compilation@));
            }
        }
        Ok(code_gen)
    }
}

} // verus!
