//! What every recorded reference carries: identity, kind tags, a source span
//! and the structural address of the syntax node it came from.

use vstd::prelude::*;

verus! {

/// Identity of a dependency inside one module graph. The graph hands these out
/// in registration order, so the wrapped number is also the dependency's slot
/// in the graph.
#[derive(Clone, Copy, Debug, PartialEq, Eq, Structural, Hash)]
pub struct DependencyId(pub usize);

/// The module system a reference belongs to.
#[derive(Clone, Copy, Debug, PartialEq, Eq, Structural, Hash)]
pub enum DependencyCategory {
    Unknown,
    Esm,
    CommonJS,
    Url,
    CssImport,
}

/// The syntactic form a reference was written in.
#[derive(Clone, Copy, Debug, PartialEq, Eq, Structural, Hash)]
pub enum DependencyType {
    Unknown,
    Entry,
    EsmImport,
    EsmExport,
    DynamicImport,
    CjsRequire,
    ModuleHotAccept,
    ModuleHotDecline,
}

/// Byte range in the module's source, kept for diagnostics only.
#[derive(Clone, Copy, Debug, PartialEq, Eq, Structural, Hash)]
pub struct ErrorSpan {
    pub start: u32,
    pub end: u32,
}

/// One structural step of an address into a parse tree: the kind of the node
/// being left and the position of the child being entered.
#[derive(Clone, Copy, Debug, PartialEq, Eq, Structural, Hash)]
pub struct AstParentKind {
    pub parent: u32,
    pub index: usize,
}

/// Address of a syntax node: the steps from the root of the module's parse
/// tree down to the node. It names a place, it does not point at one, so it
/// stays meaningful only while the tree keeps its shape.
pub type JsAstPath = Vec<AstParentKind>;

/// Copies a path step by step.
pub fn clone_ast_path(path: &JsAstPath) -> (copy: JsAstPath)
    ensures
        copy@ == path@,
{
    let mut copy: Vec<AstParentKind> = Vec::new();
    let mut i: usize = 0;
    while i < path.len()
        invariant
            i <= path.len(),
            copy@ == path@.take(i as int),
        decreases path.len() - i,
    {
        copy.push(path[i]);
        i += 1;
        assert(copy@ =~= path@.take(i as int));
    }
    assert(path@.take(path.len() as int) =~= path@);
    copy
}

/// The id a dependency carries after it was given one: the id it already
/// had, if it had one, and else the id given. An id is set once and then
/// kept.
pub open spec fn id_after_set(current: Option<DependencyId>, given: Option<DependencyId>) -> Option<
    DependencyId,
> {
    if current is Some {
        current
    } else {
        given
    }
}

/// The id a dependency carries after it was given ids one after the other.
pub open spec fn id_after_sets(current: Option<DependencyId>, given: Seq<Option<DependencyId>>) -> Option<
    DependencyId,
>
    decreases given.len(),
{
    if given.len() == 0 {
        current
    } else {
        id_after_set(id_after_sets(current, given.drop_last()), given.last())
    }
}

/// A reference discovered in parsed source. Category and type are fixed at
/// construction; the id is the only part that changes, and it changes once:
/// from unset to set, when the module graph registers the dependency.
pub trait Dependency {
    /// The id this dependency currently carries.
    spec fn spec_id(&self) -> Option<DependencyId>;

    /// The category this dependency was built with.
    spec fn spec_category(&self) -> DependencyCategory;

    /// The type tag this dependency was built with.
    spec fn spec_dependency_type(&self) -> DependencyType;

    /// Whether another dependency is this one but, at most, for its id.
    spec fn same_but_id(&self, other: &Self) -> bool;

    fn id(&self) -> (id: Option<DependencyId>)
        ensures
            id == self.spec_id(),
    ;

    /// Gives the dependency its id. A dependency that has an id keeps it,
    /// whatever is given.
    fn set_id(&mut self, id: Option<DependencyId>)
        ensures
            final(self).spec_id() == id_after_set(old(self).spec_id(), id),
            old(self).same_but_id(final(self)),
            final(self).spec_category() == old(self).spec_category(),
            final(self).spec_dependency_type() == old(self).spec_dependency_type(),
    ;

    fn category(&self) -> (category: &DependencyCategory)
        ensures
            *category == self.spec_category(),
    ;

    fn dependency_type(&self) -> (dependency_type: &DependencyType)
        ensures
            *dependency_type == self.spec_dependency_type(),
    ;
}

/// A dependency that names another module by a request string, which the
/// resolver consumes.
pub trait ModuleDependency: Dependency {
    /// The specifier as written in the source.
    spec fn spec_request(&self) -> Seq<char>;

    /// The specifier in the form shown to users.
    spec fn spec_user_request(&self) -> Seq<char>;

    /// Where in the source the reference was written, if recorded.
    spec fn spec_span(&self) -> Option<ErrorSpan>;

    fn request(&self) -> (request: &str)
        ensures
            request@ == self.spec_request(),
    ;

    fn user_request(&self) -> (request: &str)
        ensures
            request@ == self.spec_user_request(),
    ;

    fn span(&self) -> (span: Option<&ErrorSpan>)
        ensures
            span matches Some(s) ==> self.spec_span() == Some(*s),
            span is None ==> self.spec_span() is None,
    ;
}

} // verus!
