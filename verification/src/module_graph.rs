//! The graphs a dependency is resolved against: which module each registered
//! dependency points at, and under which final identifier each module is
//! emitted.

use vstd::prelude::*;
use crate::dependency::{Dependency, DependencyId};

verus! {

/// A module as the module graph records it.
#[derive(Debug, Clone, PartialEq, Eq)]
pub struct ModuleGraphModule {
    /// Slot of the module in its graph.
    pub handle: usize,
    /// The resolved resource the module was built from.
    pub module_identifier: String,
}

/// Mathematical content of a module record.
pub struct ModuleGraphModuleView {
    pub handle: usize,
    pub module_identifier: Seq<char>,
}

impl View for ModuleGraphModule {
    type V = ModuleGraphModuleView;

    open spec fn view(&self) -> ModuleGraphModuleView {
        ModuleGraphModuleView {
            handle: self.handle,
            module_identifier: self.module_identifier@,
        }
    }
}

/// Mathematical content of a module graph.
pub struct ModuleGraphView {
    /// The modules, by handle.
    pub modules: Seq<ModuleGraphModuleView>,
    /// For each registered dependency, by id, the handle of the module it
    /// resolved to.
    pub targets: Seq<Option<usize>>,
}

impl ModuleGraphView {
    /// The graph with no module and no dependency.
    pub open spec fn empty() -> ModuleGraphView {
        ModuleGraphView { modules: Seq::empty(), targets: Seq::empty() }
    }

    /// Every recorded resolution names a module of the graph. This holds of
    /// the empty graph and is kept by every change a graph can undergo.
    pub open spec fn well_formed(self) -> bool {
        forall|d: int|
            0 <= d < self.targets.len() ==> (#[trigger] self.targets[d] matches Some(m) ==> m
                < self.modules.len())
    }

    /// Whether an id was handed out by this graph.
    pub open spec fn has_issued(self, id: DependencyId) -> bool {
        id.0 < self.targets.len()
    }

    /// The graph after a module was added in the next free slot.
    pub open spec fn with_module(self, module_identifier: Seq<char>) -> ModuleGraphView {
        ModuleGraphView {
            modules: self.modules.push(
                ModuleGraphModuleView { handle: self.modules.len() as usize, module_identifier },
            ),
            targets: self.targets,
        }
    }

    /// The id a dependency carries after registration: the one it came with,
    /// or else the next free one.
    pub open spec fn registered_id(self, current: Option<DependencyId>) -> DependencyId {
        match current {
            Some(known) => known,
            None => DependencyId(self.targets.len() as usize),
        }
    }

    /// The graph after a dependency was registered: one that came without an
    /// id takes a new slot, unresolved; one that came with an id changes
    /// nothing.
    pub open spec fn register(self, current: Option<DependencyId>) -> ModuleGraphView {
        match current {
            Some(_) => self,
            None => ModuleGraphView { modules: self.modules, targets: self.targets.push(None) },
        }
    }

    /// Whether a resolution can be recorded: both the dependency and the
    /// module are known to the graph.
    pub open spec fn can_resolve(self, dependency: DependencyId, module: usize) -> bool {
        dependency.0 < self.targets.len() && module < self.modules.len()
    }

    /// The graph after a resolution was recorded, where it can be.
    pub open spec fn with_target(self, dependency: DependencyId, module: usize) -> ModuleGraphView {
        if self.can_resolve(dependency, module) {
            ModuleGraphView {
                modules: self.modules,
                targets: self.targets.update(dependency.0 as int, Some(module)),
            }
        } else {
            self
        }
    }

    /// The module a dependency id resolves to, if the id is registered and a
    /// module of the graph was recorded for it.
    pub open spec fn resolve(self, id: DependencyId) -> Option<ModuleGraphModuleView> {
        if id.0 < self.targets.len() {
            match self.targets[id.0 as int] {
                Some(m) => if m < self.modules.len() {
                    Some(self.modules[m as int])
                } else {
                    None
                },
                None => None,
            }
        } else {
            None
        }
    }
}

/// Module graph: owns the allocation of dependency ids and the outcome of
/// resolution.
pub struct ModuleGraph {
    modules: Vec<ModuleGraphModule>,
    targets: Vec<Option<usize>>,
}

pub open spec fn module_views(modules: Seq<ModuleGraphModule>) -> Seq<ModuleGraphModuleView> {
    Seq::new(modules.len(), |i: int| modules[i]@)
}

impl View for ModuleGraph {
    type V = ModuleGraphView;

    closed spec fn view(&self) -> ModuleGraphView {
        ModuleGraphView { modules: module_views(self.modules@), targets: self.targets@ }
    }
}

impl ModuleGraph {
    /// An empty graph: no module, no dependency.
    pub fn new() -> (graph: ModuleGraph)
        ensures
            graph@ == ModuleGraphView::empty(),
            graph@.well_formed(),
    {
        let graph = ModuleGraph { modules: Vec::new(), targets: Vec::new() };
        assert(graph@.modules =~= Seq::<ModuleGraphModuleView>::empty());
        graph
    }

    pub fn module_count(&self) -> (n: usize)
        ensures
            n == self@.modules.len(),
    {
        self.modules.len()
    }

    pub fn dependency_count(&self) -> (n: usize)
        ensures
            n == self@.targets.len(),
    {
        self.targets.len()
    }

    /// Adds a module and returns its handle, the next free slot.
    pub fn add_module(&mut self, module_identifier: String) -> (handle: usize)
        ensures
            handle == old(self)@.modules.len(),
            final(self)@ == old(self)@.with_module(module_identifier@),
            old(self)@.well_formed() ==> final(self)@.well_formed(),
    {
        let handle: usize = self.modules.len();
        self.modules.push(ModuleGraphModule { handle, module_identifier });
        assert(module_views(self.modules@) =~= module_views(old(self).modules@).push(
            ModuleGraphModuleView { handle, module_identifier: module_identifier@ },
        ));
        handle
    }

    /// Tells whether an id was handed out by this graph.
    pub fn has_issued(&self, id: &DependencyId) -> (issued: bool)
        ensures
            issued == self@.has_issued(*id),
    {
        id.0 < self.targets.len()
    }

    /// Registers a dependency. One that carries no id yet receives the next
    /// free id, which this graph has handed to no other, and a slot in the
    /// graph, unresolved. One that already carries an id was registered by
    /// whoever gave it that id: it keeps the id, and the graph hands out
    /// nothing and stays as it is. Where that id is not one of this graph's,
    /// it still is not afterwards, and resolves to nothing here.
    pub fn add_dependency<D: Dependency>(&mut self, dependency: &mut D) -> (id: DependencyId)
        ensures
            id == old(self)@.registered_id(old(dependency).spec_id()),
            final(self)@ == old(self)@.register(old(dependency).spec_id()),
            final(dependency).spec_id() == Some(id),
            old(dependency).spec_id() is None ==> !old(self)@.has_issued(id) && final(self)@.has_issued(id),
            old(dependency).spec_id() is Some ==> final(self)@.has_issued(id) == old(self)@.has_issued(id) && final(self)@.resolve(id) == old(self)@.resolve(id),
            old(dependency).same_but_id(final(dependency)),
            final(dependency).spec_category() == old(dependency).spec_category(),
            final(dependency).spec_dependency_type() == old(dependency).spec_dependency_type(),
            old(self)@.well_formed() ==> final(self)@.well_formed(),
    {
        match dependency.id() {
            Some(known) => {
                dependency.set_id(Some(known));
                known
            },
            None => {
                let id = DependencyId(self.targets.len());
                self.targets.push(None);
                dependency.set_id(Some(id));
                id
            },
        }
    }

    /// Records that a registered dependency resolved to a module of this
    /// graph. Returns false, and changes nothing, when either is unknown.
    pub fn set_resolved_module(&mut self, dependency: DependencyId, module: usize) -> (done: bool)
        ensures
            done == old(self)@.can_resolve(dependency, module),
            final(self)@ == old(self)@.with_target(dependency, module),
            old(self)@.well_formed() ==> final(self)@.well_formed(),
    {
        if dependency.0 < self.targets.len() && module < self.modules.len() {
            self.targets.set(dependency.0, Some(module));
            true
        } else {
            false
        }
    }

    /// The module a dependency resolved to; none where the id is not
    /// registered here or nothing was resolved for it.
    pub fn module_graph_module_by_dependency_id(&self, id: &DependencyId) -> (module: Option<
        &ModuleGraphModule,
    >)
        ensures
            module is Some == self@.resolve(*id) is Some,
            module matches Some(m) ==> self@.resolve(*id) == Some(m@),
    {
        if id.0 < self.targets.len() {
            match self.targets[id.0] {
                Some(m) => {
                    if m < self.modules.len() {
                        Some(&self.modules[m])
                    } else {
                        None
                    }
                },
                None => None,
            }
        } else {
            None
        }
    }
}

/// Chunk graph: the final identifier under which each module is emitted.
pub struct ChunkGraph {
    module_ids: Vec<Option<String>>,
}

pub open spec fn assigned_ids(slots: Seq<Option<String>>) -> Map<usize, Seq<char>> {
    Map::new(
        |m: usize| m < slots.len() && slots[m as int] is Some,
        |m: usize| slots[m as int]->Some_0@,
    )
}

impl View for ChunkGraph {
    type V = Map<usize, Seq<char>>;

    /// Module handle to final identifier, for the modules that have one.
    closed spec fn view(&self) -> Map<usize, Seq<char>> {
        assigned_ids(self.module_ids@)
    }
}

impl ChunkGraph {
    /// A chunk graph in which no module has an identifier yet.
    pub fn new() -> (graph: ChunkGraph)
        ensures
            graph@ == Map::<usize, Seq<char>>::empty(),
    {
        let graph = ChunkGraph { module_ids: Vec::new() };
        assert(graph@ =~= Map::<usize, Seq<char>>::empty());
        graph
    }

    /// Gives a module its final identifier, replacing an earlier one.
    pub fn set_module_id(&mut self, module: usize, id: String)
        ensures
            final(self)@ == old(self)@.insert(module, id@),
    {
        while self.module_ids.len() <= module
            invariant
                assigned_ids(self.module_ids@) == assigned_ids(old(self).module_ids@),
            decreases module + 1 - self.module_ids.len(),
        {
            let ghost before = self.module_ids@;
            self.module_ids.push(None);
            assert(assigned_ids(self.module_ids@) =~= assigned_ids(before));
        }
        let ghost before = self.module_ids@;
        self.module_ids.set(module, Some(id));
        assert(assigned_ids(self.module_ids@) =~= assigned_ids(before).insert(module, id@));
    }

    /// The final identifier of a module, if one was assigned.
    pub fn get_module_id(&self, module: usize) -> (id: Option<&String>)
        ensures
            id is Some == self@.contains_key(module),
            id matches Some(s) ==> s@ == self@[module],
    {
        if module < self.module_ids.len() {
            self.module_ids[module].as_ref()
        } else {
            None
        }
    }
}

impl ModuleGraphModule {
    /// The identifier by which this module is addressed in generated output.
    pub fn id<'a>(&self, chunk_graph: &'a ChunkGraph) -> (id: &'a str)
        requires
            chunk_graph@.contains_key(self.handle),
        ensures
            id@ == chunk_graph@[self.handle],
    {
        match chunk_graph.get_module_id(self.handle) {
            Some(id) => id.as_str(),
            None => "",
        }
    }
}

/// Both graphs, as code generation sees them.
pub struct Compilation {
    pub module_graph: ModuleGraph,
    pub chunk_graph: ChunkGraph,
}

/// What code generation reads from a compilation.
pub struct CompilationView {
    pub module_graph: ModuleGraphView,
    pub chunk_graph: Map<usize, Seq<char>>,
}

impl CompilationView {
    /// Every module of the module graph has a final identifier.
    pub open spec fn sealed(self) -> bool {
        forall|m: int|
            0 <= m < self.module_graph.modules.len() ==> self.chunk_graph.contains_key(
                (#[trigger] self.module_graph.modules[m]).handle,
            )
    }

    /// The final identifier of the module a dependency id resolves to.
    pub open spec fn resolved_module_id(self, id: DependencyId) -> Option<Seq<char>> {
        match self.module_graph.resolve(id) {
            Some(m) => Some(self.chunk_graph[m.handle]),
            None => None,
        }
    }
}

impl View for Compilation {
    type V = CompilationView;

    open spec fn view(&self) -> CompilationView {
        CompilationView { module_graph: self.module_graph@, chunk_graph: self.chunk_graph@ }
    }
}

impl Compilation {
    pub fn new(module_graph: ModuleGraph, chunk_graph: ChunkGraph) -> (compilation: Compilation)
        ensures
            compilation@ == (CompilationView {
                module_graph: module_graph@,
                chunk_graph: chunk_graph@,
            }),
    {
        Compilation { module_graph, chunk_graph }
    }

    /// Tells whether both graphs are complete: every module has its final
    /// identifier. Code generation may start only then.
    pub fn is_sealed(&self) -> (sealed: bool)
        ensures
            sealed == self@.sealed(),
    {
        let mut m: usize = 0;
        while m < self.module_graph.modules.len()
            invariant
                m <= self.module_graph.modules.len(),
                forall|k: int|
                    0 <= k < m ==> self.chunk_graph@.contains_key(
                        (#[trigger] self.module_graph.modules@[k]).handle,
                    ),
            decreases self.module_graph.modules.len() - m,
        {
            if self.chunk_graph.get_module_id(self.module_graph.modules[m].handle).is_none() {
                assert(self@.module_graph.modules[m as int].handle
                    == self.module_graph.modules@[m as int].handle);
                return false;
            }
            m += 1;
        }
        assert forall|k: int| 0 <= k < self@.module_graph.modules.len() implies self@.chunk_graph.contains_key(
            (#[trigger] self@.module_graph.modules[k]).handle,
        ) by {
            assert(self@.module_graph.modules[k].handle == self.module_graph.modules@[k].handle);
        }
        true
    }
}

} // verus!
