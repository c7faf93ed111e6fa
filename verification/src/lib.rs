//! Transformation core of a module bundler. Two parts: the loader pipeline,
//! which turns a resource's source into the payload that is parsed, and the
//! dependency model, in which every reference found by the parser knows how
//! to patch the syntax node it was found at once the module and chunk graphs
//! are complete.

pub mod ast;
pub mod codegen;
pub mod content;
pub mod dependency;
pub mod graph_proofs;
pub mod loader;
pub mod module_graph;
pub mod module_hot_decline;
pub mod patch;
pub mod patch_proofs;
pub mod pipeline;
pub mod resource;
pub mod runner;
pub mod runner_proofs;
pub mod text;

pub use content::Content;
pub use module_hot_decline::ModuleHotDeclineDependency;
pub use pipeline::{run_loaders, Loader, LoaderRunnerPlugin};
pub use resource::ResourceData;
pub use runner::LoaderContext;
