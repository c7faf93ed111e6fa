use transform_core::{
    run_loaders, Content, Loader, LoaderContext, LoaderRunnerPlugin, ModuleHotDeclineDependency,
    ResourceData,
};
use transform_core::dependency::Dependency;
use transform_core::loader::{LoaderOutput, PitchOutcome};
use transform_core::pipeline::{run_loaders_with_plugin, LoaderItem};
use transform_core::content::ContentKind;

struct Reverse;

impl Loader for Reverse {
    fn pitch(&self, _context: &LoaderContext) -> Result<PitchOutcome, String> {
        Ok(PitchOutcome::Continue)
    }

    fn run(&self, context: &LoaderContext) -> Result<LoaderOutput, String> {
        match context.content() {
            Content::Text(text) => {
                Ok(LoaderOutput::new(Content::Text(text.chars().rev().collect())))
            }
            Content::Bytes(_) => Err("text expected".to_string()),
        }
    }
}

struct Keep;

impl LoaderRunnerPlugin<Reverse> for Keep {
    fn process_chain(
        &self,
        _resource: &ResourceData,
        chain: Vec<LoaderItem<Reverse>>,
    ) -> Vec<LoaderItem<Reverse>> {
        chain
    }
}

fn reverse() -> LoaderItem<Reverse> {
    LoaderItem { identifier: "reverse".to_string(), accepts: ContentKind::Text, loader: Reverse }
}

#[test]
fn the_crate_root_offers_the_runner() {
    let resource = ResourceData::new("/a".to_string(), None, None);
    let result = run_loaders(resource, &vec![reverse()], Content::Text("abc".to_string()));
    assert_eq!(result.map(|done| done.content), Ok(Content::Text("cba".to_string())));
}

#[test]
fn a_plugin_that_keeps_the_chain_changes_nothing() {
    let resource = ResourceData::new("/a".to_string(), None, None);
    let chain = vec![reverse(), reverse()];
    let result = run_loaders_with_plugin(&Keep, resource, chain, Content::Text("abc".to_string()));
    assert_eq!(result.map(|done| done.content), Ok(Content::Text("abc".to_string())));
}

#[test]
fn the_crate_root_offers_the_dependency() {
    let dependency = ModuleHotDeclineDependency::new("./a".to_string(), None, Vec::new());
    assert_eq!(dependency.id(), None);
}
