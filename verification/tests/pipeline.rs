use std::cell::RefCell;
use std::rc::Rc;
use transform_core::content::{Content, ContentKind};
use transform_core::loader::{
    FailureReason, LoaderError, LoaderOutput, LoaderResult, Phase, PitchOutcome,
};
use transform_core::pipeline::{
    run_loaders, run_loaders_with_plugin, Loader, LoaderItem, LoaderRunnerPlugin,
};
use transform_core::resource::ResourceData;
use transform_core::runner::LoaderContext;

type Log = Rc<RefCell<Vec<String>>>;

#[derive(Clone)]
enum Behaviour {
    Append,
    ShortCircuit(Content),
    FailPitch(String),
    FailRun(String),
    Upper,
}

struct TestLoader {
    name: String,
    behaviour: Behaviour,
    log: Log,
}

impl Loader for TestLoader {
    fn pitch(&self, context: &LoaderContext) -> Result<PitchOutcome, String> {
        assert_eq!(context.phase(), Phase::Pitching);
        self.log.borrow_mut().push(format!("pitch {}", self.name));
        match &self.behaviour {
            Behaviour::ShortCircuit(content) => Ok(PitchOutcome::ShortCircuit(content.clone())),
            Behaviour::FailPitch(message) => Err(message.clone()),
            _ => Ok(PitchOutcome::Continue),
        }
    }

    fn run(&self, context: &LoaderContext) -> Result<LoaderOutput, String> {
        assert_eq!(context.phase(), Phase::Normal);
        self.log.borrow_mut().push(format!("run {}", self.name));
        let text = match context.content() {
            Content::Text(text) => text.clone(),
            Content::Bytes(_) => return Err("text expected".to_string()),
        };
        match &self.behaviour {
            Behaviour::FailRun(message) => Err(message.clone()),
            Behaviour::Upper => Ok(LoaderOutput::new(Content::Text(text.to_uppercase()))),
            _ => Ok(LoaderOutput {
                content: Content::Text(format!("{}<{}>", text, self.name)),
                source_map: Some(format!("map of {}", self.name)),
                file_dependencies: vec![format!("/watch/{}", self.name)],
                assets: Vec::new(),
                diagnostics: vec![format!("{} ran", self.name)],
            }),
        }
    }
}

fn item(name: &str, behaviour: Behaviour, log: &Log) -> LoaderItem<TestLoader> {
    LoaderItem {
        identifier: name.to_string(),
        accepts: ContentKind::Text,
        loader: TestLoader { name: name.to_string(), behaviour, log: log.clone() },
    }
}

fn resource() -> ResourceData {
    ResourceData::new("/src/main.js".to_string(), Some("?x".to_string()), None)
}

fn source() -> Content {
    Content::Text("src".to_string())
}

#[test]
fn chain_of_three_runs_pitch_backwards_then_normal_forwards() {
    let log: Log = Rc::new(RefCell::new(Vec::new()));
    let chain = vec![
        item("A", Behaviour::Append, &log),
        item("B", Behaviour::Append, &log),
        item("C", Behaviour::Append, &log),
    ];
    let result = run_loaders(resource(), &chain, source());
    assert_eq!(
        *log.borrow(),
        vec!["pitch C", "pitch B", "pitch A", "run A", "run B", "run C"]
    );
    assert_eq!(
        result,
        Ok(LoaderResult {
            content: Content::Text("src<A><B><C>".to_string()),
            source_map: Some("map of C".to_string()),
            file_dependencies: vec![
                "/watch/A".to_string(),
                "/watch/B".to_string(),
                "/watch/C".to_string()
            ],
            assets: Vec::new(),
            diagnostics: vec!["A ran".to_string(), "B ran".to_string(), "C ran".to_string()],
        })
    );
}

#[test]
fn short_circuit_of_the_middle_loader_is_the_output() {
    let log: Log = Rc::new(RefCell::new(Vec::new()));
    let cut = Content::Bytes(vec![0xDE, 0xAD]);
    let chain = vec![
        item("A", Behaviour::Append, &log),
        item("B", Behaviour::ShortCircuit(cut.clone()), &log),
        item("C", Behaviour::Append, &log),
    ];
    let result = run_loaders(resource(), &chain, source());
    assert_eq!(*log.borrow(), vec!["pitch C", "pitch B"]);
    assert_eq!(
        result,
        Ok(LoaderResult {
            content: cut,
            source_map: None,
            file_dependencies: Vec::new(),
            assets: Vec::new(),
            diagnostics: Vec::new(),
        })
    );
}

#[test]
fn failure_of_the_middle_loader_stops_the_chain() {
    let log: Log = Rc::new(RefCell::new(Vec::new()));
    let chain = vec![
        item("A", Behaviour::Append, &log),
        item("B", Behaviour::FailRun("cannot".to_string()), &log),
        item("C", Behaviour::Append, &log),
    ];
    let result = run_loaders(resource(), &chain, source());
    assert_eq!(*log.borrow(), vec!["pitch C", "pitch B", "pitch A", "run A", "run B"]);
    assert_eq!(
        result,
        Err(LoaderError {
            loader: "B".to_string(),
            resource_path: "/src/main.js".to_string(),
            phase: Phase::Normal,
            reason: FailureReason::Reported("cannot".to_string()),
        })
    );
}

#[test]
fn failure_while_pitching_stops_the_chain() {
    let log: Log = Rc::new(RefCell::new(Vec::new()));
    let chain = vec![
        item("A", Behaviour::Append, &log),
        item("B", Behaviour::FailPitch("refused".to_string()), &log),
        item("C", Behaviour::Append, &log),
    ];
    let result = run_loaders(resource(), &chain, source());
    assert_eq!(*log.borrow(), vec!["pitch C", "pitch B"]);
    assert_eq!(
        result,
        Err(LoaderError {
            loader: "B".to_string(),
            resource_path: "/src/main.js".to_string(),
            phase: Phase::Pitching,
            reason: FailureReason::Reported("refused".to_string()),
        })
    );
}

#[test]
fn no_loader_gives_the_source_back() {
    let chain: Vec<LoaderItem<TestLoader>> = Vec::new();
    let result = run_loaders(resource(), &chain, source());
    assert_eq!(
        result,
        Ok(LoaderResult {
            content: source(),
            source_map: None,
            file_dependencies: Vec::new(),
            assets: Vec::new(),
            diagnostics: Vec::new(),
        })
    );
}

#[test]
fn repeated_runs_give_the_same_result() {
    let log: Log = Rc::new(RefCell::new(Vec::new()));
    let chain = vec![
        item("A", Behaviour::Append, &log),
        item("B", Behaviour::Upper, &log),
        item("C", Behaviour::Append, &log),
    ];
    let first = run_loaders(resource(), &chain, source());
    let second = run_loaders(resource(), &chain, source());
    assert_eq!(first, second);
    assert_eq!(
        first.map(|done| done.content),
        Ok(Content::Text("SRC<A><C>".to_string()))
    );
}

#[test]
fn bytes_source_is_given_as_text_to_a_text_loader() {
    let log: Log = Rc::new(RefCell::new(Vec::new()));
    let chain = vec![item("A", Behaviour::Upper, &log)];
    let result = run_loaders(resource(), &chain, Content::Bytes(vec![0x61, 0x62]));
    assert_eq!(result.map(|done| done.content), Ok(Content::Text("AB".to_string())));
}

#[test]
fn malformed_source_fails_before_the_loader_runs() {
    let log: Log = Rc::new(RefCell::new(Vec::new()));
    let chain = vec![item("A", Behaviour::Upper, &log)];
    let result = run_loaders(resource(), &chain, Content::Bytes(vec![0xFF]));
    assert_eq!(*log.borrow(), vec!["pitch A"]);
    assert_eq!(
        result,
        Err(LoaderError {
            loader: "A".to_string(),
            resource_path: "/src/main.js".to_string(),
            phase: Phase::Normal,
            reason: FailureReason::IncompatibleContent,
        })
    );
}

struct DropFirst;

impl LoaderRunnerPlugin<TestLoader> for DropFirst {
    fn process_chain(
        &self,
        _resource: &ResourceData,
        mut chain: Vec<LoaderItem<TestLoader>>,
    ) -> Vec<LoaderItem<TestLoader>> {
        if !chain.is_empty() {
            chain.remove(0);
        }
        chain
    }
}

#[test]
fn plugin_sees_the_chain_before_it_runs() {
    let log: Log = Rc::new(RefCell::new(Vec::new()));
    let chain = vec![item("A", Behaviour::Append, &log), item("B", Behaviour::Append, &log)];
    let result = run_loaders_with_plugin(&DropFirst, resource(), chain, source());
    assert_eq!(*log.borrow(), vec!["pitch B", "run B"]);
    assert_eq!(result.map(|done| done.content), Ok(Content::Text("src<B>".to_string())));
}
