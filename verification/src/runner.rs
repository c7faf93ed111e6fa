//! The loader pipeline as a machine. A context is started on a resource, a
//! chain and the resource's source; it says which loader step it waits for,
//! takes that step's answer, and ends with the final payload or with the
//! loader that failed. Nothing but the context decides what comes next.

use vstd::prelude::*;
use crate::content::{Content, ContentView};
use crate::loader::{
    asset_views, loader_info_views, pitch_reply_view, run_reply_view, Asset, AssetView,
    FailureReason, FailureReasonView, LoaderError, LoaderErrorView, LoaderInfo, LoaderInfoView,
    LoaderOutput, LoaderOutputView, LoaderResult, LoaderResultView, Phase, PitchOutcome,
    PitchOutcomeView,
};
use crate::resource::{ResourceData, ResourceDataView};
use crate::runner_proofs::lemma_step_keeps_well_formed;
use crate::text::{option_string_view, string_views};

verus! {

/// The step a context waits for.
#[derive(Clone, Copy, Debug, PartialEq, Eq, Structural)]
pub enum Action {
    /// The pitch step of the loader at this position of the chain.
    Pitch { loader: usize },
    /// The normal step of the loader at this position of the chain.
    Run { loader: usize },
    /// Nothing: the pipeline has ended.
    Done,
}

/// Whether a pipeline is still under way, and how it ended if not.
#[derive(Debug)]
pub enum Control {
    Running,
    Finished,
    Failed(LoaderError),
}

/// Mathematical content of a [`Control`].
pub enum ControlView {
    Running,
    Finished,
    Failed(LoaderErrorView),
}

impl View for Control {
    type V = ControlView;

    open spec fn view(&self) -> ControlView {
        match self {
            Control::Running => ControlView::Running,
            Control::Finished => ControlView::Finished,
            Control::Failed(error) => ControlView::Failed(error@),
        }
    }
}

/// Mathematical content of a [`LoaderContext`]: everything the next step of
/// a pipeline depends on.
pub struct LoaderContextView {
    pub resource: ResourceDataView,
    pub chain: Seq<LoaderInfoView>,
    pub content: ContentView,
    pub source_map: Option<Seq<char>>,
    pub loader_index: nat,
    pub phase: Phase,
    pub file_dependencies: Seq<Seq<char>>,
    pub assets: Seq<AssetView>,
    pub diagnostics: Seq<Seq<char>>,
    pub control: ControlView,
}

impl LoaderContextView {
    /// The context a pipeline starts in. With an empty chain it has ended at
    /// once, the source being the output; otherwise it waits for the pitch
    /// step of the last loader.
    pub open spec fn start(
        resource: ResourceDataView,
        chain: Seq<LoaderInfoView>,
        source: ContentView,
    ) -> LoaderContextView {
        LoaderContextView {
            resource,
            chain,
            content: source,
            source_map: None,
            loader_index: if chain.len() == 0 {
                0
            } else {
                (chain.len() - 1) as nat
            },
            phase: Phase::Pitching,
            file_dependencies: Seq::empty(),
            assets: Seq::empty(),
            diagnostics: Seq::empty(),
            control: if chain.len() == 0 {
                ControlView::Finished
            } else {
                ControlView::Running
            },
        }
    }

    /// The context waits for a pitch step.
    pub open spec fn awaits_pitch(self) -> bool {
        self.control is Running && self.phase is Pitching && self.loader_index < self.chain.len()
    }

    /// The context waits for a normal step.
    pub open spec fn awaits_run(self) -> bool {
        self.control is Running && self.phase is Normal && self.loader_index < self.chain.len()
    }

    /// The step the context waits for.
    pub open spec fn next_action(self) -> Action {
        if self.awaits_pitch() {
            Action::Pitch { loader: self.loader_index as usize }
        } else if self.awaits_run() {
            Action::Run { loader: self.loader_index as usize }
        } else {
            Action::Done
        }
    }

    /// The error that names the loader under the cursor and the resource.
    pub open spec fn failure(self, reason: FailureReasonView) -> LoaderErrorView {
        LoaderErrorView {
            loader: self.chain[self.loader_index as int].identifier,
            resource_path: self.resource.path,
            phase: self.phase,
            reason,
        }
    }

    /// The context with the cursor moved to a position of the normal pass.
    /// Past the end of the chain the pipeline has finished. Otherwise the
    /// payload is given the form that the loader there accepts; where it
    /// cannot be, the pipeline fails on that loader.
    pub open spec fn entering(self, index: nat) -> LoaderContextView {
        let moved = LoaderContextView { loader_index: index, phase: Phase::Normal, ..self };
        if index >= self.chain.len() {
            LoaderContextView { control: ControlView::Finished, ..moved }
        } else if !self.content.convertible(self.chain[index as int].accepts) {
            LoaderContextView {
                control: ControlView::Failed(
                    moved.failure(FailureReasonView::IncompatibleContent),
                ),
                ..moved
            }
        } else {
            LoaderContextView {
                content: self.content.converted(self.chain[index as int].accepts),
                ..moved
            }
        }
    }

    /// The context after the pitch step it waited for has answered. A
    /// failure ends the pipeline with an error that names the loader. A
    /// short circuit ends it with the payload given. Otherwise the cursor
    /// moves one loader towards the front, and from the first loader into the
    /// normal pass. A context that waits for no pitch step ignores the
    /// answer.
    pub open spec fn after_pitch(self, reply: Result<PitchOutcomeView, Seq<char>>) -> LoaderContextView {
        if !self.awaits_pitch() {
            self
        } else {
            match reply {
                Err(message) => LoaderContextView {
                    control: ControlView::Failed(
                        self.failure(FailureReasonView::Reported(message)),
                    ),
                    ..self
                },
                Ok(PitchOutcomeView::ShortCircuit(content)) => LoaderContextView {
                    content,
                    control: ControlView::Finished,
                    ..self
                },
                Ok(PitchOutcomeView::Continue) => if self.loader_index > 0 {
                    LoaderContextView { loader_index: (self.loader_index - 1) as nat, ..self }
                } else {
                    self.entering(0)
                },
            }
        }
    }

    /// The context with what a normal step handed back taken in: the new
    /// payload and source map replace the old ones, the rest is appended.
    pub open spec fn absorbing(self, output: LoaderOutputView) -> LoaderContextView {
        LoaderContextView {
            content: output.content,
            source_map: output.source_map,
            file_dependencies: self.file_dependencies + output.file_dependencies,
            assets: self.assets + output.assets,
            diagnostics: self.diagnostics + output.diagnostics,
            ..self
        }
    }

    /// The context after the normal step it waited for has answered. A
    /// failure ends the pipeline with an error that names the loader.
    /// Otherwise the output is taken in and the cursor moves one loader
    /// towards the back. A context that waits for no normal step ignores the
    /// answer.
    pub open spec fn after_run(self, reply: Result<LoaderOutputView, Seq<char>>) -> LoaderContextView {
        if !self.awaits_run() {
            self
        } else {
            match reply {
                Err(message) => LoaderContextView {
                    control: ControlView::Failed(
                        self.failure(FailureReasonView::Reported(message)),
                    ),
                    ..self
                },
                Ok(output) => self.absorbing(output).entering(self.loader_index + 1),
            }
        }
    }

    /// What the pipeline has produced so far.
    pub open spec fn produced(self) -> LoaderResultView {
        LoaderResultView {
            content: self.content,
            source_map: self.source_map,
            file_dependencies: self.file_dependencies,
            assets: self.assets,
            diagnostics: self.diagnostics,
        }
    }

    /// How the pipeline ended; none while it is under way.
    pub open spec fn result(self) -> Option<Result<LoaderResultView, LoaderErrorView>> {
        match self.control {
            ControlView::Running => None,
            ControlView::Finished => Some(Ok(self.produced())),
            ControlView::Failed(error) => Some(Err(error)),
        }
    }

    /// An upper bound on the loader steps still to come.
    pub open spec fn remaining_steps(self) -> nat {
        if self.awaits_pitch() {
            self.loader_index + 1 + self.chain.len()
        } else if self.awaits_run() {
            (self.chain.len() - self.loader_index) as nat
        } else {
            0
        }
    }
}

/// An answer from a loader step, as the model sees it.
pub enum LoaderEvent {
    /// What a pitch step answered.
    Pitched(Result<PitchOutcomeView, Seq<char>>),
    /// What a normal step answered.
    Ran(Result<LoaderOutputView, Seq<char>>),
}

impl LoaderContextView {
    /// What a pipeline keeps true from its start on: while it is under way
    /// the cursor is on a loader, and in the normal pass the payload has the
    /// form that this loader accepts.
    pub open spec fn well_formed(self) -> bool {
        &&& self.control is Running ==> self.loader_index < self.chain.len()
        &&& self.awaits_run() ==> self.content.kind()
            == self.chain[self.loader_index as int].accepts
    }

    /// The event answers the step the context waits for.
    pub open spec fn answers(self, event: LoaderEvent) -> bool {
        match event {
            LoaderEvent::Pitched(_) => self.awaits_pitch(),
            LoaderEvent::Ran(_) => self.awaits_run(),
        }
    }

    /// The context after an event.
    pub open spec fn step(self, event: LoaderEvent) -> LoaderContextView {
        match event {
            LoaderEvent::Pitched(reply) => self.after_pitch(reply),
            LoaderEvent::Ran(reply) => self.after_run(reply),
        }
    }

    /// The context after a sequence of events, taken in order.
    pub open spec fn replay(self, events: Seq<LoaderEvent>) -> LoaderContextView
        decreases events.len(),
    {
        if events.len() == 0 {
            self
        } else {
            self.replay(events.drop_last()).step(events.last())
        }
    }

    /// The events are a run from this context: each one answers the step
    /// that the context waited for when it came.
    pub open spec fn is_run(self, events: Seq<LoaderEvent>) -> bool {
        forall|k: int|
            0 <= k < events.len() ==> #[trigger] self.replay(events.take(k)).answers(events[k])
    }

    /// The events are a run from this context that has reached the end of
    /// the pipeline.
    pub open spec fn is_complete_run(self, events: Seq<LoaderEvent>) -> bool {
        self.is_run(events) && self.replay(events).next_action() is Done
    }

    /// Every event of the sequence is what the oracle answers to the context
    /// that the event came to. Loaders that answer like this are pure: what
    /// they hand back depends on nothing but what the runner shows them.
    pub open spec fn follows(
        self,
        oracle: spec_fn(LoaderContextView) -> LoaderEvent,
        events: Seq<LoaderEvent>,
    ) -> bool {
        forall|k: int|
            0 <= k < events.len() ==> #[trigger] events[k] == oracle(
                self.replay(events.take(k)),
            )
    }
}

/// The working state of one pipeline run. It belongs to that run alone.
#[derive(Debug)]
pub struct LoaderContext {
    resource: ResourceData,
    chain: Vec<LoaderInfo>,
    content: Content,
    source_map: Option<String>,
    loader_index: usize,
    phase: Phase,
    file_dependencies: Vec<String>,
    assets: Vec<Asset>,
    diagnostics: Vec<String>,
    control: Control,
}

impl View for LoaderContext {
    type V = LoaderContextView;

    closed spec fn view(&self) -> LoaderContextView {
        LoaderContextView {
            resource: self.resource@,
            chain: loader_info_views(self.chain@),
            content: self.content@,
            source_map: option_string_view(self.source_map),
            loader_index: self.loader_index as nat,
            phase: self.phase,
            file_dependencies: string_views(self.file_dependencies@),
            assets: asset_views(self.assets@),
            diagnostics: string_views(self.diagnostics@),
            control: self.control@,
        }
    }
}

impl LoaderContext {
    /// Starts a pipeline on a resource, a chain and the resource's source.
    pub fn new(resource: ResourceData, chain: Vec<LoaderInfo>, source: Content) -> (context:
        LoaderContext)
        ensures
            context@ == LoaderContextView::start(resource@, loader_info_views(chain@), source@),
            context@.well_formed(),
    {
        let length: usize = chain.len();
        let context = LoaderContext {
            resource,
            chain,
            content: source,
            source_map: None,
            loader_index: if length == 0 {
                0
            } else {
                length - 1
            },
            phase: Phase::Pitching,
            file_dependencies: Vec::new(),
            assets: Vec::new(),
            diagnostics: Vec::new(),
            control: if length == 0 {
                Control::Finished
            } else {
                Control::Running
            },
        };
        assert(context@.file_dependencies =~= Seq::empty());
        assert(context@.assets =~= Seq::empty());
        assert(context@.diagnostics =~= Seq::empty());
        context
    }

    pub fn resource(&self) -> (resource: &ResourceData)
        ensures
            resource@ == self@.resource,
    {
        &self.resource
    }

    /// The current payload.
    pub fn content(&self) -> (content: &Content)
        ensures
            content@ == self@.content,
    {
        &self.content
    }

    pub fn source_map(&self) -> (source_map: Option<&String>)
        ensures
            source_map is Some == self@.source_map is Some,
            source_map matches Some(map) ==> self@.source_map == Some(map@),
    {
        self.source_map.as_ref()
    }

    /// Position of the cursor in the chain.
    pub fn loader_index(&self) -> (index: usize)
        ensures
            index == self@.loader_index,
    {
        self.loader_index
    }

    pub fn phase(&self) -> (phase: Phase)
        ensures
            phase == self@.phase,
    {
        self.phase
    }

    /// The loader under the cursor, while the pipeline waits for one.
    pub fn current_loader(&self) -> (info: Option<&LoaderInfo>)
        ensures
            info is Some == !(self@.next_action() is Done),
            info matches Some(loader) ==> loader@ == self@.chain[self@.loader_index as int],
    {
        match self.control {
            Control::Running => {
                if self.loader_index < self.chain.len() {
                    Some(&self.chain[self.loader_index])
                } else {
                    None
                }
            },
            _ => None,
        }
    }

    /// The step the pipeline waits for.
    pub fn next_action(&self) -> (action: Action)
        ensures
            action == self@.next_action(),
    {
        match self.control {
            Control::Running => {
                if self.loader_index < self.chain.len() {
                    match self.phase {
                        Phase::Pitching => Action::Pitch { loader: self.loader_index },
                        Phase::Normal => Action::Run { loader: self.loader_index },
                    }
                } else {
                    Action::Done
                }
            },
            _ => Action::Done,
        }
    }

    fn failure(&self, reason: FailureReason) -> (error: LoaderError)
        requires
            self.loader_index < self.chain.len(),
        ensures
            error@ == self@.failure(reason@),
    {
        LoaderError {
            loader: self.chain[self.loader_index].identifier.clone(),
            resource_path: self.resource.path().to_owned(),
            phase: self.phase,
            reason,
        }
    }

    fn enter(&mut self, index: usize)
        ensures
            final(self)@ == old(self)@.entering(index as nat),
    {
        self.loader_index = index;
        self.phase = Phase::Normal;
        if index >= self.chain.len() {
            self.control = Control::Finished;
        } else {
            let accepts = self.chain[index].accepts;
            if self.content.kind() != accepts {
                match self.content.convert(accepts) {
                    Ok(converted) => {
                        self.content = converted;
                    },
                    Err(_) => {
                        let error = self.failure(FailureReason::IncompatibleContent);
                        self.control = Control::Failed(error);
                    },
                }
            }
        }
    }

    /// Takes the answer of the pitch step the pipeline waited for.
    pub fn pitched(&mut self, reply: Result<PitchOutcome, String>)
        ensures
            final(self)@ == old(self)@.after_pitch(pitch_reply_view(reply)),
            old(self)@.well_formed() ==> final(self)@.well_formed(),
    {
        proof {
            if self@.well_formed() {
                lemma_step_keeps_well_formed(self@, LoaderEvent::Pitched(pitch_reply_view(reply)));
            }
        }
        match self.next_action() {
            Action::Pitch { .. } => {
                match reply {
                    Err(message) => {
                        let error = self.failure(FailureReason::Reported(message));
                        self.control = Control::Failed(error);
                    },
                    Ok(PitchOutcome::ShortCircuit(content)) => {
                        self.content = content;
                        self.control = Control::Finished;
                    },
                    Ok(PitchOutcome::Continue) => {
                        if self.loader_index > 0 {
                            self.loader_index = self.loader_index - 1;
                        } else {
                            self.enter(0);
                        }
                    },
                }
            },
            _ => {},
        }
    }

    /// Takes the answer of the normal step the pipeline waited for.
    pub fn ran(&mut self, reply: Result<LoaderOutput, String>)
        ensures
            final(self)@ == old(self)@.after_run(run_reply_view(reply)),
            old(self)@.well_formed() ==> final(self)@.well_formed(),
    {
        proof {
            if self@.well_formed() {
                lemma_step_keeps_well_formed(self@, LoaderEvent::Ran(run_reply_view(reply)));
            }
        }
        match self.next_action() {
            Action::Run { .. } => {
                match reply {
                    Err(message) => {
                        let error = self.failure(FailureReason::Reported(message));
                        self.control = Control::Failed(error);
                    },
                    Ok(output) => {
                        let length: usize = self.chain.len();
                        assert(self.loader_index < length);
                        let next: usize = self.loader_index + 1;
                        let mut output = output;
                        self.content = output.content;
                        self.source_map = output.source_map;
                        self.file_dependencies.append(&mut output.file_dependencies);
                        self.assets.append(&mut output.assets);
                        self.diagnostics.append(&mut output.diagnostics);
                        proof {
                            let before = old(self)@;
                            let given = run_reply_view(reply)->Ok_0;
                            assert(self@.file_dependencies =~= before.file_dependencies
                                + given.file_dependencies);
                            assert(self@.assets =~= before.assets + given.assets);
                            assert(self@.diagnostics =~= before.diagnostics + given.diagnostics);
                        }
                        self.enter(next);
                    },
                }
            },
            _ => {},
        }
    }

    /// How the pipeline ended; none while it is under way.
    pub fn into_result(self) -> (result: Option<Result<LoaderResult, LoaderError>>)
        ensures
            result is Some == self@.result() is Some,
            result matches Some(Ok(done)) ==> self@.result() == Some(
                Ok::<LoaderResultView, LoaderErrorView>(done@),
            ),
            result matches Some(Err(error)) ==> self@.result() == Some(
                Err::<LoaderResultView, LoaderErrorView>(error@),
            ),
    {
        match self.control {
            Control::Running => None,
            Control::Finished => Some(
                Ok(
                    LoaderResult {
                        content: self.content,
                        source_map: self.source_map,
                        file_dependencies: self.file_dependencies,
                        assets: self.assets,
                        diagnostics: self.diagnostics,
                    },
                ),
            ),
            Control::Failed(error) => Some(Err(error)),
        }
    }
}

} // verus!
