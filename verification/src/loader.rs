//! What loaders are made of and what they hand back to the runner.

use vstd::prelude::*;
use crate::content::{Content, ContentKind, ContentView};
use crate::text::{option_string_view, string_views};

verus! {

/// What the runner knows of a loader without calling it: its name and the
/// form of payload it accepts.
#[derive(Debug, Clone, PartialEq, Eq)]
pub struct LoaderInfo {
    pub identifier: String,
    pub accepts: ContentKind,
}

/// Mathematical content of a [`LoaderInfo`].
pub struct LoaderInfoView {
    pub identifier: Seq<char>,
    pub accepts: ContentKind,
}

impl View for LoaderInfo {
    type V = LoaderInfoView;

    open spec fn view(&self) -> LoaderInfoView {
        LoaderInfoView { identifier: self.identifier@, accepts: self.accepts }
    }
}

pub open spec fn loader_info_views(chain: Seq<LoaderInfo>) -> Seq<LoaderInfoView> {
    Seq::new(chain.len(), |i: int| chain[i]@)
}

/// The two passes over a loader chain.
#[derive(Clone, Copy, Debug, PartialEq, Eq, Structural, Hash)]
pub enum Phase {
    /// The pass from the last loader to the first, which may cut the pipeline
    /// short.
    Pitching,
    /// The pass from the first loader to the last, which transforms the
    /// payload.
    Normal,
}

/// What a pitch step decides.
#[derive(Debug, Clone, PartialEq, Eq)]
pub enum PitchOutcome {
    /// Go on with the next loader.
    Continue,
    /// Stop here: this payload is the pipeline's output.
    ShortCircuit(Content),
}

/// Mathematical content of a [`PitchOutcome`].
pub enum PitchOutcomeView {
    Continue,
    ShortCircuit(ContentView),
}

impl View for PitchOutcome {
    type V = PitchOutcomeView;

    open spec fn view(&self) -> PitchOutcomeView {
        match self {
            PitchOutcome::Continue => PitchOutcomeView::Continue,
            PitchOutcome::ShortCircuit(content) => PitchOutcomeView::ShortCircuit(content@),
        }
    }
}

/// A build artefact that a loader emits beside the payload.
#[derive(Debug, Clone, PartialEq, Eq)]
pub struct Asset {
    pub filename: String,
    pub content: Vec<u8>,
}

/// Mathematical content of an [`Asset`].
pub struct AssetView {
    pub filename: Seq<char>,
    pub content: Seq<u8>,
}

impl View for Asset {
    type V = AssetView;

    open spec fn view(&self) -> AssetView {
        AssetView { filename: self.filename@, content: self.content@ }
    }
}

pub open spec fn asset_views(assets: Seq<Asset>) -> Seq<AssetView> {
    Seq::new(assets.len(), |i: int| assets[i]@)
}

/// What a normal step hands back: the transformed payload, and what the
/// loader wants recorded beside it.
#[derive(Debug, Clone, PartialEq, Eq)]
pub struct LoaderOutput {
    pub content: Content,
    /// Source map that belongs to the new payload, if the loader made one.
    pub source_map: Option<String>,
    /// Files whose change must invalidate the resource.
    pub file_dependencies: Vec<String>,
    pub assets: Vec<Asset>,
    pub diagnostics: Vec<String>,
}

/// Mathematical content of a [`LoaderOutput`].
pub struct LoaderOutputView {
    pub content: ContentView,
    pub source_map: Option<Seq<char>>,
    pub file_dependencies: Seq<Seq<char>>,
    pub assets: Seq<AssetView>,
    pub diagnostics: Seq<Seq<char>>,
}

impl View for LoaderOutput {
    type V = LoaderOutputView;

    open spec fn view(&self) -> LoaderOutputView {
        LoaderOutputView {
            content: self.content@,
            source_map: option_string_view(self.source_map),
            file_dependencies: string_views(self.file_dependencies@),
            assets: asset_views(self.assets@),
            diagnostics: string_views(self.diagnostics@),
        }
    }
}

impl LoaderOutput {
    /// An output that carries a payload and nothing beside it.
    pub fn new(content: Content) -> (output: LoaderOutput)
        ensures
            output@ == (LoaderOutputView {
                content: content@,
                source_map: None,
                file_dependencies: Seq::empty(),
                assets: Seq::empty(),
                diagnostics: Seq::empty(),
            }),
    {
        let output = LoaderOutput {
            content,
            source_map: None,
            file_dependencies: Vec::new(),
            assets: Vec::new(),
            diagnostics: Vec::new(),
        };
        assert(output@.file_dependencies =~= Seq::empty());
        assert(output@.assets =~= Seq::empty());
        assert(output@.diagnostics =~= Seq::empty());
        output
    }
}

/// Why a loader step failed.
#[derive(Debug, Clone, PartialEq, Eq)]
pub enum FailureReason {
    /// The loader reported a failure, with this message.
    Reported(String),
    /// The payload could not be given in the form the loader accepts.
    IncompatibleContent,
}

/// Mathematical content of a [`FailureReason`].
pub enum FailureReasonView {
    Reported(Seq<char>),
    IncompatibleContent,
}

impl View for FailureReason {
    type V = FailureReasonView;

    open spec fn view(&self) -> FailureReasonView {
        match self {
            FailureReason::Reported(message) => FailureReasonView::Reported(message@),
            FailureReason::IncompatibleContent => FailureReasonView::IncompatibleContent,
        }
    }
}

/// A loader step failed: which loader, on which resource, in which pass, and
/// why.
#[derive(Debug, Clone, PartialEq, Eq)]
pub struct LoaderError {
    pub loader: String,
    pub resource_path: String,
    pub phase: Phase,
    pub reason: FailureReason,
}

/// Mathematical content of a [`LoaderError`].
pub struct LoaderErrorView {
    pub loader: Seq<char>,
    pub resource_path: Seq<char>,
    pub phase: Phase,
    pub reason: FailureReasonView,
}

impl View for LoaderError {
    type V = LoaderErrorView;

    open spec fn view(&self) -> LoaderErrorView {
        LoaderErrorView {
            loader: self.loader@,
            resource_path: self.resource_path@,
            phase: self.phase,
            reason: self.reason@,
        }
    }
}

/// What a finished pipeline returns: the final payload and everything the
/// loaders recorded on the way, in the order they recorded it.
#[derive(Debug, Clone, PartialEq, Eq)]
pub struct LoaderResult {
    pub content: Content,
    pub source_map: Option<String>,
    pub file_dependencies: Vec<String>,
    pub assets: Vec<Asset>,
    pub diagnostics: Vec<String>,
}

/// Mathematical content of a [`LoaderResult`].
pub struct LoaderResultView {
    pub content: ContentView,
    pub source_map: Option<Seq<char>>,
    pub file_dependencies: Seq<Seq<char>>,
    pub assets: Seq<AssetView>,
    pub diagnostics: Seq<Seq<char>>,
}

impl View for LoaderResult {
    type V = LoaderResultView;

    open spec fn view(&self) -> LoaderResultView {
        LoaderResultView {
            content: self.content@,
            source_map: option_string_view(self.source_map),
            file_dependencies: string_views(self.file_dependencies@),
            assets: asset_views(self.assets@),
            diagnostics: string_views(self.diagnostics@),
        }
    }
}

/// What a pitch step answered, as the runner's model sees it.
pub open spec fn pitch_reply_view(reply: Result<PitchOutcome, String>) -> Result<
    PitchOutcomeView,
    Seq<char>,
> {
    match reply {
        Ok(outcome) => Ok(outcome@),
        Err(message) => Err(message@),
    }
}

/// What a normal step answered, as the runner's model sees it.
pub open spec fn run_reply_view(reply: Result<LoaderOutput, String>) -> Result<
    LoaderOutputView,
    Seq<char>,
> {
    match reply {
        Ok(output) => Ok(output@),
        Err(message) => Err(message@),
    }
}

/// How a pipeline ended, as the runner's model sees it.
pub open spec fn run_result_view(result: Result<LoaderResult, LoaderError>) -> Result<
    LoaderResultView,
    LoaderErrorView,
> {
    match result {
        Ok(done) => Ok(done@),
        Err(error) => Err(error@),
    }
}

} // verus!
