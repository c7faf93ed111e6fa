//! Running a chain of loaders over a resource: the loop that asks the
//! context for the next step, calls the loader, and hands the answer back.

use vstd::prelude::*;
use vstd::pervasive::unreached;
use crate::content::{Content, ContentKind};
use crate::loader::{
    loader_info_views, pitch_reply_view, run_reply_view, run_result_view, LoaderError,
    LoaderErrorView, LoaderInfo, LoaderInfoView, LoaderOutput, LoaderResult, LoaderResultView,
    PitchOutcome,
};
use crate::resource::ResourceData;
use crate::runner::{Action, LoaderContext, LoaderContextView, LoaderEvent};
use crate::runner_proofs::{
    lemma_errors_name_loader_and_resource, lemma_replay_push, lemma_run_is_bounded,
    lemma_run_prefix, lemma_runs_are_determined, lemma_run_push, lemma_start_is_well_formed, lemma_step_keeps_well_formed,
    lemma_step_makes_progress,
};

verus! {

/// A transformation step. Nothing is promised of what a loader answers: the
/// runner copes with every answer.
pub trait Loader {
    /// The step of the pitching pass. It is called only on a context that
    /// waits for a pitch step.
    fn pitch(&self, context: &LoaderContext) -> (reply: Result<PitchOutcome, String>)
        requires
            context@.awaits_pitch(),
    ;

    /// The step of the normal pass. It is called only on a context that
    /// waits for a normal step and whose payload has the form that the
    /// loader under the cursor accepts.
    fn run(&self, context: &LoaderContext) -> (reply: Result<LoaderOutput, String>)
        requires
            context@.awaits_run(),
            context@.content.kind() == context@.chain[context@.loader_index as int].accepts,
    ;
}

/// A loader together with what the runner knows of it without calling it.
pub struct LoaderItem<L> {
    pub identifier: String,
    pub accepts: ContentKind,
    pub loader: L,
}

impl<L> LoaderItem<L> {
    /// What the runner knows of this loader without calling it.
    pub open spec fn info(self) -> LoaderInfoView {
        LoaderInfoView { identifier: self.identifier@, accepts: self.accepts }
    }
}

/// What the runner knows of each loader of a chain.
pub open spec fn chain_infos<L>(chain: Seq<LoaderItem<L>>) -> Seq<LoaderInfoView> {
    Seq::new(chain.len(), |i: int| chain[i].info())
}

/// The event is what the loader under the cursor answered when its step was
/// called with the context: a pitch event is an answer that this loader's
/// pitch step can give to this context, a normal event one that its normal
/// step can give.
pub open spec fn answered<L: Loader>(
    chain: Seq<LoaderItem<L>>,
    before: LoaderContextView,
    event: LoaderEvent,
) -> bool {
    match event {
        LoaderEvent::Pitched(answer) => exists|
            context: LoaderContext,
            reply: Result<PitchOutcome, String>,
        |
            context@ == before && #[trigger] call_ensures(
                L::pitch,
                (&chain[before.loader_index as int].loader, &context),
                reply,
            ) && pitch_reply_view(reply) == answer,
        LoaderEvent::Ran(answer) => exists|
            context: LoaderContext,
            reply: Result<LoaderOutput, String>,
        |
            context@ == before && #[trigger] call_ensures(
                L::run,
                (&chain[before.loader_index as int].loader, &context),
                reply,
            ) && run_reply_view(reply) == answer,
    }
}

/// Every event of the sequence is what the loader under the cursor answered
/// to the context that the event came to.
pub open spec fn answered_by<L: Loader>(
    chain: Seq<LoaderItem<L>>,
    start: LoaderContextView,
    events: Seq<LoaderEvent>,
) -> bool {
    forall|k: int|
        0 <= k < events.len() ==> answered(chain, start.replay(events.take(k)), #[trigger] events[k])
}

/// A sequence of answers stays one when another answer of the loader under
/// the cursor is added.
pub proof fn lemma_answered_push<L: Loader>(
    chain: Seq<LoaderItem<L>>,
    start: LoaderContextView,
    events: Seq<LoaderEvent>,
    event: LoaderEvent,
)
    requires
        answered_by(chain, start, events),
        answered(chain, start.replay(events), event),
    ensures
        answered_by(chain, start, events.push(event)),
{
    let longer = events.push(event);
    assert forall|k: int| 0 <= k < longer.len() implies answered(
        chain,
        start.replay(longer.take(k)),
        #[trigger] longer[k],
    ) by {
        if k < events.len() {
            assert(longer.take(k) =~= events.take(k));
            assert(longer[k] == events[k]);
        } else {
            assert(longer.take(k) =~= events);
        }
    }
}

/// The loaders of the chain are pure: what a step of a loader answers is
/// fixed by the context it is shown.
pub open spec fn pure_chain<L: Loader>(chain: Seq<LoaderItem<L>>) -> bool {
    &&& forall|
        i: int,
        one: LoaderContext,
        other: LoaderContext,
        first: Result<PitchOutcome, String>,
        second: Result<PitchOutcome, String>,
    |
        #![trigger call_ensures(L::pitch, (&chain[i].loader, &one), first), call_ensures(L::pitch, (&chain[i].loader, &other), second)]
        0 <= i < chain.len() && one@ == other@ && call_ensures(
            L::pitch,
            (&chain[i].loader, &one),
            first,
        ) && call_ensures(L::pitch, (&chain[i].loader, &other), second) ==> pitch_reply_view(first)
            == pitch_reply_view(second)
    &&& forall|
        i: int,
        one: LoaderContext,
        other: LoaderContext,
        first: Result<LoaderOutput, String>,
        second: Result<LoaderOutput, String>,
    |
        #![trigger call_ensures(L::run, (&chain[i].loader, &one), first), call_ensures(L::run, (&chain[i].loader, &other), second)]
        0 <= i < chain.len() && one@ == other@ && call_ensures(
            L::run,
            (&chain[i].loader, &one),
            first,
        ) && call_ensures(L::run, (&chain[i].loader, &other), second) ==> run_reply_view(first)
            == run_reply_view(second)
}

/// With pure loaders, a context that waits for a step can get one answer
/// only.
pub proof fn lemma_pure_answer_is_one<L: Loader>(
    chain: Seq<LoaderItem<L>>,
    context: LoaderContextView,
    one: LoaderEvent,
    other: LoaderEvent,
)
    requires
        pure_chain(chain),
        context.chain.len() == chain.len(),
        context.answers(one),
        context.answers(other),
        answered(chain, context, one),
        answered(chain, context, other),
    ensures
        one == other,
{
    let i = context.loader_index as int;
    match (one, other) {
        (LoaderEvent::Pitched(a), LoaderEvent::Pitched(b)) => {
            let (c1, r1) = choose|c: LoaderContext, r: Result<PitchOutcome, String>|
                c@ == context && #[trigger] call_ensures(L::pitch, (&chain[i].loader, &c), r)
                    && pitch_reply_view(r) == a;
            let (c2, r2) = choose|c: LoaderContext, r: Result<PitchOutcome, String>|
                c@ == context && #[trigger] call_ensures(L::pitch, (&chain[i].loader, &c), r)
                    && pitch_reply_view(r) == b;
            assert(pitch_reply_view(r1) == pitch_reply_view(r2));
        },
        (LoaderEvent::Ran(a), LoaderEvent::Ran(b)) => {
            let (c1, r1) = choose|c: LoaderContext, r: Result<LoaderOutput, String>|
                c@ == context && #[trigger] call_ensures(L::run, (&chain[i].loader, &c), r)
                    && run_reply_view(r) == a;
            let (c2, r2) = choose|c: LoaderContext, r: Result<LoaderOutput, String>|
                c@ == context && #[trigger] call_ensures(L::run, (&chain[i].loader, &c), r)
                    && run_reply_view(r) == b;
            assert(run_reply_view(r1) == run_reply_view(r2));
        },
        _ => {},
    }
}

/// What a pure chain answers to a context that waits for a step.
pub open spec fn answer_of<L: Loader>(chain: Seq<LoaderItem<L>>, context: LoaderContextView) -> LoaderEvent {
    choose|event: LoaderEvent| context.answers(event) && answered(chain, context, event)
}

/// Determinism of the runner. With pure loaders, two complete runs of one
/// chain from one start, each step answered by the loader under the cursor,
/// consist of the same events and end alike: the same payload, the same
/// records, the same error. So repeated calls of `run_loaders` on the same
/// resource, chain and source return the same.
pub proof fn lemma_pure_runs_are_determined<L: Loader>(
    chain: Seq<LoaderItem<L>>,
    start: LoaderContextView,
    one: Seq<LoaderEvent>,
    other: Seq<LoaderEvent>,
)
    requires
        pure_chain(chain),
        start.well_formed(),
        start.chain.len() == chain.len(),
        start.is_complete_run(one),
        start.is_complete_run(other),
        answered_by(chain, start, one),
        answered_by(chain, start, other),
    ensures
        one == other,
        start.replay(one).result() == start.replay(other).result(),
{
    let oracle = |context: LoaderContextView| answer_of(chain, context);
    lemma_follows_answers(chain, start, one);
    lemma_follows_answers(chain, start, other);
    lemma_runs_are_determined(start, oracle, one, other);
}

/// A run answered by a pure chain follows the chain's answers.
proof fn lemma_follows_answers<L: Loader>(
    chain: Seq<LoaderItem<L>>,
    start: LoaderContextView,
    events: Seq<LoaderEvent>,
)
    requires
        pure_chain(chain),
        start.well_formed(),
        start.chain.len() == chain.len(),
        start.is_run(events),
        answered_by(chain, start, events),
    ensures
        start.follows(|context: LoaderContextView| answer_of(chain, context), events),
{
    let oracle = |context: LoaderContextView| answer_of(chain, context);
    assert forall|k: int| 0 <= k < events.len() implies #[trigger] events[k] == oracle(
        start.replay(events.take(k)),
    ) by {
        let context = start.replay(events.take(k));
        lemma_run_prefix(start, events, k);
        lemma_run_is_bounded(start, events.take(k));
        assert(context.answers(events[k]));
        assert(answered(chain, context, events[k]));
        let chosen = answer_of(chain, context);
        lemma_pure_answer_is_one(chain, context, events[k], chosen);
    }
}

fn collect_infos<L>(chain: &Vec<LoaderItem<L>>) -> (infos: Vec<LoaderInfo>)
    ensures
        loader_info_views(infos@) == chain_infos(chain@),
{
    let mut infos: Vec<LoaderInfo> = Vec::new();
    let mut i: usize = 0;
    while i < chain.len()
        invariant
            i <= chain.len(),
            infos@.len() == i,
            loader_info_views(infos@) == chain_infos(chain@.take(i as int)),
        decreases chain.len() - i,
    {
        let ghost earlier = infos@;
        infos.push(
            LoaderInfo { identifier: chain[i].identifier.clone(), accepts: chain[i].accepts },
        );
        i += 1;
        assert forall|k: int| 0 <= k < i implies loader_info_views(infos@)[k] == chain_infos(
            chain@.take(i as int),
        )[k] by {
            if k < i - 1 {
                assert(loader_info_views(earlier)[k] == chain_infos(chain@.take(i - 1))[k]);
            }
        }
        assert(loader_info_views(infos@) =~= chain_infos(chain@.take(i as int)));
    }
    assert(chain@.take(chain.len() as int) =~= chain@);
    infos
}

/// Runs the chain over the resource: the pitching pass from the last loader
/// to the first, then, unless a pitch step cut the pipeline short, the
/// normal pass from the first loader to the last. Each step is answered by
/// the loader under the cursor, called with the context as it stands, and
/// the answer is handed to the context. What is returned is how the context
/// ended after these answers: the final payload with all that was recorded,
/// or the error of the step that failed.
pub fn run_loaders<L: Loader>(
    resource: ResourceData,
    chain: &Vec<LoaderItem<L>>,
    source: Content,
) -> (result: Result<LoaderResult, LoaderError>)
    ensures
        exists|events: Seq<LoaderEvent>|
            #![trigger LoaderContextView::start(resource@, chain_infos(chain@), source@).replay(events)]
            {
                let start = LoaderContextView::start(resource@, chain_infos(chain@), source@);
                &&& start.is_complete_run(events)
                &&& answered_by(chain@, start, events)
                &&& start.replay(events).result() == Some(run_result_view(result))
            },
        chain.len() == 0 ==> run_result_view(result) == Ok::<LoaderResultView, LoaderErrorView>(
            LoaderResultView {
                content: source@,
                source_map: None,
                file_dependencies: Seq::empty(),
                assets: Seq::empty(),
                diagnostics: Seq::empty(),
            },
        ),
        result matches Err(error) ==> error@.resource_path == resource@.path && exists|i: int|
            0 <= i < chain.len() && error@.loader == #[trigger] chain[i].identifier@,
{
    let infos = collect_infos(chain);
    let mut context = LoaderContext::new(resource, infos, source);
    let ghost start = context@;
    let ghost mut events: Seq<LoaderEvent> = Seq::empty();
    proof {
        broadcast use vstd::std_specs::vec::axiom_spec_len;

        lemma_start_is_well_formed(resource@, chain_infos(chain@), source@);
        assert(chain@.len() == chain.len());
    }
    let mut action = context.next_action();
    while action != Action::Done
        invariant
            start == LoaderContextView::start(resource@, chain_infos(chain@), source@),
            context@ == start.replay(events),
            start.is_run(events),
            answered_by(chain@, start, events),
            chain@.len() <= usize::MAX,
            context@.well_formed(),
            context@.chain == chain_infos(chain@),
            chain.len() == 0 ==> context@ == start,
            action == context@.next_action(),
        decreases context@.remaining_steps(),
    {
        let ghost before = context@;
        let ghost event;
        match action {
            Action::Pitch { loader } => {
                let reply = chain[loader].loader.pitch(&context);
                proof {
                    event = LoaderEvent::Pitched(pitch_reply_view(reply));
                    assert(call_ensures(L::pitch, (&chain[loader as int].loader, &context), reply));
                    assert(answered(chain@, before, event));
                }
                context.pitched(reply);
            },
            Action::Run { loader } => {
                let reply = chain[loader].loader.run(&context);
                proof {
                    event = LoaderEvent::Ran(run_reply_view(reply));
                    assert(call_ensures(L::run, (&chain[loader as int].loader, &context), reply));
                    assert(answered(chain@, before, event));
                }
                context.ran(reply);
            },
            Action::Done => {
                proof {
                    event = arbitrary();
                }
            },
        }
        proof {
            lemma_replay_push(start, events, event);
            lemma_run_push(start, events, event);
            lemma_answered_push(chain@, start, events, event);
            lemma_step_keeps_well_formed(before, event);
            lemma_step_makes_progress(before, event);
            events = events.push(event);
        }
        action = context.next_action();
    }
    proof {
        lemma_errors_name_loader_and_resource(resource@, chain_infos(chain@), source@, events);
        if context@.control is Failed {
            let error = context@.control->Failed_0;
            let i = choose|i: int|
                0 <= i < chain_infos(chain@).len() && error.loader == #[trigger] chain_infos(
                    chain@,
                )[i].identifier;
            assert(chain_infos(chain@)[i].identifier == chain[i].identifier@);
        }
    }
    match context.into_result() {
        Some(result) => result,
        None => unreached(),
    }
}

/// The host's hook into the runner: it sees the chain that was resolved for
/// a resource before any loader is called, and may hand back another.
pub trait LoaderRunnerPlugin<L> {
    fn process_chain(&self, resource: &ResourceData, chain: Vec<LoaderItem<L>>) -> (effective:
        Vec<LoaderItem<L>>)
    ;
}

/// Lets the plugin see the chain, then runs the chain that the plugin handed
/// back. The result is that of a complete run, over the resource and its
/// source, of the chain that the plugin answered with, each step answered by
/// the loader of that chain that was under the cursor.
pub fn run_loaders_with_plugin<L: Loader, P: LoaderRunnerPlugin<L>>(
    plugin: &P,
    resource: ResourceData,
    chain: Vec<LoaderItem<L>>,
    source: Content,
) -> (result: Result<LoaderResult, LoaderError>)
    ensures
        exists|effective: Vec<LoaderItem<L>>, events: Seq<LoaderEvent>|
            #![trigger LoaderContextView::start(resource@, chain_infos(effective@), source@).replay(events)]
            {
                let start = LoaderContextView::start(resource@, chain_infos(effective@), source@);
                &&& call_ensures(P::process_chain, (plugin, &resource, chain), effective)
                &&& start.is_complete_run(events)
                &&& answered_by(effective@, start, events)
                &&& start.replay(events).result() == Some(run_result_view(result))
                &&& result matches Err(error) ==> exists|i: int|
                    0 <= i < effective.len() && error@.loader == #[trigger] effective[i].identifier@
            },
        result matches Err(error) ==> error@.resource_path == resource@.path,
{
    let effective = plugin.process_chain(&resource, chain);
    let result = run_loaders(resource, &effective, source);
    proof {
        let start = LoaderContextView::start(resource@, chain_infos(effective@), source@);
        let events = choose|events: Seq<LoaderEvent>|
            {
                &&& (#[trigger] start.replay(events)).result() == Some(run_result_view(result))
                &&& start.is_complete_run(events)
                &&& answered_by(effective@, start, events)
            };
        assert(start.replay(events).result() == Some(run_result_view(result)));
    }
    result
}

} // verus!
