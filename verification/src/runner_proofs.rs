//! What holds of every pipeline run: the order of the steps, what ends a
//! run, and that a run is determined by what the loaders answer.

use vstd::prelude::*;
use crate::content::ContentView;
use crate::loader::{
    FailureReasonView, LoaderErrorView, LoaderInfoView, LoaderOutputView, LoaderResultView,
    PitchOutcomeView,
};
use crate::resource::ResourceDataView;
use crate::runner::{Action, ControlView, LoaderContextView, LoaderEvent};

verus! {

/// A pipeline starts well formed, and with its whole cost still ahead: two
/// steps for each loader.
pub proof fn lemma_start_is_well_formed(
    resource: ResourceDataView,
    chain: Seq<LoaderInfoView>,
    source: ContentView,
)
    ensures
        LoaderContextView::start(resource, chain, source).well_formed(),
        LoaderContextView::start(resource, chain, source).remaining_steps() == 2 * chain.len(),
{
}

/// An event leaves resource and chain as they were and keeps the context
/// well formed.
pub proof fn lemma_step_keeps_well_formed(context: LoaderContextView, event: LoaderEvent)
    requires
        context.well_formed(),
    ensures
        context.step(event).well_formed(),
        context.step(event).resource == context.resource,
        context.step(event).chain == context.chain,
{
    crate::content::lemma_converted_kind(context.content, context.content.kind());
    match event {
        LoaderEvent::Pitched(_) => {
            if context.chain.len() > 0 {
                crate::content::lemma_converted_kind(context.content, context.chain[0].accepts);
            }
        },
        LoaderEvent::Ran(reply) => {
            if reply is Ok && context.loader_index + 1 < context.chain.len() {
                crate::content::lemma_converted_kind(
                    reply->Ok_0.content,
                    context.chain[context.loader_index as int + 1].accepts,
                );
            }
        },
    }
}

/// An event that answers the step a context waits for brings the pipeline
/// strictly nearer to its end.
pub proof fn lemma_step_makes_progress(context: LoaderContextView, event: LoaderEvent)
    requires
        context.answers(event),
    ensures
        context.step(event).remaining_steps() < context.remaining_steps(),
{
}

/// A pipeline that has ended takes no notice of further events.
pub proof fn lemma_end_is_final(context: LoaderContextView, event: LoaderEvent)
    requires
        context.next_action() is Done,
    ensures
        context.step(event) == context,
{
}

/// Replaying a sequence with one more event is replaying the sequence and
/// then taking the event.
pub proof fn lemma_replay_push(
    context: LoaderContextView,
    events: Seq<LoaderEvent>,
    event: LoaderEvent,
)
    ensures
        context.replay(events.push(event)) == context.replay(events).step(event),
{
    assert(events.push(event).drop_last() =~= events);
}

/// A run stays a run when an event is added that answers the step the
/// context has come to wait for.
pub proof fn lemma_run_push(
    context: LoaderContextView,
    events: Seq<LoaderEvent>,
    event: LoaderEvent,
)
    requires
        context.is_run(events),
        context.replay(events).answers(event),
    ensures
        context.is_run(events.push(event)),
{
    let longer = events.push(event);
    assert forall|k: int| 0 <= k < longer.len() implies #[trigger] context.replay(
        longer.take(k),
    ).answers(longer[k]) by {
        if k < events.len() {
            assert(longer.take(k) =~= events.take(k));
        } else {
            assert(longer.take(k) =~= events);
        }
    }
}

/// The beginning of a run is a run.
pub proof fn lemma_run_prefix(context: LoaderContextView, events: Seq<LoaderEvent>, length: int)
    requires
        context.is_run(events),
        0 <= length <= events.len(),
    ensures
        context.is_run(events.take(length)),
{
    let shorter = events.take(length);
    assert forall|k: int| 0 <= k < shorter.len() implies #[trigger] context.replay(
        shorter.take(k),
    ).answers(shorter[k]) by {
        assert(shorter.take(k) =~= events.take(k));
    }
}

/// Along a run the context stays well formed, keeps resource and chain, and
/// the steps taken plus the steps that may remain never exceed what the
/// start allowed for.
pub proof fn lemma_run_is_bounded(context: LoaderContextView, events: Seq<LoaderEvent>)
    requires
        context.well_formed(),
        context.is_run(events),
    ensures
        context.replay(events).well_formed(),
        context.replay(events).resource == context.resource,
        context.replay(events).chain == context.chain,
        events.len() + context.replay(events).remaining_steps() <= context.remaining_steps(),
    decreases events.len(),
{
    if events.len() > 0 {
        let earlier = events.drop_last();
        lemma_run_prefix(context, events, events.len() - 1);
        lemma_run_is_bounded(context, earlier);
        assert(events.take(events.len() - 1) =~= earlier);
        lemma_step_keeps_well_formed(context.replay(earlier), events.last());
        lemma_step_makes_progress(context.replay(earlier), events.last());
    }
}

/// No run of a pipeline is longer than two steps for each loader of its
/// chain.
pub proof fn lemma_run_length(
    resource: ResourceDataView,
    chain: Seq<LoaderInfoView>,
    source: ContentView,
    events: Seq<LoaderEvent>,
)
    requires
        LoaderContextView::start(resource, chain, source).is_run(events),
    ensures
        events.len() <= 2 * chain.len(),
{
    lemma_start_is_well_formed(resource, chain, source);
    lemma_run_is_bounded(LoaderContextView::start(resource, chain, source), events);
}

/// Two sequences of events that follow the same oracle from the same context
/// agree as far as both reach.
proof fn lemma_common_prefix(
    context: LoaderContextView,
    oracle: spec_fn(LoaderContextView) -> LoaderEvent,
    one: Seq<LoaderEvent>,
    other: Seq<LoaderEvent>,
    length: int,
)
    requires
        context.follows(oracle, one),
        context.follows(oracle, other),
        0 <= length <= one.len(),
        length <= other.len(),
    ensures
        one.take(length) == other.take(length),
    decreases length,
{
    if length == 0 {
        assert(one.take(0) =~= other.take(0));
    } else {
        lemma_common_prefix(context, oracle, one, other, length - 1);
        assert(one[length - 1] == oracle(context.replay(one.take(length - 1))));
        assert(other[length - 1] == oracle(context.replay(other.take(length - 1))));
        assert(one.take(length) =~= one.take(length - 1).push(one[length - 1]));
        assert(other.take(length) =~= other.take(length - 1).push(other[length - 1]));
    }
}

/// Determinism. With loaders whose answers depend on nothing but the
/// context shown to them, a pipeline has one run to its end: two complete
/// runs from the same start consist of the same events and end in the same
/// context, so with the same payload, the same recorded side effects and the
/// same error.
pub proof fn lemma_runs_are_determined(
    context: LoaderContextView,
    oracle: spec_fn(LoaderContextView) -> LoaderEvent,
    one: Seq<LoaderEvent>,
    other: Seq<LoaderEvent>,
)
    requires
        context.is_complete_run(one),
        context.is_complete_run(other),
        context.follows(oracle, one),
        context.follows(oracle, other),
    ensures
        one == other,
        context.replay(one) == context.replay(other),
        context.replay(one).result() == context.replay(other).result(),
{
    if one.len() < other.len() {
        lemma_common_prefix(context, oracle, one, other, one.len() as int);
        assert(one.take(one.len() as int) =~= one);
        assert(context.replay(other.take(one.len() as int)).answers(other[one.len() as int]));
    } else if other.len() < one.len() {
        lemma_common_prefix(context, oracle, one, other, other.len() as int);
        assert(other.take(other.len() as int) =~= other);
        assert(context.replay(one.take(other.len() as int)).answers(one[other.len() as int]));
    } else {
        lemma_common_prefix(context, oracle, one, other, one.len() as int);
        assert(one.take(one.len() as int) =~= one);
        assert(other.take(other.len() as int) =~= other);
    }
}

/// That many pitch steps which all let the pipeline continue.
pub open spec fn continues(count: nat) -> Seq<LoaderEvent> {
    Seq::new(count, |i: int| LoaderEvent::Pitched(Ok(PitchOutcomeView::Continue)))
}

/// Pitching runs from the back of the chain to the front. After a number of
/// pitch steps that all let the pipeline continue, the context waits for the
/// pitch step of the loader that many places before the last one, and
/// payload and records are untouched. After as many such steps as there are
/// loaders, the pipeline enters the normal pass at the first loader.
pub proof fn lemma_pitching_runs_backwards(
    resource: ResourceDataView,
    chain: Seq<LoaderInfoView>,
    source: ContentView,
    count: nat,
)
    requires
        count <= chain.len(),
        chain.len() > 0,
    ensures
        ({
            let start = LoaderContextView::start(resource, chain, source);
            let reached = start.replay(continues(count));
            &&& start.is_run(continues(count))
            &&& count < chain.len() ==> reached == (LoaderContextView {
                loader_index: (chain.len() - 1 - count) as nat,
                ..start
            }) && reached.next_action() == (Action::Pitch {
                loader: (chain.len() - 1 - count) as usize,
            })
            &&& count == chain.len() ==> reached == (LoaderContextView {
                loader_index: 0,
                ..start
            }).entering(0)
        }),
    decreases count,
{
    let start = LoaderContextView::start(resource, chain, source);
    if count == 0 {
        assert(continues(0) =~= Seq::empty());
    } else {
        let earlier = (count - 1) as nat;
        lemma_pitching_runs_backwards(resource, chain, source, earlier);
        let event = LoaderEvent::Pitched(Ok(PitchOutcomeView::Continue));
        assert(continues(count) =~= continues(earlier).push(event));
        lemma_replay_push(start, continues(earlier), event);
        lemma_run_push(start, continues(earlier), event);
    }
}

/// A short circuit ends the pipeline on the spot. The payload given is the
/// output, exactly; what was recorded before stays; no pitch step of a
/// loader further to the front and no normal step follows.
pub proof fn lemma_short_circuit_ends_the_run(context: LoaderContextView, content: ContentView)
    requires
        context.awaits_pitch(),
    ensures
        ({
            let ended = context.after_pitch(Ok(PitchOutcomeView::ShortCircuit(content)));
            &&& ended.next_action() is Done
            &&& ended.result() == Some(
                Ok::<LoaderResultView, LoaderErrorView>(
                    LoaderResultView { content, ..context.produced() },
                ),
            )
            &&& forall|event: LoaderEvent| #[trigger] ended.step(event) == ended
        }),
{
}

/// The normal pass runs from the front of the chain to the back. A normal
/// step that succeeds moves the cursor to the next loader and never back
/// into the pitching pass: the pipeline then waits for the normal step of
/// the next loader, or has ended, finished after the last loader or failed
/// on a payload that the next loader does not accept.
pub proof fn lemma_normal_pass_runs_forwards(context: LoaderContextView, output: LoaderOutputView)
    requires
        context.awaits_run(),
    ensures
        ({
            let next = context.after_run(Ok(output));
            let position = context.loader_index + 1;
            &&& next.phase is Normal
            &&& next.loader_index == position
            &&& next.next_action() == (Action::Run { loader: position as usize })
                || next.next_action() is Done
            &&& position == context.chain.len() ==> next.result() == Some(
                Ok::<LoaderResultView, LoaderErrorView>(context.absorbing(output).produced()),
            )
            &&& position < context.chain.len() && output.content.convertible(
                context.chain[position as int].accepts,
            ) ==> next.next_action() == (Action::Run { loader: position as usize })
                && next.content == output.content.converted(context.chain[position as int].accepts)
        }),
{
}

/// That many normal steps which all succeed, with these outputs.
pub open spec fn successes(outputs: Seq<LoaderOutputView>) -> Seq<LoaderEvent> {
    Seq::new(outputs.len(), |i: int| LoaderEvent::Ran(Ok(outputs[i])))
}

/// The normal pass visits the loaders one after the other. From a context
/// that waits for the normal step of a loader, after a number of normal
/// steps that all succeed and each hand over a payload that the loader
/// after it accepts, the context waits for the normal step of the loader
/// that many places further on; after the step of the last loader the
/// pipeline has finished, and its payload is what that loader handed back.
pub proof fn lemma_normal_pass_in_order(context: LoaderContextView, outputs: Seq<LoaderOutputView>)
    requires
        context.awaits_run(),
        context.loader_index + outputs.len() <= context.chain.len(),
        forall|m: int|
            0 <= m < outputs.len() && context.loader_index + m + 1 < context.chain.len() ==> (
            #[trigger] outputs[m]).content.convertible(
                context.chain[context.loader_index + m + 1].accepts,
            ),
    ensures
        ({
            let reached = context.replay(successes(outputs));
            let position = context.loader_index + outputs.len();
            &&& context.is_run(successes(outputs))
            &&& reached.phase is Normal
            &&& reached.chain == context.chain
            &&& reached.loader_index == position
            &&& position < context.chain.len() ==> reached.awaits_run()
                && reached.next_action() == (Action::Run {
                loader: position as usize,
            })
            &&& position == context.chain.len() ==> reached.next_action() is Done
                && reached.control is Finished
            &&& position == context.chain.len() && outputs.len() > 0 ==> reached.content
                == outputs.last().content
        }),
    decreases outputs.len(),
{
    if outputs.len() == 0 {
        assert(successes(outputs) =~= Seq::empty());
    } else {
        let earlier = outputs.drop_last();
        assert forall|m: int|
            0 <= m < earlier.len() && context.loader_index + m + 1
                < context.chain.len() implies (#[trigger] earlier[m]).content.convertible(
            context.chain[context.loader_index + m + 1].accepts,
        ) by {
            assert(earlier[m] == outputs[m]);
        }
        lemma_normal_pass_in_order(context, earlier);
        let event = LoaderEvent::Ran(Ok(outputs.last()));
        assert(successes(outputs) =~= successes(earlier).push(event));
        lemma_replay_push(context, successes(earlier), event);
        lemma_run_push(context, successes(earlier), event);
        assert(outputs[outputs.len() - 1] == outputs.last());
    }
}

/// A loader step that fails ends the pipeline. The error names the loader
/// whose step it was and the path of the resource, and carries the loader's
/// message; no later loader runs.
pub proof fn lemma_failure_ends_the_run(context: LoaderContextView, event: LoaderEvent, message: Seq<char>)
    requires
        context.answers(event),
        event == LoaderEvent::Pitched(Err(message)) || event == LoaderEvent::Ran(Err(message)),
    ensures
        ({
            let ended = context.step(event);
            &&& ended.next_action() is Done
            &&& ended.result() == Some(
                Err::<LoaderResultView, LoaderErrorView>(
                    LoaderErrorView {
                        loader: context.chain[context.loader_index as int].identifier,
                        resource_path: context.resource.path,
                        phase: context.phase,
                        reason: FailureReasonView::Reported(message),
                    },
                ),
            )
            &&& forall|later: LoaderEvent| #[trigger] ended.step(later) == ended
        }),
{
}

/// Whatever the loaders answer, a pipeline that ends in failure names a
/// loader of its chain and the path of its resource.
pub proof fn lemma_errors_name_loader_and_resource(
    resource: ResourceDataView,
    chain: Seq<LoaderInfoView>,
    source: ContentView,
    events: Seq<LoaderEvent>,
)
    requires
        LoaderContextView::start(resource, chain, source).is_run(events),
    ensures
        LoaderContextView::start(resource, chain, source).replay(events).control matches ControlView::Failed(
            error,
        ) ==> error.resource_path == resource.path && exists|i: int|
            0 <= i < chain.len() && error.loader == #[trigger] chain[i].identifier,
    decreases events.len(),
{
    let start = LoaderContextView::start(resource, chain, source);
    lemma_start_is_well_formed(resource, chain, source);
    if events.len() > 0 {
        let earlier = events.drop_last();
        lemma_run_prefix(start, events, events.len() - 1);
        assert(events.take(events.len() - 1) =~= earlier);
        lemma_errors_name_loader_and_resource(resource, chain, source, earlier);
        lemma_run_is_bounded(start, earlier);
        let before = start.replay(earlier);
        let after = before.step(events.last());
        if after.control is Failed && !(before.control is Failed) {
            match events.last() {
                LoaderEvent::Pitched(reply) => {
                    if reply is Err {
                        assert(after.control->Failed_0.loader
                            == chain[before.loader_index as int].identifier);
                    } else {
                        assert(after.control->Failed_0.loader == chain[0].identifier);
                    }
                },
                LoaderEvent::Ran(reply) => {
                    if reply is Err {
                        assert(after.control->Failed_0.loader
                            == chain[before.loader_index as int].identifier);
                    } else {
                        assert(after.control->Failed_0.loader == chain[before.loader_index as int
                            + 1].identifier);
                    }
                },
            }
        }
    }
}

} // verus!
