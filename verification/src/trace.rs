//! Whole runs: a command together with all the answers it got.

use crate::action::{ActionView, EventView};
use crate::run::{awaited, next_stage, pending_action, stage_ok, state_change, StageView};
use crate::song::SongView;
use crate::state::StateView;
use vstd::prelude::*;

verus! {

/// How far a command has come, and the playback state of its guild.
pub struct Progress<C> {
    pub stage: StageView,
    pub state: StateView<C>,
}

/// The progress after one awaited event.
pub open spec fn advance<C>(
    user: u64,
    songs: Seq<SongView>,
    at: Progress<C>,
    event: EventView<C>,
) -> Progress<C> {
    Progress {
        stage: next_stage(user, songs, at.stage, event),
        state: match state_change(at.stage, event) {
            Some(state) => state,
            None => at.state,
        },
    }
}

/// Each event is awaited when it comes.
pub open spec fn all_awaited<C>(
    user: u64,
    songs: Seq<SongView>,
    at: Progress<C>,
    events: Seq<EventView<C>>,
) -> bool
    decreases events.len(),
{
    events.len() == 0 || {
        &&& awaited(at.stage, songs.len(), events[0])
        &&& all_awaited(user, songs, advance(user, songs, at, events[0]), events.drop_first())
    }
}

/// The progress after all events.
pub open spec fn after<C>(
    user: u64,
    songs: Seq<SongView>,
    at: Progress<C>,
    events: Seq<EventView<C>>,
) -> Progress<C>
    decreases events.len(),
{
    if events.len() == 0 {
        at
    } else {
        after(user, songs, advance(user, songs, at, events[0]), events.drop_first())
    }
}

/// The actions that the events answer, in order.
pub open spec fn performed<C>(
    user: u64,
    songs: Seq<SongView>,
    at: Progress<C>,
    events: Seq<EventView<C>>,
) -> Seq<ActionView>
    decreases events.len(),
{
    if events.len() == 0 {
        Seq::empty()
    } else {
        seq![pending_action(at.stage)->0] + performed(
            user,
            songs,
            advance(user, songs, at, events[0]),
            events.drop_first(),
        )
    }
}

/// The measure of what a stage still has before it: first the phases, then the items of the
/// phase.
pub open spec fn phases_left(stage: StageView) -> nat {
    match stage {
        StageView::Channels => 4,
        StageView::Members { voice, next, found } => 3,
        StageView::Name { channel } => 2,
        StageView::Current => 2,
        StageView::QueueToShow => 2,
        StageView::QueueToSkip => 3,
        StageView::Skipping { upcoming } => 2,
        StageView::Script { actions, next } => 1,
        StageView::Finished => 0,
        StageView::Failed { error } => 0,
    }
}

/// The items left in the phase of a stage.
pub open spec fn items_left(stage: StageView) -> int {
    match stage {
        StageView::Members { voice, next, found } => voice.len() - next,
        StageView::Script { actions, next } => actions.len() - next,
        _ => 0,
    }
}

/// Every command ends: each awaited event ends a phase or, within a phase, one of its items.
pub proof fn law_every_event_is_progress<C>(
    user: u64,
    songs: Seq<SongView>,
    stage: StageView,
    event: EventView<C>,
)
    requires
        stage_ok(stage),
        awaited(stage, songs.len(), event),
    ensures
        stage_ok(next_stage(user, songs, stage, event)),
        items_left(next_stage(user, songs, stage, event)) >= 0,
        ({
            let next = next_stage(user, songs, stage, event);
            ||| phases_left(next) < phases_left(stage)
            ||| phases_left(next) == phases_left(stage) && items_left(next) < items_left(stage)
        }),
{
}

/// A command is over exactly if it has no pending action, and then it awaits no event.
pub proof fn law_over_means_nothing_pending<C>(stage: StageView, count: nat, event: EventView<C>)
    ensures
        pending_action(stage) is None <==> stage is Finished || stage is Failed,
        pending_action(stage) is None ==> !awaited(stage, count, event),
{
}

/// The actions of a script are performed one after the other, in the order of the script and
/// without gaps, up to the first failure; the command finishes exactly if all of them were
/// done, and a failure keeps its reason.
pub proof fn law_script_in_order<C>(
    user: u64,
    songs: Seq<SongView>,
    actions: Seq<ActionView>,
    next: nat,
    state: StateView<C>,
    events: Seq<EventView<C>>,
)
    requires
        next < actions.len(),
        all_awaited(
            user,
            songs,
            (Progress { stage: StageView::Script { actions, next }, state }),
            events,
        ),
    ensures
        ({
            let at = Progress { stage: StageView::Script { actions, next }, state };
            let end = after(user, songs, at, events);
            &&& next + events.len() <= actions.len()
            &&& performed(user, songs, at, events) == actions.subrange(
                next as int,
                (next + events.len()) as int,
            )
            &&& events.len() > 0 && events.last() is Failed <==> end.stage is Failed
            &&& end.stage is Failed ==> end.stage == (StageView::Failed {
                error: events.last()->Failed_0,
            })
            &&& end.stage is Finished <==> next + events.len() == actions.len() && !(
            events.last() is Failed)
            &&& forall|i: int| 0 <= i < events.len() - 1 ==> !(#[trigger] events[i] is Failed)
        }),
    decreases events.len(),
{
    let at = Progress { stage: StageView::Script { actions, next }, state };
    if events.len() > 0 {
        let rest = events.drop_first();
        let step = advance(user, songs, at, events[0]);
        assert(all_awaited(user, songs, step, rest));
        assert(after(user, songs, at, events) == after(user, songs, step, rest));
        if step.stage is Script {
            law_script_in_order(user, songs, actions, next + 1, step.state, rest);
            assert(performed(user, songs, at, events) =~= actions.subrange(
                next as int,
                (next + events.len()) as int,
            ));
            if rest.len() > 0 {
                assert(rest.last() == events.last());
            }
            assert forall|i: int| 0 <= i < events.len() - 1 implies !(#[trigger] events[i]
                is Failed) by {
                if i > 0 {
                    assert(rest[i - 1] == events[i]);
                }
            }
        } else {
            assert(rest.len() == 0) by {
                if rest.len() > 0 {
                    assert(awaited(step.stage, songs.len(), rest[0]));
                }
            }
            assert(events.last() == events[0]);
            assert(performed(user, songs, step, rest) =~= Seq::<ActionView>::empty());
            assert(performed(user, songs, at, events) =~= actions.subrange(
                next as int,
                (next + events.len()) as int,
            ));
        }
    } else {
        assert(performed(user, songs, at, events) =~= actions.subrange(next as int, next as int));
    }
}

} // verus!
