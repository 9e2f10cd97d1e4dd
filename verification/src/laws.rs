//! What holds of the bot as a whole.

use crate::action::{ActionView, EventView};
use crate::command::BotCommand;
use crate::order::{is_order, law_order_is_complete};
use crate::run::{
    awaited, first_stage, join_script, leave_script, next_stage, pending_action, script_stage,
    search_stage, stage_ok, state_change, states_after, StageView,
};
use crate::script::{
    enqueue_all, enqueue_script, id_range, ids_valid, law_page_is_sent_in_full, no_voice_text,
    not_joined_text, only_reply, page_count, play_script, quoted, replies, restart,
    shuffle_script, skipped_text, titled, track_list_texts, upcoming_track,
};
use crate::song::SongView;
use crate::state::{state_of, StateView};
use crate::trace::{
    advance, after, all_awaited, law_every_event_is_progress, law_script_in_order, performed,
    Progress,
};
use vstd::prelude::*;

verus! {

/// Where a command begins.
pub open spec fn beginning<C>(
    command: BotCommand,
    state: StateView<C>,
    songs: Seq<SongView>,
    order: Seq<usize>,
) -> Progress<C> {
    Progress { stage: first_stage(command, state, songs, order), state }
}

/// Every track that is queued is one of the songs, under its own index.
pub open spec fn tracks_known(songs: Seq<SongView>, actions: Seq<ActionView>) -> bool {
    forall|i: int|
        0 <= i < actions.len() ==> (#[trigger] actions[i] matches ActionView::EnqueueTrack {
            id,
            path,
        } ==> id < songs.len() && path == songs[id as int].path)
}

spec fn stage_tracks_known(songs: Seq<SongView>, stage: StageView) -> bool {
    stage matches StageView::Script { actions, next } ==> tracks_known(songs, actions)
}

proof fn lemma_first_tracks<C>(
    command: BotCommand,
    state: StateView<C>,
    songs: Seq<SongView>,
    order: Seq<usize>,
)
    requires
        songs.len() <= usize::MAX,
        is_order(order, songs.len()),
    ensures
        stage_tracks_known(songs, first_stage(command, state, songs, order)),
{
    law_order_is_complete(order, songs.len());
    match command {
        BotCommand::Enqueue(id) => {
            assert(tracks_known(songs, enqueue_script(songs, id)));
        },
        BotCommand::Play(id) => {
            assert(tracks_known(songs, play_script(songs, id)));
        },
        BotCommand::Shuffle => {
            assert(tracks_known(songs, shuffle_script(songs, order)));
        },
        _ => {},
    }
}

proof fn lemma_tracks_known<C>(
    user: u64,
    songs: Seq<SongView>,
    at: Progress<C>,
    events: Seq<EventView<C>>,
)
    requires
        stage_ok(at.stage),
        stage_tracks_known(songs, at.stage),
        all_awaited(user, songs, at, events),
    ensures
        tracks_known(songs, performed(user, songs, at, events)),
    decreases events.len(),
{
    if events.len() > 0 {
        let step = advance(user, songs, at, events[0]);
        law_every_event_is_progress(user, songs, at.stage, events[0]);
        lemma_tracks_known(user, songs, step, events.drop_first());
        let rest = performed(user, songs, step, events.drop_first());
        let all = performed(user, songs, at, events);
        assert forall|i: int| 0 <= i < all.len() implies (
        #[trigger] all[i] matches ActionView::EnqueueTrack { id, path } ==> id < songs.len()
            && path == songs[id as int].path) by {
            if i > 0 {
                assert(all[i] == rest[i - 1]);
            }
        }
    }
}

/// Whatever command runs and whatever is answered: each track that is queued is one of the
/// songs, with its own file and index.
pub proof fn law_queued_tracks_are_songs<C>(
    user: u64,
    command: BotCommand,
    state: StateView<C>,
    songs: Seq<SongView>,
    order: Seq<usize>,
    events: Seq<EventView<C>>,
)
    requires
        0 < songs.len() <= usize::MAX,
        is_order(order, songs.len()),
        all_awaited(user, songs, beginning(command, state, songs, order), events),
    ensures
        tracks_known(
            songs,
            performed(user, songs, beginning(command, state, songs, order), events),
        ),
{
    lemma_first_tracks(command, state, songs, order);
    lemma_tracks_known(user, songs, beginning(command, state, songs, order), events);
}

/// The queue after some actions, as long as no track ends on its own.
pub open spec fn queue_after(queue: Seq<usize>, actions: Seq<ActionView>) -> Seq<usize>
    decreases actions.len(),
{
    if actions.len() == 0 {
        queue
    } else {
        let before = queue_after(queue, actions.drop_last());
        match actions.last() {
            ActionView::StopQueue => Seq::empty(),
            ActionView::SkipTrack => if before.len() > 0 {
                before.drop_first()
            } else {
                before
            },
            ActionView::EnqueueTrack { id, path } => before.push(id),
            _ => before,
        }
    }
}

/// A queue of songs stays a queue of songs: the answers about the queue that a command waits
/// for name songs whenever all tracks were queued by the bot.
pub proof fn law_queue_holds_songs(
    songs: Seq<SongView>,
    queue: Seq<usize>,
    actions: Seq<ActionView>,
)
    requires
        ids_valid(queue, songs.len()),
        tracks_known(songs, actions),
    ensures
        ids_valid(queue_after(queue, actions), songs.len()),
    decreases actions.len(),
{
    if actions.len() > 0 {
        let front = actions.drop_last();
        assert forall|i: int| 0 <= i < front.len() implies (
        #[trigger] front[i] matches ActionView::EnqueueTrack { id, path } ==> id < songs.len()
            && path == songs[id as int].path) by {
            assert(front[i] == actions[i]);
        }
        law_queue_holds_songs(songs, queue, front);
        assert(actions.last() == actions[actions.len() - 1]);
    }
}

proof fn lemma_enqueue_all(
    songs: Seq<SongView>,
    queue: Seq<usize>,
    front: Seq<ActionView>,
    ids: Seq<usize>,
)
    ensures
        queue_after(queue, front + enqueue_all(songs, ids)) == queue_after(queue, front) + ids,
    decreases ids.len(),
{
    let all = front + enqueue_all(songs, ids);
    if ids.len() == 0 {
        assert(all =~= front);
        assert(queue_after(queue, front) + ids =~= queue_after(queue, front));
    } else {
        lemma_enqueue_all(songs, queue, front, ids.drop_last());
        assert(all.drop_last() =~= front + enqueue_all(songs, ids.drop_last()));
        assert((queue_after(queue, front) + ids.drop_last()).push(ids.last()) =~= queue_after(
            queue,
            front,
        ) + ids);
    }
}

proof fn lemma_restart_queue(
    songs: Seq<SongView>,
    queue: Seq<usize>,
    ids: Seq<usize>,
    text: Seq<char>,
)
    ensures
        queue_after(queue, restart(songs, ids, text)) == ids,
{
    let front = seq![ActionView::StopQueue];
    let all = restart(songs, ids, text);
    assert(all.drop_last() =~= front + enqueue_all(songs, ids));
    assert(all.last() == ActionView::Reply(text));
    lemma_enqueue_all(songs, queue, front, ids);
    assert(queue_after(queue, front) =~= Seq::<usize>::empty());
    assert(Seq::<usize>::empty() + ids =~= ids);
}

/// `play` leaves all songs from the wanted one on in the queue, in order, or nothing if there
/// is no such song.
pub proof fn law_play_fills_the_queue(songs: Seq<SongView>, queue: Seq<usize>, id: Option<usize>)
    ensures
        queue_after(queue, play_script(songs, id)) == if id.unwrap_or(0) < songs.len() {
            id_range(id.unwrap_or(0) as nat, songs.len())
        } else {
            Seq::empty()
        },
{
    let start = id.unwrap_or(0);
    if start < songs.len() {
        let text = titled("Playing "@, songs, start);
        lemma_restart_queue(songs, queue, id_range(start as nat, songs.len()), text);
    } else {
        let all = play_script(songs, id);
        assert(all.drop_last() =~= seq![ActionView::StopQueue]);
        assert(queue_after(queue, all.drop_last()) =~= Seq::<usize>::empty());
    }
}

/// `shuffle` leaves every song in the queue exactly once.
pub proof fn law_shuffle_queues_every_song_once(
    songs: Seq<SongView>,
    queue: Seq<usize>,
    order: Seq<usize>,
)
    requires
        songs.len() <= usize::MAX,
        is_order(order, songs.len()),
    ensures
        queue_after(queue, shuffle_script(songs, order)) == order,
        order.len() == songs.len(),
        order.no_duplicates(),
        forall|id: usize| id < songs.len() ==> #[trigger] order.contains(id),
{
    law_order_is_complete(order, songs.len());
    lemma_restart_queue(
        songs,
        queue,
        order,
        titled("Shuffled. Playing "@, songs, order[0]),
    );
}

/// `enqueue` adds the song at the end of the queue; an index that names no song changes
/// nothing.
pub proof fn law_enqueue_adds_one(songs: Seq<SongView>, queue: Seq<usize>, id: usize)
    ensures
        queue_after(queue, enqueue_script(songs, id)) == if id < songs.len() {
            queue.push(id)
        } else {
            queue
        },
{
    let all = enqueue_script(songs, id);
    if id < songs.len() {
        let front = Seq::<ActionView>::empty();
        lemma_enqueue_all(songs, queue, front, seq![id]);
        assert(all.drop_last() =~= front + enqueue_all(songs, seq![id]));
        assert(queue_after(queue, front) == queue);
        assert(queue + seq![id] =~= queue.push(id));
    } else {
        assert(all.drop_last() =~= Seq::<ActionView>::empty());
        assert(queue_after(queue, all.drop_last()) == queue);
    }
}

/// `skip` drops the current track, and its reply announces the track that is then first in
/// the queue.
pub proof fn law_skip_announces_the_next_track<C>(
    user: u64,
    songs: Seq<SongView>,
    state: StateView<C>,
    queue: Seq<usize>,
)
    requires
        queue.len() > 0,
        ids_valid(queue, songs.len()),
    ensures
        ({
            let at = Progress { stage: StageView::QueueToSkip, state };
            let events = seq![EventView::<C>::Queue(queue), EventView::Done, EventView::Done];
            let done = performed(user, songs, at, events);
            let left = queue_after(queue, done);
            &&& all_awaited(user, songs, at, events)
            &&& after(user, songs, at, events) == (Progress { stage: StageView::Finished, state })
            &&& left == queue.drop_first()
            &&& done == seq![
                ActionView::ReadQueue,
                ActionView::SkipTrack,
                ActionView::Reply(
                    skipped_text(
                        songs,
                        if left.len() > 0 {
                            Some(left[0])
                        } else {
                            None
                        },
                    ),
                ),
            ]
        }),
{
    reveal_with_fuel(all_awaited, 4);
    reveal_with_fuel(after, 4);
    reveal_with_fuel(performed, 4);
    reveal_with_fuel(queue_after, 4);
    let at = Progress { stage: StageView::QueueToSkip, state };
    let events = seq![EventView::<C>::Queue(queue), EventView::Done, EventView::Done];
    assert(events.drop_first()[0] is Done);
    assert(events.drop_first().drop_first()[0] is Done);
    assert(events.drop_first().drop_first().drop_first().len() == 0);
    let done = performed(user, songs, at, events);
    let reply = ActionView::Reply(skipped_text(songs, upcoming_track(queue)));
    assert(done =~= seq![ActionView::ReadQueue, ActionView::SkipTrack, reply]);
    assert(done.drop_last() =~= seq![ActionView::ReadQueue, ActionView::SkipTrack]);
    assert(done.drop_last().drop_last() =~= seq![ActionView::ReadQueue]);
    assert(done.drop_last().drop_last().drop_last() =~= Seq::<ActionView>::empty());
}

/// A command that needs a voice channel, sent while none is joined, is answered by a hint at
/// `join` and does nothing else.
pub proof fn law_without_a_channel_there_is_only_the_hint<C>(
    user: u64,
    command: BotCommand,
    songs: Seq<SongView>,
    order: Seq<usize>,
    events: Seq<EventView<C>>,
)
    requires
        !(command is Join),
        !(command is TrackList),
        all_awaited(
            user,
            songs,
            beginning(command, StateView::<C>::NotJoined, songs, order),
            events,
        ),
    ensures
        ({
            let at = beginning(command, StateView::<C>::NotJoined, songs, order);
            let end = after(user, songs, at, events);
            &&& end.state is NotJoined
            &&& pending_action(end.stage) is None ==> end.stage is Finished && performed(
                user,
                songs,
                at,
                events,
            ) == only_reply(not_joined_text())
        }),
{
    let at = beginning(command, StateView::<C>::NotJoined, songs, order);
    let actions = only_reply(not_joined_text());
    assert(at.stage == (StageView::Script { actions, next: 0 }));
    law_script_in_order(user, songs, actions, 0, at.state, events);
    if events.len() > 0 {
        let step = advance(user, songs, at, events[0]);
        assert(all_awaited(user, songs, step, events.drop_first()));
        assert(events.drop_first().len() == 0);
        assert(after(user, songs, step, events.drop_first()) == step);
        assert(actions.subrange(0, 1) =~= actions);
    }
}

/// The stage belongs to a command that neither connects nor disconnects.
spec fn quiet(stage: StageView) -> bool {
    match stage {
        StageView::Channels => false,
        StageView::Members { voice, next, found } => false,
        StageView::Name { channel } => false,
        StageView::Script { actions, next } => forall|i: int|
            0 <= i < actions.len() ==> !(#[trigger] actions[i] is JoinChannel) && !(actions[i]
                is RemoveCall),
        _ => true,
    }
}

proof fn lemma_quiet<C>(
    user: u64,
    songs: Seq<SongView>,
    at: Progress<C>,
    events: Seq<EventView<C>>,
)
    requires
        stage_ok(at.stage),
        quiet(at.stage),
        all_awaited(user, songs, at, events),
    ensures
        after(user, songs, at, events).state == at.state,
    decreases events.len(),
{
    if events.len() > 0 {
        law_every_event_is_progress(user, songs, at.stage, events[0]);
        lemma_quiet(user, songs, advance(user, songs, at, events[0]), events.drop_first());
    }
}

/// Only `join` and `leave` change the playback state.
pub proof fn law_only_join_and_leave_change_the_state<C>(
    user: u64,
    command: BotCommand,
    state: StateView<C>,
    songs: Seq<SongView>,
    order: Seq<usize>,
    events: Seq<EventView<C>>,
)
    requires
        !(command is Join),
        !(command is Leave),
        all_awaited(user, songs, beginning(command, state, songs, order), events),
    ensures
        after(user, songs, beginning(command, state, songs, order), events).state == state,
{
    lemma_quiet(user, songs, beginning(command, state, songs, order), events);
}

/// Connecting and disconnecting are the last actions of their scripts.
spec fn changes_come_last(stage: StageView) -> bool {
    stage matches StageView::Script { actions, next } ==> forall|i: int|
        0 <= i < actions.len() - 1 ==> !(#[trigger] actions[i] is JoinChannel) && !(actions[i]
            is RemoveCall)
}

proof fn lemma_failure<C>(
    user: u64,
    songs: Seq<SongView>,
    at: Progress<C>,
    events: Seq<EventView<C>>,
)
    requires
        stage_ok(at.stage),
        changes_come_last(at.stage),
        all_awaited(user, songs, at, events),
    ensures
        !(after(user, songs, at, events).stage is Finished) ==> after(
            user,
            songs,
            at,
            events,
        ).state == at.state,
    decreases events.len(),
{
    if events.len() > 0 {
        let step = advance(user, songs, at, events[0]);
        law_every_event_is_progress(user, songs, at.stage, events[0]);
        if state_change(at.stage, events[0]) is Some {
            assert(step.stage is Finished);
            assert(all_awaited(user, songs, step, events.drop_first()));
            if events.drop_first().len() > 0 {
                assert(awaited(step.stage, songs.len(), events.drop_first()[0]));
            }
            assert(after(user, songs, step, events.drop_first()) == step);
        } else {
            lemma_failure(user, songs, step, events.drop_first());
        }
    }
}

/// Until a command has finished, and for good if it fails, the playback state is the one it
/// began with.
pub proof fn law_unfinished_command_changes_nothing<C>(
    user: u64,
    command: BotCommand,
    state: StateView<C>,
    songs: Seq<SongView>,
    order: Seq<usize>,
    events: Seq<EventView<C>>,
)
    requires
        all_awaited(user, songs, beginning(command, state, songs, order), events),
    ensures
        !(after(user, songs, beginning(command, state, songs, order), events).stage is Finished)
            ==> after(user, songs, beginning(command, state, songs, order), events).state == state,
{
    lemma_failure(user, songs, beginning(command, state, songs, order), events);
}

/// The events of a voice channel search: the members of each channel in turn.
pub open spec fn member_events<C>(lists: Seq<Seq<u64>>) -> Seq<EventView<C>> {
    lists.map_values(|members: Seq<u64>| EventView::<C>::Members(members))
}

proof fn lemma_search<C>(
    user: u64,
    songs: Seq<SongView>,
    voice: Seq<u64>,
    lists: Seq<Seq<u64>>,
    next: nat,
    found: Option<u64>,
    state: StateView<C>,
)
    requires
        next <= voice.len(),
        lists.len() == voice.len() - next,
    ensures
        ({
            let at = Progress { stage: search_stage(voice, next, found), state };
            let end = after(user, songs, at, member_events::<C>(lists));
            &&& all_awaited(user, songs, at, member_events::<C>(lists))
            &&& end.state == state
            &&& (forall|i: int| 0 <= i < lists.len() ==> !(#[trigger] lists[i]).contains(user))
                ==> end.stage == search_stage(voice, voice.len(), found)
            &&& forall|i: int|
                0 <= i < lists.len() && (#[trigger] lists[i]).contains(user) && (forall|j: int|
                    i < j < lists.len() ==> !(#[trigger] lists[j]).contains(user))
                    ==> end.stage == (StageView::Name { channel: voice[next + i] })
        }),
    decreases lists.len(),
{
    let at = Progress { stage: search_stage(voice, next, found), state };
    let events = member_events::<C>(lists);
    if lists.len() > 0 {
        let rest = lists.drop_first();
        let now = if lists[0].contains(user) {
            Some(voice[next as int])
        } else {
            found
        };
        let step = advance(user, songs, at, events[0]);
        assert(step.stage == search_stage(voice, next + 1, now));
        lemma_search(user, songs, voice, rest, next + 1, now, state);
        assert(events.drop_first() =~= member_events::<C>(rest));
        let end = after(user, songs, at, events);
        if forall|i: int| 0 <= i < lists.len() ==> !(#[trigger] lists[i]).contains(user) {
            assert forall|i: int| 0 <= i < rest.len() implies !(#[trigger] rest[i]).contains(
                user,
            ) by {
                assert(rest[i] == lists[i + 1]);
            }
        }
        assert forall|i: int|
            0 <= i < lists.len() && (#[trigger] lists[i]).contains(user) && (forall|j: int|
                i < j < lists.len() ==> !(#[trigger] lists[j]).contains(user)) implies end.stage
            == (StageView::Name { channel: voice[next + i] }) by {
            assert forall|k: int| i <= k < rest.len() implies !(#[trigger] rest[k]).contains(
                user,
            ) by {
                assert(rest[k] == lists[k + 1]);
            }
            if i > 0 {
                assert(rest[i - 1] == lists[i]);
                assert forall|j: int| i - 1 < j < rest.len() implies !(
                #[trigger] rest[j]).contains(user) by {}
                assert(voice[(next + 1) + (i - 1)] == voice[next + i]);
            }
        }
    }
}

/// `join` goes to the last of the voice channels that has the user in it, and tells a user
/// who is in none of them so.
pub proof fn law_join_finds_the_user<C>(
    user: u64,
    songs: Seq<SongView>,
    voice: Seq<u64>,
    lists: Seq<Seq<u64>>,
    state: StateView<C>,
)
    requires
        lists.len() == voice.len(),
    ensures
        ({
            let at = Progress { stage: search_stage(voice, 0, None), state };
            let end = after(user, songs, at, member_events::<C>(lists));
            &&& all_awaited(user, songs, at, member_events::<C>(lists))
            &&& end.state == state
            &&& (forall|i: int| 0 <= i < lists.len() ==> !(#[trigger] lists[i]).contains(user))
                ==> end.stage == script_stage(only_reply(no_voice_text()))
            &&& forall|i: int|
                0 <= i < lists.len() && (#[trigger] lists[i]).contains(user) && (forall|j: int|
                    i < j < lists.len() ==> !(#[trigger] lists[j]).contains(user))
                    ==> end.stage == (StageView::Name { channel: voice[i] })
        }),
{
    lemma_search(user, songs, voice, lists, 0, None, state);
}

proof fn lemma_joined<C>(
    user: u64,
    songs: Seq<SongView>,
    at: Progress<C>,
    events: Seq<EventView<C>>,
)
    requires
        stage_ok(at.stage),
        changes_come_last(at.stage),
        at.state is NotJoined,
        all_awaited(user, songs, at, events),
        after(user, songs, at, events).state is Joined,
    ensures
        events.len() > 0,
        events.last() is Joined,
        performed(user, songs, at, events).len() == events.len(),
        performed(user, songs, at, events).last() is JoinChannel,
        after(user, songs, at, events).stage is Finished,
        after(user, songs, at, events).state == (StateView::Joined {
            channel_name: performed(user, songs, at, events).last()->name,
            call: events.last()->Joined_0,
        }),
    decreases events.len(),
{
    if events.len() > 0 {
        let step = advance(user, songs, at, events[0]);
        let rest = events.drop_first();
        law_every_event_is_progress(user, songs, at.stage, events[0]);
        assert(all_awaited(user, songs, step, rest));
        if state_change(at.stage, events[0]) is Some {
            assert(step.stage is Finished);
            if rest.len() > 0 {
                assert(awaited(step.stage, songs.len(), rest[0]));
            }
            assert(after(user, songs, step, rest) == step);
            assert(performed(user, songs, step, rest).len() == 0);
            assert(events.last() == events[0]);
        } else {
            lemma_joined(user, songs, step, rest);
            assert(events.last() == rest.last());
            assert(performed(user, songs, at, events).last() == performed(
                user,
                songs,
                step,
                rest,
            ).last());
        }
    }
}

/// If `join` ends with a channel joined, connecting to it was the last action, and the state
/// holds the name that was announced and the call that was handed back.
pub proof fn law_join_remembers_what_it_joined<C>(
    user: u64,
    songs: Seq<SongView>,
    order: Seq<usize>,
    events: Seq<EventView<C>>,
)
    requires
        all_awaited(
            user,
            songs,
            beginning(BotCommand::Join, StateView::<C>::NotJoined, songs, order),
            events,
        ),
        after(
            user,
            songs,
            beginning(BotCommand::Join, StateView::<C>::NotJoined, songs, order),
            events,
        ).state is Joined,
    ensures
        ({
            let at = beginning(BotCommand::Join, StateView::<C>::NotJoined, songs, order);
            let end = after(user, songs, at, events);
            let last = performed(user, songs, at, events).last();
            &&& end.stage is Finished
            &&& last is JoinChannel
            &&& events.last() is Joined
            &&& end.state == (StateView::Joined {
                channel_name: last->name,
                call: events.last()->Joined_0,
            })
        }),
{
    let at = beginning(BotCommand::Join, StateView::<C>::NotJoined, songs, order);
    lemma_joined(user, songs, at, events);
}

/// A `leave` that finishes has said goodbye, has disconnected, and has forgotten the channel.
pub proof fn law_finished_leave_forgets_the_channel<C>(
    user: u64,
    songs: Seq<SongView>,
    order: Seq<usize>,
    name: Seq<char>,
    call: C,
    events: Seq<EventView<C>>,
)
    requires
        ({
            let state = StateView::Joined { channel_name: name, call };
            let at = beginning(BotCommand::Leave, state, songs, order);
            &&& all_awaited(user, songs, at, events)
            &&& after(user, songs, at, events).stage is Finished
        }),
    ensures
        ({
            let state = StateView::Joined { channel_name: name, call };
            let at = beginning(BotCommand::Leave, state, songs, order);
            &&& after(user, songs, at, events).state is NotJoined
            &&& performed(user, songs, at, events) == leave_script(name)
        }),
{
    let state = StateView::Joined { channel_name: name, call };
    let at = beginning(BotCommand::Leave, state, songs, order);
    let actions = leave_script(name);
    law_script_in_order(user, songs, actions, 0, state, events);
    assert(events.len() == 2);
    assert(actions.subrange(0, 2) =~= actions);
    reveal_with_fuel(after, 3);
    reveal_with_fuel(all_awaited, 3);
    assert(events.drop_first()[0] == events[1]);
    assert(events.drop_first().drop_first().len() == 0);
}

/// A channel that `join` connected to is remembered with its name and its call, another
/// `join` is answered with that name, and `leave` forgets the channel again.
pub proof fn law_leave_undoes_join<C>(
    user: u64,
    songs: Seq<SongView>,
    order: Seq<usize>,
    channel: u64,
    name: Seq<char>,
    call: C,
)
    ensures
        ({
            let start = Progress {
                stage: StageView::Name { channel },
                state: StateView::<C>::NotJoined,
            };
            let events = seq![EventView::Name(name), EventView::Done, EventView::Joined(call)];
            let joined = after(user, songs, start, events);
            let leaving = beginning(BotCommand::Leave, joined.state, songs, order);
            let left = after(user, songs, leaving, seq![EventView::Done, EventView::Done]);
            &&& all_awaited(user, songs, start, events)
            &&& joined.stage is Finished
            &&& joined.state == (StateView::Joined { channel_name: name, call })
            &&& first_stage(BotCommand::Join, joined.state, songs, order) == script_stage(
                only_reply(quoted("Already joined to `"@, name)),
            )
            &&& all_awaited(user, songs, leaving, seq![EventView::Done, EventView::Done])
            &&& performed(user, songs, leaving, seq![EventView::Done, EventView::Done])
                == leave_script(name)
            &&& left.stage is Finished
            &&& left.state is NotJoined
        }),
{
    reveal_with_fuel(all_awaited, 4);
    reveal_with_fuel(after, 4);
    reveal_with_fuel(performed, 4);
    let start = Progress { stage: StageView::Name { channel }, state: StateView::<C>::NotJoined };
    let events = seq![EventView::Name(name), EventView::Done, EventView::Joined(call)];
    let one = events.drop_first();
    let two = one.drop_first();
    assert(one[0] is Done);
    assert(two[0] == EventView::Joined(call));
    assert(two.drop_first().len() == 0);
    let joined = after(user, songs, start, events);
    let leaving = beginning(BotCommand::Leave, joined.state, songs, order);
    let twice = seq![EventView::<C>::Done, EventView::<C>::Done];
    assert(twice.drop_first()[0] is Done);
    assert(twice.drop_first().drop_first().len() == 0);
    assert(performed(user, songs, leaving, twice) =~= leave_script(name));
}

/// The number of replies among some actions.
pub open spec fn reply_count(actions: Seq<ActionView>) -> nat
    decreases actions.len(),
{
    if actions.len() == 0 {
        0
    } else {
        reply_count(actions.drop_first()) + if actions[0] is Reply {
            1nat
        } else {
            0nat
        }
    }
}

proof fn lemma_reply_count_add(a: Seq<ActionView>, b: Seq<ActionView>)
    ensures
        reply_count(a + b) == reply_count(a) + reply_count(b),
    decreases a.len(),
{
    if a.len() == 0 {
        assert(a + b =~= b);
    } else {
        lemma_reply_count_add(a.drop_first(), b);
        assert((a + b).drop_first() =~= a.drop_first() + b);
    }
}

proof fn lemma_no_replies(actions: Seq<ActionView>)
    requires
        forall|i: int| 0 <= i < actions.len() ==> !(#[trigger] actions[i] is Reply),
    ensures
        reply_count(actions) == 0,
    decreases actions.len(),
{
    if actions.len() > 0 {
        assert forall|i: int| 0 <= i < actions.drop_first().len() implies !(
        #[trigger] actions.drop_first()[i] is Reply) by {
            assert(actions.drop_first()[i] == actions[i + 1]);
        }
        lemma_no_replies(actions.drop_first());
    }
}

proof fn lemma_one_reply(front: Seq<ActionView>, text: Seq<char>)
    requires
        forall|i: int| 0 <= i < front.len() ==> !(#[trigger] front[i] is Reply),
    ensures
        reply_count(front + only_reply(text)) == 1,
{
    lemma_reply_count_add(front, only_reply(text));
    lemma_no_replies(front);
    assert(only_reply(text).drop_first() =~= Seq::<ActionView>::empty());
    assert(reply_count(only_reply(text)) == 1) by {
        reveal_with_fuel(reply_count, 2);
    }
}

/// The replies that a stage still owes.
spec fn replies_owed(stage: StageView) -> nat {
    match stage {
        StageView::Script { actions, next } => reply_count(actions.skip(next as int)),
        StageView::Finished => 0,
        StageView::Failed { error } => 0,
        _ => 1,
    }
}

proof fn lemma_pair_replies(first: ActionView, second: ActionView)
    ensures
        reply_count(seq![first, second]) == (if first is Reply {
            1nat
        } else {
            0nat
        }) + (if second is Reply {
            1nat
        } else {
            0nat
        }),
{
    let both = seq![first, second];
    assert(both.drop_first() =~= seq![second]);
    assert(both.drop_first().drop_first() =~= Seq::<ActionView>::empty());
    reveal_with_fuel(reply_count, 3);
}

proof fn lemma_replies_owed<C>(
    user: u64,
    songs: Seq<SongView>,
    stage: StageView,
    event: EventView<C>,
)
    requires
        stage_ok(stage),
        awaited(stage, songs.len(), event),
        !(event is Failed),
    ensures
        replies_owed(stage) == replies_owed(next_stage(user, songs, stage, event)) + (
        if pending_action(stage)->0 is Reply {
            1nat
        } else {
            0nat
        }),
{
    match stage {
        StageView::Script { actions, next } => {
            let left = actions.skip(next as int);
            assert(left.drop_first() =~= actions.skip(next as int + 1));
            assert(left[0] == actions[next as int]);
            if next + 1 == actions.len() {
                assert(reply_count(left.drop_first()) == 0);
            }
        },
        StageView::Name { channel } => {
            let actions = join_script(channel, event->Name_0);
            lemma_pair_replies(actions[0], actions[1]);
            assert(actions =~= seq![actions[0], actions[1]]);
            assert(actions.skip(0) =~= actions);
        },
        _ => {
            let next = next_stage(user, songs, stage, event);
            if next is Script {
                let actions = next->Script_actions;
                assert(actions == only_reply(actions[0]->Reply_0));
                lemma_one_reply(Seq::empty(), actions[0]->Reply_0);
                assert(Seq::<ActionView>::empty() + actions =~= actions);
                assert(actions.skip(0) =~= actions);
            }
        },
    }
}

proof fn lemma_replies_sent<C>(
    user: u64,
    songs: Seq<SongView>,
    at: Progress<C>,
    events: Seq<EventView<C>>,
)
    requires
        stage_ok(at.stage),
        all_awaited(user, songs, at, events),
        after(user, songs, at, events).stage is Finished,
    ensures
        reply_count(performed(user, songs, at, events)) == replies_owed(at.stage),
    decreases events.len(),
{
    if events.len() > 0 {
        let step = advance(user, songs, at, events[0]);
        let rest = events.drop_first();
        law_every_event_is_progress(user, songs, at.stage, events[0]);
        if events[0] is Failed {
            if rest.len() > 0 {
                assert(awaited(step.stage, songs.len(), rest[0]));
            }
            assert(after(user, songs, step, rest) == step);
        }
        lemma_replies_sent(user, songs, step, rest);
        lemma_replies_owed(user, songs, at.stage, events[0]);
        let all = performed(user, songs, at, events);
        assert(all.drop_first() =~= performed(user, songs, step, rest));
        assert(all[0] == pending_action(at.stage)->0);
    }
}

proof fn lemma_first_replies<C>(
    command: BotCommand,
    state: StateView<C>,
    songs: Seq<SongView>,
    order: Seq<usize>,
)
    requires
        !(command is TrackList),
    ensures
        replies_owed(first_stage(command, state, songs, order)) == 1,
{
    let stage = first_stage(command, state, songs, order);
    if stage is Script {
        let actions = stage->Script_actions;
        let front = actions.drop_last();
        assert(actions.skip(0) =~= actions);
        if command is Leave && state is Joined {
            lemma_pair_replies(actions[0], actions[1]);
            assert(actions =~= seq![actions[0], actions[1]]);
        } else {
            assert forall|i: int| 0 <= i < front.len() implies !(#[trigger] front[i] is Reply) by {
                assert(front[i] == actions[i]);
            }
            assert(actions.last() is Reply);
            lemma_one_reply(front, actions.last()->Reply_0);
            assert(front + only_reply(actions.last()->Reply_0) =~= actions);
        }
    }
}

/// Every command that finishes has answered the user exactly once, and `tracklist` once for
/// each message of the page.
pub proof fn law_every_finished_command_is_answered<C>(
    user: u64,
    command: BotCommand,
    state: StateView<C>,
    songs: Seq<SongView>,
    order: Seq<usize>,
    events: Seq<EventView<C>>,
)
    requires
        all_awaited(user, songs, beginning(command, state, songs, order), events),
        after(user, songs, beginning(command, state, songs, order), events).stage is Finished,
    ensures
        ({
            let done = performed(user, songs, beginning(command, state, songs, order), events);
            match command {
                BotCommand::TrackList(page) => done == replies(track_list_texts(songs, page))
                    && done.len() > 0,
                _ => reply_count(done) == 1,
            }
        }),
{
    let at = beginning(command, state, songs, order);
    match command {
        BotCommand::TrackList(page) => {
            let messages = track_list_texts(songs, page);
            let number = page.unwrap_or(0);
            if number < page_count(songs.len()) {
                law_page_is_sent_in_full(songs, number);
                assert(messages == track_list_texts(songs, Some(number)));
            }
            let actions = replies(messages);
            law_script_in_order(user, songs, actions, 0, at.state, events);
            assert(actions.subrange(0, actions.len() as int) =~= actions);
        },
        _ => {
            lemma_first_replies(command, state, songs, order);
            lemma_replies_sent(user, songs, at, events);
        },
    }
}

/// A command touches the state of its own guild alone: beginning it leaves the state of every
/// guild as it was, and each event leaves that of every other guild as it was.
pub proof fn law_other_guilds_are_left_alone<C>(
    states: Map<u64, StateView<C>>,
    guild: u64,
    other: u64,
    user: u64,
    songs: Seq<SongView>,
    stage: StageView,
    event: EventView<C>,
)
    ensures
        state_of(states.insert(guild, state_of(states, guild)), other) == state_of(states, other),
        other != guild ==> state_of(states_after(states, guild, stage, event), other) == state_of(
            states,
            other,
        ),
        state_of(states_after(states, guild, stage, event), guild) == advance(
            user,
            songs,
            (Progress { stage, state: state_of(states, guild) }),
            event,
        ).state,
{
}

} // verus!
