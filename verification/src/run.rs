//! The life of one command: from the interaction to the last action.
//!
//! A command is carried out in steps. [`accept`] turns an interaction into a command or
//! refuses it, [`Run::start`] begins the command, [`Run::pending`] says what to do next, and
//! [`Run::resume`] takes the answer.

use crate::action::{actions_view, Action, ActionView, ChannelInfo, Event, EventView};
use crate::command::{options_fit, parse, BotCommand, CommandInteraction, OptionValue};
use crate::order::{is_order, law_order_is_complete, random_order};
use crate::script::{
    enqueue, enqueue_script, id_range, ids_valid, no_voice_text, not_joined_text, now_playing,
    now_playing_text, only_reply, play, play_script, queue_text, quote, quoted, replies,
    reply_with, show_queue, shown, shuffle, shuffle_script, skipped, skipped_text, track_list,
    track_list_texts, upcoming_track, QUEUE_SHOWN,
};
use crate::song::{songs_view, SongData, SongView};
use crate::state::{state_of, MusicStates, PlaybackState, PlaybackStateJoined, StateView};
use vstd::prelude::*;
use vstd::string::*;

verus! {

/// The guild and the command of an interaction, or the reply that refuses it.
pub open spec fn admission(
    guild: Option<u64>,
    name: Seq<char>,
    options: Seq<OptionValue>,
    songs: Seq<SongView>,
) -> Result<(u64, BotCommand), Seq<char>> {
    match guild {
        None => Err("This bot only works for guilds"@),
        Some(guild) => if songs.len() == 0 {
            Err("No songs found"@)
        } else {
            match parse(name, options) {
                Ok(command) => Ok((guild, command)),
                Err(text) => Err(text),
            }
        },
    }
}

/// Decides whether an interaction is carried out.
pub fn accept(interaction: &CommandInteraction, songs: &Vec<SongData>) -> (r: Result<
    (u64, BotCommand),
    String,
>)
    requires
        interaction.guild_id is Some && songs.len() > 0 ==> options_fit(interaction.name@, interaction.options@),
    ensures
        match admission(interaction.guild_id, interaction.name@, interaction.options@, songs_view(songs@)) {
            Ok(accepted) => r == Ok::<(u64, BotCommand), String>(accepted),
            Err(text) => r is Err && r->Err_0@ == text,
        },
{
    match interaction.guild_id {
        None => Err("This bot only works for guilds".to_owned()),
        Some(guild) => {
            if songs.len() == 0 {
                return Err("No songs found".to_owned());
            }
            match BotCommand::try_from(interaction) {
                Ok(command) => Ok((guild, command)),
                Err(text) => Err(text),
            }
        },
    }
}

/// How far a command has come.
#[derive(Debug)]
pub enum Stage {
    /// `join` waits for the channels of the guild.
    Channels,
    /// `join` goes through the voice channels; `found` is the last one with the user in it.
    Members { voice: Vec<u64>, next: usize, found: Option<u64> },
    /// `join` waits for the name of the user's channel.
    Name { channel: u64 },
    /// `nowplaying` waits for the current song.
    Current,
    /// `showqueue` waits for the queue.
    QueueToShow,
    /// `skip` waits for the queue.
    QueueToSkip,
    /// `skip` waits for the current track to go; `upcoming` comes after it.
    Skipping { upcoming: Option<usize> },
    /// The rest is a list of actions, of which `next` are done.
    Script { actions: Vec<Action>, next: usize },
    /// All is done.
    Finished,
    /// An action failed, and the command was given up.
    Failed { error: String },
}

/// The model of [`Stage`].
pub enum StageView {
    Channels,
    Members { voice: Seq<u64>, next: nat, found: Option<u64> },
    Name { channel: u64 },
    Current,
    QueueToShow,
    QueueToSkip,
    Skipping { upcoming: Option<usize> },
    Script { actions: Seq<ActionView>, next: nat },
    Finished,
    Failed { error: Seq<char> },
}

impl View for Stage {
    type V = StageView;

    open spec fn view(&self) -> StageView {
        match self {
            Stage::Channels => StageView::Channels,
            Stage::Members { voice, next, found } => StageView::Members {
                voice: voice@,
                next: *next as nat,
                found: *found,
            },
            Stage::Name { channel } => StageView::Name { channel: *channel },
            Stage::Current => StageView::Current,
            Stage::QueueToShow => StageView::QueueToShow,
            Stage::QueueToSkip => StageView::QueueToSkip,
            Stage::Skipping { upcoming } => StageView::Skipping { upcoming: *upcoming },
            Stage::Script { actions, next } => StageView::Script {
                actions: actions_view(actions@),
                next: *next as nat,
            },
            Stage::Finished => StageView::Finished,
            Stage::Failed { error } => StageView::Failed { error: error@ },
        }
    }
}

/// A stage that is not over has something left to do.
pub open spec fn stage_ok(stage: StageView) -> bool {
    match stage {
        StageView::Members { voice, next, found } => next < voice.len(),
        StageView::Script { actions, next } => next < actions.len(),
        _ => true,
    }
}

/// The action that the stage waits for, if it is not over.
pub open spec fn pending_action(stage: StageView) -> Option<ActionView> {
    match stage {
        StageView::Channels => Some(ActionView::ListChannels),
        StageView::Members { voice, next, found } => Some(
            ActionView::ListMembers(voice[next as int]),
        ),
        StageView::Name { channel } => Some(ActionView::NameChannel(channel)),
        StageView::Current => Some(ActionView::ReadCurrent),
        StageView::QueueToShow => Some(ActionView::ReadQueue),
        StageView::QueueToSkip => Some(ActionView::ReadQueue),
        StageView::Skipping { upcoming } => Some(ActionView::SkipTrack),
        StageView::Script { actions, next } => Some(actions[next as int]),
        StageView::Finished => None,
        StageView::Failed { error } => None,
    }
}

/// The event is an answer to an action of a script.
pub open spec fn answers<C>(action: ActionView, event: EventView<C>) -> bool {
    match action {
        ActionView::Reply(_) => event is Done,
        ActionView::StopQueue => event is Done,
        ActionView::JoinChannel { channel, name } => event is Joined || event is Failed,
        _ => event is Done || event is Failed,
    }
}

/// The event is an answer that the stage waits for. `count` is the number of songs; the songs
/// that a reply will show have to be among them.
pub open spec fn awaited<C>(stage: StageView, count: nat, event: EventView<C>) -> bool {
    match stage {
        StageView::Channels => event is Channels || event is Failed,
        StageView::Members { voice, next, found } => event is Members || event is Failed,
        StageView::Name { channel } => event is Name || event is Failed,
        StageView::Current => event matches EventView::Current(current) && (current is Some
            ==> current->0 < count),
        StageView::QueueToShow => event matches EventView::Queue(queue) && ids_valid(
            shown(queue),
            count,
        ),
        StageView::QueueToSkip => event is Queue,
        StageView::Skipping { upcoming } => event is Failed || event is Done && (upcoming is Some
            ==> upcoming->0 < count),
        StageView::Script { actions, next } => answers(actions[next as int], event),
        StageView::Finished => false,
        StageView::Failed { error } => false,
    }
}

/// The stage that carries out `actions` from the first one on.
pub open spec fn script_stage(actions: Seq<ActionView>) -> StageView {
    if actions.len() == 0 {
        StageView::Finished
    } else {
        StageView::Script { actions, next: 0 }
    }
}

/// The voice channels among the channels of a guild, in the same order.
pub open spec fn voice_channels(channels: Seq<ChannelInfo>) -> Seq<u64> {
    channels.filter(|c: ChannelInfo| c.is_voice).map_values(|c: ChannelInfo| c.id)
}

/// The search for the user's channel, with `next` voice channels behind it.
pub open spec fn search_stage(voice: Seq<u64>, next: nat, found: Option<u64>) -> StageView {
    if next < voice.len() {
        StageView::Members { voice, next, found }
    } else {
        match found {
            Some(channel) => StageView::Name { channel },
            None => script_stage(only_reply(no_voice_text())),
        }
    }
}

/// `join`: what is left to do once the channel's name is known.
pub open spec fn join_script(channel: u64, name: Seq<char>) -> Seq<ActionView> {
    seq![
        ActionView::Reply(quoted("Joined to `"@, name)),
        ActionView::JoinChannel { channel, name },
    ]
}

/// `leave`: what is done in a joined channel.
pub open spec fn leave_script(name: Seq<char>) -> Seq<ActionView> {
    seq![ActionView::Reply(quoted("Leaving `"@, name)), ActionView::RemoveCall]
}

/// An action on the player, confirmed by a reply.
pub open spec fn confirmed(action: ActionView, text: Seq<char>) -> Seq<ActionView> {
    seq![action, ActionView::Reply(text)]
}

/// The stage in which a command begins. `order` is the order that `shuffle` plays; no other
/// command looks at it.
pub open spec fn first_stage<C>(
    command: BotCommand,
    state: StateView<C>,
    songs: Seq<SongView>,
    order: Seq<usize>,
) -> StageView {
    match command {
        BotCommand::TrackList(page) => script_stage(replies(track_list_texts(songs, page))),
        _ => match state {
            StateView::NotJoined => match command {
                BotCommand::Join => StageView::Channels,
                _ => script_stage(only_reply(not_joined_text())),
            },
            StateView::Joined { channel_name, call } => match command {
                BotCommand::Join => script_stage(
                    only_reply(quoted("Already joined to `"@, channel_name)),
                ),
                BotCommand::Leave => script_stage(leave_script(channel_name)),
                BotCommand::Play(id) => script_stage(play_script(songs, id)),
                BotCommand::Pause => script_stage(confirmed(ActionView::PauseQueue, "Paused"@)),
                BotCommand::Resume => script_stage(confirmed(ActionView::ResumeQueue, "Resumed"@)),
                BotCommand::Stop => script_stage(confirmed(ActionView::StopQueue, "Stopped"@)),
                BotCommand::NowPlaying => StageView::Current,
                BotCommand::ShowQueue => StageView::QueueToShow,
                BotCommand::Enqueue(id) => script_stage(enqueue_script(songs, id)),
                BotCommand::Skip => StageView::QueueToSkip,
                BotCommand::Shuffle => script_stage(shuffle_script(songs, order)),
                BotCommand::TrackList(page) => script_stage(
                    replies(track_list_texts(songs, page)),
                ),
            },
        },
    }
}

/// The stage after an awaited event.
pub open spec fn next_stage<C>(
    user: u64,
    songs: Seq<SongView>,
    stage: StageView,
    event: EventView<C>,
) -> StageView {
    match event {
        EventView::Failed(error) => StageView::Failed { error },
        _ => match stage {
            StageView::Channels => search_stage(voice_channels(event->Channels_0), 0, None),
            StageView::Members { voice, next, found } => search_stage(
                voice,
                next + 1,
                if event->Members_0.contains(user) {
                    Some(voice[next as int])
                } else {
                    found
                },
            ),
            StageView::Name { channel } => script_stage(join_script(channel, event->Name_0)),
            StageView::Current => script_stage(
                only_reply(now_playing_text(songs, event->Current_0)),
            ),
            StageView::QueueToShow => script_stage(only_reply(queue_text(songs, event->Queue_0))),
            StageView::QueueToSkip => if event->Queue_0.len() == 0 {
                script_stage(only_reply("Queue is empty"@))
            } else {
                StageView::Skipping { upcoming: upcoming_track(event->Queue_0) }
            },
            StageView::Skipping { upcoming } => script_stage(
                only_reply(skipped_text(songs, upcoming)),
            ),
            StageView::Script { actions, next } => if next + 1 < actions.len() {
                StageView::Script { actions, next: next + 1 }
            } else {
                StageView::Finished
            },
            StageView::Finished => stage,
            StageView::Failed { error } => stage,
        },
    }
}

/// The new playback state of the guild, if an event at a stage changes it: connecting and
/// disconnecting do, nothing else does.
pub open spec fn state_change<C>(stage: StageView, event: EventView<C>) -> Option<StateView<C>> {
    match (pending_action(stage), event) {
        (Some(ActionView::JoinChannel { channel, name }), EventView::Joined(call)) => Some(
            StateView::Joined { channel_name: name, call },
        ),
        (Some(ActionView::RemoveCall), EventView::Done) => Some(StateView::NotJoined),
        _ => None,
    }
}

/// The states of all guilds after an event at a stage of a command sent in `guild`.
pub open spec fn states_after<C>(
    states: Map<u64, StateView<C>>,
    guild: u64,
    stage: StageView,
    event: EventView<C>,
) -> Map<u64, StateView<C>> {
    match state_change(stage, event) {
        Some(state) => states.insert(guild, state),
        None => states,
    }
}

/// A command on its way.
#[derive(Debug)]
pub struct Run {
    guild: u64,
    user: u64,
    stage: Stage,
}

fn begin_script(actions: Vec<Action>) -> (r: Stage)
    ensures
        r@ == script_stage(actions_view(actions@)),
{
    if actions.len() == 0 {
        Stage::Finished
    } else {
        Stage::Script { actions, next: 0 }
    }
}

fn find_voice_channels(channels: &Vec<ChannelInfo>) -> (r: Vec<u64>)
    ensures
        r@ == voice_channels(channels@),
{
    let mut ids: Vec<u64> = Vec::new();
    let mut i: usize = 0;
    let ghost keep = |c: ChannelInfo| c.is_voice;
    let ghost id = |c: ChannelInfo| c.id;
    proof {
        reveal(Seq::filter);
        assert(ids@ =~= channels@.take(0).filter(keep).map_values(id));
    }
    while i < channels.len()
        invariant
            i <= channels.len(),
            keep == (|c: ChannelInfo| c.is_voice),
            id == (|c: ChannelInfo| c.id),
            ids@ == channels@.take(i as int).filter(keep).map_values(id),
        decreases channels.len() - i,
    {
        let ghost before = ids@;
        proof {
            reveal(Seq::filter);
            let next = channels@.take(i + 1);
            assert(next.drop_last() =~= channels@.take(i as int));
            if next.last().is_voice {
                assert(next.filter(keep).map_values(id) =~= before.push(next.last().id));
            }
        }
        if channels[i].is_voice {
            ids.push(channels[i].id);
        }
        i = i + 1;
    }
    proof {
        assert(channels@.take(channels.len() as int) =~= channels@);
    }
    ids
}

fn holds(members: &Vec<u64>, user: u64) -> (r: bool)
    ensures
        r == members@.contains(user),
{
    let mut i: usize = 0;
    while i < members.len()
        invariant
            i <= members.len(),
            forall|j: int| 0 <= j < i ==> members@[j] != user,
        decreases members.len() - i,
    {
        if members[i] == user {
            return true;
        }
        i = i + 1;
    }
    false
}

fn search_on(voice: Vec<u64>, next: usize, found: Option<u64>) -> (r: Stage)
    ensures
        r@ == search_stage(voice@, next as nat, found),
{
    if next < voice.len() {
        Stage::Members { voice, next, found }
    } else {
        match found {
            Some(channel) => Stage::Name { channel },
            None => begin_script(
                reply_with("You must be in a voice chat to use `/join` command".to_owned()),
            ),
        }
    }
}

fn two(first: Action, second: Action) -> (r: Vec<Action>)
    ensures
        actions_view(r@) == seq![first@, second@],
{
    let actions: Vec<Action> = vec![first, second];
    proof {
        assert(actions_view(actions@) =~= seq![first@, second@]);
    }
    actions
}

/// Finds the first stage of a command in a joined channel.
fn first_stage_joined<C>(
    command: BotCommand,
    joined: &PlaybackStateJoined<C>,
    songs: &Vec<SongData>,
    order: &Vec<usize>,
) -> (r: Stage)
    requires
        songs.len() > 0,
        command is Shuffle ==> order.len() > 0 && ids_valid(order@, songs.len() as nat),
    ensures
        r@ == first_stage::<C>(
            command,
            (StateView::Joined { channel_name: joined.channel_name@, call: joined.call }),
            songs_view(songs@),
            order@,
        ),
{
    match command {
        BotCommand::Join => begin_script(
            reply_with(quote("Already joined to `", joined.channel_name.as_str())),
        ),
        BotCommand::Leave => begin_script(
            two(
                Action::Reply(quote("Leaving `", joined.channel_name.as_str())),
                Action::RemoveCall,
            ),
        ),
        BotCommand::Play(id) => begin_script(play(songs, id)),
        BotCommand::Pause => begin_script(
            two(Action::PauseQueue, Action::Reply("Paused".to_owned())),
        ),
        BotCommand::Resume => begin_script(
            two(Action::ResumeQueue, Action::Reply("Resumed".to_owned())),
        ),
        BotCommand::Stop => begin_script(
            two(Action::StopQueue, Action::Reply("Stopped".to_owned())),
        ),
        BotCommand::NowPlaying => Stage::Current,
        BotCommand::ShowQueue => Stage::QueueToShow,
        BotCommand::Enqueue(id) => begin_script(enqueue(songs, id)),
        BotCommand::Skip => Stage::QueueToSkip,
        BotCommand::Shuffle => begin_script(shuffle(songs, order)),
        BotCommand::TrackList(page) => begin_script(track_list(songs, page)),
    }
}

/// Finds the first stage of a command while no channel is joined.
fn first_stage_not_joined<C>(command: BotCommand, songs: &Vec<SongData>) -> (r: Stage)
    requires
        songs.len() > 0,
    ensures
        forall|order: Seq<usize>|
            r@ == #[trigger] first_stage::<C>(
                command,
                StateView::NotJoined,
                songs_view(songs@),
                order,
            ),
{
    match command {
        BotCommand::Join => Stage::Channels,
        BotCommand::TrackList(page) => begin_script(track_list(songs, page)),
        _ => begin_script(
            reply_with(
                "No voice channels joined, use `/join` to join a voice channel".to_owned(),
            ),
        ),
    }
}

impl Run {
    /// The guild whose state the command reads and changes.
    pub closed spec fn spec_guild(&self) -> u64 {
        self.guild
    }

    /// The user who sent the command.
    pub closed spec fn spec_user(&self) -> u64 {
        self.user
    }

    /// How far the command has come.
    pub closed spec fn spec_stage(&self) -> StageView {
        self.stage@
    }

    /// Begins a command, with the order that `shuffle` is to play.
    pub fn start_in_order<C>(
        guild: u64,
        user: u64,
        command: BotCommand,
        songs: &Vec<SongData>,
        states: &mut MusicStates<C>,
        order: &Vec<usize>,
    ) -> (r: Run)
        requires
            songs.len() > 0,
            command is Shuffle && state_of(old(states)@, guild) is Joined ==> order.len() > 0
                && ids_valid(order@, songs.len() as nat),
        ensures
            r.spec_guild() == guild,
            r.spec_user() == user,
            r.spec_stage() == first_stage(
                command,
                state_of(old(states)@, guild),
                songs_view(songs@),
                order@,
            ),
            stage_ok(r.spec_stage()),
            final(states)@ == old(states)@.insert(guild, state_of(old(states)@, guild)),
    {
        states.enter(guild);
        let stage: Stage = match states.get(guild) {
            Some(PlaybackState::Joined(joined)) => first_stage_joined(
                command,
                joined,
                songs,
                order,
            ),
            _ => first_stage_not_joined::<C>(command, songs),
        };
        Run { guild, user, stage }
    }

    /// Begins a command. The order of `shuffle` is drawn at random.
    pub fn start<C>(
        guild: u64,
        user: u64,
        command: BotCommand,
        songs: &Vec<SongData>,
        states: &mut MusicStates<C>,
    ) -> (r: Run)
        requires
            songs.len() > 0,
        ensures
            r.spec_guild() == guild,
            r.spec_user() == user,
            exists|order: Seq<usize>| #[trigger]
                is_order(order, songs.len() as nat) && r.spec_stage() == first_stage(
                    command,
                    state_of(old(states)@, guild),
                    songs_view(songs@),
                    order,
                ),
            stage_ok(r.spec_stage()),
            final(states)@ == old(states)@.insert(guild, state_of(old(states)@, guild)),
    {
        let order: Vec<usize> = match command {
            BotCommand::Shuffle => random_order(songs.len()),
            _ => Vec::new(),
        };
        proof {
            let count = songs.len() as nat;
            if command is Shuffle {
                law_order_is_complete(order@, count);
            } else {
                let any = id_range(0, count);
                assert(is_order(any, count));
                assert(first_stage(command, state_of(states@, guild), songs_view(songs@), order@)
                    == first_stage(command, state_of(states@, guild), songs_view(songs@), any));
            }
        }
        Run::start_in_order(guild, user, command, songs, states, &order)
    }

    /// What to do next; nothing if the command is over.
    pub fn pending(&self) -> (r: Option<Action>)
        requires
            stage_ok(self.spec_stage()),
        ensures
            match pending_action(self.spec_stage()) {
                Some(action) => r is Some && r->0@ == action,
                None => r is None,
            },
    {
        match &self.stage {
            Stage::Channels => Some(Action::ListChannels),
            Stage::Members { voice, next, found } => Some(Action::ListMembers(voice[*next])),
            Stage::Name { channel } => Some(Action::NameChannel(*channel)),
            Stage::Current => Some(Action::ReadCurrent),
            Stage::QueueToShow => Some(Action::ReadQueue),
            Stage::QueueToSkip => Some(Action::ReadQueue),
            Stage::Skipping { upcoming } => Some(Action::SkipTrack),
            Stage::Script { actions, next } => Some(actions[*next].duplicate()),
            Stage::Finished => None,
            Stage::Failed { error } => None,
        }
    }

    /// Tests whether an event is the answer that the command waits for.
    pub fn awaits<C>(&self, event: &Event<C>, songs: &Vec<SongData>) -> (r: bool)
        requires
            stage_ok(self.spec_stage()),
        ensures
            r == awaited(self.spec_stage(), songs.len() as nat, event@),
    {
        match (&self.stage, event) {
            (Stage::Channels, Event::Channels(_)) => true,
            (Stage::Channels, Event::Failed(_)) => true,
            (Stage::Members { voice, next, found }, Event::Members(_)) => true,
            (Stage::Members { voice, next, found }, Event::Failed(_)) => true,
            (Stage::Name { channel }, Event::Name(_)) => true,
            (Stage::Name { channel }, Event::Failed(_)) => true,
            (Stage::Current, Event::Current(current)) => match current {
                Some(id) => *id < songs.len(),
                None => true,
            },
            (Stage::QueueToShow, Event::Queue(queue)) => shown_valid(queue, songs.len()),
            (Stage::QueueToSkip, Event::Queue(_)) => true,
            (Stage::Skipping { upcoming }, Event::Done) => match upcoming {
                Some(id) => *id < songs.len(),
                None => true,
            },
            (Stage::Skipping { upcoming }, Event::Failed(_)) => true,
            (Stage::Script { actions, next }, _) => is_answer(&actions[*next], event),
            _ => false,
        }
    }

    /// Takes the answer to the pending action.
    pub fn resume<C>(
        self,
        event: Event<C>,
        songs: &Vec<SongData>,
        states: &mut MusicStates<C>,
    ) -> (r: Run)
        requires
            stage_ok(self.spec_stage()),
            awaited(self.spec_stage(), songs.len() as nat, event@),
        ensures
            r.spec_guild() == self.spec_guild(),
            r.spec_user() == self.spec_user(),
            r.spec_stage() == next_stage(
                self.spec_user(),
                songs_view(songs@),
                self.spec_stage(),
                event@,
            ),
            stage_ok(r.spec_stage()),
            final(states)@ == states_after(
                old(states)@,
                self.spec_guild(),
                self.spec_stage(),
                event@,
            ),
    {
        let Run { guild, user, stage } = self;
        let stage: Stage = match (stage, event) {
            (_, Event::Failed(error)) => Stage::Failed { error },
            (Stage::Channels, Event::Channels(channels)) => search_on(
                find_voice_channels(&channels),
                0,
                None,
            ),
            (Stage::Members { voice, next, found }, Event::Members(members)) => {
                assert(next < voice.len());
                let found: Option<u64> = if holds(&members, user) {
                    Some(voice[next])
                } else {
                    found
                };
                search_on(voice, next + 1, found)
            },
            (Stage::Name { channel }, Event::Name(name)) => begin_script(
                two(
                    Action::Reply(quote("Joined to `", name.as_str())),
                    Action::JoinChannel { channel, name },
                ),
            ),
            (Stage::Current, Event::Current(current)) => begin_script(
                reply_with(now_playing(songs, current)),
            ),
            (Stage::QueueToShow, Event::Queue(queue)) => begin_script(
                reply_with(show_queue(songs, &queue)),
            ),
            (Stage::QueueToSkip, Event::Queue(queue)) => if queue.len() == 0 {
                begin_script(reply_with("Queue is empty".to_owned()))
            } else {
                let upcoming: Option<usize> = if queue.len() > 1 {
                    Some(queue[1])
                } else {
                    None
                };
                Stage::Skipping { upcoming }
            },
            (Stage::Skipping { upcoming }, Event::Done) => begin_script(
                reply_with(skipped(songs, upcoming)),
            ),
            (Stage::Script { actions, next }, event) => {
                assert(next < actions.len());
                change_state(&actions[next], event, guild, states);
                if next + 1 < actions.len() {
                    Stage::Script { actions, next: next + 1 }
                } else {
                    Stage::Finished
                }
            },
            (stage, _) => stage,
        };
        Run { guild, user, stage }
    }

    /// Why the command was given up, if it was.
    pub fn failure(&self) -> (r: Option<&String>)
        ensures
            match self.spec_stage() {
                StageView::Failed { error } => r is Some && r->0@ == error,
                _ => r is None,
            },
    {
        match &self.stage {
            Stage::Failed { error } => Some(error),
            _ => None,
        }
    }
}

fn is_answer<C>(action: &Action, event: &Event<C>) -> (r: bool)
    ensures
        r == answers(action@, event@),
{
    match (action, event) {
        (Action::Reply(_), Event::Done) => true,
        (Action::Reply(_), _) => false,
        (Action::StopQueue, Event::Done) => true,
        (Action::StopQueue, _) => false,
        (Action::JoinChannel { channel, name }, Event::Joined(_)) => true,
        (Action::JoinChannel { channel, name }, Event::Done) => false,
        (_, Event::Done) => true,
        (_, Event::Failed(_)) => true,
        _ => false,
    }
}

fn shown_valid(queue: &Vec<usize>, count: usize) -> (r: bool)
    ensures
        r == ids_valid(shown(queue@), count as nat),
{
    let mut i: usize = 0;
    while i < queue.len() && i < QUEUE_SHOWN
        invariant
            i <= queue.len(),
            i <= QUEUE_SHOWN,
            forall|j: int| 0 <= j < i ==> queue@[j] < count,
        decreases queue.len() - i,
    {
        if queue[i] >= count {
            proof {
                assert(shown(queue@)[i as int] >= count);
            }
            return false;
        }
        i = i + 1;
    }
    true
}

/// Records what an answer to an action of a script means for the guild's state.
fn change_state<C>(action: &Action, event: Event<C>, guild: u64, states: &mut MusicStates<C>)
    ensures
        final(states)@ == match (action@, event@) {
            (
                ActionView::JoinChannel { channel, name },
                EventView::Joined(call),
            ) => old(states)@.insert(guild, (StateView::Joined { channel_name: name, call })),
            (ActionView::RemoveCall, EventView::Done) => old(states)@.insert(
                guild,
                StateView::NotJoined,
            ),
            _ => old(states)@,
        },
{
    match (action, event) {
        (Action::JoinChannel { channel, name }, Event::Joined(call)) => {
            states.set(
                guild,
                PlaybackState::Joined(PlaybackStateJoined::new(name.clone(), call)),
            );
        },
        (Action::RemoveCall, Event::Done) => {
            states.set(guild, PlaybackState::NotJoined);
        },
        _ => {},
    }
}

} // verus!
