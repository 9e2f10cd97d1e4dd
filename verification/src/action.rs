//! What the bot does to the outside world, and what the outside world answers.

use vstd::prelude::*;

verus! {

/// One thing to do on behalf of a command.
#[derive(Debug, PartialEq, Eq)]
pub enum Action {
    /// Answer the user.
    Reply(String),
    /// List the channels of the guild.
    ListChannels,
    /// List the members of a voice channel.
    ListMembers(u64),
    /// Look up the name of a channel.
    NameChannel(u64),
    /// Connect to the voice channel `channel`, which is called `name`.
    JoinChannel { channel: u64, name: String },
    /// Disconnect from the guild's voice channel.
    RemoveCall,
    /// Stop the current track and clear the queue.
    StopQueue,
    /// Pause the current track.
    PauseQueue,
    /// Resume the current track.
    ResumeQueue,
    /// Drop the current track and go on with the next one.
    SkipTrack,
    /// Ask which song is playing.
    ReadCurrent,
    /// Ask which songs are queued.
    ReadQueue,
    /// Load the file at `path` and queue it as song `id`.
    EnqueueTrack { id: usize, path: String },
}

/// The model of [`Action`].
pub enum ActionView {
    Reply(Seq<char>),
    ListChannels,
    ListMembers(u64),
    NameChannel(u64),
    JoinChannel { channel: u64, name: Seq<char> },
    RemoveCall,
    StopQueue,
    PauseQueue,
    ResumeQueue,
    SkipTrack,
    ReadCurrent,
    ReadQueue,
    EnqueueTrack { id: usize, path: Seq<char> },
}

impl View for Action {
    type V = ActionView;

    open spec fn view(&self) -> ActionView {
        match self {
            Action::Reply(text) => ActionView::Reply(text@),
            Action::ListChannels => ActionView::ListChannels,
            Action::ListMembers(channel) => ActionView::ListMembers(*channel),
            Action::NameChannel(channel) => ActionView::NameChannel(*channel),
            Action::JoinChannel { channel, name } => ActionView::JoinChannel {
                channel: *channel,
                name: name@,
            },
            Action::RemoveCall => ActionView::RemoveCall,
            Action::StopQueue => ActionView::StopQueue,
            Action::PauseQueue => ActionView::PauseQueue,
            Action::ResumeQueue => ActionView::ResumeQueue,
            Action::SkipTrack => ActionView::SkipTrack,
            Action::ReadCurrent => ActionView::ReadCurrent,
            Action::ReadQueue => ActionView::ReadQueue,
            Action::EnqueueTrack { id, path } => ActionView::EnqueueTrack { id: *id, path: path@ },
        }
    }
}

impl Action {
    /// Makes a second copy of the action.
    pub fn duplicate(&self) -> (r: Action)
        ensures
            r@ == self@,
    {
        match self {
            Action::Reply(text) => Action::Reply(text.clone()),
            Action::ListChannels => Action::ListChannels,
            Action::ListMembers(channel) => Action::ListMembers(*channel),
            Action::NameChannel(channel) => Action::NameChannel(*channel),
            Action::JoinChannel { channel, name } => Action::JoinChannel {
                channel: *channel,
                name: name.clone(),
            },
            Action::RemoveCall => Action::RemoveCall,
            Action::StopQueue => Action::StopQueue,
            Action::PauseQueue => Action::PauseQueue,
            Action::ResumeQueue => Action::ResumeQueue,
            Action::SkipTrack => Action::SkipTrack,
            Action::ReadCurrent => Action::ReadCurrent,
            Action::ReadQueue => Action::ReadQueue,
            Action::EnqueueTrack { id, path } => Action::EnqueueTrack {
                id: *id,
                path: path.clone(),
            },
        }
    }
}

/// The model of a list of actions.
pub open spec fn actions_view(actions: Seq<Action>) -> Seq<ActionView> {
    actions.map_values(|a: Action| a@)
}

/// A channel of a guild.
#[derive(Clone, Copy, Debug, PartialEq, Eq)]
pub struct ChannelInfo {
    pub id: u64,
    pub is_voice: bool,
}

/// The answer to an [`Action`].
#[derive(Debug, PartialEq, Eq)]
pub enum Event<C> {
    /// It was done.
    Done,
    /// It failed, for the reason given.
    Failed(String),
    /// The channels of the guild.
    Channels(Vec<ChannelInfo>),
    /// The users in a voice channel.
    Members(Vec<u64>),
    /// The name of a channel.
    Name(String),
    /// The bot is connected; this is the handle of the call.
    Joined(C),
    /// The song that is playing, if any.
    Current(Option<usize>),
    /// The songs in the queue; the first one is playing.
    Queue(Vec<usize>),
}

/// The model of [`Event`].
pub enum EventView<C> {
    Done,
    Failed(Seq<char>),
    Channels(Seq<ChannelInfo>),
    Members(Seq<u64>),
    Name(Seq<char>),
    Joined(C),
    Current(Option<usize>),
    Queue(Seq<usize>),
}

impl<C> View for Event<C> {
    type V = EventView<C>;

    open spec fn view(&self) -> EventView<C> {
        match self {
            Event::Done => EventView::Done,
            Event::Failed(error) => EventView::Failed(error@),
            Event::Channels(channels) => EventView::Channels(channels@),
            Event::Members(members) => EventView::Members(members@),
            Event::Name(name) => EventView::Name(name@),
            Event::Joined(call) => EventView::Joined(*call),
            Event::Current(current) => EventView::Current(*current),
            Event::Queue(queue) => EventView::Queue(queue@),
        }
    }
}

/// The model of an action is of the same kind and holds the same numbers and strings.
pub proof fn law_action_models(action: Action)
    ensures
        match action {
            Action::Reply(text) => action@ is Reply && action@->Reply_0 == text@,
            Action::ListChannels => action@ is ListChannels,
            Action::ListMembers(channel) => action@ == ActionView::ListMembers(channel),
            Action::NameChannel(channel) => action@ == ActionView::NameChannel(channel),
            Action::JoinChannel { channel, name } => {
                &&& action@ is JoinChannel
                &&& action@->channel == channel
                &&& action@->name == name@
            },
            Action::RemoveCall => action@ is RemoveCall,
            Action::StopQueue => action@ is StopQueue,
            Action::PauseQueue => action@ is PauseQueue,
            Action::ResumeQueue => action@ is ResumeQueue,
            Action::SkipTrack => action@ is SkipTrack,
            Action::ReadCurrent => action@ is ReadCurrent,
            Action::ReadQueue => action@ is ReadQueue,
            Action::EnqueueTrack { id, path } => {
                &&& action@ is EnqueueTrack
                &&& action@->id == id
                &&& action@->path == path@
            },
        },
{
}

/// The model of a list of actions has the model of each action in its place.
pub proof fn law_action_list_models(actions: Seq<Action>)
    ensures
        actions_view(actions).len() == actions.len(),
        forall|i: int|
            0 <= i < actions.len() ==> #[trigger] actions_view(actions)[i] == actions[i]@,
{
}

/// The model of an event is of the same kind and holds the same contents.
pub proof fn law_event_models<C>(event: Event<C>)
    ensures
        match event {
            Event::Done => event@ is Done,
            Event::Failed(error) => event@ == EventView::<C>::Failed(error@),
            Event::Channels(channels) => event@ == EventView::<C>::Channels(channels@),
            Event::Members(members) => event@ == EventView::<C>::Members(members@),
            Event::Name(name) => event@ == EventView::<C>::Name(name@),
            Event::Joined(call) => event@ == EventView::Joined(call),
            Event::Current(current) => event@ == EventView::<C>::Current(current),
            Event::Queue(queue) => event@ == EventView::<C>::Queue(queue@),
        },
{
}

} // verus!
