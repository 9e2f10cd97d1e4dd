//! What the bot remembers of each guild.

use std::collections::hash_map::Entry;
use std::collections::HashMap;
use vstd::prelude::*;

verus! {

/// A joined voice channel, with the handle of its call.
///
/// The handle belongs to the voice library; nothing here looks inside it.
#[derive(Debug, PartialEq, Eq)]
pub struct PlaybackStateJoined<C> {
    pub channel_name: String,
    pub call: C,
}

impl<C> PlaybackStateJoined<C> {
    pub fn new(channel_name: String, call: C) -> (r: Self)
        ensures
            r.channel_name == channel_name,
            r.call == call,
    {
        Self { channel_name, call }
    }
}

/// Whether the bot sits in a voice channel of a guild.
#[derive(Debug, PartialEq, Eq)]
pub enum PlaybackState<C> {
    NotJoined,
    Joined(PlaybackStateJoined<C>),
}

/// The model of [`PlaybackState`].
pub enum StateView<C> {
    NotJoined,
    Joined { channel_name: Seq<char>, call: C },
}

impl<C> View for PlaybackState<C> {
    type V = StateView<C>;

    open spec fn view(&self) -> StateView<C> {
        match self {
            PlaybackState::NotJoined => StateView::NotJoined,
            PlaybackState::Joined(joined) => StateView::Joined {
                channel_name: joined.channel_name@,
                call: joined.call,
            },
        }
    }
}

/// The playback state of every guild that has sent a command.
#[verifier::reject_recursive_types(C)]
#[derive(Debug)]
pub struct MusicStates<C> {
    states: HashMap<u64, PlaybackState<C>>,
}

impl<C> View for MusicStates<C> {
    type V = Map<u64, StateView<C>>;

    closed spec fn view(&self) -> Map<u64, StateView<C>> {
        self.states@.map_values(|s: PlaybackState<C>| s@)
    }
}

/// The state of a guild: one that never sent a command has none joined.
pub open spec fn state_of<C>(states: Map<u64, StateView<C>>, guild: u64) -> StateView<C> {
    if states.contains_key(guild) {
        states[guild]
    } else {
        StateView::NotJoined
    }
}

impl<C> MusicStates<C> {
    /// No guild has sent a command yet.
    pub fn new() -> (r: Self)
        ensures
            r@ == Map::<u64, StateView<C>>::empty(),
    {
        let r = MusicStates { states: HashMap::new() };
        proof {
            assert(r@ =~= Map::<u64, StateView<C>>::empty());
        }
        r
    }

    /// Gives `guild` a state if it has none.
    pub fn enter(&mut self, guild: u64)
        ensures
            final(self)@ == old(self)@.insert(guild, state_of(old(self)@, guild)),
    {
        match self.states.entry(guild) {
            Entry::Occupied(occupied) => {
                occupied.into_mut();
            },
            Entry::Vacant(vacant) => {
                vacant.insert(PlaybackState::NotJoined);
            },
        }
        proof {
            assert(self@ =~= old(self)@.insert(guild, state_of(old(self)@, guild)));
        }
    }

    /// Reads the state of `guild`.
    pub fn get(&self, guild: u64) -> (r: Option<&PlaybackState<C>>)
        ensures
            r is Some <==> self@.contains_key(guild),
            r is Some ==> r->0@ == self@[guild],
    {
        self.states.get(&guild)
    }

    /// Replaces the state of `guild`.
    pub fn set(&mut self, guild: u64, state: PlaybackState<C>)
        ensures
            final(self)@ == old(self)@.insert(guild, state@),
    {
        self.states.insert(guild, state);
        proof {
            assert(self@ =~= old(self)@.insert(guild, state@));
        }
    }
}

/// The model of a playback state is joined exactly if the state is, and holds the same name and
/// call.
pub proof fn law_state_models<C>(state: PlaybackState<C>)
    ensures
        state is NotJoined <==> state@ is NotJoined,
        state matches PlaybackState::Joined(joined) ==> {
            &&& state@->channel_name == joined.channel_name@
            &&& state@->call == joined.call
        },
{
}

/// A guild without a command has no channel joined, a guild has the state it was last given,
/// and giving one to a guild leaves the others as they were.
pub proof fn law_guild_has_the_last_state<C>(
    states: Map<u64, StateView<C>>,
    guild: u64,
    other: u64,
    state: StateView<C>,
)
    ensures
        state_of(Map::<u64, StateView<C>>::empty(), guild) is NotJoined,
        state_of(states.remove(guild), guild) is NotJoined,
        state_of(states.insert(guild, state), guild) == state,
        other != guild ==> state_of(states.insert(guild, state), other) == state_of(states, other),
{
}

} // verus!
