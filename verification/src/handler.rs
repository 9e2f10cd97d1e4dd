//! The bot's data: its songs and the state of each guild.

use crate::song::{collect_songs, collected, entries_view, songs_view, SongData, WalkEntry};
use crate::state::{MusicStates, StateView};
use vstd::prelude::*;

verus! {

/// Everything the bot knows.
#[verifier::reject_recursive_types(C)]
#[derive(Debug)]
pub struct Handler<C> {
    pub music_states: MusicStates<C>,
    pub songs: Vec<SongData>,
}

impl<C> Handler<C> {
    /// Builds the bot's data from a walk through the music directory.
    pub fn new(entries: &Vec<WalkEntry>) -> (r: Result<Self, String>)
        ensures
            r is Ok,
            songs_view(r->Ok_0.songs@) == collected(entries_view(entries@)),
            r->Ok_0.music_states@ == Map::<u64, StateView<C>>::empty(),
    {
        Ok(Handler { music_states: MusicStates::new(), songs: collect_songs(entries) })
    }
}

} // verus!
