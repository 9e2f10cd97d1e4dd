//! Songs: what a music directory yields and how a song is shown.

use crate::text::{decimal, decimal_string};
use vstd::prelude::*;
use vstd::string::*;

verus! {

/// A playable file with the names read from its tag.
#[derive(Clone, Debug, PartialEq, Eq)]
pub struct SongData {
    pub path: String,
    pub artist: String,
    pub title: String,
}

/// The model of [`SongData`].
pub struct SongView {
    pub path: Seq<char>,
    pub artist: Seq<char>,
    pub title: Seq<char>,
}

impl View for SongData {
    type V = SongView;

    open spec fn view(&self) -> SongView {
        SongView { path: self.path@, artist: self.artist@, title: self.title@ }
    }
}

/// The model of a list of songs.
pub open spec fn songs_view(songs: Seq<SongData>) -> Seq<SongView> {
    songs.map_values(|s: SongData| s@)
}

/// The line that shows song `id`: its number in bold, then artist and title.
pub open spec fn song_line(id: nat, song: SongView) -> Seq<char> {
    "**"@ + decimal(id) + "**\\. "@ + song.artist + " - "@ + song.title
}

/// Formats a song for a message.
pub fn format_song(id: usize, song_data: &SongData) -> (r: String)
    ensures
        r@ == song_line(id as nat, song_data@),
{
    let mut line: String = "**".to_owned();
    line.append(decimal_string(id).as_str());
    line.append("**\\. ");
    line.append(song_data.artist.as_str());
    line.append(" - ");
    line.append(song_data.title.as_str());
    line
}

/// The names that a tag carries; either may be missing.
#[derive(Debug, PartialEq, Eq)]
pub struct TagData {
    pub artist: Option<String>,
    pub title: Option<String>,
}

/// One entry met while walking the music directory.
#[derive(Debug, PartialEq, Eq)]
pub enum WalkEntry {
    /// The entry itself could not be read.
    Unreadable,
    /// Something that is not a file, such as a directory.
    NotFile,
    /// A file, with its tag where one could be read.
    File { path: String, tag: Option<TagData> },
}

/// The model of [`TagData`].
pub struct TagView {
    pub artist: Option<Seq<char>>,
    pub title: Option<Seq<char>>,
}

/// The model of [`WalkEntry`].
pub enum WalkEntryView {
    Unreadable,
    NotFile,
    File { path: Seq<char>, tag: Option<TagView> },
}

/// The characters of an optional string.
pub open spec fn text_option(s: Option<String>) -> Option<Seq<char>> {
    match s {
        Some(s) => Some(s@),
        None => None,
    }
}

impl View for WalkEntry {
    type V = WalkEntryView;

    open spec fn view(&self) -> WalkEntryView {
        match self {
            WalkEntry::Unreadable => WalkEntryView::Unreadable,
            WalkEntry::NotFile => WalkEntryView::NotFile,
            WalkEntry::File { path, tag } => WalkEntryView::File {
                path: path@,
                tag: match tag {
                    Some(tag) => Some(
                        TagView {
                            artist: text_option(tag.artist),
                            title: text_option(tag.title),
                        },
                    ),
                    None => None,
                },
            },
        }
    }
}

/// The model of a list of entries.
pub open spec fn entries_view(entries: Seq<WalkEntry>) -> Seq<WalkEntryView> {
    entries.map_values(|e: WalkEntry| e@)
}

/// An entry becomes a song exactly if it is a file with a readable tag.
pub open spec fn is_song(entry: WalkEntryView) -> bool {
    entry matches WalkEntryView::File { path, tag } && tag is Some
}

/// A name from a tag, or the placeholder for a missing one.
pub open spec fn name_or_unknown(name: Option<Seq<char>>) -> Seq<char> {
    match name {
        Some(name) => name,
        None => "[Unknown]"@,
    }
}

/// The song that an entry with a readable tag becomes.
pub open spec fn song_of(entry: WalkEntryView) -> SongView
    recommends
        is_song(entry),
{
    SongView {
        path: entry->File_path,
        artist: name_or_unknown(entry->File_tag->0.artist),
        title: name_or_unknown(entry->File_tag->0.title),
    }
}

/// The songs of a walk: its tagged files, in the order of the walk.
pub open spec fn collected(entries: Seq<WalkEntryView>) -> Seq<SongView> {
    entries.filter(|e: WalkEntryView| is_song(e)).map_values(|e: WalkEntryView| song_of(e))
}

fn name_from_tag(name: &Option<String>) -> (r: String)
    ensures
        r@ == name_or_unknown(text_option(*name)),
{
    match name {
        Some(name) => name.clone(),
        None => "[Unknown]".to_owned(),
    }
}

/// Makes the song of one entry, if it yields one.
pub fn entry_song(entry: &WalkEntry) -> (r: Option<SongData>)
    ensures
        r is Some <==> is_song(entry@),
        r is Some ==> r->0@ == song_of(entry@),
{
    match entry {
        WalkEntry::File { path, tag: Some(tag) } => Some(
            SongData {
                path: path.clone(),
                artist: name_from_tag(&tag.artist),
                title: name_from_tag(&tag.title),
            },
        ),
        _ => None,
    }
}

/// Collects the songs of a walk.
pub fn collect_songs(entries: &Vec<WalkEntry>) -> (r: Vec<SongData>)
    ensures
        songs_view(r@) == collected(entries_view(entries@)),
{
    let mut songs: Vec<SongData> = Vec::new();
    let mut i: usize = 0;
    let ghost all = entries_view(entries@);
    let ghost keep = |e: WalkEntryView| is_song(e);
    let ghost make = |e: WalkEntryView| song_of(e);
    proof {
        reveal(Seq::filter);
        assert(songs_view(songs@) =~= all.take(0).filter(keep).map_values(make));
    }
    while i < entries.len()
        invariant
            i <= entries.len(),
            all == entries_view(entries@),
            keep == (|e: WalkEntryView| is_song(e)),
            make == (|e: WalkEntryView| song_of(e)),
            songs_view(songs@) == all.take(i as int).filter(keep).map_values(make),
        decreases entries.len() - i,
    {
        let ghost before = songs_view(songs@);
        let ghost head = all.take(i as int);
        proof {
            reveal(Seq::filter);
            let next = all.take(i + 1);
            assert(next.drop_last() =~= head);
            assert(next.last() == entries@[i as int]@);
            if is_song(next.last()) {
                assert(next.filter(keep) == head.filter(keep).push(next.last()));
                assert(next.filter(keep).map_values(make) =~= before.push(song_of(next.last())));
            } else {
                assert(next.filter(keep) == head.filter(keep));
            }
        }
        match entry_song(&entries[i]) {
            Some(song) => {
                songs.push(song);
                proof {
                    assert(songs_view(songs@) =~= before.push(song@));
                }
            },
            None => {},
        }
        i = i + 1;
    }
    proof {
        assert(all.take(entries.len() as int) =~= all);
    }
    songs
}

/// The songs keep the order of the walk: what is met later is listed later, and what one part
/// of a walk yields does not depend on the other part.
pub proof fn law_songs_keep_the_order_of_the_walk(
    first: Seq<WalkEntryView>,
    second: Seq<WalkEntryView>,
)
    ensures
        collected(first + second) == collected(first) + collected(second),
{
    Seq::filter_distributes_over_add(first, second, |e: WalkEntryView| is_song(e));
    assert(collected(first + second) =~= collected(first) + collected(second));
}

/// A file with a readable tag becomes one song with the file's path and the tag's names, where
/// a missing name becomes a placeholder. Nothing else becomes a song.
pub proof fn law_tagged_files_become_songs(entry: WalkEntryView)
    ensures
        collected(Seq::empty()) == Seq::<SongView>::empty(),
        entry is Unreadable || entry is NotFile ==> !is_song(entry) && collected(
            seq![entry],
        ).len() == 0,
        entry matches WalkEntryView::File { path, tag } ==> match tag {
            None => !is_song(entry) && collected(seq![entry]).len() == 0,
            Some(tag) => {
                let song = collected(seq![entry])[0];
                &&& is_song(entry)
                &&& collected(seq![entry]).len() == 1
                &&& song_of(entry) == song
                &&& song.path == path
                &&& tag.artist matches Some(artist) ==> song.artist == artist
                &&& tag.artist is None ==> song.artist == "[Unknown]"@
                &&& tag.title matches Some(title) ==> song.title == title
                &&& tag.title is None ==> song.title == "[Unknown]"@
            },
        },
{
    reveal(Seq::filter);
    let keep = |e: WalkEntryView| is_song(e);
    let none = Seq::<WalkEntryView>::empty();
    assert(seq![entry].drop_last() =~= none);
    assert(none.filter(keep) =~= none);
    assert(collected(none) =~= Seq::<SongView>::empty());
    assert(seq![entry].filter(keep) =~= if is_song(entry) {
        seq![entry]
    } else {
        none
    });
}

/// The model of a list of songs has the strings of each song in its place.
pub proof fn law_song_models(songs: Seq<SongData>)
    ensures
        songs_view(songs).len() == songs.len(),
        forall|i: int|
            0 <= i < songs.len() ==> {
                &&& (#[trigger] songs_view(songs)[i]).path == songs[i].path@
                &&& songs_view(songs)[i].artist == songs[i].artist@
                &&& songs_view(songs)[i].title == songs[i].title@
            },
{
}

/// The model of a walk has the strings of each entry in its place.
pub proof fn law_entry_models(entries: Seq<WalkEntry>)
    ensures
        entries_view(entries).len() == entries.len(),
        forall|i: int|
            0 <= i < entries.len() ==> match entries[i] {
                WalkEntry::Unreadable => #[trigger] entries_view(entries)[i] is Unreadable,
                WalkEntry::NotFile => entries_view(entries)[i] is NotFile,
                WalkEntry::File { path, tag } => {
                    let model = entries_view(entries)[i];
                    &&& model is File
                    &&& model->File_path == path@
                    &&& model->File_tag is Some <==> tag is Some
                    &&& tag matches Some(tag) ==> {
                        let names = model->File_tag->0;
                        &&& names.artist is Some <==> tag.artist is Some
                        &&& names.title is Some <==> tag.title is Some
                        &&& tag.artist matches Some(artist) ==> names.artist->0 == artist@
                        &&& tag.title matches Some(title) ==> names.title->0 == title@
                    }
                },
            },
{
}

} // verus!
