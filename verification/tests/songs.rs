use discord_music_bot::handler::Handler;
use discord_music_bot::song::{collect_songs, entry_song, format_song, SongData, TagData, WalkEntry};
use discord_music_bot::state::{MusicStates, PlaybackState, PlaybackStateJoined};
use discord_music_bot::text::{decimal_string, same_text, split_chunks};

fn song(path: &str, artist: &str, title: &str) -> SongData {
    SongData {
        path: path.to_string(),
        artist: artist.to_string(),
        title: title.to_string(),
    }
}

fn file(path: &str, artist: Option<&str>, title: Option<&str>) -> WalkEntry {
    WalkEntry::File {
        path: path.to_string(),
        tag: Some(TagData {
            artist: artist.map(|s| s.to_string()),
            title: title.map(|s| s.to_string()),
        }),
    }
}

#[test]
fn format_song_shows_number_artist_and_title() {
    assert_eq!(format_song(7, &song("/m/a.mp3", "Queen", "Innuendo")), "**7**\\. Queen - Innuendo");
    assert_eq!(format_song(0, &song("p", "", "")), "**0**\\.  - ");
    assert_eq!(format_song(120, &song("p", "Å", "ß")), "**120**\\. Å - ß");
}

#[test]
fn decimal_string_agrees_with_display() {
    for n in [0, 1, 9, 10, 11, 99, 100, 1234567890, usize::MAX - 1, usize::MAX] {
        assert_eq!(decimal_string(n), n.to_string());
    }
    for n in 0..2000usize {
        assert_eq!(decimal_string(n), n.to_string());
        assert_eq!(decimal_string(n).parse::<usize>().unwrap(), n);
    }
}

#[test]
fn same_text_compares_characters() {
    assert!(same_text(&"play".to_string(), "play"));
    assert!(!same_text(&"play".to_string(), "plays"));
    assert!(!same_text(&"Play".to_string(), "play"));
    assert!(same_text(&String::new(), ""));
}

#[test]
fn split_chunks_cuts_by_characters() {
    assert_eq!(split_chunks(&"abcdefg".to_string(), 3), vec!["abc", "def", "g"]);
    assert_eq!(split_chunks(&"abcdef".to_string(), 3), vec!["abc", "def"]);
    assert_eq!(split_chunks(&"ab".to_string(), 3), vec!["ab"]);
    assert_eq!(split_chunks(&String::new(), 3), Vec::<String>::new());
    assert_eq!(split_chunks(&"äöüßé".to_string(), 2), vec!["äö", "üß", "é"]);
}

#[test]
fn split_chunks_put_together_are_the_text() {
    let text = "Grüße 🎵 ".repeat(700);
    let chunks = split_chunks(&text, 2000);
    assert_eq!(chunks.concat(), text);
    assert_eq!(chunks.len(), 3);
    assert_eq!(chunks[0].chars().count(), 2000);
    assert_eq!(chunks[1].chars().count(), 2000);
    assert_eq!(chunks[2].chars().count(), 1600);
}

#[test]
fn entry_song_needs_a_tag() {
    assert_eq!(entry_song(&WalkEntry::Unreadable), None);
    assert_eq!(entry_song(&WalkEntry::NotFile), None);
    assert_eq!(entry_song(&WalkEntry::File { path: "x".to_string(), tag: None }), None);
    assert_eq!(entry_song(&file("x", Some("A"), Some("T"))), Some(song("x", "A", "T")));
}

#[test]
fn missing_names_are_unknown() {
    assert_eq!(entry_song(&file("x", None, Some("T"))), Some(song("x", "[Unknown]", "T")));
    assert_eq!(entry_song(&file("x", Some("A"), None)), Some(song("x", "A", "[Unknown]")));
    assert_eq!(entry_song(&file("x", None, None)), Some(song("x", "[Unknown]", "[Unknown]")));
    assert_eq!(entry_song(&file("x", Some(""), Some(""))), Some(song("x", "", "")));
}

#[test]
fn collect_songs_keeps_the_order_of_the_walk() {
    let entries = vec![
        WalkEntry::NotFile,
        file("b", Some("B"), Some("2")),
        WalkEntry::Unreadable,
        WalkEntry::File { path: "cover.png".to_string(), tag: None },
        file("a", None, Some("1")),
    ];
    assert_eq!(collect_songs(&entries), vec![song("b", "B", "2"), song("a", "[Unknown]", "1")]);
    assert_eq!(collect_songs(&Vec::new()), Vec::new());
}

#[test]
fn handler_new_starts_without_states() {
    let handler: Handler<u8> = Handler::new(&vec![file("a", Some("A"), Some("T"))]).unwrap();
    assert_eq!(handler.songs, vec![song("a", "A", "T")]);
    assert!(handler.music_states.get(1).is_none());
    let empty: Handler<u8> = Handler::new(&vec![WalkEntry::Unreadable]).unwrap();
    assert!(empty.songs.is_empty());
}

#[test]
fn playback_state_joined_new_keeps_its_parts() {
    let joined = PlaybackStateJoined::new("General".to_string(), 42u8);
    assert_eq!(joined.channel_name, "General");
    assert_eq!(joined.call, 42);
}

#[test]
fn music_states_are_kept_per_guild() {
    let mut states: MusicStates<u8> = MusicStates::new();
    assert!(states.get(5).is_none());
    states.enter(5);
    assert_eq!(states.get(5), Some(&PlaybackState::NotJoined));
    assert!(states.get(6).is_none());
    states.set(5, PlaybackState::Joined(PlaybackStateJoined::new("G".to_string(), 1)));
    states.enter(5);
    assert_eq!(
        states.get(5),
        Some(&PlaybackState::Joined(PlaybackStateJoined::new("G".to_string(), 1)))
    );
    states.set(6, PlaybackState::NotJoined);
    states.set(5, PlaybackState::NotJoined);
    assert_eq!(states.get(5), Some(&PlaybackState::NotJoined));
    assert_eq!(states.get(6), Some(&PlaybackState::NotJoined));
}
