use discord_music_bot::action::{Action, ChannelInfo, Event};
use discord_music_bot::command::BotCommand;
use discord_music_bot::order::random_order;
use discord_music_bot::run::Run;
use discord_music_bot::script::{
    enqueue, ids_between, now_playing, play, show_queue, shuffle, skipped, track_list,
};
use discord_music_bot::song::SongData;
use discord_music_bot::state::{MusicStates, PlaybackState, PlaybackStateJoined};

const GUILD: u64 = 10;
const USER: u64 = 77;

fn songs(count: usize) -> Vec<SongData> {
    (0..count)
        .map(|i| SongData {
            path: format!("/music/{i}.mp3"),
            artist: format!("Artist{i}"),
            title: format!("Title{i}"),
        })
        .collect()
}

fn line(i: usize) -> String {
    format!("**{i}**\\. Artist{i} - Title{i}")
}

fn reply(text: &str) -> Action {
    Action::Reply(text.to_string())
}

fn track(id: usize) -> Action {
    Action::EnqueueTrack {
        id,
        path: format!("/music/{id}.mp3"),
    }
}

fn joined_states() -> MusicStates<u8> {
    let mut states = MusicStates::new();
    states.set(
        GUILD,
        PlaybackState::Joined(PlaybackStateJoined::new("General".to_string(), 9)),
    );
    states
}

fn is_joined(states: &MusicStates<u8>) -> bool {
    matches!(states.get(GUILD), Some(PlaybackState::Joined(_)))
}

/// Runs a command on the given answers and returns the actions and the failure, if any.
fn carry_out(
    command: BotCommand,
    songs: &Vec<SongData>,
    states: &mut MusicStates<u8>,
    events: Vec<Event<u8>>,
) -> (Vec<Action>, Option<String>) {
    let mut run = Run::start(GUILD, USER, command, songs, states);
    let mut done = Vec::new();
    for event in events {
        done.push(run.pending().unwrap());
        assert!(run.awaits(&event, songs));
        run = run.resume(event, songs, states);
    }
    assert_eq!(run.pending(), None);
    (done, run.failure().cloned())
}

fn awaits(run: &Run, event: Event<u8>, songs: &Vec<SongData>) -> bool {
    run.awaits(&event, songs)
}

fn all_done(count: usize) -> Vec<Event<u8>> {
    (0..count).map(|_| Event::Done).collect()
}

#[test]
fn ids_between_lists_a_range() {
    assert_eq!(ids_between(2, 5), vec![2, 3, 4]);
    assert_eq!(ids_between(3, 3), Vec::<usize>::new());
}

#[test]
fn play_queues_from_the_wanted_song() {
    let songs = songs(4);
    assert_eq!(
        play(&songs, Some(2)),
        vec![
            Action::StopQueue,
            track(2),
            track(3),
            Action::Reply(format!("Playing {}", line(2))),
        ]
    );
    assert_eq!(play(&songs, None).len(), 6);
    assert_eq!(play(&songs, None), play(&songs, Some(0)));
}

#[test]
fn play_out_of_range_stops_and_says_so() {
    assert_eq!(
        play(&songs(4), Some(4)),
        vec![
            Action::StopQueue,
            reply("Song ID **4** is out of range. Available songs: **0**-**3**"),
        ]
    );
}

#[test]
fn enqueue_adds_one_song() {
    assert_eq!(
        enqueue(&songs(4), 3),
        vec![track(3), Action::Reply(format!("Enqueued track {}", line(3)))]
    );
}

#[test]
fn enqueue_out_of_range_says_so() {
    assert_eq!(
        enqueue(&songs(4), 4),
        vec![reply("Song ID **4** is out of range. Available songs: **0**-**4**")]
    );
    assert_eq!(
        enqueue(&songs(1), usize::MAX),
        vec![Action::Reply(format!(
            "Song ID **{}** is out of range. Available songs: **0**-**1**",
            usize::MAX
        ))]
    );
}

#[test]
fn shuffle_plays_the_given_order() {
    assert_eq!(
        shuffle(&songs(3), &vec![2, 0, 1]),
        vec![
            Action::StopQueue,
            track(2),
            track(0),
            track(1),
            Action::Reply(format!("Shuffled. Playing {}", line(2))),
        ]
    );
}

#[test]
fn now_playing_names_the_song() {
    assert_eq!(now_playing(&songs(3), Some(1)), format!("Now playing {}", line(1)));
    assert_eq!(now_playing(&songs(3), None), "Not currently playing");
}

#[test]
fn show_queue_lists_ten_tracks() {
    let songs = songs(20);
    assert_eq!(show_queue(&songs, &vec![]), "Queue is empty");
    assert_eq!(
        show_queue(&songs, &vec![4, 4, 0]),
        format!("Current queue:\n{}\n{}\n{}\n", line(4), line(4), line(0))
    );
    let ten: Vec<usize> = (0..10).collect();
    let shown: String = ten.iter().map(|i| format!("{}\n", line(*i))).collect();
    assert_eq!(show_queue(&songs, &ten), format!("Current queue:\n{shown}"));
    let eleven: Vec<usize> = (0..11).collect();
    assert_eq!(show_queue(&songs, &eleven), format!("Current queue:\n{shown}..."));
}

#[test]
fn skip_announces_the_next_track() {
    let songs = songs(5);
    assert_eq!(skipped(&songs, None), "Skipped current track");
    assert_eq!(
        skipped(&songs, Some(1)),
        format!("Skipped current track. Playing {}", line(1))
    );
    let mut states = joined_states();
    let (done, _) = carry_out(
        BotCommand::Skip,
        &songs,
        &mut states,
        vec![Event::Queue(vec![]), Event::Done],
    );
    assert_eq!(done, vec![Action::ReadQueue, reply("Queue is empty")]);
    let (done, _) = carry_out(
        BotCommand::Skip,
        &songs,
        &mut states,
        vec![Event::Queue(vec![3]), Event::Done, Event::Done],
    );
    assert_eq!(
        done,
        vec![Action::ReadQueue, Action::SkipTrack, reply("Skipped current track")]
    );
    let (done, failure) = carry_out(
        BotCommand::Skip,
        &songs,
        &mut states,
        vec![Event::Queue(vec![3, 9]), Event::Failed("gone".to_string())],
    );
    assert_eq!(done, vec![Action::ReadQueue, Action::SkipTrack]);
    assert_eq!(failure, Some("gone".to_string()));
}

#[test]
fn track_list_shows_a_page() {
    let songs = songs(23);
    let rows: String = (20..23).map(|i| format!("{}\n", line(i))).collect();
    assert_eq!(
        track_list(&songs, Some(1)),
        vec![Action::Reply(format!(
            "Total tracks: **23**\nAvailable pages: **0**-**1**\nTracks **20**-**22**:\n{rows}"
        ))]
    );
    let rows: String = (0..20).map(|i| format!("{}\n", line(i))).collect();
    assert_eq!(
        track_list(&songs, None),
        vec![Action::Reply(format!(
            "Total tracks: **23**\nAvailable pages: **0**-**1**\nTracks **0**-**19**:\n{rows}"
        ))]
    );
}

#[test]
fn track_list_has_an_empty_page_after_full_ones() {
    assert_eq!(
        track_list(&songs(20), Some(1)),
        vec![reply("Total tracks: **20**\nAvailable pages: **0**-**1**\nTracks **20**-**19**:\n")]
    );
}

#[test]
fn track_list_refuses_big_pages() {
    let text = "Page number is too big. Available pages: **0**-**1**";
    assert_eq!(track_list(&songs(23), Some(2)), vec![reply(text)]);
    assert_eq!(track_list(&songs(23), Some(usize::MAX)), vec![reply(text)]);
}

#[test]
fn track_list_splits_long_pages() {
    let mut songs = songs(20);
    for song in songs.iter_mut() {
        song.title = "é".repeat(150);
    }
    let messages: Vec<String> = track_list(&songs, None)
        .into_iter()
        .map(|action| match action {
            Action::Reply(text) => text,
            other => panic!("not a reply: {:?}", other),
        })
        .collect();
    assert_eq!(messages.len(), 2);
    assert_eq!(messages[0].chars().count(), 2000);
    let whole = messages.concat();
    assert!(whole.starts_with("Total tracks: **20**\n"));
    assert!(whole.ends_with(&format!("**19**\\. Artist19 - {}\n", "é".repeat(150))));
}

#[test]
fn pages_show_every_song_once() {
    for count in [1usize, 19, 20, 21, 45, 60] {
        let songs = songs(count);
        let mut listed = Vec::new();
        for page in 0..count / 20 + 1 {
            for action in track_list(&songs, Some(page)) {
                if let Action::Reply(text) = action {
                    listed.extend(text.lines().skip(3).map(|l| l.to_string()));
                }
            }
        }
        let expected: Vec<String> = (0..count).map(line).collect();
        assert_eq!(listed, expected);
    }
}

#[test]
fn random_order_is_a_permutation() {
    for count in [0usize, 1, 2, 50] {
        let mut order = random_order(count);
        order.sort();
        assert_eq!(order, (0..count).collect::<Vec<usize>>());
    }
}

#[test]
fn random_order_moves_items() {
    let sorted: Vec<usize> = (0..1000).collect();
    assert_ne!(random_order(1000), sorted);
}

#[test]
fn commands_without_a_channel_get_the_hint() {
    let hint = reply("No voice channels joined, use `/join` to join a voice channel");
    let commands = [
        BotCommand::Leave,
        BotCommand::Play(None),
        BotCommand::Play(Some(99)),
        BotCommand::Pause,
        BotCommand::Resume,
        BotCommand::Stop,
        BotCommand::NowPlaying,
        BotCommand::ShowQueue,
        BotCommand::Enqueue(0),
        BotCommand::Skip,
        BotCommand::Shuffle,
    ];
    for command in commands {
        let mut states = MusicStates::new();
        let (done, failure) = carry_out(command, &songs(2), &mut states, all_done(1));
        assert_eq!(done, vec![Action::Reply(match &hint {
            Action::Reply(text) => text.clone(),
            _ => unreachable!(),
        })]);
        assert_eq!(failure, None);
        assert_eq!(states.get(GUILD), Some(&PlaybackState::NotJoined));
    }
}

#[test]
fn track_list_needs_no_channel() {
    let mut states = MusicStates::new();
    let (done, _) = carry_out(BotCommand::TrackList(None), &songs(2), &mut states, all_done(1));
    assert_eq!(done.len(), 1);
    assert!(matches!(&done[0], Action::Reply(text) if text.starts_with("Total tracks: **2**")));
}

#[test]
fn join_finds_the_channel_of_the_user() {
    let mut states = MusicStates::new();
    let channels = vec![
        ChannelInfo { id: 1, is_voice: false },
        ChannelInfo { id: 2, is_voice: true },
        ChannelInfo { id: 3, is_voice: true },
        ChannelInfo { id: 4, is_voice: false },
        ChannelInfo { id: 5, is_voice: true },
    ];
    let (done, failure) = carry_out(
        BotCommand::Join,
        &songs(1),
        &mut states,
        vec![
            Event::Channels(channels),
            Event::Members(vec![USER]),
            Event::Members(vec![1, 2, USER]),
            Event::Members(vec![1]),
            Event::Name("Lounge".to_string()),
            Event::Done,
            Event::Joined(33),
        ],
    );
    assert_eq!(
        done,
        vec![
            Action::ListChannels,
            Action::ListMembers(2),
            Action::ListMembers(3),
            Action::ListMembers(5),
            Action::NameChannel(3),
            reply("Joined to `Lounge`"),
            Action::JoinChannel { channel: 3, name: "Lounge".to_string() },
        ]
    );
    assert_eq!(failure, None);
    assert_eq!(
        states.get(GUILD),
        Some(&PlaybackState::Joined(PlaybackStateJoined::new("Lounge".to_string(), 33)))
    );
}

#[test]
fn join_needs_the_user_in_a_voice_channel() {
    let text = "You must be in a voice chat to use `/join` command";
    let mut states = MusicStates::new();
    let (done, _) = carry_out(
        BotCommand::Join,
        &songs(1),
        &mut states,
        vec![
            Event::Channels(vec![ChannelInfo { id: 2, is_voice: true }]),
            Event::Members(vec![USER + 1]),
            Event::Done,
        ],
    );
    assert_eq!(done, vec![Action::ListChannels, Action::ListMembers(2), reply(text)]);
    let (done, _) = carry_out(
        BotCommand::Join,
        &songs(1),
        &mut states,
        vec![Event::Channels(vec![]), Event::Done],
    );
    assert_eq!(done, vec![Action::ListChannels, reply(text)]);
    assert!(!is_joined(&states));
}

#[test]
fn join_gives_up_on_failures() {
    let failed = || Event::Failed("no reach".to_string());
    let channels = || Event::Channels(vec![ChannelInfo { id: 2, is_voice: true }]);
    let members = || Event::Members(vec![USER]);
    let name = || Event::Name("L".to_string());
    let tails: Vec<Vec<Event<u8>>> = vec![
        vec![failed()],
        vec![channels(), failed()],
        vec![channels(), members(), failed()],
        vec![channels(), members(), name(), Event::Done, failed()],
    ];
    for events in tails {
        let count = events.len();
        let mut states = MusicStates::new();
        let (done, failure) = carry_out(BotCommand::Join, &songs(1), &mut states, events);
        assert_eq!(done.len(), count);
        assert_eq!(failure, Some("no reach".to_string()));
        assert_eq!(states.get(GUILD), Some(&PlaybackState::NotJoined));
    }
}

#[test]
fn join_twice_says_so_and_leave_undoes_it() {
    let mut states = joined_states();
    let (done, _) = carry_out(BotCommand::Join, &songs(1), &mut states, all_done(1));
    assert_eq!(done, vec![reply("Already joined to `General`")]);
    assert!(is_joined(&states));
    let (done, _) = carry_out(BotCommand::Leave, &songs(1), &mut states, all_done(2));
    assert_eq!(done, vec![reply("Leaving `General`"), Action::RemoveCall]);
    assert_eq!(states.get(GUILD), Some(&PlaybackState::NotJoined));
}

#[test]
fn failed_leave_stays_joined() {
    let mut states = joined_states();
    let (_, failure) = carry_out(
        BotCommand::Leave,
        &songs(1),
        &mut states,
        vec![Event::Done, Event::Failed("stuck".to_string())],
    );
    assert_eq!(failure, Some("stuck".to_string()));
    assert!(is_joined(&states));
}

#[test]
fn other_guilds_keep_their_state() {
    let mut states = joined_states();
    states.set(11, PlaybackState::Joined(PlaybackStateJoined::new("Other".to_string(), 4)));
    carry_out(BotCommand::Leave, &songs(1), &mut states, all_done(2));
    assert_eq!(
        states.get(11),
        Some(&PlaybackState::Joined(PlaybackStateJoined::new("Other".to_string(), 4)))
    );
}

#[test]
fn player_commands_are_confirmed() {
    let table = vec![
        (BotCommand::Pause, Action::PauseQueue, "Paused"),
        (BotCommand::Resume, Action::ResumeQueue, "Resumed"),
        (BotCommand::Stop, Action::StopQueue, "Stopped"),
    ];
    for (command, action, text) in table {
        let mut states = joined_states();
        let (done, failure) = carry_out(command, &songs(1), &mut states, all_done(2));
        assert_eq!(done, vec![action, reply(text)]);
        assert_eq!(failure, None);
        assert!(is_joined(&states));
    }
}

#[test]
fn failed_pause_sends_no_reply() {
    let mut states = joined_states();
    let (done, failure) = carry_out(
        BotCommand::Pause,
        &songs(1),
        &mut states,
        vec![Event::Failed("ended".to_string())],
    );
    assert_eq!(done, vec![Action::PauseQueue]);
    assert_eq!(failure, Some("ended".to_string()));
}

#[test]
fn play_stops_at_the_first_bad_file() {
    let mut states = joined_states();
    let (done, failure) = carry_out(
        BotCommand::Play(Some(1)),
        &songs(5),
        &mut states,
        vec![Event::Done, Event::Done, Event::Failed("bad file".to_string())],
    );
    assert_eq!(done, vec![Action::StopQueue, track(1), track(2)]);
    assert_eq!(failure, Some("bad file".to_string()));
}

#[test]
fn play_runs_to_the_end() {
    let mut states = joined_states();
    let songs = songs(3);
    let (done, failure) = carry_out(BotCommand::Play(None), &songs, &mut states, all_done(5));
    assert_eq!(done, play(&songs, None));
    assert_eq!(failure, None);
}

#[test]
fn shuffle_runs_through_every_song_once() {
    let mut states = joined_states();
    let songs = songs(30);
    let (done, _) = carry_out(BotCommand::Shuffle, &songs, &mut states, all_done(32));
    assert_eq!(done[0], Action::StopQueue);
    let mut ids: Vec<usize> = done
        .iter()
        .filter_map(|action| match action {
            Action::EnqueueTrack { id, .. } => Some(*id),
            _ => None,
        })
        .collect();
    assert_eq!(done[31], Action::Reply(format!("Shuffled. Playing {}", line(ids[0]))));
    ids.sort();
    assert_eq!(ids, (0..30).collect::<Vec<usize>>());
}

#[test]
fn start_in_order_uses_the_given_order() {
    let songs = songs(3);
    let mut states = joined_states();
    let run = Run::start_in_order(
        GUILD,
        USER,
        BotCommand::Shuffle,
        &songs,
        &mut states,
        &vec![1, 2, 0],
    );
    assert_eq!(run.pending(), Some(Action::StopQueue));
    let run = run.resume(Event::Done, &songs, &mut states);
    assert_eq!(run.pending(), Some(track(1)));
}

#[test]
fn queue_questions_are_answered() {
    let songs = songs(5);
    let mut states = joined_states();
    let (done, _) = carry_out(
        BotCommand::NowPlaying,
        &songs,
        &mut states,
        vec![Event::Current(Some(2)), Event::Done],
    );
    assert_eq!(
        done,
        vec![Action::ReadCurrent, Action::Reply(format!("Now playing {}", line(2)))]
    );
    let (done, _) = carry_out(
        BotCommand::ShowQueue,
        &songs,
        &mut states,
        vec![Event::Queue(vec![]), Event::Done],
    );
    assert_eq!(done, vec![Action::ReadQueue, reply("Queue is empty")]);
    let (done, _) = carry_out(
        BotCommand::Skip,
        &songs,
        &mut states,
        vec![Event::Queue(vec![0, 4]), Event::Done, Event::Done],
    );
    assert_eq!(
        done,
        vec![
            Action::ReadQueue,
            Action::SkipTrack,
            Action::Reply(format!("Skipped current track. Playing {}", line(4))),
        ]
    );
}

#[test]
fn only_fitting_answers_are_awaited() {
    let songs = songs(2);
    let mut states = joined_states();
    let run = Run::start(GUILD, USER, BotCommand::NowPlaying, &songs, &mut states);
    assert!(awaits(&run, Event::Current(Some(1)), &songs));
    assert!(awaits(&run, Event::Current(None), &songs));
    assert!(!awaits(&run, Event::Current(Some(2)), &songs));
    assert!(!awaits(&run, Event::Done, &songs));
    assert!(!awaits(&run, Event::Failed("x".to_string()), &songs));
    let run = Run::start(GUILD, USER, BotCommand::ShowQueue, &songs, &mut states);
    assert!(awaits(&run, Event::Queue(vec![0, 1]), &songs));
    assert!(!awaits(&run, Event::Queue(vec![0, 2]), &songs));
    let mut long = vec![1; 10];
    long.push(5);
    assert!(awaits(&run, Event::Queue(long), &songs));
    let run = Run::start(GUILD, USER, BotCommand::Skip, &songs, &mut states);
    assert!(awaits(&run, Event::Queue(vec![9]), &songs));
    assert!(!awaits(&run, Event::Failed("x".to_string()), &songs));
    let run = run.resume(Event::Queue(vec![9, 1, 9]), &songs, &mut states);
    assert!(awaits(&run, Event::Done, &songs));
    let run = Run::start(GUILD, USER, BotCommand::Skip, &songs, &mut states);
    let run = run.resume(Event::Queue(vec![0, 2]), &songs, &mut states);
    assert!(!awaits(&run, Event::Done, &songs));
    assert!(awaits(&run, Event::Failed("x".to_string()), &songs));
    let run = Run::start(GUILD, USER, BotCommand::Stop, &songs, &mut states);
    assert!(awaits(&run, Event::Done, &songs));
    assert!(!awaits(&run, Event::Failed("x".to_string()), &songs));
    assert!(!awaits(&run, Event::Joined(1), &songs));
    let run = run.resume(Event::Done, &songs, &mut states);
    let run = run.resume(Event::Done, &songs, &mut states);
    assert!(!awaits(&run, Event::Done, &songs));
}

#[test]
fn duplicate_makes_an_equal_action() {
    let actions = vec![
        reply("hi"),
        Action::ListChannels,
        Action::ListMembers(1),
        Action::NameChannel(2),
        Action::JoinChannel { channel: 3, name: "n".to_string() },
        Action::RemoveCall,
        Action::StopQueue,
        Action::PauseQueue,
        Action::ResumeQueue,
        Action::SkipTrack,
        Action::ReadCurrent,
        Action::ReadQueue,
        track(4),
    ];
    for action in &actions {
        assert_eq!(&action.duplicate(), action);
    }
}

#[test]
fn every_finished_command_is_answered_once() {
    let songs = songs(3);
    let runs: Vec<(BotCommand, Vec<Event<u8>>)> = vec![
        (BotCommand::Join, all_done(1)),
        (BotCommand::Play(Some(1)), all_done(4)),
        (BotCommand::Play(Some(3)), all_done(2)),
        (BotCommand::Pause, all_done(2)),
        (BotCommand::Resume, all_done(2)),
        (BotCommand::Stop, all_done(2)),
        (BotCommand::NowPlaying, vec![Event::Current(None), Event::Done]),
        (BotCommand::ShowQueue, vec![Event::Queue(vec![0]), Event::Done]),
        (BotCommand::Enqueue(2), all_done(2)),
        (BotCommand::Enqueue(3), all_done(1)),
        (BotCommand::Skip, vec![Event::Queue(vec![0]), Event::Done, Event::Done]),
        (BotCommand::Shuffle, all_done(5)),
        (BotCommand::TrackList(Some(0)), all_done(1)),
        (BotCommand::Leave, all_done(2)),
    ];
    for (command, events) in runs {
        let mut states = joined_states();
        let (done, failure) = carry_out(command, &songs, &mut states, events);
        let replies = done.iter().filter(|a| matches!(a, Action::Reply(_))).count();
        assert_eq!(replies, 1);
        assert_eq!(failure, None);
        assert_eq!(is_joined(&states), command != BotCommand::Leave);
    }
}
