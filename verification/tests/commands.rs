use discord_music_bot::command::{
    command_definitions, BotCommand, CommandInteraction, OptionValue,
};
use discord_music_bot::run::accept;
use discord_music_bot::song::SongData;

fn interaction(name: &str, options: Vec<OptionValue>) -> CommandInteraction {
    CommandInteraction {
        guild_id: Some(1),
        user_id: 2,
        name: name.to_string(),
        options,
    }
}

fn one_song() -> Vec<SongData> {
    vec![SongData {
        path: "p".to_string(),
        artist: "A".to_string(),
        title: "T".to_string(),
    }]
}

#[test]
fn as_i64_takes_integers_only() {
    assert_eq!(OptionValue::Integer(-3).as_i64(), Some(-3));
    assert_eq!(OptionValue::Other.as_i64(), None);
}

#[test]
fn try_from_reads_commands_without_options() {
    let table = vec![
        ("join", BotCommand::Join),
        ("leave", BotCommand::Leave),
        ("play", BotCommand::Play(None)),
        ("pause", BotCommand::Pause),
        ("resume", BotCommand::Resume),
        ("stop", BotCommand::Stop),
        ("nowplaying", BotCommand::NowPlaying),
        ("showqueue", BotCommand::ShowQueue),
        ("skip", BotCommand::Skip),
        ("shuffle", BotCommand::Shuffle),
        ("tracklist", BotCommand::TrackList(None)),
    ];
    for (name, command) in table {
        assert_eq!(BotCommand::try_from(&interaction(name, vec![])), Ok(command));
    }
}

#[test]
fn try_from_reads_integer_options() {
    let options = || vec![OptionValue::Integer(12)];
    assert_eq!(
        BotCommand::try_from(&interaction("play", options())),
        Ok(BotCommand::Play(Some(12)))
    );
    assert_eq!(
        BotCommand::try_from(&interaction("enqueue", options())),
        Ok(BotCommand::Enqueue(12))
    );
    assert_eq!(
        BotCommand::try_from(&interaction("tracklist", options())),
        Ok(BotCommand::TrackList(Some(12)))
    );
    assert_eq!(BotCommand::try_from(&interaction("skip", options())), Ok(BotCommand::Skip));
}

#[test]
fn try_from_casts_the_index() {
    for v in [0i64, 1, -1, i64::MIN, i64::MAX, -5000000000, 4294967296, 4294967297] {
        assert_eq!(
            BotCommand::try_from(&interaction("enqueue", vec![OptionValue::Integer(v)])),
            Ok(BotCommand::Enqueue(v as usize))
        );
    }
    assert_eq!(
        BotCommand::try_from(&interaction("play", vec![OptionValue::Integer(-1)])),
        Ok(BotCommand::Play(Some(usize::MAX)))
    );
}

#[test]
fn try_from_looks_at_the_first_option_only() {
    let options = vec![OptionValue::Integer(4), OptionValue::Other, OptionValue::Integer(5)];
    assert_eq!(
        BotCommand::try_from(&interaction("enqueue", options)),
        Ok(BotCommand::Enqueue(4))
    );
}

#[test]
fn try_from_refuses_unknown_names() {
    assert_eq!(
        BotCommand::try_from(&interaction("dance", vec![])),
        Err("Invalid command dance".to_string())
    );
    assert_eq!(
        BotCommand::try_from(&interaction("", vec![OptionValue::Other])),
        Err("Invalid command ".to_string())
    );
    assert_eq!(
        BotCommand::try_from(&interaction("Join", vec![])),
        Err("Invalid command Join".to_string())
    );
}

#[test]
fn options_fit_as_registered() {
    assert!(interaction("play", vec![]).has_fitting_options());
    assert!(interaction("play", vec![OptionValue::Integer(1)]).has_fitting_options());
    assert!(!interaction("play", vec![OptionValue::Other]).has_fitting_options());
    assert!(!interaction("tracklist", vec![OptionValue::Other]).has_fitting_options());
    assert!(!interaction("enqueue", vec![]).has_fitting_options());
    assert!(!interaction("enqueue", vec![OptionValue::Other]).has_fitting_options());
    assert!(interaction("enqueue", vec![OptionValue::Integer(1)]).has_fitting_options());
    assert!(interaction("join", vec![OptionValue::Other]).has_fitting_options());
    assert!(interaction("dance", vec![]).has_fitting_options());
}

#[test]
fn definitions_are_registered_in_order() {
    let names: Vec<String> = command_definitions().into_iter().map(|d| d.name).collect();
    assert_eq!(
        names,
        vec![
            "join",
            "leave",
            "play",
            "pause",
            "resume",
            "stop",
            "nowplaying",
            "showqueue",
            "enqueue",
            "skip",
            "shuffle",
            "tracklist"
        ]
    );
}

#[test]
fn definitions_describe_their_options() {
    let definitions = command_definitions();
    let with_options: Vec<(&str, &str, &str, u64, bool)> = definitions
        .iter()
        .filter_map(|d| {
            d.option.as_ref().map(|o| {
                (
                    d.name.as_str(),
                    o.name.as_str(),
                    o.description.as_str(),
                    o.min_int_value,
                    o.required,
                )
            })
        })
        .collect();
    assert_eq!(
        with_options,
        vec![
            ("play", "id", "Song ID", 0, false),
            ("enqueue", "id", "Song ID", 0, true),
            ("tracklist", "num", "Page Number", 0, false),
        ]
    );
    assert_eq!(definitions[0].description, "Join a voice chat");
    assert_eq!(definitions[5].description, "Stop playback resetting queue");
    assert_eq!(definitions[11].description, "List all tracks");
}

#[test]
fn every_definition_is_understood() {
    let mut seen: Vec<BotCommand> = Vec::new();
    for definition in command_definitions() {
        let options = match definition.option {
            Some(option) => vec![OptionValue::Integer(option.min_int_value as i64)],
            None => vec![],
        };
        let sent = interaction(&definition.name, options);
        assert!(sent.has_fitting_options());
        let command = BotCommand::try_from(&sent).unwrap();
        assert!(!seen.contains(&command));
        seen.push(command);
    }
    assert_eq!(seen.len(), 12);
}

#[test]
fn accept_refuses_direct_messages_first() {
    let mut sent = interaction("dance", vec![]);
    sent.guild_id = None;
    assert_eq!(accept(&sent, &vec![]), Err("This bot only works for guilds".to_string()));
    assert_eq!(accept(&sent, &one_song()), Err("This bot only works for guilds".to_string()));
}

#[test]
fn accept_needs_songs() {
    assert_eq!(
        accept(&interaction("dance", vec![]), &vec![]),
        Err("No songs found".to_string())
    );
}

#[test]
fn accept_reads_the_command() {
    assert_eq!(
        accept(&interaction("dance", vec![]), &one_song()),
        Err("Invalid command dance".to_string())
    );
    assert_eq!(
        accept(&interaction("stop", vec![]), &one_song()),
        Ok((1, BotCommand::Stop))
    );
}
