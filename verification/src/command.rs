//! The slash commands: how they are offered and how they are read.

use crate::text::same_text;
use vstd::prelude::*;
use vstd::string::*;

verus! {

/// The value of a command's option.
#[derive(Debug, PartialEq, Eq)]
pub enum OptionValue {
    Integer(i64),
    Other,
}

impl OptionValue {
    /// The integer, if the value is one.
    pub fn as_i64(&self) -> (r: Option<i64>)
        ensures
            r == match self {
                OptionValue::Integer(v) => Some(*v),
                OptionValue::Other => None,
            },
    {
        match self {
            OptionValue::Integer(v) => Some(*v),
            OptionValue::Other => None,
        }
    }
}

/// A slash command as a user sent it.
#[derive(Debug, PartialEq, Eq)]
pub struct CommandInteraction {
    /// The guild it was sent in, if it was sent in one.
    pub guild_id: Option<u64>,
    pub user_id: u64,
    pub name: String,
    pub options: Vec<OptionValue>,
}

/// What the bot is asked to do.
#[derive(Clone, Copy, Debug, PartialEq, Eq)]
pub enum BotCommand {
    Join,
    Leave,
    Play(Option<usize>),
    Pause,
    Resume,
    Stop,
    NowPlaying,
    ShowQueue,
    Enqueue(usize),
    Skip,
    Shuffle,
    TrackList(Option<usize>),
}

/// An option's integer as an index: `v` modulo the number of `usize` values.
pub open spec fn as_index(v: i64) -> usize {
    (v as int % (usize::MAX + 1)) as usize
}

fn to_index(v: i64) -> (r: usize)
    ensures
        r == as_index(v),
{
    let r: usize = v as usize;
    proof {
        lemma_cast(v);
    }
    r
}

proof fn lemma_cast(v: i64)
    ensures
        v as usize == as_index(v),
{
    let u: u64 = v as u64;
    assert(v >= 0 ==> v as u64 == v) by (bit_vector);
    assert(v < 0 ==> v as u64 == v + 0x1_0000_0000_0000_0000) by (bit_vector);
    assert(v as usize == (v as u64) as usize) by (bit_vector);
    assert(usize::BITS == 64 ==> u as usize == u) by (bit_vector);
    assert(usize::BITS == 32 ==> u as usize == u % 0x1_0000_0000) by (bit_vector);
    if usize::BITS == 64 {
        assert(usize::MAX + 1 == 0x1_0000_0000_0000_0000);
    } else {
        assert(usize::MAX + 1 == 0x1_0000_0000);
    }
}

/// The index in the first option.
pub open spec fn first_index(options: Seq<OptionValue>) -> usize {
    as_index(options[0]->Integer_0)
}

/// The index in the first option, if there is an option.
pub open spec fn optional_index(options: Seq<OptionValue>) -> Option<usize> {
    if options.len() == 0 {
        None
    } else {
        Some(first_index(options))
    }
}

/// The options are of the kind that the command `name` is registered with.
///
/// `play` and `tracklist` take an integer or nothing, `enqueue` takes an integer, and the
/// options of any other command are not looked at.
pub open spec fn options_fit(name: Seq<char>, options: Seq<OptionValue>) -> bool {
    &&& name == "play"@ || name == "tracklist"@ ==> options.len() == 0 || options[0] is Integer
    &&& name == "enqueue"@ ==> options.len() > 0 && options[0] is Integer
}

/// The command that a name and its options stand for, or the reply to an unknown name.
pub open spec fn parse(name: Seq<char>, options: Seq<OptionValue>) -> Result<
    BotCommand,
    Seq<char>,
> {
    if name == "join"@ {
        Ok(BotCommand::Join)
    } else if name == "leave"@ {
        Ok(BotCommand::Leave)
    } else if name == "play"@ {
        Ok(BotCommand::Play(optional_index(options)))
    } else if name == "pause"@ {
        Ok(BotCommand::Pause)
    } else if name == "resume"@ {
        Ok(BotCommand::Resume)
    } else if name == "stop"@ {
        Ok(BotCommand::Stop)
    } else if name == "nowplaying"@ {
        Ok(BotCommand::NowPlaying)
    } else if name == "showqueue"@ {
        Ok(BotCommand::ShowQueue)
    } else if name == "enqueue"@ {
        Ok(BotCommand::Enqueue(first_index(options)))
    } else if name == "skip"@ {
        Ok(BotCommand::Skip)
    } else if name == "shuffle"@ {
        Ok(BotCommand::Shuffle)
    } else if name == "tracklist"@ {
        Ok(BotCommand::TrackList(optional_index(options)))
    } else {
        Err("Invalid command "@ + name)
    }
}

fn read_first_index(options: &Vec<OptionValue>) -> (r: usize)
    requires
        options.len() > 0,
        options[0] is Integer,
    ensures
        r == first_index(options@),
{
    to_index(options[0].as_i64().unwrap())
}

fn read_optional_index(options: &Vec<OptionValue>) -> (r: Option<usize>)
    requires
        options.len() > 0 ==> options[0] is Integer,
    ensures
        r == optional_index(options@),
{
    if options.len() == 0 {
        None
    } else {
        Some(read_first_index(options))
    }
}

impl CommandInteraction {
    /// Tests whether the options are of the kind that the command is registered with.
    pub fn has_fitting_options(&self) -> (r: bool)
        ensures
            r == options_fit(self.name@, self.options@),
    {
        let integer_first: bool = self.options.len() > 0 && self.options[0].as_i64().is_some();
        if same_text(&self.name, "enqueue") {
            proof {
                reveal_strlit("enqueue");
                reveal_strlit("play");
                reveal_strlit("tracklist");
            }
            integer_first
        } else if same_text(&self.name, "play") || same_text(&self.name, "tracklist") {
            self.options.len() == 0 || integer_first
        } else {
            true
        }
    }
}

impl BotCommand {
    /// Reads a command from an interaction.
    pub fn try_from(value: &CommandInteraction) -> (r: Result<Self, String>)
        requires
            options_fit(value.name@, value.options@),
        ensures
            match parse(value.name@, value.options@) {
                Ok(command) => r == Ok::<BotCommand, String>(command),
                Err(text) => r is Err && r->Err_0@ == text,
            },
    {
        if same_text(&value.name, "join") {
            Ok(BotCommand::Join)
        } else if same_text(&value.name, "leave") {
            Ok(BotCommand::Leave)
        } else if same_text(&value.name, "play") {
            Ok(BotCommand::Play(read_optional_index(&value.options)))
        } else if same_text(&value.name, "pause") {
            Ok(BotCommand::Pause)
        } else if same_text(&value.name, "resume") {
            Ok(BotCommand::Resume)
        } else if same_text(&value.name, "stop") {
            Ok(BotCommand::Stop)
        } else if same_text(&value.name, "nowplaying") {
            Ok(BotCommand::NowPlaying)
        } else if same_text(&value.name, "showqueue") {
            Ok(BotCommand::ShowQueue)
        } else if same_text(&value.name, "enqueue") {
            Ok(BotCommand::Enqueue(read_first_index(&value.options)))
        } else if same_text(&value.name, "skip") {
            Ok(BotCommand::Skip)
        } else if same_text(&value.name, "shuffle") {
            Ok(BotCommand::Shuffle)
        } else if same_text(&value.name, "tracklist") {
            Ok(BotCommand::TrackList(read_optional_index(&value.options)))
        } else {
            let mut text: String = "Invalid command ".to_owned();
            text.append(value.name.as_str());
            Err(text)
        }
    }
}

/// An integer option of a registered command.
#[derive(Debug, PartialEq, Eq)]
pub struct OptionDefinition {
    pub name: String,
    pub description: String,
    pub min_int_value: u64,
    pub required: bool,
}

/// A command as it is registered.
#[derive(Debug, PartialEq, Eq)]
pub struct CommandDefinition {
    pub name: String,
    pub description: String,
    pub option: Option<OptionDefinition>,
}

/// The model of [`OptionDefinition`].
pub struct OptionDefinitionView {
    pub name: Seq<char>,
    pub description: Seq<char>,
    pub min_int_value: u64,
    pub required: bool,
}

/// The model of [`CommandDefinition`].
pub struct DefinitionView {
    pub name: Seq<char>,
    pub description: Seq<char>,
    pub option: Option<OptionDefinitionView>,
}

impl View for CommandDefinition {
    type V = DefinitionView;

    open spec fn view(&self) -> DefinitionView {
        DefinitionView {
            name: self.name@,
            description: self.description@,
            option: match self.option {
                Some(option) => Some(
                    OptionDefinitionView {
                        name: option.name@,
                        description: option.description@,
                        min_int_value: option.min_int_value,
                        required: option.required,
                    },
                ),
                None => None,
            },
        }
    }
}

/// A command without options.
pub open spec fn plain_command(name: Seq<char>, description: Seq<char>) -> DefinitionView {
    DefinitionView { name, description, option: None }
}

/// A command with one integer option, which is not negative.
pub open spec fn option_command(
    name: Seq<char>,
    description: Seq<char>,
    option_name: Seq<char>,
    option_description: Seq<char>,
    required: bool,
) -> DefinitionView {
    DefinitionView {
        name,
        description,
        option: Some(
            OptionDefinitionView {
                name: option_name,
                description: option_description,
                min_int_value: 0,
                required,
            },
        ),
    }
}

/// All commands, in the order in which they are registered.
pub open spec fn registered_commands() -> Seq<DefinitionView> {
    seq![
        plain_command("join"@, "Join a voice chat"@),
        plain_command("leave"@, "Leave a voice chat"@),
        option_command("play"@, "Play a song"@, "id"@, "Song ID"@, false),
        plain_command("pause"@, "Pause a song"@),
        plain_command("resume"@, "Resume a paused song"@),
        plain_command("stop"@, "Stop playback resetting queue"@),
        plain_command("nowplaying"@, "Show the song that is currently played"@),
        plain_command("showqueue"@, "Show the song queue"@),
        option_command("enqueue"@, "Add a song to the song queue"@, "id"@, "Song ID"@, true),
        plain_command("skip"@, "Jump to the next track on the song queue"@),
        plain_command("shuffle"@, "Shuffle songs and play"@),
        option_command("tracklist"@, "List all tracks"@, "num"@, "Page Number"@, false),
    ]
}

fn define_plain(name: &str, description: &str) -> (r: CommandDefinition)
    ensures
        r@ == plain_command(name@, description@),
{
    CommandDefinition { name: name.to_owned(), description: description.to_owned(), option: None }
}

fn define_option(
    name: &str,
    description: &str,
    option_name: &str,
    option_description: &str,
    required: bool,
) -> (r: CommandDefinition)
    ensures
        r@ == option_command(name@, description@, option_name@, option_description@, required),
{
    CommandDefinition {
        name: name.to_owned(),
        description: description.to_owned(),
        option: Some(
            OptionDefinition {
                name: option_name.to_owned(),
                description: option_description.to_owned(),
                min_int_value: 0,
                required,
            },
        ),
    }
}

/// The commands to register.
pub fn command_definitions() -> (r: Vec<CommandDefinition>)
    ensures
        r@.map_values(|d: CommandDefinition| d@) == registered_commands(),
{
    let definitions: Vec<CommandDefinition> = vec![
        define_plain("join", "Join a voice chat"),
        define_plain("leave", "Leave a voice chat"),
        define_option("play", "Play a song", "id", "Song ID", false),
        define_plain("pause", "Pause a song"),
        define_plain("resume", "Resume a paused song"),
        define_plain("stop", "Stop playback resetting queue"),
        define_plain("nowplaying", "Show the song that is currently played"),
        define_plain("showqueue", "Show the song queue"),
        define_option("enqueue", "Add a song to the song queue", "id", "Song ID", true),
        define_plain("skip", "Jump to the next track on the song queue"),
        define_plain("shuffle", "Shuffle songs and play"),
        define_option("tracklist", "List all tracks", "num", "Page Number", false),
    ];
    proof {
        assert(definitions@.map_values(|d: CommandDefinition| d@) =~= registered_commands());
    }
    definitions
}

/// The options are as a definition asks: no more than one, an integer that is not too small,
/// and there if it is required.
pub open spec fn options_match(definition: DefinitionView, options: Seq<OptionValue>) -> bool {
    match definition.option {
        None => options.len() == 0,
        Some(option) => {
            &&& options.len() <= 1
            &&& option.required ==> options.len() == 1
            &&& options.len() == 1 ==> options[0] is Integer && options[0]->Integer_0
                >= option.min_int_value
        },
    }
}

proof fn lemma_names_differ()
    ensures
        forall|i: int, j: int|
            0 <= i < j < registered_commands().len() ==> (#[trigger] registered_commands()[i]).name
                != (#[trigger] registered_commands()[j]).name,
{
    reveal_strlit("join");
    reveal_strlit("leave");
    reveal_strlit("play");
    reveal_strlit("pause");
    reveal_strlit("resume");
    reveal_strlit("stop");
    reveal_strlit("nowplaying");
    reveal_strlit("showqueue");
    reveal_strlit("enqueue");
    reveal_strlit("skip");
    reveal_strlit("shuffle");
    reveal_strlit("tracklist");
    let commands = registered_commands();
    assert(commands[0].name.len() == 4 && commands[0].name[0] == 'j' && commands[0].name[1] == 'o');
    assert(commands[1].name.len() == 5 && commands[1].name[0] == 'l' && commands[1].name[1] == 'e');
    assert(commands[2].name.len() == 4 && commands[2].name[0] == 'p' && commands[2].name[1] == 'l');
    assert(commands[3].name.len() == 5 && commands[3].name[0] == 'p' && commands[3].name[1] == 'a');
    assert(commands[4].name.len() == 6 && commands[4].name[0] == 'r' && commands[4].name[1] == 'e');
    assert(commands[5].name.len() == 4 && commands[5].name[0] == 's' && commands[5].name[1] == 't');
    assert(commands[6].name.len() == 10 && commands[6].name[0] == 'n' && commands[6].name[1] == 'o');
    assert(commands[7].name.len() == 9 && commands[7].name[0] == 's' && commands[7].name[1] == 'h');
    assert(commands[8].name.len() == 7 && commands[8].name[0] == 'e' && commands[8].name[1] == 'n');
    assert(commands[9].name.len() == 4 && commands[9].name[0] == 's' && commands[9].name[1] == 'k');
    assert(commands[10].name.len() == 7 && commands[10].name[0] == 's' && commands[10].name[1] == 'h');
    assert(commands[11].name.len() == 9 && commands[11].name[0] == 't' && commands[11].name[1] == 'r');
    assert forall|i: int, j: int| 0 <= i < j < commands.len() implies (#[trigger] commands[i]).name
        != (#[trigger] commands[j]).name by {
        assert(commands[i].name.len() != commands[j].name.len() || commands[i].name[0]
            != commands[j].name[0] || commands[i].name[1] != commands[j].name[1]);
    }
}

/// Every registered command is understood when it is sent with options as registered.
pub proof fn law_registered_commands_are_understood(i: int, options: Seq<OptionValue>)
    requires
        0 <= i < registered_commands().len(),
        options_match(registered_commands()[i], options),
    ensures
        options_fit(registered_commands()[i].name, options),
        parse(registered_commands()[i].name, options) is Ok,
{
    lemma_names_differ();
}

/// Every command that is understood is registered.
pub proof fn law_understood_commands_are_registered(name: Seq<char>, options: Seq<OptionValue>)
    requires
        parse(name, options) is Ok,
    ensures
        exists|i: int|
            0 <= i < registered_commands().len() && (#[trigger] registered_commands()[i]).name
                == name,
{
    let commands = registered_commands();
    assert(commands[0].name == "join"@);
    assert(commands[1].name == "leave"@);
    assert(commands[2].name == "play"@);
    assert(commands[3].name == "pause"@);
    assert(commands[4].name == "resume"@);
    assert(commands[5].name == "stop"@);
    assert(commands[6].name == "nowplaying"@);
    assert(commands[7].name == "showqueue"@);
    assert(commands[8].name == "enqueue"@);
    assert(commands[9].name == "skip"@);
    assert(commands[10].name == "shuffle"@);
    assert(commands[11].name == "tracklist"@);
}

/// Different registered commands have different names and stand for different things.
pub proof fn law_commands_are_distinct(
    i: int,
    j: int,
    options_i: Seq<OptionValue>,
    options_j: Seq<OptionValue>,
)
    requires
        0 <= i < registered_commands().len(),
        0 <= j < registered_commands().len(),
        i != j,
    ensures
        registered_commands()[i].name != registered_commands()[j].name,
        parse(registered_commands()[i].name, options_i) != parse(
            registered_commands()[j].name,
            options_j,
        ),
{
    lemma_names_differ();
}

/// An option that is not negative and fits is taken as it is.
pub proof fn law_index_is_the_number(v: i64)
    requires
        0 <= v <= usize::MAX,
    ensures
        as_index(v) == v,
{
    vstd::arithmetic::div_mod::lemma_small_mod(v as nat, (usize::MAX + 1) as nat);
}

/// Each name stands for its own command, whatever options come with it. The commands that take
/// an index take it from the first option, modulo the number of indices. Any other name is
/// refused and repeated. The index is handed back.
pub proof fn law_names_stand_for_commands(name: Seq<char>, options: Seq<OptionValue>) -> (index:
    usize)
    ensures
        parse("join"@, options) == Ok::<BotCommand, Seq<char>>(BotCommand::Join),
        parse("leave"@, options) == Ok::<BotCommand, Seq<char>>(BotCommand::Leave),
        parse("pause"@, options) == Ok::<BotCommand, Seq<char>>(BotCommand::Pause),
        parse("resume"@, options) == Ok::<BotCommand, Seq<char>>(BotCommand::Resume),
        parse("stop"@, options) == Ok::<BotCommand, Seq<char>>(BotCommand::Stop),
        parse("nowplaying"@, options) == Ok::<BotCommand, Seq<char>>(BotCommand::NowPlaying),
        parse("showqueue"@, options) == Ok::<BotCommand, Seq<char>>(BotCommand::ShowQueue),
        parse("skip"@, options) == Ok::<BotCommand, Seq<char>>(BotCommand::Skip),
        parse("shuffle"@, options) == Ok::<BotCommand, Seq<char>>(BotCommand::Shuffle),
        options.len() == 0 ==> {
            &&& parse("play"@, options) == Ok::<BotCommand, Seq<char>>(BotCommand::Play(None))
            &&& parse("tracklist"@, options) == Ok::<BotCommand, Seq<char>>(
                BotCommand::TrackList(None),
            )
        },
        options.len() > 0 ==> (options[0] matches OptionValue::Integer(v) ==> {
            &&& (v - index) % (usize::MAX + 1) == 0
            &&& 0 <= v <= usize::MAX ==> index == v
            &&& parse("play"@, options) == Ok::<BotCommand, Seq<char>>(
                BotCommand::Play(Some(index)),
            )
            &&& parse("enqueue"@, options) == Ok::<BotCommand, Seq<char>>(
                BotCommand::Enqueue(index),
            )
            &&& parse("tracklist"@, options) == Ok::<BotCommand, Seq<char>>(
                BotCommand::TrackList(Some(index)),
            )
        }),
        parse(name, options) is Err <==> !({
            ||| name == "join"@
            ||| name == "leave"@
            ||| name == "play"@
            ||| name == "pause"@
            ||| name == "resume"@
            ||| name == "stop"@
            ||| name == "nowplaying"@
            ||| name == "showqueue"@
            ||| name == "enqueue"@
            ||| name == "skip"@
            ||| name == "shuffle"@
            ||| name == "tracklist"@
        }),
        parse(name, options) matches Err(text) ==> text == "Invalid command "@ + name,
{
    lemma_names_differ();
    let commands = registered_commands();
    assert(commands[0].name == "join"@);
    assert(commands[1].name == "leave"@);
    assert(commands[2].name == "play"@);
    assert(commands[3].name == "pause"@);
    assert(commands[4].name == "resume"@);
    assert(commands[5].name == "stop"@);
    assert(commands[6].name == "nowplaying"@);
    assert(commands[7].name == "showqueue"@);
    assert(commands[8].name == "enqueue"@);
    assert(commands[9].name == "skip"@);
    assert(commands[10].name == "shuffle"@);
    assert(commands[11].name == "tracklist"@);
    let v = options[0]->Integer_0;
    let index = as_index(v);
    lemma_index_is_congruent(v);
    index
}

proof fn lemma_index_is_congruent(v: i64)
    ensures
        (v - as_index(v)) % (usize::MAX + 1) == 0,
        0 <= v <= usize::MAX ==> as_index(v) == v,
{
    let m = usize::MAX + 1;
    let q = v as int / m;
    vstd::arithmetic::div_mod::lemma_fundamental_div_mod(v as int, m);
    vstd::arithmetic::div_mod::lemma_mod_bound(v as int, m);
    assert(v - as_index(v) == m * q);
    vstd::arithmetic::div_mod::lemma_mod_multiples_basic(q, m);
    assert(m * q == q * m) by (nonlinear_arith);
    if 0 <= v <= usize::MAX {
        law_index_is_the_number(v);
    }
}

/// An integer as first option fits every command. No options fit every command but `enqueue`.
/// Any other first option fits exactly the commands that do not look at their options.
pub proof fn law_fitting_options(name: Seq<char>, options: Seq<OptionValue>)
    ensures
        options.len() > 0 && options[0] is Integer ==> options_fit(name, options),
        options.len() == 0 ==> (options_fit(name, options) <==> name != "enqueue"@),
        options.len() > 0 && options[0] is Other ==> (options_fit(name, options) <==> name
            != "enqueue"@ && name != "play"@ && name != "tracklist"@),
{
    reveal_strlit("enqueue");
    reveal_strlit("play");
    reveal_strlit("tracklist");
}

/// A command is offered under a name and a description, without an option.
pub open spec fn offered_plain(i: int, name: Seq<char>, description: Seq<char>) -> bool {
    let definition = registered_commands()[i];
    definition.name == name && definition.description == description && definition.option is None
}

/// A command is offered under a name and a description, with an integer option from zero on.
pub open spec fn offered_with_option(
    i: int,
    name: Seq<char>,
    description: Seq<char>,
    option_name: Seq<char>,
    option_description: Seq<char>,
    required: bool,
) -> bool {
    let definition = registered_commands()[i];
    &&& definition.name == name
    &&& definition.description == description
    &&& definition.option is Some
    &&& definition.option->0.name == option_name
    &&& definition.option->0.description == option_description
    &&& definition.option->0.min_int_value == 0
    &&& definition.option->0.required == required
}

/// The twelve commands, what users read about each, and what they may give with it.
pub proof fn law_commands_are_offered()
    ensures
        registered_commands().len() == 12,
        offered_plain(0, "join"@, "Join a voice chat"@),
        offered_plain(1, "leave"@, "Leave a voice chat"@),
        offered_with_option(2, "play"@, "Play a song"@, "id"@, "Song ID"@, false),
        offered_plain(3, "pause"@, "Pause a song"@),
        offered_plain(4, "resume"@, "Resume a paused song"@),
        offered_plain(5, "stop"@, "Stop playback resetting queue"@),
        offered_plain(6, "nowplaying"@, "Show the song that is currently played"@),
        offered_plain(7, "showqueue"@, "Show the song queue"@),
        offered_with_option(
            8,
            "enqueue"@,
            "Add a song to the song queue"@,
            "id"@,
            "Song ID"@,
            true,
        ),
        offered_plain(9, "skip"@, "Jump to the next track on the song queue"@),
        offered_plain(10, "shuffle"@, "Shuffle songs and play"@),
        offered_with_option(11, "tracklist"@, "List all tracks"@, "num"@, "Page Number"@, false),
{
}

/// The model of a definition holds the same strings, and has an option exactly if it has one.
pub proof fn law_definition_models(definition: CommandDefinition)
    ensures
        definition@.name == definition.name@,
        definition@.description == definition.description@,
        definition@.option is Some <==> definition.option is Some,
        definition.option matches Some(option) ==> {
            let model = definition@.option->0;
            &&& model.name == option.name@
            &&& model.description == option.description@
            &&& model.min_int_value == option.min_int_value
            &&& model.required == option.required
        },
{
}

} // verus!
