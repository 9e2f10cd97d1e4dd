//! What users get to see: each reply and each effect in terms of the songs, the queue and the
//! answers it rests on.

use crate::action::{ActionView, ChannelInfo, EventView};
use crate::command::{parse, BotCommand, OptionValue};
use crate::laws::{beginning, law_enqueue_adds_one, law_play_fills_the_queue, queue_after};
use crate::run::{
    admission, awaited, first_stage, next_stage, pending_action, search_stage, StageView,
};
use crate::script::{
    enqueue_script, id_range, ids_valid, now_playing_text, only_reply, page_count, page_ids,
    page_text, play_script, queue_text, quoted, replies, shown, shuffle_script, skipped_text,
    song_lines, titled, track_list_texts, upcoming_track,
};
use crate::song::{song_line, SongView};
use crate::state::StateView;
use crate::text::{decimal, law_chunks_rebuild_text, law_decimal_reads_back};
use crate::trace::{advance, after, all_awaited, performed, Progress};
use vstd::prelude::*;

verus! {

/// `line` shows a song: two asterisks, the number, two asterisks, a backslash, a dot and a
/// space, the artist, a dash between spaces, and the title.
pub open spec fn is_line(line: Seq<char>, id: nat, song: SongView) -> bool {
    let d = decimal(id).len() as int;
    let a = song.artist.len() as int;
    &&& line.len() == d + a + song.title.len() + 10
    &&& line[0] == '*'
    &&& line[1] == '*'
    &&& line.subrange(2, d + 2) == decimal(id)
    &&& line[d + 2] == '*'
    &&& line[d + 3] == '*'
    &&& line[d + 4] == '\\'
    &&& line[d + 5] == '.'
    &&& line[d + 6] == ' '
    &&& line.subrange(d + 7, d + 7 + a) == song.artist
    &&& line[d + a + 7] == ' '
    &&& line[d + a + 8] == '-'
    &&& line[d + a + 9] == ' '
    &&& line.skip(d + a + 10) == song.title
}

/// `row` is the line of a song and a line break.
pub open spec fn is_row(row: Seq<char>, id: nat, song: SongView) -> bool {
    row.len() > 0 && row.last() == '\n' && is_line(row.drop_last(), id, song)
}

/// `text` is `opening`, and then the line of a song.
pub open spec fn announces(text: Seq<char>, opening: Seq<char>, id: nat, song: SongView) -> bool {
    &&& text.len() >= opening.len()
    &&& text.take(opening.len() as int) == opening
    &&& is_line(text.skip(opening.len() as int), id, song)
}

/// A song is shown by its number, its artist and its title, each in its place.
pub proof fn law_line_shows_the_song(id: nat, song: SongView)
    ensures
        is_line(song_line(id, song), id, song),
{
    reveal_strlit("**");
    reveal_strlit("**\\. ");
    reveal_strlit(" - ");
    let line = song_line(id, song);
    let d = decimal(id).len() as int;
    let a = song.artist.len() as int;
    assert(line.subrange(2, d + 2) =~= decimal(id));
    assert(line.subrange(d + 7, d + 7 + a) =~= song.artist);
    assert(line.skip(d + a + 10) =~= song.title);
}

proof fn lemma_titled(opening: Seq<char>, songs: Seq<SongView>, id: usize)
    ensures
        announces(titled(opening, songs, id), opening, id as nat, songs[id as int]),
{
    let line = song_line(id as nat, songs[id as int]);
    let text = titled(opening, songs, id);
    law_line_shows_the_song(id as nat, songs[id as int]);
    assert(text.take(opening.len() as int) =~= opening);
    assert(text.skip(opening.len() as int) =~= line);
}

/// The rows of the songs `ids`.
spec fn rows_of(songs: Seq<SongView>, ids: Seq<usize>) -> Seq<Seq<char>> {
    ids.map_values(|id: usize| song_line(id as nat, songs[id as int]) + "\n"@)
}

proof fn lemma_rows(songs: Seq<SongView>, ids: Seq<usize>)
    ensures
        song_lines(songs, ids) == rows_of(songs, ids).flatten(),
        rows_of(songs, ids).len() == ids.len(),
        forall|i: int|
            0 <= i < ids.len() ==> is_row(
                #[trigger] rows_of(songs, ids)[i],
                ids[i] as nat,
                songs[ids[i] as int],
            ),
{
    lemma_lines_flatten(songs, ids);
    rows_of(songs, ids).lemma_flatten_and_flatten_alt_are_equivalent();
    reveal_strlit("\n");
    assert forall|i: int| 0 <= i < ids.len() implies is_row(
        #[trigger] rows_of(songs, ids)[i],
        ids[i] as nat,
        songs[ids[i] as int],
    ) by {
        let line = song_line(ids[i] as nat, songs[ids[i] as int]);
        law_line_shows_the_song(ids[i] as nat, songs[ids[i] as int]);
        assert(rows_of(songs, ids)[i].drop_last() =~= line);
    }
}

proof fn lemma_lines_flatten(songs: Seq<SongView>, ids: Seq<usize>)
    ensures
        song_lines(songs, ids) == rows_of(songs, ids).flatten_alt(),
    decreases ids.len(),
{
    let rows = rows_of(songs, ids);
    if ids.len() == 0 {
        assert(song_lines(songs, ids) =~= rows.flatten_alt());
    } else {
        lemma_lines_flatten(songs, ids.drop_last());
        assert(rows.drop_last() =~= rows_of(songs, ids.drop_last()));
        assert(song_lines(songs, ids) =~= rows.flatten_alt());
    }
}

/// `nowplaying` asks for the current track. It says that nothing is playing exactly if there
/// is no current track, and otherwise names the current one.
pub proof fn law_nowplaying_names_the_current_track<C>(
    user: u64,
    songs: Seq<SongView>,
    order: Seq<usize>,
    name: Seq<char>,
    call: C,
    current: Option<usize>,
)
    ensures
        current is None <==> now_playing_text(songs, current) == "Not currently playing"@,
        current matches Some(id) ==> announces(
            now_playing_text(songs, current),
            "Now playing "@,
            id as nat,
            songs[id as int],
        ),
        ({
            let asked = first_stage(
                BotCommand::NowPlaying,
                StateView::Joined { channel_name: name, call },
                songs,
                order,
            );
            &&& pending_action(asked) == Some(ActionView::ReadCurrent)
            &&& next_stage(user, songs, asked, EventView::<C>::Current(current)) == (
            StageView::Script {
                actions: seq![ActionView::Reply(now_playing_text(songs, current))],
                next: 0,
            })
        }),
{
    reveal_strlit("Not currently playing");
    reveal_strlit("Now playing ");
    if current is Some {
        let text = now_playing_text(songs, current);
        lemma_titled("Now playing "@, songs, current->0);
        assert(text.take("Now playing "@.len() as int)[2] == 'w');
        assert(text[2] == 'w');
        assert("Not currently playing"@[2] == 't');
    }
}

/// `showqueue` asks for the queue. It says that the queue is empty exactly if it is, and
/// otherwise lists its first ten tracks, or all if there are fewer, in order, one row for
/// each, with dots behind them exactly if there are more. The rows are handed back.
pub proof fn law_showqueue_lists_the_first_tracks<C>(
    user: u64,
    songs: Seq<SongView>,
    order: Seq<usize>,
    name: Seq<char>,
    call: C,
    queue: Seq<usize>,
) -> (rows: Seq<Seq<char>>)
    ensures
        queue.len() == 0 <==> queue_text(songs, queue) == "Queue is empty"@,
        queue.len() > 0 ==> {
            &&& rows.len() == if queue.len() < 10 {
                queue.len()
            } else {
                10
            }
            &&& forall|i: int|
                0 <= i < rows.len() ==> is_row(
                    #[trigger] rows[i],
                    queue[i] as nat,
                    songs[queue[i] as int],
                )
            &&& queue_text(songs, queue) == "Current queue:\n"@ + rows.flatten() + if queue.len()
                > 10 {
                "..."@
            } else {
                Seq::empty()
            }
        },
        ({
            let asked = first_stage(
                BotCommand::ShowQueue,
                StateView::Joined { channel_name: name, call },
                songs,
                order,
            );
            &&& pending_action(asked) == Some(ActionView::ReadQueue)
            &&& next_stage(user, songs, asked, EventView::<C>::Queue(queue)) == (
            StageView::Script {
                actions: seq![ActionView::Reply(queue_text(songs, queue))],
                next: 0,
            })
        }),
{
    reveal_strlit("Queue is empty");
    reveal_strlit("Current queue:\n");
    let ids = shown(queue);
    lemma_rows(songs, ids);
    if queue.len() > 0 {
        assert(queue_text(songs, queue)[0] == 'C');
        assert("Queue is empty"@[0] == 'Q');
        assert forall|i: int| 0 <= i < ids.len() implies is_row(
            #[trigger] rows_of(songs, ids)[i],
            queue[i] as nat,
            songs[queue[i] as int],
        ) by {
            assert(ids[i] == queue[i]);
        }
    }
    rows_of(songs, ids)
}

/// `tracklist` shows a page: the messages put together are the header and one row for each of
/// the songs from twenty times the page number on, twenty or as many as there are, in order.
/// Each message is sent as a reply of its own and holds at most two thousand characters. The
/// rows are handed back.
pub proof fn law_tracklist_shows_the_songs_of_the_page<C>(
    songs: Seq<SongView>,
    order: Seq<usize>,
    state: StateView<C>,
    page: usize,
) -> (rows: Seq<Seq<char>>)
    requires
        0 < songs.len() <= usize::MAX,
        page <= songs.len() / 20,
    ensures
        ({
            let count = songs.len();
            let last = if 20 * page + 20 < count {
                (20 * page + 19) as nat
            } else {
                (count - 1) as nat
            };
            let messages = track_list_texts(songs, Some(page));
            &&& rows.len() == if count - 20 * page < 20 {
                count - 20 * page
            } else {
                20
            }
            &&& forall|i: int|
                0 <= i < rows.len() ==> is_row(
                    #[trigger] rows[i],
                    (20 * page + i) as nat,
                    songs[20 * page + i],
                )
            &&& messages.flatten() == "Total tracks: **"@ + decimal(count)
                + "**\nAvailable pages: **0**-**"@ + decimal(count / 20) + "**\nTracks **"@
                + decimal((20 * page) as nat) + "**-**"@ + decimal(last) + "**:\n"@
                + rows.flatten()
            &&& forall|i: int|
                0 <= i < messages.len() ==> 0 < (#[trigger] messages[i]).len() <= 2000
            &&& forall|i: int|
                0 <= i < messages.len() - 1 ==> (#[trigger] messages[i]).len() == 2000
            &&& messages.len() > 0
            &&& replies(messages).len() == messages.len()
            &&& forall|i: int|
                0 <= i < messages.len() ==> #[trigger] replies(messages)[i] == ActionView::Reply(
                    messages[i],
                )
            &&& first_stage(BotCommand::TrackList(Some(page)), state, songs, order) == (
            StageView::Script { actions: replies(messages), next: 0 })
        }),
{
    let count = songs.len();
    let ids = page_ids(page as nat, count);
    let text = page_text(songs, page as nat);
    lemma_rows(songs, ids);
    law_chunks_rebuild_text(text, 2000);
    law_decimal_reads_back(count);
    assert(page_count(count) == count / 20 + 1);
    assert(text.len() > 0);
    let rows = rows_of(songs, ids);
    assert forall|i: int| 0 <= i < rows.len() implies is_row(
        #[trigger] rows[i],
        (20 * page + i) as nat,
        songs[20 * page + i],
    ) by {
        assert(ids[i] == 20 * page + i);
    }
    rows
}

/// Where a row stands in a list of rows.
proof fn lemma_row_stands(rows: Seq<Seq<char>>, j: int) -> (at: int)
    requires
        0 <= j < rows.len(),
    ensures
        0 <= at,
        at + rows[j].len() <= rows.flatten().len(),
        rows.flatten().subrange(at, at + rows[j].len()) == rows[j],
    decreases j,
{
    let rest = rows.drop_first();
    assert(rows.flatten() == rows.first() + rest.flatten());
    if j == 0 {
        assert(rows.flatten().subrange(0, rows[0].len() as int) =~= rows[0]);
        0
    } else {
        let before = lemma_row_stands(rest, j - 1);
        let at = rows.first().len() + before;
        assert(rest[j - 1] == rows[j]);
        assert(rows.flatten().subrange(at, at + rows[j].len()) =~= rest.flatten().subrange(
            before,
            before + rows[j].len(),
        ));
        at
    }
}

/// Every song is found in the track list: its row stands in the messages of the page whose
/// number is a twentieth of its own. The ends of the row are handed back.
pub proof fn law_every_song_is_listed(songs: Seq<SongView>, id: usize) -> (ends: (int, int))
    requires
        id < songs.len() <= usize::MAX,
    ensures
        ({
            let text = track_list_texts(songs, Some((id / 20) as usize)).flatten();
            &&& 0 <= ends.0 <= ends.1 <= text.len()
            &&& is_row(text.subrange(ends.0, ends.1), id as nat, songs[id as int])
        }),
{
    let page = (id / 20) as usize;
    let text = track_list_texts(songs, Some(page)).flatten();
    let rows = law_tracklist_shows_the_songs_of_the_page(
        songs,
        Seq::empty(),
        StateView::<()>::NotJoined,
        page,
    );
    let j = id - 20 * page;
    let at = lemma_row_stands(rows, j);
    let header = text.len() - rows.flatten().len();
    assert(is_row(rows[j], (20 * page + j) as nat, songs[20 * page + j]));
    assert(text.subrange(header + at, header + at + rows[j].len()) =~= rows.flatten().subrange(
        at,
        at + rows[j].len(),
    ));
    (header + at, header + at + rows[j].len())
}

/// `tracklist` refuses exactly the pages that do not exist, naming the last one that does, and
/// shows the first page if none is asked for.
pub proof fn law_tracklist_refuses_missing_pages<C>(
    songs: Seq<SongView>,
    order: Seq<usize>,
    state: StateView<C>,
    page: usize,
)
    requires
        songs.len() > 0,
    ensures
        track_list_texts(songs, None) == track_list_texts(songs, Some(0)),
        first_stage(BotCommand::TrackList(None), state, songs, order) == first_stage(
            BotCommand::TrackList(Some(0)),
            state,
            songs,
            order,
        ),
        page > songs.len() / 20 <==> track_list_texts(songs, Some(page)) == seq![
            "Page number is too big. Available pages: **0**-**"@ + decimal(songs.len() / 20)
                + "**"@,
        ],
        page > songs.len() / 20 ==> first_stage(
            BotCommand::TrackList(Some(page)),
            state,
            songs,
            order,
        ) == (StageView::Script {
            actions: seq![
                ActionView::Reply(
                    "Page number is too big. Available pages: **0**-**"@ + decimal(
                        songs.len() / 20,
                    ) + "**"@,
                ),
            ],
            next: 0,
        }),
{
    let refusal = "Page number is too big. Available pages: **0**-**"@ + decimal(songs.len() / 20)
        + "**"@;
    assert(page_count(songs.len()) == songs.len() / 20 + 1);
    if page > songs.len() / 20 {
        assert(track_list_texts(songs, Some(page)) =~= seq![refusal]);
        assert(replies(seq![refusal]) =~= seq![ActionView::Reply(refusal)]);
    } else {
        let text = page_text(songs, page as nat);
        reveal_strlit("Page number is too big. Available pages: **0**-**");
        reveal_strlit("Total tracks: **");
        law_chunks_rebuild_text(text, 2000);
        if track_list_texts(songs, Some(page)) == seq![refusal] {
            seq![refusal].lemma_flatten_one_element();
            assert(text == refusal);
            assert(text[0] == 'T');
            assert(refusal[0] == 'P');
        }
    }
}

/// The number of a song that does not exist, and the range that is shown instead.
pub open spec fn is_range_refusal(text: Seq<char>, id: nat, last: nat) -> bool {
    text == "Song ID **"@ + decimal(id) + "** is out of range. Available songs: **0**-**"@
        + decimal(last) + "**"@
}

/// `play` clears the queue. It then queues every song from the wanted one to the last, each
/// once and with its own file, and announces the wanted one, which is the first it queued; or
/// it refuses the number, exactly if there is no such song. Without a number it starts with the
/// first song.
pub proof fn law_play_queues_and_announces<C>(
    songs: Seq<SongView>,
    order: Seq<usize>,
    name: Seq<char>,
    call: C,
    queue: Seq<usize>,
    start: usize,
)
    requires
        0 < songs.len() <= usize::MAX,
    ensures
        play_script(songs, None) == play_script(songs, Some(0)),
        ({
            let actions = play_script(songs, Some(start));
            &&& actions[0] == ActionView::StopQueue
            &&& actions.last() is Reply
            &&& start < songs.len() ==> {
                &&& actions.len() == songs.len() - start + 2
                &&& forall|k: int|
                    1 <= k <= songs.len() - start ==> #[trigger] actions[k]
                        == (ActionView::EnqueueTrack {
                        id: (start + k - 1) as usize,
                        path: songs[start + k - 1].path,
                    })
                &&& queue_after(queue, actions).first() == start
                &&& announces(
                    actions.last()->Reply_0,
                    "Playing "@,
                    start as nat,
                    songs[start as int],
                )
            }
            &&& start >= songs.len() ==> actions.len() == 2 && is_range_refusal(
                actions[1]->Reply_0,
                start as nat,
                (songs.len() - 1) as nat,
            )
        }),
        forall|id: Option<usize>| #[trigger]
            first_stage(
                BotCommand::Play(id),
                StateView::Joined { channel_name: name, call },
                songs,
                order,
            ) == (StageView::Script { actions: play_script(songs, id), next: 0 }),
{
    let actions = play_script(songs, Some(start));
    if start < songs.len() {
        lemma_titled("Playing "@, songs, start);
        law_play_fills_the_queue(songs, queue, Some(start));
        assert forall|k: int| 1 <= k <= songs.len() - start implies #[trigger] actions[k]
            == (ActionView::EnqueueTrack {
            id: (start + k - 1) as usize,
            path: songs[start + k - 1].path,
        }) by {
            assert(id_range(start as nat, songs.len())[k - 1] == start + k - 1);
        }
    }
}

/// `shuffle` clears the queue, queues the songs in the drawn order, each with its own file, and
/// announces the first of them.
pub proof fn law_shuffle_queues_and_announces<C>(
    songs: Seq<SongView>,
    order: Seq<usize>,
    name: Seq<char>,
    call: C,
)
    requires
        order.len() > 0,
    ensures
        ({
            let actions = shuffle_script(songs, order);
            &&& actions.len() == order.len() + 2
            &&& actions[0] == ActionView::StopQueue
            &&& forall|k: int|
                1 <= k <= order.len() ==> #[trigger] actions[k] == (ActionView::EnqueueTrack {
                    id: order[k - 1],
                    path: songs[order[k - 1] as int].path,
                })
            &&& actions.last() is Reply
            &&& announces(
                actions.last()->Reply_0,
                "Shuffled. Playing "@,
                order[0] as nat,
                songs[order[0] as int],
            )
            &&& first_stage(
                BotCommand::Shuffle,
                StateView::Joined { channel_name: name, call },
                songs,
                order,
            ) == (StageView::Script { actions, next: 0 })
        }),
{
    lemma_titled("Shuffled. Playing "@, songs, order[0]);
}

/// `enqueue` queues the wanted song with its own file and announces the song that is then last
/// in the queue, which is that very song; or it refuses the number and queues nothing, exactly
/// if there is no such song.
pub proof fn law_enqueue_announces_what_it_queued<C>(
    songs: Seq<SongView>,
    order: Seq<usize>,
    name: Seq<char>,
    call: C,
    queue: Seq<usize>,
    id: usize,
)
    ensures
        ({
            let actions = enqueue_script(songs, id);
            let last = queue_after(queue, actions).last();
            &&& id < songs.len() ==> {
                &&& actions.len() == 2
                &&& actions[0] == (ActionView::EnqueueTrack { id, path: songs[id as int].path })
                &&& actions[1] is Reply
                &&& announces(
                    actions[1]->Reply_0,
                    "Enqueued track "@,
                    last as nat,
                    songs[last as int],
                )
                &&& last == id
            }
            &&& id >= songs.len() ==> {
                &&& actions.len() == 1
                &&& actions[0] is Reply
                &&& is_range_refusal(actions[0]->Reply_0, id as nat, songs.len())
            }
            &&& first_stage(
                BotCommand::Enqueue(id),
                StateView::Joined { channel_name: name, call },
                songs,
                order,
            ) == (StageView::Script { actions, next: 0 })
        }),
{
    lemma_titled("Enqueued track "@, songs, id);
    law_enqueue_adds_one(songs, queue, id);
}

/// `skip` asks for the queue. If it is empty it says so and drops nothing; otherwise it drops
/// the current track and announces the second track of the queue, if there is one.
pub proof fn law_skip_goes_on_with_the_second_track<C>(
    user: u64,
    songs: Seq<SongView>,
    order: Seq<usize>,
    name: Seq<char>,
    call: C,
    queue: Seq<usize>,
)
    ensures
        ({
            let asked = first_stage(
                BotCommand::Skip,
                StateView::Joined { channel_name: name, call },
                songs,
                order,
            );
            let told = next_stage(user, songs, asked, EventView::<C>::Queue(queue));
            let dropped = next_stage(user, songs, told, EventView::<C>::Done);
            &&& pending_action(asked) == Some(ActionView::ReadQueue)
            &&& queue.len() == 0 ==> told == (StageView::Script {
                actions: seq![ActionView::Reply("Queue is empty"@)],
                next: 0,
            })
            &&& queue.len() > 0 ==> {
                &&& pending_action(told) == Some(ActionView::SkipTrack)
                &&& dropped is Script
                &&& dropped->Script_next == 0
                &&& dropped->Script_actions.len() == 1
                &&& dropped->Script_actions[0] is Reply
            }
            &&& queue.len() == 1 ==> dropped->Script_actions[0] == ActionView::Reply(
                "Skipped current track"@,
            )
            &&& queue.len() > 1 ==> announces(
                dropped->Script_actions[0]->Reply_0,
                "Skipped current track. Playing "@,
                queue[1] as nat,
                songs[queue[1] as int],
            )
        }),
        skipped_text(songs, None) == "Skipped current track"@,
        forall|id: usize|
            announces(
                #[trigger] skipped_text(songs, Some(id)),
                "Skipped current track. Playing "@,
                id as nat,
                songs[id as int],
            ),
{
    assert forall|id: usize|
        announces(
            #[trigger] skipped_text(songs, Some(id)),
            "Skipped current track. Playing "@,
            id as nat,
            songs[id as int],
        ) by {
        lemma_titled("Skipped current track. Playing "@, songs, id);
    }
    if queue.len() > 1 {
        assert(upcoming_track(queue) == Some(queue[1]));
    }
}

/// In a joined channel, `pause`, `resume` and `stop` do what they say to the player and then
/// confirm it; `leave` says goodbye to the channel by its name and then disconnects; `join`
/// only names the channel.
pub proof fn law_what_commands_do_in_a_channel<C>(
    songs: Seq<SongView>,
    order: Seq<usize>,
    name: Seq<char>,
    call: C,
)
    ensures
        ({
            let here = StateView::Joined { channel_name: name, call };
            &&& first_stage(BotCommand::Pause, here, songs, order) == (StageView::Script {
                actions: seq![ActionView::PauseQueue, ActionView::Reply("Paused"@)],
                next: 0,
            })
            &&& first_stage(BotCommand::Resume, here, songs, order) == (StageView::Script {
                actions: seq![ActionView::ResumeQueue, ActionView::Reply("Resumed"@)],
                next: 0,
            })
            &&& first_stage(BotCommand::Stop, here, songs, order) == (StageView::Script {
                actions: seq![ActionView::StopQueue, ActionView::Reply("Stopped"@)],
                next: 0,
            })
            &&& first_stage(BotCommand::Leave, here, songs, order) == (StageView::Script {
                actions: seq![
                    ActionView::Reply("Leaving `"@ + name + "`"@),
                    ActionView::RemoveCall,
                ],
                next: 0,
            })
            &&& first_stage(BotCommand::Join, here, songs, order) == (StageView::Script {
                actions: seq![ActionView::Reply("Already joined to `"@ + name + "`"@)],
                next: 0,
            })
        }),
{
}

/// Without a joined channel, `join` looks for one; every other command but `tracklist` only
/// hints at `join`.
pub proof fn law_what_commands_do_without_a_channel<C>(
    command: BotCommand,
    songs: Seq<SongView>,
    order: Seq<usize>,
)
    requires
        !(command is TrackList),
    ensures
        command is Join ==> pending_action(
            first_stage(command, StateView::<C>::NotJoined, songs, order),
        ) == Some(ActionView::ListChannels),
        !(command is Join) ==> first_stage(command, StateView::<C>::NotJoined, songs, order) == (
        StageView::Script {
            actions: seq![
                ActionView::Reply(
                    "No voice channels joined, use `/join` to join a voice channel"@,
                ),
            ],
            next: 0,
        }),
{
}

/// The answer lists the user among the members of a channel.
pub open spec fn lists_user<C>(event: EventView<C>, user: u64) -> bool {
    event matches EventView::Members(members) && members.contains(user)
}

/// What a run of `join` does from its action `n` on, with all voice channels behind it, where
/// `found` is the user's channel.
#[verifier::opaque]
spec fn join_ends<C>(
    found: Option<u64>,
    state: StateView<C>,
    n: int,
    events: Seq<EventView<C>>,
    done: Seq<ActionView>,
    end: Progress<C>,
) -> bool {
    match found {
        None => {
            &&& events.len() == n + 1
            &&& done[n] == ActionView::Reply(
                "You must be in a voice chat to use `/join` command"@,
            )
            &&& end.stage is Finished
            &&& end.state == state
        },
        Some(channel) => {
            &&& events.len() <= n + 3
            &&& done[n] == ActionView::NameChannel(channel)
            &&& events.len() > n + 1 ==> events[n] is Name && done[n + 1] == ActionView::Reply(
                "Joined to `"@ + events[n]->Name_0 + "`"@,
            )
            &&& events.len() > n + 2 ==> done[n + 2] == (ActionView::JoinChannel {
                channel,
                name: events[n]->Name_0,
            })
            &&& events.len() > n + 2 && events[n + 2] is Joined ==> end.stage is Finished
                && end.state == (StateView::Joined {
                channel_name: events[n]->Name_0,
                call: events[n + 2]->Joined_0,
            })
        },
    }
}

proof fn lemma_join_ends_shift<C>(
    found: Option<u64>,
    state: StateView<C>,
    n: int,
    events: Seq<EventView<C>>,
    done: Seq<ActionView>,
    end: Progress<C>,
)
    requires
        n >= 1,
        events.len() > n,
        done.len() == events.len(),
        join_ends(found, state, n - 1, events.drop_first(), done.drop_first(), end),
    ensures
        join_ends(found, state, n, events, done, end),
{
    reveal(join_ends);
    let rest = events.drop_first();
    let later = done.drop_first();
    assert(rest[n - 1] == events[n]);
    assert(later[n - 1] == done[n]);
    if events.len() > n + 1 {
        assert(later[n] == done[n + 1]);
    }
    if events.len() > n + 2 {
        assert(rest[n + 1] == events[n + 2]);
        assert(later[n + 1] == done[n + 2]);
    }
}

proof fn lemma_join_end<C>(
    user: u64,
    songs: Seq<SongView>,
    voice: Seq<u64>,
    found: Option<u64>,
    state: StateView<C>,
    events: Seq<EventView<C>>,
)
    requires
        events.len() > 0,
        all_awaited(
            user,
            songs,
            (Progress { stage: search_stage(voice, voice.len(), found), state }),
            events,
        ),
    ensures
        ({
            let at = Progress { stage: search_stage(voice, voice.len(), found), state };
            let done = performed(user, songs, at, events);
            &&& done.len() == events.len()
            &&& join_ends(found, state, 0, events, done, after(user, songs, at, events))
        }),
{
    reveal(join_ends);
    reveal_with_fuel(all_awaited, 5);
    reveal_with_fuel(after, 5);
    reveal_with_fuel(performed, 5);
    let at = Progress { stage: search_stage(voice, voice.len(), found), state };
    let e1 = events.drop_first();
    let s1 = advance(user, songs, at, events[0]);
    assert(all_awaited(user, songs, s1, e1));
    if e1.len() > 0 {
        assert(e1[0] == events[1]);
        let e2 = e1.drop_first();
        let s2 = advance(user, songs, s1, e1[0]);
        assert(all_awaited(user, songs, s2, e2));
        if e2.len() > 0 {
            assert(e2[0] == events[2]);
            let e3 = e2.drop_first();
            let s3 = advance(user, songs, s2, e2[0]);
            assert(all_awaited(user, songs, s3, e3));
            assert(e3.len() == 0);
        }
    }
}

/// One event of the search through the voice channels.
proof fn lemma_search_step<C>(
    user: u64,
    songs: Seq<SongView>,
    voice: Seq<u64>,
    next: nat,
    found: Option<u64>,
    state: StateView<C>,
    events: Seq<EventView<C>>,
) -> (now: Option<u64>)
    requires
        next < voice.len(),
        events.len() > 0,
        all_awaited(
            user,
            songs,
            (Progress { stage: search_stage(voice, next, found), state }),
            events,
        ),
    ensures
        now == if lists_user(events[0], user) {
            Some(voice[next as int])
        } else {
            found
        },
        ({
            let at = Progress { stage: search_stage(voice, next, found), state };
            let step = Progress { stage: search_stage(voice, next + 1, now), state };
            let rest = events.drop_first();
            let done = performed(user, songs, at, events);
            &&& done[0] == ActionView::ListMembers(voice[next as int])
            &&& events.len() == 1 ==> done.len() == 1
            &&& events.len() > 1 ==> events[0] is Members
            &&& events[0] is Members ==> {
                &&& all_awaited(user, songs, step, rest)
                &&& done.drop_first() == performed(user, songs, step, rest)
                &&& done.len() == 1 + performed(user, songs, step, rest).len()
                &&& after(user, songs, at, events) == after(user, songs, step, rest)
            }
        }),
{
    let now = if lists_user(events[0], user) {
        Some(voice[next as int])
    } else {
        found
    };
    let at = Progress { stage: search_stage(voice, next, found), state };
    let rest = events.drop_first();
    let done = performed(user, songs, at, events);
    let step = advance(user, songs, at, events[0]);
    assert(all_awaited(user, songs, step, rest));
    assert(done.drop_first() =~= performed(user, songs, step, rest));
    if events.len() == 1 {
        assert(performed(user, songs, step, rest).len() == 0);
    }
    if events[0] is Failed {
        if rest.len() > 0 {
            assert(awaited(step.stage, songs.len(), rest[0]));
        }
    } else {
        assert(step == (Progress { stage: search_stage(voice, next + 1, now), state }));
    }
    now
}

proof fn lemma_search_asks<C>(
    user: u64,
    songs: Seq<SongView>,
    voice: Seq<u64>,
    next: nat,
    found: Option<u64>,
    state: StateView<C>,
    events: Seq<EventView<C>>,
)
    requires
        next <= voice.len(),
        all_awaited(
            user,
            songs,
            (Progress { stage: search_stage(voice, next, found), state }),
            events,
        ),
    ensures
        ({
            let at = Progress { stage: search_stage(voice, next, found), state };
            let done = performed(user, songs, at, events);
            let n = voice.len() - next;
            &&& done.len() == events.len()
            &&& forall|k: int|
                0 <= k < n && k < events.len() ==> #[trigger] done[k] == ActionView::ListMembers(
                    voice[next + k],
                )
            &&& forall|k: int|
                0 <= k < n && k + 1 < events.len() ==> #[trigger] events[k] is Members
        }),
    decreases voice.len() - next,
{
    let at = Progress { stage: search_stage(voice, next, found), state };
    let done = performed(user, songs, at, events);
    let n = voice.len() - next;
    if events.len() == 0 {
    } else if n == 0 {
        lemma_join_end(user, songs, voice, found, state, events);
    } else {
        let rest = events.drop_first();
        let now = lemma_search_step(user, songs, voice, next, found, state, events);
        if events[0] is Members {
            lemma_search_asks(user, songs, voice, next + 1, now, state, rest);
            assert forall|k: int| 0 <= k < n && k < events.len() implies #[trigger] done[k]
                == ActionView::ListMembers(voice[next + k]) by {
                if k > 0 {
                    assert(done[k] == done.drop_first()[k - 1]);
                    assert(next + 1 + (k - 1) == next + k);
                }
            }
            assert forall|k: int| 0 <= k < n && k + 1 < events.len() implies #[trigger] events[k]
                is Members by {
                if k > 0 {
                    assert(events[k] == rest[k - 1]);
                }
            }
        }
    }
}

/// A search in which the answer `last` is the last one that lists the user; none does if
/// `last` is negative.
proof fn lemma_search_ends<C>(
    user: u64,
    songs: Seq<SongView>,
    voice: Seq<u64>,
    next: nat,
    found: Option<u64>,
    state: StateView<C>,
    events: Seq<EventView<C>>,
    last: int,
)
    requires
        next <= voice.len(),
        events.len() > voice.len() - next,
        -1 <= last < voice.len() - next,
        last >= 0 ==> lists_user(events[last], user),
        forall|k: int|
            last < k < voice.len() - next ==> !#[trigger] lists_user(events[k], user),
        all_awaited(
            user,
            songs,
            (Progress { stage: search_stage(voice, next, found), state }),
            events,
        ),
    ensures
        ({
            let at = Progress { stage: search_stage(voice, next, found), state };
            join_ends(
                if last >= 0 {
                    Some(voice[next + last])
                } else {
                    found
                },
                state,
                voice.len() - next,
                events,
                performed(user, songs, at, events),
                after(user, songs, at, events),
            )
        }),
    decreases voice.len() - next,
{
    let at = Progress { stage: search_stage(voice, next, found), state };
    let n = voice.len() - next;
    if n == 0 {
        lemma_join_end(user, songs, voice, found, state, events);
    } else {
        let rest = events.drop_first();
        let before = if last >= 0 {
            last - 1
        } else {
            -1
        };
        let now = lemma_search_step(user, songs, voice, next, found, state, events);
        assert forall|k: int| before < k < n - 1 implies !#[trigger] lists_user(
            rest[k],
            user,
        ) by {
            assert(rest[k] == events[k + 1]);
        }
        if last > 0 {
            assert(rest[last - 1] == events[last]);
        } else if last < 0 {
            assert(!lists_user(events[0], user));
        }
        lemma_search_ends(user, songs, voice, next + 1, now, state, rest, before);
        lemma_search_asks(user, songs, voice, next, found, state, events);
        lemma_join_ends_shift(
            if last >= 0 {
                Some(voice[next + last])
            } else {
                found
            },
            state,
            n,
            events,
            performed(user, songs, at, events),
            after(user, songs, at, events),
        );
    }
}

/// The voice channels that a run of `join` was told of, in the order in which they came.
pub open spec fn voice_told<C>(events: Seq<EventView<C>>) -> Seq<u64> {
    events[0]->Channels_0.filter(|c: ChannelInfo| c.is_voice).map_values(|c: ChannelInfo| c.id)
}

/// The rest of a run of `join` after the channels came is a search through the voice channels.
proof fn lemma_join_step<C>(
    user: u64,
    songs: Seq<SongView>,
    order: Seq<usize>,
    events: Seq<EventView<C>>,
)
    requires
        events.len() > 1,
        all_awaited(
            user,
            songs,
            beginning(BotCommand::Join, StateView::<C>::NotJoined, songs, order),
            events,
        ),
    ensures
        ({
            let at = beginning(BotCommand::Join, StateView::<C>::NotJoined, songs, order);
            let step = Progress {
                stage: search_stage(voice_told(events), 0, None),
                state: StateView::<C>::NotJoined,
            };
            let rest = events.drop_first();
            &&& events[0] is Channels
            &&& all_awaited(user, songs, step, rest)
            &&& performed(user, songs, at, events) == seq![ActionView::ListChannels] + performed(
                user,
                songs,
                step,
                rest,
            )
            &&& after(user, songs, at, events) == after(user, songs, step, rest)
        }),
{
    let at = beginning(BotCommand::Join, StateView::<C>::NotJoined, songs, order);
    let rest = events.drop_first();
    let step = advance(user, songs, at, events[0]);
    assert(all_awaited(user, songs, step, rest));
    if events[0] is Failed {
        assert(awaited(step.stage, songs.len(), rest[0]));
    }
    assert(step.stage == search_stage(voice_told(events), 0, None));
}

/// Any run of `join` in a guild without a joined channel asks for the channels first and then
/// for the members of each voice channel among them, in order.
pub proof fn law_join_asks_every_voice_channel<C>(
    user: u64,
    songs: Seq<SongView>,
    order: Seq<usize>,
    events: Seq<EventView<C>>,
)
    requires
        events.len() > 0,
        all_awaited(
            user,
            songs,
            beginning(BotCommand::Join, StateView::<C>::NotJoined, songs, order),
            events,
        ),
    ensures
        ({
            let at = beginning(BotCommand::Join, StateView::<C>::NotJoined, songs, order);
            let done = performed(user, songs, at, events);
            let voice = voice_told(events);
            &&& done.len() == events.len()
            &&& done[0] == ActionView::ListChannels
            &&& events.len() > 1 ==> events[0] is Channels
            &&& forall|k: int|
                1 <= k <= voice.len() && k < events.len() ==> #[trigger] done[k]
                    == ActionView::ListMembers(voice[k - 1])
            &&& forall|k: int|
                1 <= k <= voice.len() && k + 1 < events.len() ==> #[trigger] events[k] is Members
        }),
{
    let at = beginning(BotCommand::Join, StateView::<C>::NotJoined, songs, order);
    let done = performed(user, songs, at, events);
    let voice = voice_told(events);
    let rest = events.drop_first();
    if events.len() > 1 {
        lemma_join_step(user, songs, order, events);
        let step = Progress {
            stage: search_stage(voice, 0, None),
            state: StateView::<C>::NotJoined,
        };
        lemma_search_asks(user, songs, voice, 0, None, step.state, rest);
        let later = performed(user, songs, step, rest);
        assert forall|k: int| 1 <= k <= voice.len() && k < events.len() implies #[trigger] done[k]
            == ActionView::ListMembers(voice[k - 1]) by {
            assert(done[k] == later[k - 1]);
        }
        assert forall|k: int| 1 <= k <= voice.len() && k + 1 < events.len() implies
            #[trigger] events[k] is Members by {
            assert(events[k] == rest[k - 1]);
        }
    } else {
        let step = advance(user, songs, at, events[0]);
        assert(performed(user, songs, step, rest).len() == 0);
    }
}

/// If none of the voice channels has the user in it, `join` says so, and that is all it does.
pub proof fn law_join_needs_a_channel_with_the_user<C>(
    user: u64,
    songs: Seq<SongView>,
    order: Seq<usize>,
    events: Seq<EventView<C>>,
)
    requires
        all_awaited(
            user,
            songs,
            beginning(BotCommand::Join, StateView::<C>::NotJoined, songs, order),
            events,
        ),
        events.len() > voice_told(events).len() + 1,
        forall|k: int|
            1 <= k <= voice_told(events).len() ==> !#[trigger] lists_user(events[k], user),
    ensures
        ({
            let at = beginning(BotCommand::Join, StateView::<C>::NotJoined, songs, order);
            let done = performed(user, songs, at, events);
            let n = voice_told(events).len() as int;
            &&& events.len() == n + 2
            &&& done.len() == events.len()
            &&& done[n + 1] == ActionView::Reply(
                "You must be in a voice chat to use `/join` command"@,
            )
            &&& after(user, songs, at, events) == (Progress {
                stage: StageView::Finished,
                state: StateView::<C>::NotJoined,
            })
        }),
{
    let at = beginning(BotCommand::Join, StateView::<C>::NotJoined, songs, order);
    let done = performed(user, songs, at, events);
    let end = after(user, songs, at, events);
    let voice = voice_told(events);
    let n = voice.len() as int;
    let rest = events.drop_first();
    let step = Progress { stage: search_stage(voice, 0, None), state: StateView::<C>::NotJoined };
    lemma_join_step(user, songs, order, events);
    assert forall|k: int| 0 <= k < n implies !#[trigger] lists_user(rest[k], user) by {
        assert(rest[k] == events[k + 1]);
    }
    lemma_search_ends(user, songs, voice, 0, None, step.state, rest, -1);
    lemma_search_asks(user, songs, voice, 0, None, step.state, rest);
    assert(done.drop_first() =~= performed(user, songs, step, rest));
    lemma_join_ends_shift(None, step.state, n + 1, events, done, end);
    reveal(join_ends);
}

/// If the `m`-th voice channel is the last one that has the user in it, `join` asks for the
/// name of that channel, announces the name, connects to that same channel, and, once
/// connected, remembers the name and the call.
pub proof fn law_join_connects_to_the_users_channel<C>(
    user: u64,
    songs: Seq<SongView>,
    order: Seq<usize>,
    events: Seq<EventView<C>>,
    m: int,
)
    requires
        all_awaited(
            user,
            songs,
            beginning(BotCommand::Join, StateView::<C>::NotJoined, songs, order),
            events,
        ),
        events.len() > voice_told(events).len() + 1,
        1 <= m <= voice_told(events).len(),
        lists_user(events[m], user),
        forall|k: int|
            m < k <= voice_told(events).len() ==> !#[trigger] lists_user(events[k], user),
    ensures
        ({
            let at = beginning(BotCommand::Join, StateView::<C>::NotJoined, songs, order);
            let done = performed(user, songs, at, events);
            let end = after(user, songs, at, events);
            let channel = voice_told(events)[m - 1];
            let n = voice_told(events).len() as int;
            let name = events[n + 1]->Name_0;
            &&& n + 2 <= events.len() <= n + 4
            &&& done.len() == events.len()
            &&& done[n + 1] == ActionView::NameChannel(channel)
            &&& events.len() > n + 2 ==> events[n + 1] is Name && done[n + 2]
                == ActionView::Reply("Joined to `"@ + name + "`"@)
            &&& events.len() > n + 3 ==> done[n + 3] == (ActionView::JoinChannel { channel, name })
            &&& events.len() > n + 3 && events[n + 3] is Joined ==> end == (Progress {
                stage: StageView::Finished,
                state: StateView::Joined { channel_name: name, call: events[n + 3]->Joined_0 },
            })
        }),
{
    let at = beginning(BotCommand::Join, StateView::<C>::NotJoined, songs, order);
    let done = performed(user, songs, at, events);
    let end = after(user, songs, at, events);
    let voice = voice_told(events);
    let n = voice.len() as int;
    let rest = events.drop_first();
    let step = Progress { stage: search_stage(voice, 0, None), state: StateView::<C>::NotJoined };
    lemma_join_step(user, songs, order, events);
    assert(rest[m - 1] == events[m]);
    assert forall|k: int| m - 1 < k < n implies !#[trigger] lists_user(rest[k], user) by {
        assert(rest[k] == events[k + 1]);
    }
    lemma_search_ends(user, songs, voice, 0, None, step.state, rest, m - 1);
    lemma_search_asks(user, songs, voice, 0, None, step.state, rest);
    assert(done.drop_first() =~= performed(user, songs, step, rest));
    lemma_join_ends_shift(Some(voice[m - 1]), step.state, n + 1, events, done, end);
    reveal(join_ends);
}

/// An interaction is refused outside guilds, then for want of songs, then for its name, each
/// with its own text; otherwise its command is carried out in its own guild.
pub proof fn law_refusals(
    guild: Option<u64>,
    name: Seq<char>,
    options: Seq<OptionValue>,
    songs: Seq<SongView>,
)
    ensures
        guild is None ==> admission(guild, name, options, songs) == Err::<
            (u64, BotCommand),
            Seq<char>,
        >("This bot only works for guilds"@),
        guild is Some && songs.len() == 0 ==> admission(guild, name, options, songs) == Err::<
            (u64, BotCommand),
            Seq<char>,
        >("No songs found"@),
        guild is Some && songs.len() > 0 ==> {
            let answer = admission(guild, name, options, songs);
            &&& answer is Ok <==> parse(name, options) is Ok
            &&& parse(name, options) matches Ok(command) ==> answer->Ok_0 == (guild->0, command)
            &&& parse(name, options) is Err ==> answer->Err_0 == "Invalid command "@ + name
        },
{
}

/// What each action can be answered while a command waits for it. A reply or a stop is only
/// ever done; asking for the current track or the queue is answered by it; anything else may
/// also fail. The songs that a reply is about to show have to exist.
pub proof fn law_answers_that_fit<C>(
    count: nat,
    event: EventView<C>,
    voice: Seq<u64>,
    found: Option<u64>,
    channel: u64,
    upcoming: Option<usize>,
    actions: Seq<ActionView>,
    next: nat,
)
    requires
        next < actions.len(),
    ensures
        awaited(StageView::Channels, count, event) <==> event is Channels || event is Failed,
        awaited(StageView::Members { voice, next, found }, count, event) <==> event is Members
            || event is Failed,
        awaited(StageView::Name { channel }, count, event) <==> event is Name || event is Failed,
        awaited(StageView::Current, count, event) <==> event == EventView::<C>::Current(None) || (
        event matches EventView::Current(Some(id)) && id < count),
        awaited(StageView::QueueToShow, count, event) <==> (event matches EventView::Queue(queue)
            && forall|i: int| 0 <= i < queue.len() && i < 10 ==> #[trigger] queue[i] < count),
        awaited(StageView::QueueToSkip, count, event) <==> event is Queue,
        awaited(StageView::Skipping { upcoming }, count, event) <==> event is Failed || (event
            is Done && (upcoming is None || upcoming->0 < count)),
        ({
            let fits = awaited(StageView::Script { actions, next }, count, event);
            let action = actions[next as int];
            &&& action is Reply || action is StopQueue ==> (fits <==> event is Done)
            &&& action is JoinChannel ==> (fits <==> event is Joined || event is Failed)
            &&& !(action is Reply) && !(action is StopQueue) && !(action is JoinChannel) ==> (fits
                <==> event is Done || event is Failed)
        }),
{
    if event is Queue {
        let queue = event->Queue_0;
        if awaited(StageView::QueueToShow, count, event) {
            assert forall|i: int| 0 <= i < queue.len() && i < 10 implies #[trigger] queue[i]
                < count by {
                assert(shown(queue)[i] == queue[i]);
            }
        }
        if forall|i: int| 0 <= i < queue.len() && i < 10 ==> #[trigger] queue[i] < count {
            assert forall|i: int| 0 <= i < shown(queue).len() implies #[trigger] shown(queue)[i]
                < count by {
                assert(shown(queue)[i] == queue[i]);
            }
        }
    }
}

/// A failure ends the command at once, keeps its reason and leaves the state of the guild as it
/// was.
pub proof fn law_failure_is_kept<C>(
    user: u64,
    songs: Seq<SongView>,
    at: Progress<C>,
    error: Seq<char>,
)
    ensures
        advance(user, songs, at, EventView::Failed(error)) == (Progress {
            stage: StageView::Failed { error },
            state: at.state,
        }),
{
}

/// The indices of a range are consecutive, and indices are valid exactly if each is below the
/// number of songs.
pub proof fn law_index_lists(from: usize, to: usize, ids: Seq<usize>, count: nat)
    requires
        from <= to,
    ensures
        id_range(from as nat, to as nat).len() == to - from,
        forall|i: int|
            0 <= i < to - from ==> #[trigger] id_range(from as nat, to as nat)[i] == from + i,
        ids_valid(ids, count) <==> forall|id: usize| ids.contains(id) ==> id < count,
{
    if forall|id: usize| ids.contains(id) ==> id < count {
        assert forall|i: int| 0 <= i < ids.len() implies #[trigger] ids[i] < count by {
            assert(ids.contains(ids[i]));
        }
    }
}

/// A quoted name stands between its opening and one backquote; a plain reply is one action.
pub proof fn law_quotes_and_replies(opening: Seq<char>, name: Seq<char>)
    ensures
        quoted(opening, name).len() == opening.len() + name.len() + 1,
        quoted(opening, name).take(opening.len() as int) == opening,
        quoted(opening, name).skip(opening.len() as int).drop_last() == name,
        quoted(opening, name).last() == '`',
        only_reply(name).len() == 1,
        only_reply(name)[0] == ActionView::Reply(name),
{
    reveal_strlit("`");
    assert(quoted(opening, name).take(opening.len() as int) =~= opening);
    assert(quoted(opening, name).skip(opening.len() as int).drop_last() =~= name);
}

} // verus!
