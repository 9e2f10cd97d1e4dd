//! What each command says and does, once everything it needs to know is known.

use crate::action::{actions_view, Action, ActionView};
use crate::song::{format_song, song_line, songs_view, SongData, SongView};
use crate::text::{
    chunks, decimal, decimal_string, law_chunks_rebuild_text, law_decimal_reads_back, split_chunks,
    texts,
};
use vstd::prelude::*;
use vstd::string::*;

verus! {

/// How many tracks of the queue are shown.
pub const QUEUE_SHOWN: usize = 10;

/// How many tracks a page of the track list holds.
pub const TRACKS_PER_PAGE: usize = 20;

/// How many characters a message holds.
pub const MESSAGE_SIZE: usize = 2000;

/// The indices from `from` up to, not including, `to`.
pub open spec fn id_range(from: nat, to: nat) -> Seq<usize> {
    Seq::new((to - from) as nat, |i: int| (from + i) as usize)
}

/// All indices name a song.
pub open spec fn ids_valid(ids: Seq<usize>, count: nat) -> bool {
    forall|i: int| 0 <= i < ids.len() ==> #[trigger] ids[i] < count
}

/// The lines that show the songs `ids`, each ended by a line break.
pub open spec fn song_lines(songs: Seq<SongView>, ids: Seq<usize>) -> Seq<char>
    decreases ids.len(),
{
    if ids.len() == 0 {
        Seq::empty()
    } else {
        song_lines(songs, ids.drop_last()) + song_line(
            ids.last() as nat,
            songs[ids.last() as int],
        ) + "\n"@
    }
}

/// The reply to a command that needs a voice channel while none is joined.
pub open spec fn not_joined_text() -> Seq<char> {
    "No voice channels joined, use `/join` to join a voice channel"@
}

/// The reply to `join` from a user who is in no voice channel.
pub open spec fn no_voice_text() -> Seq<char> {
    "You must be in a voice chat to use `/join` command"@
}

/// A channel name between an opening text and a closing backquote.
pub open spec fn quoted(opening: Seq<char>, name: Seq<char>) -> Seq<char> {
    opening + name + "`"@
}

/// The reply to an index that names no song, where `last` is shown as the last index.
pub open spec fn out_of_range_text(id: nat, last: nat) -> Seq<char> {
    "Song ID **"@ + decimal(id) + "** is out of range. Available songs: **0**-**"@ + decimal(last)
        + "**"@
}

/// A song's line after an opening text.
pub open spec fn titled(opening: Seq<char>, songs: Seq<SongView>, id: usize) -> Seq<char> {
    opening + song_line(id as nat, songs[id as int])
}

/// The actions that queue the songs `ids` one after the other.
pub open spec fn enqueue_all(songs: Seq<SongView>, ids: Seq<usize>) -> Seq<ActionView> {
    ids.map_values(
        |id: usize| ActionView::EnqueueTrack { id, path: songs[id as int].path },
    )
}

/// Replies `text`, and nothing else.
pub open spec fn only_reply(text: Seq<char>) -> Seq<ActionView> {
    seq![ActionView::Reply(text)]
}

/// Clears the queue, queues the songs `ids` and replies `text`.
pub open spec fn restart(songs: Seq<SongView>, ids: Seq<usize>, text: Seq<char>) -> Seq<
    ActionView,
> {
    seq![ActionView::StopQueue] + enqueue_all(songs, ids) + only_reply(text)
}

/// `play`: all songs from the wanted one on.
pub open spec fn play_script(songs: Seq<SongView>, id: Option<usize>) -> Seq<ActionView> {
    let start = id.unwrap_or(0);
    if start >= songs.len() {
        seq![
            ActionView::StopQueue,
            ActionView::Reply(out_of_range_text(start as nat, (songs.len() - 1) as nat)),
        ]
    } else {
        restart(songs, id_range(start as nat, songs.len()), titled("Playing "@, songs, start))
    }
}

/// `shuffle`: all songs in the order `order`.
pub open spec fn shuffle_script(songs: Seq<SongView>, order: Seq<usize>) -> Seq<ActionView> {
    restart(songs, order, titled("Shuffled. Playing "@, songs, order[0]))
}

/// `enqueue`: one more song.
pub open spec fn enqueue_script(songs: Seq<SongView>, id: usize) -> Seq<ActionView> {
    if id < songs.len() {
        enqueue_all(songs, seq![id]) + only_reply(titled("Enqueued track "@, songs, id))
    } else {
        only_reply(out_of_range_text(id as nat, songs.len()))
    }
}

/// `nowplaying`: the reply, given the song that is playing.
pub open spec fn now_playing_text(songs: Seq<SongView>, current: Option<usize>) -> Seq<char> {
    match current {
        Some(id) => titled("Now playing "@, songs, id),
        None => "Not currently playing"@,
    }
}

/// The part of the queue that is shown.
pub open spec fn shown(queue: Seq<usize>) -> Seq<usize> {
    if queue.len() > QUEUE_SHOWN {
        queue.take(QUEUE_SHOWN as int)
    } else {
        queue
    }
}

/// `showqueue`: the reply, given the queue.
pub open spec fn queue_text(songs: Seq<SongView>, queue: Seq<usize>) -> Seq<char> {
    if queue.len() == 0 {
        "Queue is empty"@
    } else {
        "Current queue:\n"@ + song_lines(songs, shown(queue)) + if queue.len() > QUEUE_SHOWN {
            "..."@
        } else {
            Seq::empty()
        }
    }
}

/// The track that comes up when the current one is skipped.
pub open spec fn upcoming_track(queue: Seq<usize>) -> Option<usize> {
    if queue.len() > 1 {
        Some(queue[1])
    } else {
        None
    }
}

/// `skip`: the reply, given the track that comes up.
pub open spec fn skipped_text(songs: Seq<SongView>, upcoming: Option<usize>) -> Seq<char> {
    match upcoming {
        Some(id) => titled("Skipped current track. Playing "@, songs, id),
        None => "Skipped current track"@,
    }
}

/// How many pages the track list has.
pub open spec fn page_count(count: nat) -> nat {
    count / TRACKS_PER_PAGE as nat + 1
}

/// The index of the first song on a page.
pub open spec fn page_begin(page: nat) -> nat {
    page * TRACKS_PER_PAGE as nat
}

/// The index after the last song on a page.
pub open spec fn page_end(page: nat, count: nat) -> nat {
    if page_begin(page + 1) < count {
        page_begin(page + 1)
    } else {
        count
    }
}

/// The songs on a page.
pub open spec fn page_ids(page: nat, count: nat) -> Seq<usize> {
    id_range(page_begin(page), page_end(page, count))
}

/// A page of the track list.
pub open spec fn page_text(songs: Seq<SongView>, page: nat) -> Seq<char> {
    "Total tracks: **"@ + decimal(songs.len()) + "**\nAvailable pages: **0**-**"@ + decimal(
        (page_count(songs.len()) - 1) as nat,
    ) + "**\nTracks **"@ + decimal(page_begin(page)) + "**-**"@ + decimal(
        (page_end(page, songs.len()) - 1) as nat,
    ) + "**:\n"@ + song_lines(songs, page_ids(page, songs.len()))
}

/// The reply to a page number that is too big, where `last` is the last page.
pub open spec fn page_too_big_text(last: nat) -> Seq<char> {
    "Page number is too big. Available pages: **0**-**"@ + decimal(last) + "**"@
}

/// `tracklist`: the messages that are sent.
pub open spec fn track_list_texts(songs: Seq<SongView>, page: Option<usize>) -> Seq<Seq<char>> {
    let page = page.unwrap_or(0);
    if page >= page_count(songs.len()) {
        seq![page_too_big_text((page_count(songs.len()) - 1) as nat)]
    } else {
        chunks(page_text(songs, page as nat), MESSAGE_SIZE as nat)
    }
}

/// Sends the messages one after the other.
pub open spec fn replies(messages: Seq<Seq<char>>) -> Seq<ActionView> {
    messages.map_values(|text: Seq<char>| ActionView::Reply(text))
}

fn with_prefix(opening: &str, rest: &str) -> (r: String)
    ensures
        r@ == opening@ + rest@,
{
    let mut text: String = opening.to_owned();
    text.append(rest);
    text
}

/// Writes a channel name between an opening text and a closing backquote.
pub fn quote(opening: &str, name: &str) -> (r: String)
    ensures
        r@ == quoted(opening@, name@),
{
    let mut text: String = with_prefix(opening, name);
    text.append("`");
    text
}

fn title(opening: &str, songs: &Vec<SongData>, id: usize) -> (r: String)
    requires
        id < songs.len(),
    ensures
        r@ == titled(opening@, songs_view(songs@), id),
{
    with_prefix(opening, format_song(id, &songs[id]).as_str())
}

fn out_of_range(id: usize, last: usize) -> (r: String)
    ensures
        r@ == out_of_range_text(id as nat, last as nat),
{
    let mut text: String = with_prefix("Song ID **", decimal_string(id).as_str());
    text.append("** is out of range. Available songs: **0**-**");
    text.append(decimal_string(last).as_str());
    text.append("**");
    text
}

/// Replies `text`, and nothing else.
pub fn reply_with(text: String) -> (r: Vec<Action>)
    ensures
        actions_view(r@) == only_reply(text@),
{
    let actions: Vec<Action> = vec![Action::Reply(text)];
    proof {
        assert(actions_view(actions@) =~= only_reply(text@));
    }
    actions
}

fn push_action(actions: &mut Vec<Action>, action: Action)
    ensures
        actions_view(final(actions)@) == actions_view(old(actions)@).push(action@),
{
    actions.push(action);
    proof {
        assert(actions_view(actions@) =~= actions_view(old(actions)@).push(action@));
    }
}

fn push_track(actions: &mut Vec<Action>, songs: &Vec<SongData>, id: usize)
    requires
        id < songs.len(),
    ensures
        actions_view(final(actions)@) == actions_view(old(actions)@) + enqueue_all(
            songs_view(songs@),
            seq![id],
        ),
{
    push_action(actions, Action::EnqueueTrack { id, path: songs[id].path.clone() });
    proof {
        assert(actions_view(actions@) =~= actions_view(old(actions)@) + enqueue_all(
            songs_view(songs@),
            seq![id],
        ));
    }
}

fn restart_with(songs: &Vec<SongData>, ids: &Vec<usize>, text: String) -> (r: Vec<Action>)
    requires
        ids_valid(ids@, songs.len() as nat),
    ensures
        actions_view(r@) == restart(songs_view(songs@), ids@, text@),
{
    let mut actions: Vec<Action> = Vec::new();
    push_action(&mut actions, Action::StopQueue);
    let mut i: usize = 0;
    proof {
        assert(actions_view(actions@) =~= seq![ActionView::StopQueue] + enqueue_all(
            songs_view(songs@),
            ids@.take(0),
        ));
    }
    while i < ids.len()
        invariant
            i <= ids.len(),
            ids_valid(ids@, songs.len() as nat),
            actions_view(actions@) == seq![ActionView::StopQueue] + enqueue_all(
                songs_view(songs@),
                ids@.take(i as int),
            ),
        decreases ids.len() - i,
    {
        push_track(&mut actions, songs, ids[i]);
        proof {
            assert(actions_view(actions@) =~= seq![ActionView::StopQueue] + enqueue_all(
                songs_view(songs@),
                ids@.take(i + 1),
            ));
        }
        i = i + 1;
    }
    push_action(&mut actions, Action::Reply(text));
    proof {
        assert(ids@.take(ids.len() as int) =~= ids@);
        assert(actions_view(actions@) =~= restart(songs_view(songs@), ids@, text@));
    }
    actions
}

/// Lists the indices from `from` up to, not including, `to`.
pub fn ids_between(from: usize, to: usize) -> (r: Vec<usize>)
    requires
        from <= to,
    ensures
        r@ == id_range(from as nat, to as nat),
{
    let mut ids: Vec<usize> = Vec::new();
    let mut id: usize = from;
    while id < to
        invariant
            from <= id <= to,
            ids@ == id_range(from as nat, id as nat),
        decreases to - id,
    {
        ids.push(id);
        id = id + 1;
        proof {
            assert(ids@ =~= id_range(from as nat, id as nat));
        }
    }
    ids
}

/// What `play` does.
pub fn play(songs: &Vec<SongData>, id: Option<usize>) -> (r: Vec<Action>)
    requires
        songs.len() > 0,
    ensures
        actions_view(r@) == play_script(songs_view(songs@), id),
{
    let start: usize = match id {
        Some(id) => id,
        None => 0,
    };
    let count: usize = songs.len();
    if start >= count {
        let actions: Vec<Action> = vec![
            Action::StopQueue,
            Action::Reply(out_of_range(start, count - 1)),
        ];
        proof {
            assert(actions_view(actions@) =~= play_script(songs_view(songs@), id));
        }
        actions
    } else {
        restart_with(songs, &ids_between(start, count), title("Playing ", songs, start))
    }
}

/// What `shuffle` does once the order is drawn.
pub fn shuffle(songs: &Vec<SongData>, order: &Vec<usize>) -> (r: Vec<Action>)
    requires
        order.len() > 0,
        ids_valid(order@, songs.len() as nat),
    ensures
        actions_view(r@) == shuffle_script(songs_view(songs@), order@),
{
    restart_with(songs, order, title("Shuffled. Playing ", songs, order[0]))
}

/// What `enqueue` does.
pub fn enqueue(songs: &Vec<SongData>, id: usize) -> (r: Vec<Action>)
    ensures
        actions_view(r@) == enqueue_script(songs_view(songs@), id),
{
    if id < songs.len() {
        let mut actions: Vec<Action> = Vec::new();
        push_track(&mut actions, songs, id);
        push_action(&mut actions, Action::Reply(title("Enqueued track ", songs, id)));
        proof {
            assert(actions_view(actions@) =~= enqueue_script(songs_view(songs@), id));
        }
        actions
    } else {
        reply_with(out_of_range(id, songs.len()))
    }
}

/// What `nowplaying` replies.
pub fn now_playing(songs: &Vec<SongData>, current: Option<usize>) -> (r: String)
    requires
        current is Some ==> current->0 < songs.len(),
    ensures
        r@ == now_playing_text(songs_view(songs@), current),
{
    match current {
        Some(id) => title("Now playing ", songs, id),
        None => "Not currently playing".to_owned(),
    }
}

fn append_lines(text: &mut String, songs: &Vec<SongData>, ids: &Vec<usize>)
    requires
        ids_valid(ids@, songs.len() as nat),
    ensures
        final(text)@ == old(text)@ + song_lines(songs_view(songs@), ids@),
{
    let mut i: usize = 0;
    let ghost opening = text@;
    proof {
        assert(text@ =~= opening + song_lines(songs_view(songs@), ids@.take(0)));
    }
    while i < ids.len()
        invariant
            i <= ids.len(),
            ids_valid(ids@, songs.len() as nat),
            text@ == opening + song_lines(songs_view(songs@), ids@.take(i as int)),
        decreases ids.len() - i,
    {
        text.append(format_song(ids[i], &songs[ids[i]]).as_str());
        text.append("\n");
        proof {
            let next = ids@.take(i + 1);
            assert(next.drop_last() =~= ids@.take(i as int));
            assert(text@ =~= opening + song_lines(songs_view(songs@), next));
        }
        i = i + 1;
    }
    proof {
        assert(ids@.take(ids.len() as int) =~= ids@);
    }
}

fn shown_part(queue: &Vec<usize>) -> (r: Vec<usize>)
    ensures
        r@ == shown(queue@),
{
    let mut ids: Vec<usize> = Vec::new();
    let mut i: usize = 0;
    while i < queue.len() && i < QUEUE_SHOWN
        invariant
            i <= queue.len(),
            i <= QUEUE_SHOWN,
            ids@ == queue@.take(i as int),
        decreases queue.len() - i,
    {
        ids.push(queue[i]);
        i = i + 1;
        proof {
            assert(ids@ =~= queue@.take(i as int));
        }
    }
    proof {
        assert(ids@ =~= shown(queue@));
    }
    ids
}

/// What `showqueue` replies.
pub fn show_queue(songs: &Vec<SongData>, queue: &Vec<usize>) -> (r: String)
    requires
        ids_valid(shown(queue@), songs.len() as nat),
    ensures
        r@ == queue_text(songs_view(songs@), queue@),
{
    if queue.len() == 0 {
        "Queue is empty".to_owned()
    } else {
        let mut text: String = "Current queue:\n".to_owned();
        append_lines(&mut text, songs, &shown_part(queue));
        if queue.len() > QUEUE_SHOWN {
            text.append("...");
        }
        proof {
            assert(text@ =~= queue_text(songs_view(songs@), queue@));
        }
        text
    }
}

/// What `skip` replies once the current track is dropped.
pub fn skipped(songs: &Vec<SongData>, upcoming: Option<usize>) -> (r: String)
    requires
        upcoming is Some ==> upcoming->0 < songs.len(),
    ensures
        r@ == skipped_text(songs_view(songs@), upcoming),
{
    match upcoming {
        Some(id) => title("Skipped current track. Playing ", songs, id),
        None => "Skipped current track".to_owned(),
    }
}

fn write_page(songs: &Vec<SongData>, page: usize) -> (r: String)
    requires
        songs.len() > 0,
        page < page_count(songs.len() as nat),
    ensures
        r@ == page_text(songs_view(songs@), page as nat),
{
    let count: usize = songs.len();
    let begin: usize = page * TRACKS_PER_PAGE;
    let end: usize = if count - begin > TRACKS_PER_PAGE {
        begin + TRACKS_PER_PAGE
    } else {
        count
    };
    let mut text: String = with_prefix("Total tracks: **", decimal_string(count).as_str());
    text.append("**\nAvailable pages: **0**-**");
    text.append(decimal_string(count / TRACKS_PER_PAGE).as_str());
    text.append("**\nTracks **");
    text.append(decimal_string(begin).as_str());
    text.append("**-**");
    text.append(decimal_string(end - 1).as_str());
    text.append("**:\n");
    append_lines(&mut text, songs, &ids_between(begin, end));
    text
}

/// What `tracklist` does.
pub fn track_list(songs: &Vec<SongData>, page: Option<usize>) -> (r: Vec<Action>)
    requires
        songs.len() > 0,
    ensures
        actions_view(r@) == replies(track_list_texts(songs_view(songs@), page)),
{
    let page: usize = match page {
        Some(page) => page,
        None => 0,
    };
    let last_page: usize = songs.len() / TRACKS_PER_PAGE;
    let messages: Vec<String> = if page > last_page {
        let mut text: String = with_prefix(
            "Page number is too big. Available pages: **0**-**",
            decimal_string(last_page).as_str(),
        );
        text.append("**");
        vec![text]
    } else {
        split_chunks(&write_page(songs, page), MESSAGE_SIZE)
    };
    proof {
        assert(texts(messages@) =~= track_list_texts(songs_view(songs@), Some(page)));
    }
    let mut actions: Vec<Action> = Vec::new();
    let mut i: usize = 0;
    proof {
        assert(actions_view(actions@) =~= replies(texts(messages@).take(0)));
    }
    while i < messages.len()
        invariant
            i <= messages.len(),
            actions_view(actions@) == replies(texts(messages@).take(i as int)),
        decreases messages.len() - i,
    {
        push_action(&mut actions, Action::Reply(messages[i].clone()));
        i = i + 1;
        proof {
            assert(actions_view(actions@) =~= replies(texts(messages@).take(i as int)));
        }
    }
    proof {
        assert(texts(messages@).take(messages.len() as int) =~= texts(messages@));
    }
    actions
}

/// The songs on the first `pages` pages, page after page.
pub open spec fn pages_ids(pages: nat, count: nat) -> Seq<usize>
    decreases pages,
{
    if pages == 0 {
        Seq::empty()
    } else {
        pages_ids((pages - 1) as nat, count) + page_ids((pages - 1) as nat, count)
    }
}

proof fn lemma_pages(pages: nat, count: nat)
    requires
        pages <= page_count(count),
        count <= usize::MAX,
    ensures
        pages_ids(pages, count) == id_range(
            0,
            if page_begin(pages) < count {
                page_begin(pages)
            } else {
                count
            },
        ),
    decreases pages,
{
    if pages > 0 {
        lemma_pages((pages - 1) as nat, count);
    }
    assert(pages_ids(pages, count) =~= id_range(
        0,
        if page_begin(pages) < count {
            page_begin(pages)
        } else {
            count
        },
    ));
}

/// The pages of the track list together show every song once, in order; no page shows more
/// than its share.
pub proof fn law_pages_show_all_songs(count: nat)
    requires
        count <= usize::MAX,
    ensures
        pages_ids(page_count(count), count) == id_range(0, count),
        forall|page: nat|
            page < page_count(count) ==> (#[trigger] page_ids(page, count)).len()
                <= TRACKS_PER_PAGE,
{
    lemma_pages(page_count(count), count);
}

/// The messages of a page put together are the page, none of them is empty, and each fits
/// into a message.
pub proof fn law_page_is_sent_in_full(songs: Seq<SongView>, page: usize)
    requires
        page < page_count(songs.len()),
    ensures
        track_list_texts(songs, Some(page)).flatten() == page_text(songs, page as nat),
        track_list_texts(songs, Some(page)).len() > 0,
        forall|i: int|
            0 <= i < track_list_texts(songs, Some(page)).len() ==> 0 < (
            #[trigger] track_list_texts(songs, Some(page))[i]).len() <= MESSAGE_SIZE,
{
    law_chunks_rebuild_text(page_text(songs, page as nat), MESSAGE_SIZE as nat);
    law_decimal_reads_back(songs.len());
}

/// `showqueue` shows the first tracks of the queue and no more than fit.
pub proof fn law_queue_is_shown_from_the_front(queue: Seq<usize>)
    ensures
        shown(queue).len() <= QUEUE_SHOWN,
        shown(queue) == queue.take(shown(queue).len() as int),
        shown(queue).len() < queue.len() <==> queue.len() > QUEUE_SHOWN,
{
    assert(shown(queue) =~= queue.take(shown(queue).len() as int));
}

} // verus!
