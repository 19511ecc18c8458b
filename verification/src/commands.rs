//! What the host does for each request of its UI and of the guests: the
//! decisions of the command handlers, with the waits for the network left
//! to the caller.
use vstd::prelude::*;
use crate::external::{
    hex_encode, hex_of, io_error_text, new_uuid_bytes, new_uuid_string, now_millis, sha256,
    sha256_digest,
};
use crate::model::{CollectionVisibility, PlayerStatus, ResolutionStatus, Song, SongSource};
use crate::room::{adds_song, RoomModel, RoomState};
use crate::model::CollectionModel;
use crate::store::{ExportedCollection, PlaylistStore};
use crate::history::{HistoryModel, SessionHistoryStore};
use crate::youtube::SearchResult;
use crate::importer::{ImportPreview, ImportedPlaylist};
use crate::model::PlaylistCollection;
use crate::text::{
    chars_of, dec, find_in, find_index, lit, parse_u32_spec, slice_chars, split_char, string_of,
    trim_ws,
};

verus! {

// ------------------------------------------------------------------
// Small rules
// ------------------------------------------------------------------
/// The visibility a collection created by a guest has when the request
/// names none.
pub fn default_public_visibility() -> (r: CollectionVisibility)
    ensures
        r == CollectionVisibility::Public,
{
    CollectionVisibility::Public
}

/// The message for a video that the embedded player cannot play.
pub open spec fn unplayable() -> Seq<char> {
    crate::youtube::unplayable_message()
}

/// Queues a song once its video is known to be playable: a song whose
/// video cannot be embedded is refused and the room is left as it was.
pub fn queue_song_if_embeddable(room_state: &mut RoomState, song: Song, is_embeddable: bool) -> (r:
    Result<(), String>)
    ensures
        is_embeddable ==> r is Ok && adds_song(old(room_state)@, final(room_state)@, song),
        !is_embeddable ==> (r matches Err(e) && e@ == unplayable()) && final(room_state)@ == old(
            room_state,
        )@,
{
    if !is_embeddable {
        return Err(crate::youtube::unplayable_video_message());
    }
    room_state.add_song(song);
    Ok(())
}

/// `x * 60`, saturating at `u32::MAX`.
pub open spec fn sat_mul60(x: u32) -> u32 {
    if x * 60 > u32::MAX {
        u32::MAX
    } else {
        (x * 60) as u32
    }
}

/// `x + y`, saturating at `u32::MAX`.
pub open spec fn sat_add(x: u32, y: u32) -> u32 {
    if x + y > u32::MAX {
        u32::MAX
    } else {
        (x + y) as u32
    }
}

/// The seconds that the parts of a `H:MM:SS` label add up to, each part a
/// number once trimmed; the arithmetic saturates.
pub open spec fn label_seconds(parts: Seq<Seq<char>>) -> Option<u32>
    decreases parts.len(),
{
    if parts.len() == 0 {
        Some(0)
    } else {
        match (label_seconds(parts.drop_last()), parse_u32_spec(trim_ws(parts.last()))) {
            (Some(t), Some(v)) => Some(sat_add(sat_mul60(t), v)),
            _ => None,
        }
    }
}

/// The length in seconds that a duration label such as `3:45` or
/// `1:02:03` gives; a label that is not all numbers gives zero.
pub open spec fn duration_label_seconds(label: Seq<char>) -> u32 {
    match label_seconds(split_char(label, ':')) {
        Some(t) => t,
        None => 0,
    }
}

/// Reads a duration label into seconds (`parse_duration_label`).
pub fn parse_duration_label(label: &str) -> (r: u32)
    ensures
        r == duration_label_seconds(label@),
{
    let l = chars_of(label);
    let parts = crate::text::split_chars(&l, ':');
    let ghost ps = split_char(label@, ':');
    let mut total: u32 = 0;
    let mut i: usize = 0;
    while i < parts.len()
        invariant
            i <= parts.len(),
            crate::text::views(parts@) == ps,
            ps == split_char(label@, ':'),
            label_seconds(ps.take(i as int)) == Some(total),
        decreases parts.len() - i,
    {
        proof {
            assert(ps.take(i + 1).drop_last() =~= ps.take(i as int));
            assert(ps.take(i + 1).last() == parts@[i as int]@);
        }
        let t = crate::text::trim_ws_chars(&parts[i]);
        let value = match crate::text::parse_u32_chars(&t) {
            Some(v) => v,
            None => {
                proof {
                    lemma_label_seconds_prefix(ps, i as int + 1);
                }
                return 0;
            },
        };
        let scaled = match total.checked_mul(60) {
            Some(x) => x,
            None => 4294967295u32,
        };
        total = scaled.saturating_add(value);
        i = i + 1;
    }
    assert(ps.take(i as int) =~= ps);
    total
}

proof fn lemma_label_seconds_prefix(ps: Seq<Seq<char>>, n: int)
    requires
        0 <= n <= ps.len(),
        label_seconds(ps.take(n)) is None,
    ensures
        label_seconds(ps) is None,
    decreases ps.len() - n,
{
    if n < ps.len() {
        assert(ps.take(n + 1).drop_last() =~= ps.take(n));
        lemma_label_seconds_prefix(ps, n + 1);
    } else {
        assert(ps.take(n) =~= ps);
    }
}

/// The message for a failed file operation.
pub open spec fn io_failure(action: Seq<char>, target: Seq<char>, message: Seq<char>) -> Seq<char> {
    "Failed to "@ + action + " "@ + target + ": "@ + message
}

/// The message for a failed file operation, from the error's text.
pub fn io_error_description(action: &str, target: &str, message: &str) -> (r: String)
    ensures
        r@ == io_failure(action@, target@, message@),
{
    let mut out = lit("Failed to ");
    crate::text::append_chars(&mut out, &chars_of(action));
    out.push(' ');
    crate::text::append_chars(&mut out, &chars_of(target));
    out.push(':');
    out.push(' ');
    crate::text::append_chars(&mut out, &chars_of(message));
    proof {
        reveal_strlit("Failed to ");
        reveal_strlit(" ");
        reveal_strlit(": ");
    }
    assert(out@ =~= io_failure(action@, target@, message@));
    string_of(&out)
}

/// The message for a failed file operation (`describe_io_error`): it names
/// the action and the target, then gives the error's own text.
pub fn describe_io_error(action: &str, target: &str, err: &std::io::Error) -> (r: String)
    ensures
        exists|m: Seq<char>| r@ == io_failure(action@, target@, m),
{
    let text = io_error_text(err);
    io_error_description(action, target, text.as_str())
}

// ------------------------------------------------------------------
// Rooms
// ------------------------------------------------------------------
/// A room id: the first three bytes of the SHA-256 digest of a fresh
/// random identifier, in hexadecimal (six characters).
pub fn generate_room_id() -> (r: String)
    ensures
        exists|u: Seq<u8>| u.len() == 16 && r@ == hex_of(sha256_digest(u).take(3)),
{
    let u = new_uuid_bytes();
    let digest = sha256(u.as_slice());
    let mut head: Vec<u8> = Vec::new();
    head.push(digest[0]);
    head.push(digest[1]);
    head.push(digest[2]);
    assert(head@ =~= sha256_digest(u@).take(3));
    hex_encode(head.as_slice())
}

/// A text without its `-` characters.
pub open spec fn without_dashes(s: Seq<char>) -> Seq<char> {
    s.filter(|c: char| c != '-')
}

/// A join token made from an identifier: the identifier without dashes.
pub fn join_token_from(id: &str) -> (r: String)
    ensures
        r@ == without_dashes(id@),
{
    let v = chars_of(id);
    let mut out: Vec<char> = Vec::new();
    let mut i: usize = 0;
    while i < v.len()
        invariant
            i <= v.len(),
            v@ == id@,
            out@ == without_dashes(v@.take(i as int)),
        decreases v.len() - i,
    {
        proof {
            assert(v@.take(i + 1) =~= v@.take(i as int).push(v@[i as int]));
            v@.take(i as int).lemma_filter_push(v@[i as int], |c: char| c != '-');
        }
        if v[i] != '-' {
            out.push(v[i]);
        }
        i = i + 1;
    }
    assert(v@.take(i as int) =~= v@);
    string_of(&out)
}

/// A secret join token (`generate_join_token`): a fresh random identifier
/// without its dashes.
pub fn generate_join_token() -> (r: String)
    ensures
        exists|u: Seq<char>| r@ == without_dashes(u),
{
    let id = new_uuid_string();
    join_token_from(id.as_str())
}

/// The ids of a new room.
#[derive(Debug)]
pub struct CreateRoomResponse {
    pub room_id: String,
    pub join_token: String,
}

/// Starts a room (`create_room`): fresh room id, join token and host peer
/// id, a clean player and queue, the store's collections.
pub fn create_room(room: &mut RoomState, playlists: &crate::store::PlaylistStore) -> (r:
    CreateRoomResponse)
    ensures
        final(room)@.room_id == r.room_id,
        final(room)@.connected_clients.len() == 0,
        final(room)@.player == crate::room::cleared(old(room).player),
        final(room)@.queue.len() == 0,
        final(room)@.playlists == playlists@,
        exists|u: Seq<u8>| u.len() == 16 && r.room_id@ == hex_of(sha256_digest(u).take(3)),
        exists|u: Seq<char>| r.join_token@ == without_dashes(u),
{
    let room_id = generate_room_id();
    let join_token = generate_join_token();
    let all = playlists.get_all();
    room.reset_for_new_session(room_id.clone(), new_uuid_string(), all);
    CreateRoomResponse { room_id, join_token }
}

// ------------------------------------------------------------------
// YouTube links
// ------------------------------------------------------------------
/// The number of bytes that a character takes in UTF-8.
pub open spec fn utf8_width(c: char) -> nat {
    if (c as u32) < 0x80 {
        1
    } else if (c as u32) < 0x800 {
        2
    } else if (c as u32) < 0x10000 {
        3
    } else {
        4
    }
}

/// The length in bytes of a text in UTF-8 (`str::len`).
pub open spec fn utf8_len(s: Seq<char>) -> nat
    decreases s.len(),
{
    if s.len() == 0 {
        0
    } else {
        utf8_len(s.drop_last()) + utf8_width(s.last())
    }
}

proof fn lemma_utf8_len_grows(s: Seq<char>, i: int)
    requires
        0 <= i <= s.len(),
    ensures
        utf8_len(s.take(i)) <= utf8_len(s),
    decreases s.len() - i,
{
    if i < s.len() {
        lemma_utf8_len_grows(s, i + 1);
        assert(s.take(i + 1).drop_last() =~= s.take(i));
    } else {
        assert(s.take(i) =~= s);
    }
}

/// Whether a text takes exactly eleven bytes in UTF-8.
fn is_eleven_bytes(s: &Vec<char>) -> (r: bool)
    ensures
        r == (utf8_len(s@) == 11),
{
    let mut total: usize = 0;
    let mut i: usize = 0;
    while i < s.len()
        invariant
            i <= s.len(),
            total == utf8_len(s@.take(i as int)),
            total <= 11,
        decreases s.len() - i,
    {
        let c = s[i] as u32;
        let w: usize = if c < 0x80 {
            1
        } else if c < 0x800 {
            2
        } else if c < 0x10000 {
            3
        } else {
            4
        };
        proof {
            assert(s@.take(i + 1).drop_last() =~= s@.take(i as int));
            assert(s@.take(i + 1).last() == s@[i as int]);
        }
        if total + w > 11 {
            proof {
                lemma_utf8_len_grows(s@, i + 1);
            }
            return false;
        }
        total = total + w;
        i = i + 1;
    }
    assert(s@.take(i as int) =~= s@);
    total == 11
}

/// The text after `start` up to the first `stop`, or to the end.
pub open spec fn until(s: Seq<char>, start: int, stop: Seq<char>) -> Seq<char> {
    let rest = s.skip(start);
    match find_index(rest, stop) {
        Some(q) => rest.take(q),
        None => rest,
    }
}

/// The video id in a YouTube link: what follows `v=` up to `&`, else what
/// follows `youtu.be/` up to `?`, else the text itself when it is eleven
/// bytes long.
pub open spec fn youtube_id_in(url: Seq<char>) -> Option<Seq<char>> {
    match find_index(url, "v="@) {
        Some(p) => Some(until(url, p + 2, "&"@)),
        None => match find_index(url, "youtu.be/"@) {
            Some(p) => Some(until(url, p + 9, "?"@)),
            None => if utf8_len(url) == 11 {
                Some(url)
            } else {
                None
            },
        },
    }
}

fn until_exec(s: &Vec<char>, start: usize, stop: &Vec<char>) -> (r: Vec<char>)
    requires
        start <= s@.len(),
    ensures
        r@ == until(s@, start as int, stop@),
{
    let rest = slice_chars(s, start, s.len());
    assert(rest@ =~= s@.skip(start as int));
    match find_in(&rest, stop) {
        Some(q) => {
            let r = slice_chars(&rest, 0, q);
            assert(r@ =~= rest@.take(q as int));
            r
        },
        None => rest,
    }
}

/// The video id in a YouTube link (`extract_youtube_id`).
pub fn extract_youtube_id(url: &str) -> (r: Option<String>)
    ensures
        match youtube_id_in(url@) {
            Some(id) => r matches Some(x) && x@ == id,
            None => r is None,
        },
{
    proof {
        reveal_strlit("v=");
        reveal_strlit("&");
        reveal_strlit("youtu.be/");
        reveal_strlit("?");
    }
    let u = chars_of(url);
    let n = u.len();
    let v_eq = lit("v=");
    match find_in(&u, &v_eq) {
        Some(p) => {
            assert(p + 2 <= n);
            let amp = lit("&");
            Some(string_of(&until_exec(&u, p + 2, &amp)))
        },
        None => {
            let short = lit("youtu.be/");
            match find_in(&u, &short) {
                Some(p) => {
                    assert(p + 9 <= n);
                    let q = lit("?");
                    Some(string_of(&until_exec(&u, p + 9, &q)))
                },
                None => if is_eleven_bytes(&u) {
                    Some(string_of(&u))
                } else {
                    None
                },
            }
        },
    }
}

// ------------------------------------------------------------------
// Commands from guests and from the host UI
// ------------------------------------------------------------------
/// A request from a guest or from the host UI.
#[allow(non_camel_case_types)]
#[derive(Debug)]
pub enum ClientCommand {
    PLAY,
    PAUSE,
    SKIP { auto_play: Option<bool> },
    /// `time` is the position in seconds as an `f64` bit pattern.
    SEEK { time: u64 },
    SET_VOLUME { volume: u8 },
    TOGGLE_MUTE,
    ADD_SONG { youtube_url: String, added_by: Option<String> },
    REMOVE_SONG { song_id: String },
    MOVE_SONG_UP { song_id: String },
    MOVE_SONG_DOWN { song_id: String },
    MOVE_SONG_TO_TOP { song_id: String },
    MOVE_SONG_TO_BOTTOM { song_id: String },
    REORDER_QUEUE { song_id: String, new_index: usize },
    SET_DISPLAY_NAME { name: String },
    PING,
    PLAYLIST_ADD { youtube_url: String, collection_id: String, added_by: Option<String> },
    PLAYLIST_REMOVE { song_id: String, collection_id: String },
    PLAYLIST_TO_QUEUE { song_id: String, collection_id: String },
    CREATE_COLLECTION { name: String, visibility: CollectionVisibility },
    DELETE_COLLECTION { collection_id: String },
    RENAME_COLLECTION { collection_id: String, name: String },
    SET_COLLECTION_VISIBILITY { collection_id: String, visibility: CollectionVisibility },
    /// `data` is the collection document as parsed, or the parse error.
    IMPORT_COLLECTION { data: Result<ExportedCollection, String> },
}

/// Work that a command waits for outside the host's state.
#[derive(Debug)]
pub enum PendingWork {
    /// Check that the video plays in the embedded player, fetch its
    /// details, then `queue_fetched_video`.
    QueueVideo { youtube_id: String, youtube_url: String, added_by: Option<String> },
    /// Fetch the details of the video, then `collect_fetched_video`.
    CollectVideo {
        youtube_id: String,
        youtube_url: String,
        collection_id: String,
        added_by: Option<String>,
    },
    /// Check that the song's video plays in the embedded player, then
    /// `queue_checked_song`.
    QueueCollectionSong { song: Song },
}

/// Where a command stands after the host's part of it.
#[derive(Debug)]
pub enum CommandStep {
    /// The command is done, with its answer.
    Done(Result<(), String>),
    /// The command goes on once the outside work is done.
    Pending(PendingWork),
}

/// The answer `Err(m)`.
pub open spec fn failed(r: CommandStep, m: Seq<char>) -> bool {
    r matches CommandStep::Done(Err(e)) && e@ == m
}

/// The answer `Ok`.
pub open spec fn succeeded(r: CommandStep) -> bool {
    r matches CommandStep::Done(Ok(_))
}

/// The message for a link that names no video.
pub open spec fn invalid_link() -> Seq<char> {
    "Invalid YouTube URL"@
}

/// The message for a collection song that has no video yet.
pub open spec fn unresolved_song() -> Seq<char> {
    "Esta cancion aun no esta resuelta. Usa la busqueda de YouTube primero."@
}

/// `post` is `pre` with the player stopped when it holds one of the videos
/// `ids` (the first that matches), and unchanged otherwise.
pub open spec fn stops_any(pre: RoomModel, post: RoomModel, ids: Seq<String>) -> bool {
    if pre.player.current_song matches Some(s) && exists|i: int|
        0 <= i < ids.len() && #[trigger] ids[i]@ == s.youtube_id@ {
        post == crate::room::stamped(
            RoomModel { player: crate::room::cleared(pre.player), ..pre },
            post.updated_at,
        )
    } else {
        post == pre
    }
}

/// `post` is `pre` with the player stopped when it holds the video `id`,
/// when there is one.
pub open spec fn stops_opt(pre: RoomModel, post: RoomModel, id: Option<String>) -> bool {
    match id {
        Some(y) => exists|b: bool| crate::room::stops_video(pre, post, y@, b),
        None => post == pre,
    }
}

/// A command changes the room only.
pub open spec fn room_only(
    pre_ps: Seq<CollectionModel>,
    post_ps: Seq<CollectionModel>,
    r: CommandStep,
) -> bool {
    post_ps == pre_ps && succeeded(r)
}

/// What a command does to the room and to the store, and its answer.
pub open spec fn command_effect(
    pre: RoomModel,
    post: RoomModel,
    pre_ps: Seq<CollectionModel>,
    post_ps: Seq<CollectionModel>,
    cmd: ClientCommand,
    r: CommandStep,
) -> bool {
    match cmd {
        ClientCommand::PLAY => room_only(pre_ps, post_ps, r) && crate::room::plays(pre, post),
        ClientCommand::PAUSE => room_only(pre_ps, post_ps, r) && crate::room::pauses(pre, post),
        ClientCommand::SKIP { auto_play } => room_only(pre_ps, post_ps, r) && crate::room::skips_song(
            pre,
            post,
            match auto_play {
                Some(b) => b,
                None => pre.player.auto_play_next,
            },
        ),
        ClientCommand::SEEK { time } => room_only(pre_ps, post_ps, r) && crate::room::seeks(pre, post, time),
        ClientCommand::SET_VOLUME { volume } => room_only(pre_ps, post_ps, r) && crate::room::sets_volume(
            pre,
            post,
            volume,
        ),
        ClientCommand::TOGGLE_MUTE => room_only(pre_ps, post_ps, r) && crate::room::toggles_mute(pre, post),
        ClientCommand::ADD_SONG { youtube_url, added_by } => post == pre && post_ps == pre_ps && match youtube_id_in(
            youtube_url@,
        ) {
            None => failed(r, invalid_link()),
            Some(id) => r matches CommandStep::Pending(
                PendingWork::QueueVideo { youtube_id: y, youtube_url: u, added_by: a },
            ) && y@ == id && u == youtube_url && a == added_by,
        },
        ClientCommand::REMOVE_SONG { song_id } => post_ps == pre_ps && exists|b: bool|
            crate::room::removes_song(pre, post, song_id@, b) && if b {
                succeeded(r)
            } else {
                failed(r, "Song not found"@)
            },
        ClientCommand::MOVE_SONG_UP { song_id } => room_only(pre_ps, post_ps, r) && exists|b: bool|
            crate::room::moves_song_up(pre, post, song_id@, b),
        ClientCommand::MOVE_SONG_DOWN { song_id } => room_only(pre_ps, post_ps, r) && exists|b: bool|
            crate::room::moves_song_down(pre, post, song_id@, b),
        ClientCommand::MOVE_SONG_TO_TOP { song_id } => room_only(pre_ps, post_ps, r) && exists|b: bool|
            crate::room::moves_song_to_top(pre, post, song_id@, b),
        ClientCommand::MOVE_SONG_TO_BOTTOM { song_id } => room_only(pre_ps, post_ps, r) && exists|b: bool|
            crate::room::moves_song_to_bottom(pre, post, song_id@, b),
        ClientCommand::REORDER_QUEUE { song_id, new_index } => post_ps == pre_ps && exists|b: bool|
            crate::room::reorders_queue(pre, post, song_id@, new_index, b) && if b {
                succeeded(r)
            } else {
                failed(r, "Failed to reorder queue"@)
            },
        ClientCommand::SET_DISPLAY_NAME { .. } => room_only(pre_ps, post_ps, r) && post == pre,
        ClientCommand::PING => room_only(pre_ps, post_ps, r) && post == pre,
        ClientCommand::PLAYLIST_ADD { youtube_url, collection_id, added_by } => post == pre && post_ps
            == pre_ps && match youtube_id_in(youtube_url@) {
            None => failed(r, invalid_link()),
            Some(id) => r matches CommandStep::Pending(
                PendingWork::CollectVideo {
                    youtube_id: y,
                    youtube_url: u,
                    collection_id: c,
                    added_by: a,
                },
            ) && y@ == id && u == youtube_url && c == collection_id && a == added_by,
        },
        ClientCommand::PLAYLIST_REMOVE { song_id, collection_id } => exists|b: bool|
            crate::store::removes_from_collection(pre_ps, post_ps, collection_id@, song_id@, b) && if b {
                succeeded(r) && exists|mid: RoomModel|
                    stops_opt(pre, mid, crate::store::song_video_id(pre_ps, collection_id@, song_id@))
                        && crate::room::syncs_playlists(mid, post, post_ps)
            } else {
                failed(r, "Song not found in collection"@) && post == pre
            },
        ClientCommand::PLAYLIST_TO_QUEUE { song_id, collection_id } => post == pre && post_ps == pre_ps
            && match r {
            CommandStep::Pending(PendingWork::QueueCollectionSong { song }) => crate::store::is_queue_entry(
                pre_ps,
                collection_id@,
                song_id@,
                Some(song),
            ),
            _ => crate::store::is_queue_entry(pre_ps, collection_id@, song_id@, None) && failed(
                r,
                unresolved_song(),
            ),
        },
        ClientCommand::CREATE_COLLECTION { name, visibility } => succeeded(r) && exists|id: String|
            crate::store::creates_collection(pre_ps, post_ps, name, visibility, id)
                && crate::room::syncs_playlists(pre, post, post_ps),
        ClientCommand::DELETE_COLLECTION { collection_id } => exists|b: bool|
            crate::store::deletes_collection(pre_ps, post_ps, collection_id@, b) && if b {
                succeeded(r) && exists|mid: RoomModel|
                    stops_any(pre, mid, crate::store::video_ids_of(pre_ps, collection_id@))
                        && crate::room::syncs_playlists(mid, post, post_ps)
            } else {
                failed(r, "Collection not found"@) && post == pre
            },
        ClientCommand::RENAME_COLLECTION { collection_id, name } => exists|b: bool|
            crate::store::renames_collection(pre_ps, post_ps, collection_id@, name, b) && if b {
                succeeded(r) && crate::room::syncs_playlists(pre, post, post_ps)
            } else {
                failed(r, "Collection not found"@) && post == pre
            },
        ClientCommand::SET_COLLECTION_VISIBILITY { collection_id, visibility } => exists|b: bool|
            crate::store::sets_visibility(pre_ps, post_ps, collection_id@, visibility, b) && if b {
                succeeded(r) && crate::room::syncs_playlists(pre, post, post_ps)
            } else {
                failed(r, "Collection not found"@) && post == pre
            },
        ClientCommand::IMPORT_COLLECTION { data } => match data {
            Err(e) => failed(r, "Import failed: "@ + e@) && post == pre && post_ps == pre_ps,
            Ok(doc) => exists|ir: Result<String, String>|
                crate::store::imports_collection(pre_ps, post_ps, doc, ir) && match ir {
                    Err(e) => failed(r, "Import failed: "@ + e@) && post == pre,
                    Ok(_) => succeeded(r) && crate::room::syncs_playlists(pre, post, post_ps),
                },
        },
    }
}

fn failure(m: &str) -> (r: CommandStep)
    ensures
        failed(r, m@),
{
    CommandStep::Done(Err(crate::text::owned(m)))
}

fn prefixed(prefix: &str, e: &String) -> (r: String)
    ensures
        r@ == prefix@ + e@,
{
    let mut v = chars_of(prefix);
    crate::text::append_chars(&mut v, &chars_of(e.as_str()));
    string_of(&v)
}

fn stop_any_exec(room: &mut RoomState, ids: &Vec<String>)
    ensures
        stops_any(old(room)@, final(room)@, ids@),
{
    let mut i: usize = 0;
    while i < ids.len()
        invariant
            i <= ids.len(),
            room@ == old(room)@,
            forall|j: int| 0 <= j < i ==> !(old(room).player.current_song matches Some(s) && #[trigger] ids@[j]@ == s.youtube_id@),
        decreases ids.len() - i,
    {
        if room.stop_if_current_youtube_id(ids[i].as_str()) {
            return;
        }
        i = i + 1;
    }
}

/// Handles a command (`process_command`, up to its outside work): the
/// player, queue and collection commands are applied to the room and the
/// store; a command that needs the network is returned as pending.
pub fn process_command(room: &mut RoomState, playlists: &mut PlaylistStore, command: ClientCommand) -> (r:
    CommandStep)
    ensures
        command_effect(old(room)@, final(room)@, old(playlists)@, final(playlists)@, command, r),
{
    match command {
        ClientCommand::PLAY => {
            room.play();
            CommandStep::Done(Ok(()))
        },
        ClientCommand::PAUSE => {
            room.pause();
            CommandStep::Done(Ok(()))
        },
        ClientCommand::SKIP { auto_play } => {
            let should = match auto_play {
                Some(b) => b,
                None => room.player.auto_play_next,
            };
            room.skip_song(should);
            CommandStep::Done(Ok(()))
        },
        ClientCommand::SEEK { time } => {
            room.seek(time);
            CommandStep::Done(Ok(()))
        },
        ClientCommand::SET_VOLUME { volume } => {
            room.set_volume(volume);
            CommandStep::Done(Ok(()))
        },
        ClientCommand::TOGGLE_MUTE => {
            room.toggle_mute();
            CommandStep::Done(Ok(()))
        },
        ClientCommand::ADD_SONG { youtube_url, added_by } => {
            match extract_youtube_id(youtube_url.as_str()) {
                Some(youtube_id) => CommandStep::Pending(
                    PendingWork::QueueVideo { youtube_id, youtube_url, added_by },
                ),
                None => failure("Invalid YouTube URL"),
            }
        },
        ClientCommand::REMOVE_SONG { song_id } => {
            if room.remove_song(song_id.as_str()) {
                CommandStep::Done(Ok(()))
            } else {
                failure("Song not found")
            }
        },
        ClientCommand::MOVE_SONG_UP { song_id } => {
            room.move_song_up(song_id.as_str());
            CommandStep::Done(Ok(()))
        },
        ClientCommand::MOVE_SONG_DOWN { song_id } => {
            room.move_song_down(song_id.as_str());
            CommandStep::Done(Ok(()))
        },
        ClientCommand::MOVE_SONG_TO_TOP { song_id } => {
            room.move_song_to_top(song_id.as_str());
            CommandStep::Done(Ok(()))
        },
        ClientCommand::MOVE_SONG_TO_BOTTOM { song_id } => {
            room.move_song_to_bottom(song_id.as_str());
            CommandStep::Done(Ok(()))
        },
        ClientCommand::REORDER_QUEUE { song_id, new_index } => {
            if room.reorder_queue(song_id.as_str(), new_index) {
                CommandStep::Done(Ok(()))
            } else {
                failure("Failed to reorder queue")
            }
        },
        ClientCommand::SET_DISPLAY_NAME { .. } => CommandStep::Done(Ok(())),
        ClientCommand::PING => CommandStep::Done(Ok(())),
        ClientCommand::PLAYLIST_ADD { youtube_url, collection_id, added_by } => {
            match extract_youtube_id(youtube_url.as_str()) {
                Some(youtube_id) => CommandStep::Pending(
                    PendingWork::CollectVideo { youtube_id, youtube_url, collection_id, added_by },
                ),
                None => failure("Invalid YouTube URL"),
            }
        },
        ClientCommand::PLAYLIST_REMOVE { song_id, collection_id } => {
            let removed = playlists.collection_song_youtube_id(collection_id.as_str(), song_id.as_str());
            if !playlists.remove_from_collection(collection_id.as_str(), song_id.as_str()) {
                return failure("Song not found in collection");
            }
            match &removed {
                Some(youtube_id) => {
                    room.stop_if_current_youtube_id(youtube_id.as_str());
                },
                None => {},
            }
            room.sync_playlists(playlists.get_all());
            CommandStep::Done(Ok(()))
        },
        ClientCommand::PLAYLIST_TO_QUEUE { song_id, collection_id } => {
            match playlists.clone_song_for_queue(collection_id.as_str(), song_id.as_str()) {
                Some(song) => CommandStep::Pending(PendingWork::QueueCollectionSong { song }),
                None => failure("Esta cancion aun no esta resuelta. Usa la busqueda de YouTube primero."),
            }
        },
        ClientCommand::CREATE_COLLECTION { name, visibility } => {
            playlists.create_collection(name, visibility);
            room.sync_playlists(playlists.get_all());
            CommandStep::Done(Ok(()))
        },
        ClientCommand::DELETE_COLLECTION { collection_id } => {
            let removed = playlists.collection_video_ids(collection_id.as_str());
            if !playlists.delete_collection(collection_id.as_str()) {
                return failure("Collection not found");
            }
            stop_any_exec(room, &removed);
            room.sync_playlists(playlists.get_all());
            CommandStep::Done(Ok(()))
        },
        ClientCommand::RENAME_COLLECTION { collection_id, name } => {
            if !playlists.rename_collection(collection_id.as_str(), name) {
                return failure("Collection not found");
            }
            room.sync_playlists(playlists.get_all());
            CommandStep::Done(Ok(()))
        },
        ClientCommand::SET_COLLECTION_VISIBILITY { collection_id, visibility } => {
            if !playlists.set_collection_visibility(collection_id.as_str(), visibility) {
                return failure("Collection not found");
            }
            room.sync_playlists(playlists.get_all());
            CommandStep::Done(Ok(()))
        },
        ClientCommand::IMPORT_COLLECTION { data } => {
            let doc = match data {
                Ok(doc) => doc,
                Err(e) => {
                    return CommandStep::Done(Err(prefixed("Import failed: ", &e)));
                },
            };
            match playlists.import_collection(doc) {
                Ok(_) => {},
                Err(e) => {
                    return CommandStep::Done(Err(prefixed("Import failed: ", &e)));
                },
            }
            room.sync_playlists(playlists.get_all());
            CommandStep::Done(Ok(()))
        },
    }
}

// ------------------------------------------------------------------
// Songs made from YouTube videos
// ------------------------------------------------------------------
/// The details of a YouTube video that a song is made from.
#[derive(Debug)]
pub struct VideoMetadata {
    pub title: String,
    pub artist: String,
    /// Length in seconds.
    pub duration: u32,
    pub thumbnail_url: String,
}

/// `s` is the song made from the video `youtube_id` (linked as
/// `youtube_url`) with the details `m`, added by `added_by`: resolved, a
/// YouTube source, no original details.
pub open spec fn is_video_song(
    s: Song,
    youtube_id: Seq<char>,
    youtube_url: Seq<char>,
    m: VideoMetadata,
    added_by: Seq<char>,
) -> bool {
    &&& s.youtube_id@ == youtube_id
    &&& s.title == m.title
    &&& s.artist == m.artist
    &&& s.duration == m.duration
    &&& s.original_title is None
    &&& s.original_artist is None
    &&& s.original_duration is None
    &&& s.thumbnail_url == m.thumbnail_url
    &&& s.added_by@ == added_by
    &&& s.resolution_status == Some(ResolutionStatus::Resolved)
    &&& s.source matches Some(SongSource::Youtube { video_id: Some(v), url: Some(u) }) && v@
        == youtube_id && u@ == youtube_url
}

/// The adder named by a request, or the default one.
pub open spec fn adder(added_by: Option<String>, default: Seq<char>) -> Seq<char> {
    match added_by {
        Some(a) => a@,
        None => default,
    }
}

fn adder_exec(added_by: Option<String>, default: &str) -> (r: String)
    ensures
        r@ == adder(added_by, default@),
{
    match added_by {
        Some(a) => a,
        None => crate::text::owned(default),
    }
}

fn video_song(youtube_id: &String, youtube_url: String, m: VideoMetadata, added_by: String) -> (r: Song)
    ensures
        is_video_song(r, youtube_id@, youtube_url@, m, added_by@),
{
    Song {
        id: new_uuid_string(),
        youtube_id: youtube_id.clone(),
        title: m.title,
        artist: m.artist,
        duration: m.duration,
        original_title: None,
        original_artist: None,
        original_duration: None,
        thumbnail_url: m.thumbnail_url,
        added_by,
        added_at: now_millis(),
        resolution_status: Some(ResolutionStatus::Resolved),
        source: Some(SongSource::Youtube { video_id: Some(youtube_id.clone()), url: Some(youtube_url) }),
    }
}

/// `post` is the history `pre` with `song` recorded.
pub open spec fn records(pre: HistoryModel, post: HistoryModel, song: Song) -> bool {
    post == (HistoryModel { songs: pre.songs.push(song), ..pre })
}

/// `ADD_SONG` once its video was found playable: `metadata` is what the
/// lookup of the video's details gave. The song is queued and recorded in
/// the session history.
pub fn queue_fetched_video(
    room: &mut RoomState,
    history: &mut SessionHistoryStore,
    youtube_id: String,
    youtube_url: String,
    added_by: Option<String>,
    metadata: Result<VideoMetadata, String>,
) -> (r: Result<(), String>)
    ensures
        match metadata {
            Err(e) => (r matches Err(x) && x@ == "Failed to fetch song metadata: "@ + e@)
                && final(room)@ == old(room)@ && final(history)@ == old(history)@,
            Ok(m) => r is Ok && exists|s: Song|
                is_video_song(s, youtube_id@, youtube_url@, m, adder(added_by, "Guest"@)) && adds_song(
                    old(room)@,
                    final(room)@,
                    s,
                ) && records(old(history)@, final(history)@, s),
        },
{
    proof {
        reveal_strlit("Guest");
    }
    let m = match metadata {
        Ok(m) => m,
        Err(e) => {
            return Err(prefixed("Failed to fetch song metadata: ", &e));
        },
    };
    let song = video_song(&youtube_id, youtube_url, m, adder_exec(added_by, "Guest"));
    let recorded = song.copy();
    let _ = queue_song_if_embeddable(room, song, true);
    history.record_song(&recorded);
    Ok(())
}

/// `PLAYLIST_TO_QUEUE` once the song's video was found playable: the song
/// is queued and recorded in the session history.
pub fn queue_checked_song(room: &mut RoomState, history: &mut SessionHistoryStore, song: Song) -> (r:
    Result<(), String>)
    ensures
        r is Ok,
        adds_song(old(room)@, final(room)@, song),
        records(old(history)@, final(history)@, song),
{
    let recorded = song.copy();
    let _ = queue_song_if_embeddable(room, song, true);
    history.record_song(&recorded);
    Ok(())
}

/// The collection a song is added to: the one named, or the default
/// collection when none is named.
pub open spec fn adds_to_target(
    pre: Seq<CollectionModel>,
    post: Seq<CollectionModel>,
    collection_id: Seq<char>,
    song: Song,
    added: bool,
) -> bool {
    if collection_id.len() == 0 {
        exists|mid: Seq<CollectionModel>, id: String|
            crate::store::gets_default_collection(pre, mid, id) && crate::store::adds_to_collection(
                mid,
                post,
                id@,
                song,
                added,
            )
    } else {
        crate::store::adds_to_collection(pre, post, collection_id, song, added)
    }
}

fn add_to_target(playlists: &mut PlaylistStore, collection_id: String, song: Song) -> (r: bool)
    ensures
        adds_to_target(old(playlists)@, final(playlists)@, collection_id@, song, r),
{
    let target = if collection_id.as_str().is_empty() {
        playlists.get_or_create_default_collection()
    } else {
        collection_id
    };
    playlists.add_to_collection(target.as_str(), song)
}

/// `PLAYLIST_ADD` once the video's details were looked up: the song goes
/// to the named collection (or the default one) and the room is given the
/// new collections.
pub fn collect_fetched_video(
    room: &mut RoomState,
    playlists: &mut PlaylistStore,
    youtube_id: String,
    youtube_url: String,
    collection_id: String,
    added_by: Option<String>,
    metadata: Result<VideoMetadata, String>,
) -> (r: Result<(), String>)
    ensures
        match metadata {
            Err(e) => (r matches Err(x) && x@ == "Failed to fetch song metadata: "@ + e@)
                && final(room)@ == old(room)@ && final(playlists)@ == old(playlists)@,
            Ok(m) => exists|s: Song, added: bool|
                is_video_song(s, youtube_id@, youtube_url@, m, adder(added_by, "Guest"@)) && adds_to_target(
                    old(playlists)@,
                    final(playlists)@,
                    collection_id@,
                    s,
                    added,
                ) && if added {
                    r is Ok && crate::room::syncs_playlists(old(room)@, final(room)@, final(playlists)@)
                } else {
                    (r matches Err(x) && x@ == "Collection not found"@) && final(room)@ == old(room)@
                },
        },
{
    proof {
        reveal_strlit("Guest");
    }
    let m = match metadata {
        Ok(m) => m,
        Err(e) => {
            return Err(prefixed("Failed to fetch song metadata: ", &e));
        },
    };
    let song = video_song(&youtube_id, youtube_url, m, adder_exec(added_by, "Guest"));
    if !add_to_target(playlists, collection_id, song) {
        return Err(crate::text::owned("Collection not found"));
    }
    room.sync_playlists(playlists.get_all());
    Ok(())
}

/// Adds a looked-up video to a collection from the host UI
/// (`playlist_add_song` after the lookup).
pub fn playlist_add_song(
    playlists: &mut PlaylistStore,
    youtube_id: String,
    youtube_url: String,
    collection_id: String,
    added_by: Option<String>,
    metadata: Result<VideoMetadata, String>,
) -> (r: Result<(), String>)
    ensures
        match metadata {
            Err(e) => (r matches Err(x) && x@ == "Failed to fetch metadata: "@ + e@) && final(playlists)@
                == old(playlists)@,
            Ok(m) => exists|s: Song, added: bool|
                is_video_song(s, youtube_id@, youtube_url@, m, adder(added_by, "Host"@)) && adds_to_target(
                    old(playlists)@,
                    final(playlists)@,
                    collection_id@,
                    s,
                    added,
                ) && if added {
                    r is Ok
                } else {
                    r matches Err(x) && x@ == "Collection not found"@
                },
        },
{
    proof {
        reveal_strlit("Host");
    }
    let m = match metadata {
        Ok(m) => m,
        Err(e) => {
            return Err(prefixed("Failed to fetch metadata: ", &e));
        },
    };
    let song = video_song(&youtube_id, youtube_url, m, adder_exec(added_by, "Host"));
    if !add_to_target(playlists, collection_id, song) {
        return Err(crate::text::owned("Collection not found"));
    }
    Ok(())
}

/// `s` is the song made from a search result, added by `added_by`.
pub open spec fn is_search_song(s: Song, result: SearchResult, added_by: Seq<char>) -> bool {
    &&& s.youtube_id == result.id
    &&& s.title == result.title
    &&& s.artist == result.channel
    &&& s.duration == duration_label_seconds(result.duration@)
    &&& s.original_title is None
    &&& s.original_artist is None
    &&& s.original_duration is None
    &&& s.thumbnail_url == result.thumbnail
    &&& s.added_by@ == added_by
    &&& s.resolution_status == Some(ResolutionStatus::Resolved)
    &&& s.source == Some(SongSource::Youtube { video_id: Some(result.id), url: None })
}

/// Queues a search result once its video was found playable in the
/// embedded player, and records it in the session history.
pub fn queue_search_result(
    room: &mut RoomState,
    history: &mut SessionHistoryStore,
    result: SearchResult,
    added_by: Option<String>,
) -> (r: Result<(), String>)
    ensures
        r is Ok,
        exists|s: Song|
            is_search_song(s, result, adder(added_by, "Host"@)) && adds_song(old(room)@, final(room)@, s)
                && records(old(history)@, final(history)@, s),
{
    proof {
        reveal_strlit("Host");
    }
    let duration = parse_duration_label(result.duration.as_str());
    let song = Song {
        id: new_uuid_string(),
        youtube_id: result.id.clone(),
        title: result.title.clone(),
        artist: result.channel.clone(),
        duration,
        original_title: None,
        original_artist: None,
        original_duration: None,
        thumbnail_url: result.thumbnail.clone(),
        added_by: adder_exec(added_by, "Host"),
        added_at: now_millis(),
        resolution_status: Some(ResolutionStatus::Resolved),
        source: Some(SongSource::Youtube { video_id: Some(result.id.clone()), url: None }),
    };
    assert(is_search_song(song, result, adder(added_by, "Host"@)));
    let recorded = song.copy();
    let _ = queue_song_if_embeddable(room, song, true);
    history.record_song(&recorded);
    Ok(())
}

/// The song that resolves a collection song to a search result: the
/// collection song's id, adder and time, its original title, artist and
/// length (or its current ones), and the result's video and thumbnail.
pub open spec fn is_resolved_song(s: Song, existing: Song, song_id: Seq<char>, result: SearchResult) -> bool {
    let title = crate::model::original_or_current(existing.original_title, existing.title);
    let artist = crate::model::original_or_current(existing.original_artist, existing.artist);
    let duration = match existing.original_duration {
        Some(d) => d,
        None => existing.duration,
    };
    &&& s.id@ == song_id
    &&& s.youtube_id == result.id
    &&& s.title@ == title
    &&& s.artist@ == artist
    &&& s.duration == duration
    &&& opt_text(s.original_title) == Some(title)
    &&& opt_text(s.original_artist) == Some(artist)
    &&& s.original_duration == Some(duration)
    &&& s.thumbnail_url == result.thumbnail
    &&& s.added_by == existing.added_by
    &&& s.added_at == existing.added_at
    &&& s.resolution_status == Some(ResolutionStatus::Resolved)
    &&& s.source == Some(SongSource::Youtube { video_id: Some(result.id), url: Some(result.url) })
}

/// An optional text.
pub open spec fn opt_text(o: Option<String>) -> Option<Seq<char>> {
    match o {
        Some(s) => Some(s@),
        None => None,
    }
}

/// Resolves a collection song to a search result once its video was found
/// playable in the embedded player.
pub fn playlist_resolve_song(
    playlists: &mut PlaylistStore,
    room: &mut RoomState,
    collection_id: &str,
    song_id: &str,
    result: SearchResult,
) -> (r: Result<(), String>)
    ensures
        match crate::store::song_in(old(playlists)@, collection_id@, song_id@) {
            None => (r matches Err(x) && x@ == "Song not found in collection"@) && final(playlists)@
                == old(playlists)@ && final(room)@ == old(room)@,
            Some(existing) => exists|s: Song, b: bool|
                is_resolved_song(s, existing, song_id@, result) && crate::store::replaces_song(
                    old(playlists)@,
                    final(playlists)@,
                    collection_id@,
                    song_id@,
                    s,
                    b,
                ) && if b {
                    r is Ok && crate::room::syncs_playlists(old(room)@, final(room)@, final(playlists)@)
                } else {
                    (r matches Err(x) && x@ == "Song not found in collection"@) && final(room)@ == old(
                        room,
                    )@
                },
        },
{
    let existing = match playlists.clone_song_from_collection(collection_id, song_id) {
        Some(s) => s,
        None => {
            return Err(crate::text::owned("Song not found in collection"));
        },
    };
    let title = existing.original_title_or_current();
    let artist = existing.original_artist_or_current();
    let duration = existing.original_duration_or_current();
    let song = Song {
        id: crate::text::owned(song_id),
        youtube_id: result.id.clone(),
        title: title.clone(),
        artist: artist.clone(),
        duration,
        original_title: Some(title),
        original_artist: Some(artist),
        original_duration: Some(duration),
        thumbnail_url: result.thumbnail.clone(),
        added_by: existing.added_by.clone(),
        added_at: existing.added_at,
        resolution_status: Some(ResolutionStatus::Resolved),
        source: Some(SongSource::Youtube { video_id: Some(result.id.clone()), url: Some(result.url.clone()) }),
    };
    if !playlists.replace_song_in_collection(collection_id, song_id, song) {
        return Err(crate::text::owned("Song not found in collection"));
    }
    room.sync_playlists(playlists.get_all());
    Ok(())
}

// ------------------------------------------------------------------
// Collections from the host UI
// ------------------------------------------------------------------
/// The visibility a visibility name gives: `personal`, and anything else
/// is public.
pub open spec fn visibility_named(name: Option<Seq<char>>) -> CollectionVisibility {
    if name == Some("personal"@) {
        CollectionVisibility::Personal
    } else {
        CollectionVisibility::Public
    }
}

fn visibility_from(name: Option<&str>) -> (r: CollectionVisibility)
    ensures
        r == visibility_named(match name {
            Some(n) => Some(n@),
            None => None,
        }),
{
    proof {
        reveal_strlit("personal");
    }
    match name {
        Some(n) => if crate::text::same_text(n, "personal") {
            CollectionVisibility::Personal
        } else {
            CollectionVisibility::Public
        },
        None => CollectionVisibility::Public,
    }
}

/// Creates a collection from the host UI (`playlist_create_collection`).
pub fn playlist_create_collection(playlists: &mut PlaylistStore, name: String, visibility: Option<String>) -> (r:
    String)
    ensures
        crate::store::creates_collection(
            old(playlists)@,
            final(playlists)@,
            name,
            visibility_named(opt_text(visibility)),
            r,
        ),
{
    let vis = match &visibility {
        Some(v) => visibility_from(Some(v.as_str())),
        None => visibility_from(None),
    };
    playlists.create_collection(name, vis)
}

/// Deletes a collection from the host UI (`playlist_delete_collection`):
/// the player stops when it plays one of the collection's videos, and the
/// room gets the new collections.
pub fn playlist_delete_collection(playlists: &mut PlaylistStore, room: &mut RoomState, collection_id: &str) -> (r:
    Result<(), String>)
    ensures
        exists|b: bool|
            crate::store::deletes_collection(old(playlists)@, final(playlists)@, collection_id@, b)
                && if b {
                r is Ok && exists|mid: RoomModel|
                    stops_any(old(room)@, mid, crate::store::video_ids_of(old(playlists)@, collection_id@))
                        && crate::room::syncs_playlists(mid, final(room)@, final(playlists)@)
            } else {
                (r matches Err(x) && x@ == "Collection not found"@) && final(room)@ == old(room)@
            },
{
    let removed = playlists.collection_video_ids(collection_id);
    if playlists.delete_collection(collection_id) {
        stop_any_exec(room, &removed);
        room.sync_playlists(playlists.get_all());
        Ok(())
    } else {
        Err(crate::text::owned("Collection not found"))
    }
}

/// Renames a collection from the host UI (`playlist_rename_collection`).
pub fn playlist_rename_collection(playlists: &mut PlaylistStore, collection_id: &str, name: String) -> (r:
    Result<(), String>)
    ensures
        exists|b: bool|
            crate::store::renames_collection(old(playlists)@, final(playlists)@, collection_id@, name, b)
                && if b {
                r is Ok
            } else {
                r matches Err(x) && x@ == "Collection not found"@
            },
{
    if playlists.rename_collection(collection_id, name) {
        Ok(())
    } else {
        Err(crate::text::owned("Collection not found"))
    }
}

/// Sets a collection's visibility from the host UI
/// (`playlist_set_visibility`): `personal`, or public for any other name.
pub fn playlist_set_visibility(playlists: &mut PlaylistStore, collection_id: &str, visibility: &str) -> (r:
    Result<(), String>)
    ensures
        exists|b: bool|
            crate::store::sets_visibility(
                old(playlists)@,
                final(playlists)@,
                collection_id@,
                visibility_named(Some(visibility@)),
                b,
            ) && if b {
                r is Ok
            } else {
                r matches Err(x) && x@ == "Collection not found"@
            },
{
    let vis = visibility_from(Some(visibility));
    if playlists.set_collection_visibility(collection_id, vis) {
        Ok(())
    } else {
        Err(crate::text::owned("Collection not found"))
    }
}

/// Removes a song from a collection from the host UI
/// (`playlist_remove_song`): the player stops when it plays that song's
/// video, and the room gets the new collections.
pub fn playlist_remove_song(
    playlists: &mut PlaylistStore,
    room: &mut RoomState,
    collection_id: &str,
    song_id: &str,
) -> (r: Result<(), String>)
    ensures
        exists|b: bool|
            crate::store::removes_from_collection(old(playlists)@, final(playlists)@, collection_id@, song_id@, b)
                && if b {
                r is Ok && exists|mid: RoomModel|
                    stops_opt(old(room)@, mid, crate::store::song_video_id(old(playlists)@, collection_id@, song_id@))
                        && crate::room::syncs_playlists(mid, final(room)@, final(playlists)@)
            } else {
                (r matches Err(x) && x@ == "Song not found in collection"@) && final(room)@ == old(room)@
            },
{
    let removed = playlists.collection_song_youtube_id(collection_id, song_id);
    if playlists.remove_from_collection(collection_id, song_id) {
        match &removed {
            Some(youtube_id) => {
                room.stop_if_current_youtube_id(youtube_id.as_str());
            },
            None => {},
        }
        room.sync_playlists(playlists.get_all());
        Ok(())
    } else {
        Err(crate::text::owned("Song not found in collection"))
    }
}

/// Moves songs between collections from the host UI
/// (`playlist_move_songs`).
pub fn playlist_move_songs(
    playlists: &mut PlaylistStore,
    room: &mut RoomState,
    source_collection_id: &str,
    target_collection_id: &str,
    song_ids: &Vec<String>,
) -> (r: Result<(), String>)
    ensures
        exists|b: bool|
            crate::store::moves_songs(
                old(playlists)@,
                final(playlists)@,
                source_collection_id@,
                target_collection_id@,
                song_ids@,
                b,
            ) && if b {
                r is Ok && crate::room::syncs_playlists(old(room)@, final(room)@, final(playlists)@)
            } else {
                (r matches Err(x) && x@ == "No songs were moved"@) && final(room)@ == old(room)@
            },
{
    if !playlists.move_songs_to_collection(source_collection_id, target_collection_id, song_ids.as_slice()) {
        return Err(crate::text::owned("No songs were moved"));
    }
    room.sync_playlists(playlists.get_all());
    Ok(())
}

/// Queues every resolved song of a collection (`playlist_queue_collection`)
/// and records them in the session history; returns how many.
pub fn playlist_queue_collection(
    playlists: &PlaylistStore,
    room: &mut RoomState,
    history: &mut SessionHistoryStore,
    collection_id: &str,
    added_by: Option<String>,
) -> (r: Result<usize, String>)
    ensures
        crate::store::first_index_of(playlists@, collection_id@) is None ==> (r matches Err(x) && x@
            == "Collection not found"@) && final(room)@ == old(room)@ && final(history)@ == old(
            history,
        )@,
        crate::store::first_index_of(playlists@, collection_id@) is Some ==> exists|songs: Vec<Song>|
            crate::store::is_queue_batch(
                playlists@,
                collection_id@,
                adder(added_by, "Host"@),
                Some(songs),
            ) && if songs@.len() == 0 {
                (r matches Err(x) && x@ == "No hay canciones resueltas para encolar."@) && final(room)@
                    == old(room)@ && final(history)@ == old(history)@
            } else {
                (r matches Ok(n) && n == songs@.len()) && adds_songs(old(room)@, final(room)@, songs@)
                    && final(history)@ == (HistoryModel {
                    songs: old(history)@.songs + songs@,
                    ..old(history)@
                })
            },
{
    proof {
        reveal_strlit("Host");
    }
    let by = adder_exec(added_by, "Host");
    let songs = match playlists.clone_collection_for_queue(collection_id, by.as_str()) {
        Some(v) => v,
        None => {
            return Err(crate::text::owned("Collection not found"));
        },
    };
    if songs.len() == 0 {
        return Err(crate::text::owned("No hay canciones resueltas para encolar."));
    }
    let ghost room0 = room@;
    let ghost hist0 = history@;
    let mut i: usize = 0;
    while i < songs.len()
        invariant
            i <= songs.len(),
            adds_songs(room0, room@, songs@.take(i as int)),
            history@ == (HistoryModel { songs: hist0.songs + songs@.take(i as int), ..hist0 }),
        decreases songs.len() - i,
    {
        let ghost mid = room@;
        let s = songs[i].copy();
        room.add_song(s);
        let s2 = songs[i].copy();
        history.record_song(&s2);
        proof {
            assert(songs@.take(i + 1).drop_last() =~= songs@.take(i as int));
            assert(songs@.take(i + 1).last() == songs@[i as int]);
            assert(hist0.songs + songs@.take(i + 1) =~= (hist0.songs + songs@.take(i as int)).push(songs@[i as int]));
        }
        i = i + 1;
    }
    assert(songs@.take(i as int) =~= songs@);
    Ok(songs.len())
}

/// `post` is `pre` after each of `songs` is added in turn.
pub open spec fn adds_songs(pre: RoomModel, post: RoomModel, songs: Seq<Song>) -> bool
    decreases songs.len(),
{
    if songs.len() == 0 {
        post == pre
    } else {
        exists|mid: RoomModel| adds_songs(pre, mid, songs.drop_last()) && adds_song(mid, post, songs.last())
    }
}

// ------------------------------------------------------------------
// Player reports and imports
// ------------------------------------------------------------------
/// The player status a status name gives, if it names one.
pub open spec fn status_named(name: Seq<char>) -> Option<PlayerStatus> {
    if name == "playing"@ {
        Some(PlayerStatus::Playing)
    } else if name == "paused"@ {
        Some(PlayerStatus::Paused)
    } else if name == "loading"@ {
        Some(PlayerStatus::Loading)
    } else if name == "error"@ {
        Some(PlayerStatus::Error)
    } else if name == "idle"@ {
        Some(PlayerStatus::Idle)
    } else {
        None
    }
}

/// Reads a player status name.
pub fn player_status_from(name: &str) -> (r: Option<PlayerStatus>)
    ensures
        r == status_named(name@),
{
    proof {
        reveal_strlit("playing");
        reveal_strlit("paused");
        reveal_strlit("loading");
        reveal_strlit("error");
        reveal_strlit("idle");
    }
    if crate::text::same_text(name, "playing") {
        Some(PlayerStatus::Playing)
    } else if crate::text::same_text(name, "paused") {
        Some(PlayerStatus::Paused)
    } else if crate::text::same_text(name, "loading") {
        Some(PlayerStatus::Loading)
    } else if crate::text::same_text(name, "error") {
        Some(PlayerStatus::Error)
    } else if crate::text::same_text(name, "idle") {
        Some(PlayerStatus::Idle)
    } else {
        None
    }
}

/// Applies a report of the host's player (`update_player_state`); the
/// times are `f64` bit patterns.
pub fn update_player_state(
    room: &mut RoomState,
    status: Option<String>,
    current_time: Option<u64>,
    duration: Option<u64>,
) -> (r: Option<PlayerStatus>)
    ensures
        r == (match status {
            Some(s) => status_named(s@),
            None => None,
        }),
        crate::room::updates_player(old(room)@, final(room)@, r, current_time, duration),
{
    let st = match &status {
        Some(s) => player_status_from(s.as_str()),
        None => None,
    };
    room.update_player(st, current_time, duration);
    st
}

/// Confirms an import (`confirm_playlist_import`): an import from a
/// Spotify playlist that is already in the store updates that collection
/// when `update_existing` (and is refused otherwise); any other import
/// becomes a new collection. The room gets the new collections.
pub fn confirm_playlist_import(
    playlists: &mut PlaylistStore,
    room: &mut RoomState,
    playlist: ImportedPlaylist,
    update_existing: bool,
) -> (r: Result<String, String>)
    ensures
        exists|c: PlaylistCollection, existing: Option<String>, ir: Result<String, String>|
            crate::importer::collection_of_import(playlist, existing, c) && crate::store::upserts_collection(
                old(playlists)@,
                final(playlists)@,
                c@,
                update_existing,
                ir,
            ) && r == ir && if ir is Ok {
                crate::room::syncs_playlists(old(room)@, final(room)@, final(playlists)@)
            } else {
                final(room)@ == old(room)@
            },
{
    let existing = match crate::importer::spotify_playlist_id_from_import(&playlist) {
        Some(pid) => playlists.find_collection_by_spotify_playlist_id(pid),
        None => None,
    };
    let collection = crate::importer::imported_playlist_to_collection(playlist, existing);
    let ghost c = collection;
    let id = playlists.upsert_imported_collection(collection, update_existing);
    match &id {
        Ok(_) => {
            room.sync_playlists(playlists.get_all());
        },
        Err(_) => {},
    }
    id
}

/// Previews a karaoke playlist file (`preview_karaoke_json_playlist_import`).
pub fn preview_karaoke_json_playlist_import(data: &str) -> (r: Result<ImportPreview, String>)
    ensures
        match crate::karaoke::karaoke_import(crate::json::json_parse(data@)) {
            Err(m) => r matches Err(e) && e@ == m,
            Ok(expected) => r matches Ok(p) && crate::karaoke::is_karaoke_playlist(p.playlist, expected)
                && p.existing_collection_id is None && p.valid_track_count
                == crate::importer::complete_count(expected.2) && p.valid_track_count
                + p.incomplete_track_count == expected.2.len(),
        },
{
    let playlist = crate::karaoke::parse_karaoke_json(data)?;
    Ok(crate::importer::preview_from_imported(playlist, None))
}

/// Previews a karaoke playlist file that was read into its fields
/// (`preview_karaoke_json_playlist_import` after the read; `None` when the
/// text did not read as such a file).
pub fn preview_karaoke_file_import(file: Option<crate::karaoke::KaraokeFile>) -> (r: Result<
    ImportPreview,
    String,
>)
    ensures
        match crate::karaoke::karaoke_import_file(crate::karaoke::opt_file_view(file)) {
            Err(m) => r matches Err(e) && e@ == m,
            Ok(expected) => r matches Ok(p) && crate::karaoke::is_karaoke_playlist(p.playlist, expected)
                && p.existing_collection_id is None && p.valid_track_count
                == crate::importer::complete_count(expected.2) && p.valid_track_count
                + p.incomplete_track_count == expected.2.len(),
        },
{
    let playlist = crate::karaoke::karaoke_playlist_from_file(file)?;
    Ok(crate::importer::preview_from_imported(playlist, None))
}

/// Previews pasted text (`preview_text_playlist_import`).
pub fn preview_text_playlist_import(data: &str) -> (r: Result<ImportPreview, String>)
    ensures
        crate::importer::any_playlist_link(data@) ==> (r matches Err(e) && e@
            == crate::importer::youtube_playlist_message()),
        !crate::importer::any_playlist_link(data@) && crate::importer::text_import(
            crate::text::lines(data@),
        ).tracks.len() == 0 ==> (r matches Err(e) && e@ == crate::importer::no_tracks_message()),
        !crate::importer::any_playlist_link(data@) && crate::importer::text_import(
            crate::text::lines(data@),
        ).tracks.len() > 0 ==> (r matches Ok(p) && crate::importer::track_models(p.playlist.tracks@)
            == crate::importer::text_import(crate::text::lines(data@)).tracks
            && p.existing_collection_id is None && p.valid_track_count
            == crate::importer::complete_count(crate::importer::track_models(p.playlist.tracks@))
            && p.valid_track_count + p.incomplete_track_count == p.playlist.tracks@.len()),
{
    let playlist = crate::importer::parse_text_playlist(data)?;
    Ok(crate::importer::preview_from_imported(playlist, None))
}

/// Previews a Spotify playlist once its embed page was fetched
/// (`preview_spotify_playlist_import` after the fetch): the page is read
/// and the collection it would update is looked up.
pub fn preview_spotify_playlist_import(
    playlists: &PlaylistStore,
    playlist_id: String,
    embed_url: String,
    html: String,
) -> (r: Result<ImportPreview, String>)
    ensures
        match crate::spotify::spotify_import(html@, crate::spotify::parsed_blocks(html@), playlist_id@) {
            Err(m) => r matches Err(e) && e@ == m,
            Ok(expected) => r matches Ok(p) && crate::spotify::is_spotify_playlist(
                p.playlist,
                expected,
                playlist_id@,
                embed_url@,
            ) && match p.existing_collection_id {
                Some(id) => exists|i: int|
                    crate::store::first_with_spotify_playlist(playlists@, playlist_id@, i)
                        && playlists@[i].id == id,
                None => forall|i: int|
                    0 <= i < playlists@.len() ==> crate::store::spotify_playlist_of(playlists@[i])
                        != Some(playlist_id@),
            } && p.valid_track_count == crate::importer::complete_count(expected.2)
                && p.valid_track_count + p.incomplete_track_count == expected.2.len(),
        },
{
    let importer = crate::spotify::SpotifyPlaylistImporter::new(html, playlist_id, embed_url);
    let playlist = crate::spotify::SpotifyEmbedParser::new(
        importer.playlist_id.as_str(),
        importer.original_url.as_str(),
    ).parse(importer.html.as_str())?;
    let existing = playlists.find_collection_by_spotify_playlist_id(importer.playlist_id.as_str());
    Ok(crate::importer::preview_from_imported(playlist, existing))
}

// ------------------------------------------------------------------
// Laws
// ------------------------------------------------------------------
proof fn lemma_digits_have_no_colon(s: Seq<char>)
    requires
        crate::text::all_digits(s),
    ensures
        forall|i: int| 0 <= i < s.len() ==> s[i] != ':',
{
    assert forall|i: int| 0 <= i < s.len() implies s[i] != ':' by {
        assert(crate::text::is_ascii_digit(s[i]));
    }
}

proof fn lemma_number_part(s: Seq<char>, n: nat)
    requires
        crate::text::all_digits(s),
        s.len() > 0,
        crate::text::digits_value(s) == n,
        n <= u32::MAX,
    ensures
        parse_u32_spec(trim_ws(s)) == Some(n as u32),
{
    crate::text::lemma_trim_digits(s);
    crate::text::lemma_parse_digits(s);
}

/// A duration that a search result shows (`format_duration_ms`) is read
/// back, when the result is queued (`parse_duration_label`), as the whole
/// seconds it stands for.
pub proof fn law_duration_label_round_trip(ms: u64)
    requires
        ms / 1000 <= u32::MAX,
    ensures
        duration_label_seconds(crate::youtube::duration_label(ms as nat)) == ms / 1000,
{
    let total: nat = (ms / 1000) as nat;
    let h: nat = total / 3600;
    let m: nat = (total % 3600) / 60;
    let sec: nat = total % 60;
    assert(m < 60);
    assert(sec < 60);
    assert(total == h * 3600 + m * 60 + sec);
    crate::text::lemma_dec_digits(h);
    crate::text::lemma_dec_digits(m);
    crate::text::lemma_dec2_digits(m);
    crate::text::lemma_dec2_digits(sec);
    let a = if h > 0 { dec(h) } else { dec(m) };
    let b = if h > 0 { crate::text::dec2(m) } else { crate::text::dec2(sec) };
    lemma_digits_have_no_colon(a);
    lemma_digits_have_no_colon(b);
    lemma_digits_have_no_colon(crate::text::dec2(sec));
    let e = Seq::<char>::empty();
    assert(split_char(e, ':') =~= seq![e]);
    crate::text::lemma_split_append(e, a, ':');
    assert(e + a =~= a);
    assert(split_char(a, ':') =~= seq![a]);
    crate::text::lemma_split_sep(a, ':');
    crate::text::lemma_split_append(a.push(':'), b, ':');
    let ab = a.push(':') + b;
    assert(split_char(ab, ':') =~= seq![a, b]);
    let p2 = seq![a, b];
    assert(p2.drop_last() =~= seq![a]);
    assert(seq![a].drop_last() =~= Seq::<Seq<char>>::empty());
    assert(seq![a].last() == a);
    assert(p2.last() == b);
    assert(label_seconds(Seq::<Seq<char>>::empty()) == Some(0u32));
    assert(sat_mul60(0) == 0);
    if h > 0 {
        lemma_number_part(a, h);
        lemma_number_part(b, m);
        lemma_number_part(crate::text::dec2(sec), sec);
        assert(h <= total);
        assert(label_seconds(seq![a]) == Some(h as u32));
        assert(h * 60 + m <= u32::MAX);
        assert(label_seconds(p2) == Some((h * 60 + m) as u32));
        let c = crate::text::dec2(sec);
        crate::text::lemma_split_sep(ab, ':');
        crate::text::lemma_split_append(ab.push(':'), c, ':');
        let p3 = seq![a, b, c];
        assert(split_char(ab.push(':') + c, ':') =~= p3);
        assert(p3.drop_last() =~= p2);
        assert(crate::youtube::duration_label(ms as nat) =~= ab.push(':') + c);
        assert((h * 60 + m) * 60 + sec == total);
        assert(label_seconds(p3) == Some(total as u32));
    } else {
        lemma_number_part(a, m);
        lemma_number_part(b, sec);
        assert(label_seconds(seq![a]) == Some(m as u32));
        assert(crate::youtube::duration_label(ms as nat) =~= ab);
        assert(m * 60 + sec == total);
        assert(label_seconds(p2) == Some(total as u32));
    }
}

// ------------------------------------------------------------------
// What the names in requests mean
// ------------------------------------------------------------------
/// The name a player status has in reports from the host's player.
pub open spec fn status_name(s: PlayerStatus) -> Seq<char> {
    match s {
        PlayerStatus::Idle => "idle"@,
        PlayerStatus::Playing => "playing"@,
        PlayerStatus::Paused => "paused"@,
        PlayerStatus::Loading => "loading"@,
        PlayerStatus::Error => "error"@,
    }
}

/// Every status name reads as the status of that name, and a report of a
/// status while a song is loaded leaves the player in that status (a
/// "paused" report pauses it).
pub proof fn law_reported_status_is_kept(
    s: PlayerStatus,
    pre: RoomModel,
    post: RoomModel,
    current_time: Option<u64>,
    duration: Option<u64>,
)
    ensures
        status_named(status_name(s)) == Some(s),
        crate::room::updates_player(pre, post, status_named(status_name(s)), current_time, duration)
            && pre.player.current_song is Some ==> post.player.status == s,
{
    reveal_strlit("idle");
    reveal_strlit("playing");
    reveal_strlit("paused");
    reveal_strlit("loading");
    reveal_strlit("error");
    assert("paused"@.len() != "playing"@.len());
    assert("loading"@[0] != "playing"@[0]);
    assert("loading"@.len() != "paused"@.len());
    assert("error"@.len() != "playing"@.len() && "error"@.len() != "paused"@.len() && "error"@.len()
        != "loading"@.len());
    assert("idle"@.len() != "playing"@.len() && "idle"@.len() != "paused"@.len() && "idle"@.len()
        != "loading"@.len() && "idle"@.len() != "error"@.len());
}

/// The name a collection visibility has in requests.
pub open spec fn visibility_name(v: CollectionVisibility) -> Seq<char> {
    match v {
        CollectionVisibility::Public => "public"@,
        CollectionVisibility::Personal => "personal"@,
    }
}

/// Every visibility name reads as the visibility of that name. A
/// collection set, or created, "personal" is personal and is left out of
/// the collections shown to guests.
pub proof fn law_personal_collections_are_hidden(
    v: CollectionVisibility,
    pre: Seq<CollectionModel>,
    post: Seq<CollectionModel>,
    collection_id: Seq<char>,
    name: String,
    r: String,
)
    ensures
        visibility_named(Some(visibility_name(v))) == v,
        crate::store::sets_visibility(pre, post, collection_id, visibility_named(Some("personal"@)), true)
            ==> ({
            let k = crate::store::first_index_of(pre, collection_id)->0;
            &&& post[k].visibility == CollectionVisibility::Personal
            &&& !crate::room::public_only(post).contains(post[k])
        }),
        crate::store::creates_collection(pre, post, name, visibility_named(Some("personal"@)), r) ==> ({
            &&& post.last().visibility == CollectionVisibility::Personal
            &&& !crate::room::public_only(post).contains(post.last())
        }),
{
    reveal_strlit("public");
    reveal_strlit("personal");
    assert("public"@.len() != "personal"@.len());
    let pred = |c: CollectionModel| c.visibility == CollectionVisibility::Public;
    post.filter_lemma(pred);
    if crate::store::sets_visibility(pre, post, collection_id, visibility_named(Some("personal"@)), true) {
        let k = crate::store::first_index_of(pre, collection_id)->0;
        assert(crate::store::first_coll_with_id(pre, collection_id, k));
        assert(post[k].visibility == CollectionVisibility::Personal);
        if crate::room::public_only(post).contains(post[k]) {
            let i = choose|i: int| 0 <= i < crate::room::public_only(post).len()
                && crate::room::public_only(post)[i] == post[k];
            assert(pred(crate::room::public_only(post)[i]));
        }
    }
    if crate::store::creates_collection(pre, post, name, visibility_named(Some("personal"@)), r) {
        assert(post.last().visibility == CollectionVisibility::Personal);
        if crate::room::public_only(post).contains(post.last()) {
            let i = choose|i: int| 0 <= i < crate::room::public_only(post).len()
                && crate::room::public_only(post)[i] == post.last();
            assert(pred(crate::room::public_only(post)[i]));
        }
    }
}

/// A song queued or collected for a request that names who adds it is
/// credited to that name; only a request without a name gets the default.
pub proof fn law_named_adder_is_kept(
    s: Song,
    a: String,
    default: Seq<char>,
    youtube_id: Seq<char>,
    youtube_url: Seq<char>,
    m: VideoMetadata,
    result: SearchResult,
    ps: Seq<CollectionModel>,
    collection_id: Seq<char>,
    batch: Option<Vec<Song>>,
)
    ensures
        is_video_song(s, youtube_id, youtube_url, m, adder(Some(a), default)) ==> s.added_by@ == a@,
        is_video_song(s, youtube_id, youtube_url, m, adder(None, default)) ==> s.added_by@ == default,
        is_search_song(s, result, adder(Some(a), default)) ==> s.added_by@ == a@,
        is_search_song(s, result, adder(None, default)) ==> s.added_by@ == default,
        crate::store::is_queue_batch(ps, collection_id, adder(Some(a), default), batch) && batch
            is Some ==> forall|i: int|
            0 <= i < batch->0@.len() ==> (#[trigger] batch->0@[i]).added_by@ == a@,
{
    if crate::store::is_queue_batch(ps, collection_id, adder(Some(a), default), batch) && batch is Some {
        let v = batch->0;
        match crate::store::first_index_of(ps, collection_id) {
            Some(k) => {
                assert forall|i: int| 0 <= i < v@.len() implies (#[trigger] v@[i]).added_by@ == a@ by {
                    let rs = ps[k].songs.filter(|s: Song| crate::store::is_resolved(s));
                    assert(v@[i] == crate::store::queue_copy(rs[i], v@[i].id, v@[i].added_by, v@[0].added_at)
                        && v@[i].added_by@ == adder(Some(a), default));
                }
            },
            None => {},
        }
    }
}

} // verus!
