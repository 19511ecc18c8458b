//! The room: the player, the queue and the collections shown to guests.
use vstd::prelude::*;
use crate::external::now_millis;
use crate::model::{
    collection_models, copy_collections, CollectionModel, CollectionVisibility, ConnectedClient,
    PlayerState, PlayerStatus, PlaylistCollection, Song,
};
use crate::text::same_text;

verus! {

/// The state of a hosted room, broadcast to the host UI and to guests.
#[derive(Clone, Debug)]
pub struct RoomState {
    pub room_id: String,
    pub host_peer_id: String,
    pub connected_clients: Vec<ConnectedClient>,
    pub player: PlayerState,
    pub queue: Vec<Song>,
    pub playlists: Vec<PlaylistCollection>,
    pub created_at: i64,
    pub updated_at: i64,
}

/// A room as a mathematical value.
pub ghost struct RoomModel {
    pub room_id: String,
    pub host_peer_id: String,
    pub connected_clients: Seq<ConnectedClient>,
    pub player: PlayerState,
    pub queue: Seq<Song>,
    pub playlists: Seq<CollectionModel>,
    pub created_at: i64,
    pub updated_at: i64,
}

impl View for RoomState {
    type V = RoomModel;

    open spec fn view(&self) -> RoomModel {
        RoomModel {
            room_id: self.room_id,
            host_peer_id: self.host_peer_id,
            connected_clients: self.connected_clients@,
            player: self.player,
            queue: self.queue@,
            playlists: collection_models(self.playlists@),
            created_at: self.created_at,
            updated_at: self.updated_at,
        }
    }
}

/// The player with no song, idle, at position and length zero.
pub open spec fn cleared(p: PlayerState) -> PlayerState {
    PlayerState { status: PlayerStatus::Idle, current_song: None, current_time: 0, duration: 0, ..p }
}

/// The player holding `song`, with position and length reset.
pub open spec fn loaded(p: PlayerState, song: Song, status: PlayerStatus) -> PlayerState {
    PlayerState { status, current_song: Some(song), current_time: 0, duration: 0, ..p }
}

/// The player's song has the id `id`.
pub open spec fn current_has_id(p: PlayerState, id: Seq<char>) -> bool {
    p.current_song matches Some(s) && s.id@ == id
}

/// `i` is the first position of the queue whose song has the id `id`.
pub open spec fn first_with_id(q: Seq<Song>, id: Seq<char>, i: int) -> bool {
    0 <= i < q.len() && q[i].id@ == id && forall|j: int| 0 <= j < i ==> q[j].id@ != id
}

/// No song of the queue has the id `id`.
pub open spec fn no_song_with_id(q: Seq<Song>, id: Seq<char>) -> bool {
    forall|j: int| 0 <= j < q.len() ==> q[j].id@ != id
}

/// The player's state is consistent: without a song it is idle.
pub open spec fn idle_when_empty(p: PlayerState) -> bool {
    p.current_song is None ==> p.status == PlayerStatus::Idle
}

/// The model `m` with the timestamp `t`.
pub open spec fn stamped(m: RoomModel, t: i64) -> RoomModel {
    RoomModel { updated_at: t, ..m }
}

/// The first position in `q` of a song with the id `id`.
pub fn position_by_id(q: &Vec<Song>, id: &str) -> (r: Option<usize>)
    ensures
        match r {
            Some(i) => first_with_id(q@, id@, i as int),
            None => no_song_with_id(q@, id@),
        },
{
    let mut i: usize = 0;
    while i < q.len()
        invariant
            i <= q.len(),
            forall|j: int| 0 <= j < i ==> q@[j].id@ != id@,
        decreases q.len() - i,
    {
        if same_text(q[i].id.as_str(), id) {
            return Some(i);
        }
        i = i + 1;
    }
    None
}

/// `q` with its element at `from` moved to position `to`.
pub open spec fn moved(q: Seq<Song>, from: int, to: int) -> Seq<Song> {
    q.remove(from).insert(to, q[from])
}

/// The public collections of `ps`, in order.
pub open spec fn public_only(ps: Seq<CollectionModel>) -> Seq<CollectionModel> {
    ps.filter(|c: CollectionModel| c.visibility == CollectionVisibility::Public)
}

/// The room after its collections are replaced by `ps`.
pub open spec fn syncs_playlists(pre: RoomModel, post: RoomModel, ps: Seq<CollectionModel>) -> bool {
    &&& post == stamped(
            RoomModel { playlists: ps, ..pre },
            post.updated_at,
        )
}

/// The room after `song` is added.
pub open spec fn adds_song(pre: RoomModel, post: RoomModel, song: Song) -> bool {
    &&& post == stamped(
            if pre.player.current_song is None {
                RoomModel {
                    player: loaded(pre.player, song, PlayerStatus::Loading),
                    ..pre
                }
            } else {
                RoomModel { queue: pre.queue.push(song), ..pre }
            },
            post.updated_at,
        )
}

/// The room after the song `song_id` is removed, `r` telling whether one was.
pub open spec fn removes_song(pre: RoomModel, post: RoomModel, song_id: Seq<char>, r: bool) -> bool {
    &&& current_has_id(pre.player, song_id) ==> r && post == stamped(
            RoomModel { player: cleared(pre.player), ..pre },
            post.updated_at,
        )
    &&& !current_has_id(pre.player, song_id) ==> (r <==> !no_song_with_id(
            pre.queue,
            song_id,
        ))
    &&& !current_has_id(pre.player, song_id) && r ==> exists|i: int|
            first_with_id(pre.queue, song_id, i) && post == stamped(
                RoomModel { queue: pre.queue.remove(i), ..pre },
                post.updated_at,
            )
    &&& !r ==> post == pre
}

/// The room after the song `song_id` is moved to `new_index`, `r` telling whether it was.
pub open spec fn reorders_queue(pre: RoomModel, post: RoomModel, song_id: Seq<char>, new_index: usize, r: bool) -> bool {
    &&& r <==> (!no_song_with_id(pre.queue, song_id) && new_index
            < pre.queue.len())
    &&& r ==> exists|i: int|
            first_with_id(pre.queue, song_id, i) && post == stamped(
                RoomModel { queue: moved(pre.queue, i, new_index as int), ..pre },
                post.updated_at,
            )
    &&& !r ==> post == pre
}

/// The room after the song `song_id` moves up one place, `r` telling whether it did.
pub open spec fn moves_song_up(pre: RoomModel, post: RoomModel, song_id: Seq<char>, r: bool) -> bool {
    &&& r <==> exists|i: int| first_with_id(pre.queue, song_id, i) && i > 0
    &&& r ==> exists|i: int|
            first_with_id(pre.queue, song_id, i) && post == stamped(
                RoomModel { queue: moved(pre.queue, i, i - 1), ..pre },
                post.updated_at,
            )
    &&& !r ==> post == pre
}

/// The room after the song `song_id` moves down one place, `r` telling whether it did.
pub open spec fn moves_song_down(pre: RoomModel, post: RoomModel, song_id: Seq<char>, r: bool) -> bool {
    &&& r <==> exists|i: int|
            first_with_id(pre.queue, song_id, i) && i + 1 < pre.queue.len()
    &&& r ==> exists|i: int|
            first_with_id(pre.queue, song_id, i) && post == stamped(
                RoomModel { queue: moved(pre.queue, i, i + 1), ..pre },
                post.updated_at,
            )
    &&& !r ==> post == pre
}

/// The room after the song `song_id` moves to the front, `r` telling whether it did.
pub open spec fn moves_song_to_top(pre: RoomModel, post: RoomModel, song_id: Seq<char>, r: bool) -> bool {
    &&& r <==> exists|i: int| first_with_id(pre.queue, song_id, i) && i > 0
    &&& r ==> exists|i: int|
            first_with_id(pre.queue, song_id, i) && post == stamped(
                RoomModel { queue: moved(pre.queue, i, 0), ..pre },
                post.updated_at,
            )
    &&& !r ==> post == pre
}

/// The room after the song `song_id` moves to the end, `r` telling whether it did.
pub open spec fn moves_song_to_bottom(pre: RoomModel, post: RoomModel, song_id: Seq<char>, r: bool) -> bool {
    &&& r <==> exists|i: int|
            first_with_id(pre.queue, song_id, i) && i + 1 < pre.queue.len()
    &&& r ==> exists|i: int|
            first_with_id(pre.queue, song_id, i) && post == stamped(
                RoomModel {
                    queue: moved(pre.queue, i, pre.queue.len() - 1),
                    ..pre
                },
                post.updated_at,
            )
    &&& !r ==> post == pre
}

/// The room after the volume is set to `volume` (capped at 100).
pub open spec fn sets_volume(pre: RoomModel, post: RoomModel, volume: u8) -> bool {
    &&& post == stamped(
            RoomModel {
                player: PlayerState {
                    volume: if volume < 100 {
                        volume
                    } else {
                        100
                    },
                    ..pre.player
                },
                ..pre
            },
            post.updated_at,
        )
}

/// The room after the mute flag is flipped.
pub open spec fn toggles_mute(pre: RoomModel, post: RoomModel) -> bool {
    &&& post == stamped(
            RoomModel {
                player: PlayerState { is_muted: !pre.player.is_muted, ..pre.player },
                ..pre
            },
            post.updated_at,
        )
}

/// The room after a skip.
pub open spec fn skips_song(pre: RoomModel, post: RoomModel, auto_play: bool) -> bool {
    &&& post == stamped(
            if pre.queue.len() > 0 {
                RoomModel {
                    player: loaded(
                        pre.player,
                        pre.queue[0],
                        if auto_play {
                            PlayerStatus::Loading
                        } else {
                            PlayerStatus::Paused
                        },
                    ),
                    queue: pre.queue.drop_first(),
                    ..pre
                }
            } else {
                RoomModel { player: cleared(pre.player), ..pre }
            },
            post.updated_at,
        )
}

/// The room after a play.
pub open spec fn plays(pre: RoomModel, post: RoomModel) -> bool {
    &&& pre.player.current_song is Some ==> post == stamped(
            RoomModel {
                player: PlayerState { status: PlayerStatus::Playing, ..pre.player },
                ..pre
            },
            post.updated_at,
        )
    &&& pre.player.current_song is None && pre.queue.len() > 0 ==> post
            == stamped(
            RoomModel {
                player: loaded(pre.player, pre.queue[0], PlayerStatus::Loading),
                queue: pre.queue.drop_first(),
                ..pre
            },
            post.updated_at,
        )
    &&& pre.player.current_song is None && pre.queue.len() == 0 ==> post
            == pre
}

/// The room after the player is stopped if it holds the video `youtube_id`, `r` telling whether it was.
pub open spec fn stops_video(pre: RoomModel, post: RoomModel, youtube_id: Seq<char>, r: bool) -> bool {
    &&& r == (pre.player.current_song matches Some(s) && s.youtube_id@ == youtube_id)
    &&& r ==> post == stamped(
            RoomModel { player: cleared(pre.player), ..pre },
            post.updated_at,
        )
    &&& !r ==> post == pre
}

/// The room after a pause.
pub open spec fn pauses(pre: RoomModel, post: RoomModel) -> bool {
    &&& post == stamped(
            RoomModel {
                player: if pre.player.current_song is Some {
                    PlayerState { status: PlayerStatus::Paused, ..pre.player }
                } else {
                    cleared(pre.player)
                },
                ..pre
            },
            post.updated_at,
        )
}

/// The room after the position is set to `time`.
pub open spec fn seeks(pre: RoomModel, post: RoomModel, time: u64) -> bool {
    &&& post == stamped(
            RoomModel {
                player: PlayerState { current_time: time, ..pre.player },
                ..pre
            },
            post.updated_at,
        )
}

/// The room after a player report: each given field is set, then a player
/// without a song is forced back to idle at zero.
pub open spec fn updates_player(
    pre: RoomModel,
    post: RoomModel,
    status: Option<PlayerStatus>,
    current_time: Option<u64>,
    duration: Option<u64>,
) -> bool {
    let p = PlayerState {
        status: match status {
            Some(s) => s,
            None => pre.player.status,
        },
        current_time: match current_time {
            Some(t) => t,
            None => pre.player.current_time,
        },
        duration: match duration {
            Some(d) => d,
            None => pre.player.duration,
        },
        ..pre.player
    };
    post == stamped(
        RoomModel {
            player: if p.current_song is None {
                cleared(p)
            } else {
                p
            },
            ..pre
        },
        post.updated_at,
    )
}

impl RoomState {
    fn touch(&mut self)
        ensures
            final(self)@ == stamped(old(self)@, final(self).updated_at),
    {
        self.updated_at = now_millis();
    }

    fn normalize_empty_player(&mut self)
        ensures
            final(self)@ == (if old(self).player.current_song is None {
                RoomModel { player: cleared(old(self).player), ..old(self)@ }
            } else {
                old(self)@
            }),
    {
        if self.player.current_song.is_none() {
            self.player.status = PlayerStatus::Idle;
            self.player.current_time = 0;
            self.player.duration = 0;
        }
    }

    /// A new room with an idle player, volume 80, auto-play on, an empty
    /// queue and the given collections.
    pub fn new(room_id: String, host_peer_id: String, playlists: Vec<PlaylistCollection>) -> (r:
        RoomState)
        ensures
            r.room_id == room_id,
            r.host_peer_id == host_peer_id,
            r.connected_clients@.len() == 0,
            r.player == (PlayerState {
                status: PlayerStatus::Idle,
                current_song: None,
                current_time: 0,
                duration: 0,
                volume: 80,
                is_muted: false,
                auto_play_next: true,
            }),
            r.queue@.len() == 0,
            r@.playlists == collection_models(playlists@),
            r.created_at == r.updated_at,
            idle_when_empty(r.player),
    {
        let now = now_millis();
        RoomState {
            room_id,
            host_peer_id,
            connected_clients: Vec::new(),
            player: PlayerState {
                status: PlayerStatus::Idle,
                current_song: None,
                current_time: 0,
                duration: 0,
                volume: 80,
                is_muted: false,
                auto_play_next: true,
            },
            queue: Vec::new(),
            playlists,
            created_at: now,
            updated_at: now,
        }
    }

    /// Replaces the collections with a fresh snapshot of the store.
    pub fn sync_playlists(&mut self, playlists: Vec<PlaylistCollection>)
        ensures
            syncs_playlists(old(self)@, final(self)@, collection_models(playlists@)),
            idle_when_empty(old(self).player) ==> idle_when_empty(final(self).player),
    {
        self.playlists = playlists;
        self.touch();
    }

    /// Starts a fresh host session: new ids, no guests, cleared player and
    /// queue, the given collections; volume, mute and auto-play are kept.
    pub fn reset_for_new_session(
        &mut self,
        room_id: String,
        host_peer_id: String,
        playlists: Vec<PlaylistCollection>,
    )
        ensures
            final(self)@ == stamped(
                RoomModel {
                    room_id,
                    host_peer_id,
                    connected_clients: seq![],
                    player: cleared(old(self).player),
                    queue: seq![],
                    playlists: collection_models(playlists@),
                    ..old(self)@
                },
                final(self).updated_at,
            ),
            idle_when_empty(old(self).player) ==> idle_when_empty(final(self).player),
            idle_when_empty(final(self).player),
    {
        self.room_id = room_id;
        self.host_peer_id = host_peer_id;
        self.connected_clients.clear();
        self.player.current_song = None;
        self.player.status = PlayerStatus::Idle;
        self.player.current_time = 0;
        self.player.duration = 0;
        self.queue.clear();
        self.playlists = playlists;
        self.touch();
    }

    /// Ends the host session: no guests, cleared player and queue; the
    /// collections are kept.
    pub fn shutdown_host_session(&mut self)
        ensures
            final(self)@ == stamped(
                RoomModel {
                    connected_clients: seq![],
                    player: cleared(old(self).player),
                    queue: seq![],
                    ..old(self)@
                },
                final(self).updated_at,
            ),
            idle_when_empty(old(self).player) ==> idle_when_empty(final(self).player),
            idle_when_empty(final(self).player),
    {
        self.connected_clients.clear();
        self.player.current_song = None;
        self.player.status = PlayerStatus::Idle;
        self.player.current_time = 0;
        self.player.duration = 0;
        self.queue.clear();
        self.touch();
    }

    /// Adds a song: it becomes the current song (loading) when the player
    /// has none, else it joins the end of the queue.
    pub fn add_song(&mut self, song: Song)
        ensures
            adds_song(old(self)@, final(self)@, song),
            idle_when_empty(old(self).player) ==> idle_when_empty(final(self).player),
    {
        if self.player.current_song.is_none() {
            self.player.current_song = Some(song);
            self.player.status = PlayerStatus::Loading;
            self.player.current_time = 0;
            self.player.duration = 0;
        } else {
            self.queue.push(song);
        }
        self.touch();
    }

    /// Removes a song by id: the current song is stopped (the queue does not
    /// advance); otherwise the first queued song with that id is dropped.
    /// Returns whether a song was removed.
    pub fn remove_song(&mut self, song_id: &str) -> (r: bool)
        ensures
            removes_song(old(self)@, final(self)@, song_id@, r),
            idle_when_empty(old(self).player) ==> idle_when_empty(final(self).player),
    {
        let is_current = match &self.player.current_song {
            Some(song) => same_text(song.id.as_str(), song_id),
            None => false,
        };
        if is_current {
            self.player.current_song = None;
            self.player.current_time = 0;
            self.player.duration = 0;
            self.player.status = PlayerStatus::Idle;
            self.touch();
            return true;
        }
        match position_by_id(&self.queue, song_id) {
            Some(pos) => {
                self.queue.remove(pos);
                assert(first_with_id(old(self)@.queue, song_id@, pos as int));
                self.touch();
                true
            },
            None => false,
        }
    }

    /// Moves the first queued song with `song_id` to `new_index`, when the
    /// song is queued and `new_index` is a position of the queue.
    pub fn reorder_queue(&mut self, song_id: &str, new_index: usize) -> (r: bool)
        ensures
            reorders_queue(old(self)@, final(self)@, song_id@, new_index, r),
            idle_when_empty(old(self).player) ==> idle_when_empty(final(self).player),
    {
        match position_by_id(&self.queue, song_id) {
            Some(pos) => {
                if new_index < self.queue.len() {
                    let song = self.queue.remove(pos);
                    self.queue.insert(new_index, song);
                    assert(self@.queue =~= moved(old(self)@.queue, pos as int, new_index as int));
                    assert(first_with_id(old(self)@.queue, song_id@, pos as int));
                    self.touch();
                    return true;
                }
                false
            },
            None => false,
        }
    }

    /// Swaps the first queued song with `song_id` with the one before it.
    pub fn move_song_up(&mut self, song_id: &str) -> (r: bool)
        ensures
            moves_song_up(old(self)@, final(self)@, song_id@, r),
            idle_when_empty(old(self).player) ==> idle_when_empty(final(self).player),
    {
        match position_by_id(&self.queue, song_id) {
            Some(pos) => {
                if pos > 0 {
                    let song = self.queue.remove(pos);
                    self.queue.insert(pos - 1, song);
                    assert(self@.queue =~= moved(old(self)@.queue, pos as int, pos - 1));
                    assert(first_with_id(old(self)@.queue, song_id@, pos as int));
                    self.touch();
                    return true;
                }
                proof {
                    assert forall|i: int| first_with_id(old(self)@.queue, song_id@, i) implies i
                        == 0 by {
                        crate::room::lemma_first_unique(old(self)@.queue, song_id@, i, pos as int);
                    }
                }
                false
            },
            None => false,
        }
    }

    /// Swaps the first queued song with `song_id` with the one after it.
    pub fn move_song_down(&mut self, song_id: &str) -> (r: bool)
        ensures
            moves_song_down(old(self)@, final(self)@, song_id@, r),
            idle_when_empty(old(self).player) ==> idle_when_empty(final(self).player),
    {
        match position_by_id(&self.queue, song_id) {
            Some(pos) => {
                if pos < self.queue.len() - 1 {
                    let song = self.queue.remove(pos);
                    self.queue.insert(pos + 1, song);
                    assert(self@.queue =~= moved(old(self)@.queue, pos as int, pos + 1));
                    assert(first_with_id(old(self)@.queue, song_id@, pos as int));
                    self.touch();
                    return true;
                }
                proof {
                    assert forall|i: int| first_with_id(old(self)@.queue, song_id@, i) implies i + 1
                        >= old(self)@.queue.len() by {
                        crate::room::lemma_first_unique(old(self)@.queue, song_id@, i, pos as int);
                    }
                }
                false
            },
            None => false,
        }
    }

    /// Moves the first queued song with `song_id` to the front of the queue.
    pub fn move_song_to_top(&mut self, song_id: &str) -> (r: bool)
        ensures
            moves_song_to_top(old(self)@, final(self)@, song_id@, r),
            idle_when_empty(old(self).player) ==> idle_when_empty(final(self).player),
    {
        match position_by_id(&self.queue, song_id) {
            Some(pos) => {
                if pos > 0 {
                    let song = self.queue.remove(pos);
                    self.queue.insert(0, song);
                    assert(self@.queue =~= moved(old(self)@.queue, pos as int, 0));
                    assert(first_with_id(old(self)@.queue, song_id@, pos as int));
                    self.touch();
                    return true;
                }
                proof {
                    assert forall|i: int| first_with_id(old(self)@.queue, song_id@, i) implies i
                        == 0 by {
                        crate::room::lemma_first_unique(old(self)@.queue, song_id@, i, pos as int);
                    }
                }
                false
            },
            None => false,
        }
    }

    /// Moves the first queued song with `song_id` to the end of the queue.
    pub fn move_song_to_bottom(&mut self, song_id: &str) -> (r: bool)
        ensures
            moves_song_to_bottom(old(self)@, final(self)@, song_id@, r),
            idle_when_empty(old(self).player) ==> idle_when_empty(final(self).player),
    {
        match position_by_id(&self.queue, song_id) {
            Some(pos) => {
                if pos < self.queue.len() - 1 {
                    let song = self.queue.remove(pos);
                    self.queue.push(song);
                    proof {
                        assert(self@.queue =~= moved(
                            old(self)@.queue,
                            pos as int,
                            old(self)@.queue.len() - 1,
                        ));
                        assert(first_with_id(old(self)@.queue, song_id@, pos as int));
                    }
                    self.touch();
                    return true;
                }
                proof {
                    assert forall|i: int| first_with_id(old(self)@.queue, song_id@, i) implies i + 1
                        >= old(self)@.queue.len() by {
                        crate::room::lemma_first_unique(old(self)@.queue, song_id@, i, pos as int);
                    }
                }
                false
            },
            None => false,
        }
    }

    /// Applies a player report: each given field is set, then a player
    /// without a song is forced back to idle at zero.
    pub fn update_player(
        &mut self,
        status: Option<PlayerStatus>,
        current_time: Option<u64>,
        duration: Option<u64>,
    )
        ensures
            updates_player(old(self)@, final(self)@, status, current_time, duration),
            idle_when_empty(old(self).player) ==> idle_when_empty(final(self).player),
            idle_when_empty(final(self).player),
    {
        if let Some(s) = status {
            self.player.status = s;
        }
        if let Some(t) = current_time {
            self.player.current_time = t;
        }
        if let Some(d) = duration {
            self.player.duration = d;
        }
        self.normalize_empty_player();
        self.touch();
    }

    /// Sets the volume, capped at 100.
    pub fn set_volume(&mut self, volume: u8)
        ensures
            sets_volume(old(self)@, final(self)@, volume),
            idle_when_empty(old(self).player) ==> idle_when_empty(final(self).player),
    {
        self.player.volume = if volume < 100 {
            volume
        } else {
            100
        };
        self.touch();
    }

    /// Flips the mute flag.
    pub fn toggle_mute(&mut self)
        ensures
            toggles_mute(old(self)@, final(self)@),
            idle_when_empty(old(self).player) ==> idle_when_empty(final(self).player),
    {
        self.player.is_muted = !self.player.is_muted;
        self.touch();
    }

    /// Skips to the next song: the head of the queue becomes the current
    /// song, loading when `auto_play` and paused otherwise; with an empty
    /// queue the player is cleared.
    pub fn skip_song(&mut self, auto_play: bool)
        ensures
            skips_song(old(self)@, final(self)@, auto_play),
            idle_when_empty(old(self).player) ==> idle_when_empty(final(self).player),
            idle_when_empty(final(self).player),
    {
        if self.queue.len() > 0 {
            let next_song = self.queue.remove(0);
            self.player.current_song = Some(next_song);
            self.player.current_time = 0;
            self.player.duration = 0;
            self.player.status = if auto_play {
                PlayerStatus::Loading
            } else {
                PlayerStatus::Paused
            };
            proof {
                assert(self@.queue =~= old(self)@.queue.drop_first());
            }
        } else {
            self.player.current_song = None;
            self.player.current_time = 0;
            self.player.duration = 0;
            self.player.status = PlayerStatus::Idle;
        }
        self.touch();
    }

    /// Plays: a current song starts playing; without one, the head of the
    /// queue is loaded; with neither nothing changes.
    pub fn play(&mut self)
        ensures
            plays(old(self)@, final(self)@),
            idle_when_empty(old(self).player) ==> idle_when_empty(final(self).player),
    {
        if self.player.current_song.is_some() {
            self.player.status = PlayerStatus::Playing;
            self.touch();
        } else if self.queue.len() > 0 {
            let next_song = self.queue.remove(0);
            self.player.current_song = Some(next_song);
            self.player.current_time = 0;
            self.player.duration = 0;
            self.player.status = PlayerStatus::Loading;
            proof {
                assert(self@.queue =~= old(self)@.queue.drop_first());
            }
            self.touch();
        }
    }

    /// Sets whether the next song starts by itself.
    pub fn set_auto_play_next(&mut self, auto_play_next: bool)
        ensures
            final(self)@ == stamped(
                RoomModel {
                    player: PlayerState { auto_play_next, ..old(self).player },
                    ..old(self)@
                },
                final(self).updated_at,
            ),
            idle_when_empty(old(self).player) ==> idle_when_empty(final(self).player),
    {
        self.player.auto_play_next = auto_play_next;
        self.touch();
    }

    /// Stops the player when its song is the YouTube video `youtube_id`.
    pub fn stop_if_current_youtube_id(&mut self, youtube_id: &str) -> (r: bool)
        ensures
            stops_video(old(self)@, final(self)@, youtube_id@, r),
            idle_when_empty(old(self).player) ==> idle_when_empty(final(self).player),
    {
        let hit = match &self.player.current_song {
            Some(song) => same_text(song.youtube_id.as_str(), youtube_id),
            None => false,
        };
        if hit {
            self.player.current_song = None;
            self.player.current_time = 0;
            self.player.duration = 0;
            self.player.status = PlayerStatus::Idle;
            self.touch();
            true
        } else {
            false
        }
    }

    /// Pauses: with a song the player pauses, without one it is cleared.
    pub fn pause(&mut self)
        ensures
            pauses(old(self)@, final(self)@),
            idle_when_empty(old(self).player) ==> idle_when_empty(final(self).player),
            idle_when_empty(final(self).player),
    {
        if self.player.current_song.is_some() {
            self.player.status = PlayerStatus::Paused;
        } else {
            self.player.status = PlayerStatus::Idle;
            self.player.current_time = 0;
            self.player.duration = 0;
        }
        self.touch();
    }

    /// Sets the playback position (an `f64` bit pattern).
    pub fn seek(&mut self, time: u64)
        ensures
            seeks(old(self)@, final(self)@, time),
            idle_when_empty(old(self).player) ==> idle_when_empty(final(self).player),
    {
        self.player.current_time = time;
        self.touch();
    }

    /// Records a connected guest.
    pub fn add_client(&mut self, client: ConnectedClient)
        ensures
            final(self)@ == stamped(
                RoomModel {
                    connected_clients: old(self)@.connected_clients.push(client),
                    ..old(self)@
                },
                final(self).updated_at,
            ),
            idle_when_empty(old(self).player) ==> idle_when_empty(final(self).player),
    {
        self.connected_clients.push(client);
        self.touch();
    }

    /// Forgets every connected guest with the id `client_id`.
    pub fn remove_client(&mut self, client_id: &str)
        ensures
            final(self)@ == stamped(
                RoomModel {
                    connected_clients: old(self)@.connected_clients.filter(
                        |c: ConnectedClient| c.id@ != client_id@,
                    ),
                    ..old(self)@
                },
                final(self).updated_at,
            ),
            idle_when_empty(old(self).player) ==> idle_when_empty(final(self).player),
    {
        let mut kept: Vec<ConnectedClient> = Vec::new();
        let mut i: usize = 0;
        let ghost cs = self@.connected_clients;
        while i < self.connected_clients.len()
            invariant
                i <= self.connected_clients.len(),
                self@.connected_clients == cs,
                kept@ == cs.take(i as int).filter(|c: ConnectedClient| c.id@ != client_id@),
            decreases self.connected_clients.len() - i,
        {
            let c = self.connected_clients[i].copy();
            proof {
                assert(cs.take(i + 1).drop_last() =~= cs.take(i as int));
                cs.take(i as int).lemma_filter_push(c, |c: ConnectedClient| c.id@ != client_id@);
                assert(cs.take(i + 1) =~= cs.take(i as int).push(c));
            }
            if !same_text(c.id.as_str(), client_id) {
                kept.push(c);
            }
            i = i + 1;
        }
        assert(cs.take(cs.len() as int) =~= cs);
        self.connected_clients = kept;
        self.touch();
    }

    /// A copy of the room that keeps only the public collections, the view
    /// that is broadcast to guests.
    pub fn public_state(&self) -> (r: RoomState)
        ensures
            r@ == (RoomModel { playlists: public_only(self@.playlists), ..self@ }),
    {
        let mut clients: Vec<ConnectedClient> = Vec::new();
        let mut i: usize = 0;
        while i < self.connected_clients.len()
            invariant
                i <= self.connected_clients.len(),
                clients@ == self@.connected_clients.take(i as int),
            decreases self.connected_clients.len() - i,
        {
            clients.push(self.connected_clients[i].copy());
            i = i + 1;
            assert(clients@ =~= self@.connected_clients.take(i as int));
        }
        assert(self@.connected_clients.take(i as int) =~= self@.connected_clients);
        let mut playlists: Vec<PlaylistCollection> = Vec::new();
        let mut k: usize = 0;
        let ghost ps = self@.playlists;
        while k < self.playlists.len()
            invariant
                k <= self.playlists.len(),
                ps == collection_models(self.playlists@),
                collection_models(playlists@) == public_only(ps.take(k as int)),
            decreases self.playlists.len() - k,
        {
            let c = self.playlists[k].copy();
            proof {
                assert(ps[k as int] == c@);
                assert(ps.take(k + 1) =~= ps.take(k as int).push(c@));
                ps.take(k as int).lemma_filter_push(
                    c@,
                    |c: CollectionModel| c.visibility == CollectionVisibility::Public,
                );
            }
            if c.visibility == CollectionVisibility::Public {
                let ghost before = playlists@;
                playlists.push(c);
                proof {
                    assert(collection_models(playlists@) =~= collection_models(before).push(c@));
                }
            }
            k = k + 1;
        }
        assert(ps.take(ps.len() as int) =~= ps);
        RoomState {
            room_id: self.room_id.clone(),
            host_peer_id: self.host_peer_id.clone(),
            connected_clients: clients,
            player: self.player.copy(),
            queue: crate::model::copy_songs(&self.queue),
            playlists,
            created_at: self.created_at,
            updated_at: self.updated_at,
        }
    }

    /// A full copy of the room.
    pub fn copy(&self) -> (r: RoomState)
        ensures
            r@ == self@,
    {
        let mut clients: Vec<ConnectedClient> = Vec::new();
        let mut i: usize = 0;
        while i < self.connected_clients.len()
            invariant
                i <= self.connected_clients.len(),
                clients@ == self@.connected_clients.take(i as int),
            decreases self.connected_clients.len() - i,
        {
            clients.push(self.connected_clients[i].copy());
            i = i + 1;
            assert(clients@ =~= self@.connected_clients.take(i as int));
        }
        assert(self@.connected_clients.take(i as int) =~= self@.connected_clients);
        RoomState {
            room_id: self.room_id.clone(),
            host_peer_id: self.host_peer_id.clone(),
            connected_clients: clients,
            player: self.player.copy(),
            queue: crate::model::copy_songs(&self.queue),
            playlists: copy_collections(&self.playlists),
            created_at: self.created_at,
            updated_at: self.updated_at,
        }
    }
}

/// Moving a queued song to another position of the queue neither adds nor
/// drops a song: the queue holds the same songs, as many times each.
pub proof fn law_move_keeps_queue_songs(q: Seq<Song>, from: int, to: int)
    requires
        0 <= from < q.len(),
        0 <= to < q.len(),
    ensures
        moved(q, from, to).to_multiset() == q.to_multiset(),
        moved(q, from, to).len() == q.len(),
        moved(q, from, to)[to] == q[from],
{
    broadcast use vstd::seq_lib::to_multiset_remove, vstd::seq_lib::to_multiset_insert;
    broadcast use vstd::multiset::group_multiset_axioms;

    let r = q.remove(from);
    assert(r.to_multiset() == q.to_multiset().remove(q[from]));
    assert(r.insert(to, q[from]).to_multiset() == r.to_multiset().insert(q[from]));
    q.to_multiset_ensures();
    assert(q.contains(q[from]));
    assert(q.to_multiset().count(q[from]) > 0);
    assert(q.to_multiset().remove(q[from]).insert(q[from]) =~= q.to_multiset());
    r.insert_ensures(to, q[from]);
}

/// The collections broadcast to guests are exactly the public ones: every
/// collection of the public view is public, and every public collection is
/// in it, in the same order.
pub proof fn law_public_view_is_exactly_public(ps: Seq<CollectionModel>)
    ensures
        forall|i: int|
            0 <= i < public_only(ps).len() ==> #[trigger] public_only(ps)[i].visibility
                == CollectionVisibility::Public,
        forall|c: CollectionModel|
            ps.contains(c) && c.visibility == CollectionVisibility::Public ==> #[trigger] public_only(
                ps,
            ).contains(c),
        forall|c: CollectionModel| #[trigger] public_only(ps).contains(c) ==> ps.contains(c),
{
    broadcast use vstd::seq_lib::group_filter_ensures;

    let p = |c: CollectionModel| c.visibility == CollectionVisibility::Public;
    assert forall|i: int| 0 <= i < public_only(ps).len() implies #[trigger] public_only(ps)[i].visibility
        == CollectionVisibility::Public by {
        ps.lemma_filter_pred(p, i);
    }
    assert forall|c: CollectionModel|
        ps.contains(c) && c.visibility == CollectionVisibility::Public implies #[trigger] public_only(
        ps,
    ).contains(c) by {
        let i = choose|i: int| 0 <= i < ps.len() && ps[i] == c;
        ps.lemma_filter_contains(p, i);
    }
    assert forall|c: CollectionModel| #[trigger] public_only(ps).contains(c) implies ps.contains(
        c,
    ) by {
        ps.lemma_filter_contains_rev(p, c);
    }
}

/// There is at most one first position of a song id.
pub proof fn lemma_first_unique(q: Seq<Song>, id: Seq<char>, i: int, j: int)
    requires
        first_with_id(q, id, i),
        first_with_id(q, id, j),
    ensures
        i == j,
{
}

} // verus!
