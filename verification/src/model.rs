//! The data the host keeps: songs, playlist collections and the player.
use vstd::prelude::*;

verus! {

/// Whether a song has been matched to a playable YouTube video.
#[derive(Clone, Copy, Debug, PartialEq, Eq, Structural)]
pub enum ResolutionStatus {
    Resolved,
    Unresolved,
}

/// Where a song came from.
#[derive(Clone, Debug, PartialEq)]
pub enum SongSource {
    Local,
    Spotify { playlist_id: Option<String>, track_id: Option<String>, url: Option<String> },
    Youtube { video_id: Option<String>, url: Option<String> },
}

/// Where a playlist collection came from.
#[derive(Clone, Debug, PartialEq)]
pub enum PlaylistSource {
    Local,
    Spotify { playlist_id: String, original_url: String, imported_at: i64 },
}

/// Who may see a collection: public collections are shared with guests.
#[derive(Clone, Copy, Debug, PartialEq, Eq, Structural)]
pub enum CollectionVisibility {
    Public,
    Personal,
}

/// A song in the queue or in a collection.
#[derive(Clone, Debug)]
pub struct Song {
    pub id: String,
    pub youtube_id: String,
    pub title: String,
    pub artist: String,
    /// Length in seconds.
    pub duration: u32,
    pub original_title: Option<String>,
    pub original_artist: Option<String>,
    pub original_duration: Option<u32>,
    pub thumbnail_url: String,
    pub added_by: String,
    pub added_at: i64,
    pub resolution_status: Option<ResolutionStatus>,
    pub source: Option<SongSource>,
}

/// A named collection of songs (a playlist).
#[derive(Clone, Debug)]
pub struct PlaylistCollection {
    pub id: String,
    pub name: String,
    pub visibility: CollectionVisibility,
    pub songs: Vec<Song>,
    pub description: Option<String>,
    pub source: Option<PlaylistSource>,
    pub created_at: i64,
    pub updated_at: i64,
}

/// What the player is doing.
#[derive(Clone, Copy, Debug, PartialEq, Eq, Structural)]
pub enum PlayerStatus {
    Idle,
    Playing,
    Paused,
    Loading,
    Error,
}

/// The player.
///
/// `current_time` and `duration` hold the IEEE-754 bit patterns of the
/// playback position and length in seconds (`f64::to_bits`); the library
/// only stores and resets them, and the bit pattern `0` is `0.0`.
#[derive(Clone, Debug)]
pub struct PlayerState {
    pub status: PlayerStatus,
    pub current_song: Option<Song>,
    pub current_time: u64,
    pub duration: u64,
    pub volume: u8,
    pub is_muted: bool,
    pub auto_play_next: bool,
}

/// A guest connected to the room.
#[derive(Clone, Debug)]
pub struct ConnectedClient {
    pub id: String,
    pub display_name: String,
    pub connected_at: i64,
}

pub fn copy_opt_string(s: &Option<String>) -> (r: Option<String>)
    ensures
        r == *s,
{
    match s {
        Some(x) => Some(x.clone()),
        None => None,
    }
}

impl SongSource {
    pub fn copy(&self) -> (r: SongSource)
        ensures
            r == *self,
    {
        match self {
            SongSource::Local => SongSource::Local,
            SongSource::Spotify { playlist_id, track_id, url } => SongSource::Spotify {
                playlist_id: copy_opt_string(playlist_id),
                track_id: copy_opt_string(track_id),
                url: copy_opt_string(url),
            },
            SongSource::Youtube { video_id, url } => SongSource::Youtube {
                video_id: copy_opt_string(video_id),
                url: copy_opt_string(url),
            },
        }
    }
}

impl PlaylistSource {
    pub fn copy(&self) -> (r: PlaylistSource)
        ensures
            r == *self,
    {
        match self {
            PlaylistSource::Local => PlaylistSource::Local,
            PlaylistSource::Spotify { playlist_id, original_url, imported_at } => {
                PlaylistSource::Spotify {
                    playlist_id: playlist_id.clone(),
                    original_url: original_url.clone(),
                    imported_at: *imported_at,
                }
            },
        }
    }
}

pub fn copy_opt_song_source(s: &Option<SongSource>) -> (r: Option<SongSource>)
    ensures
        r == *s,
{
    match s {
        Some(x) => Some(x.copy()),
        None => None,
    }
}

pub fn copy_opt_playlist_source(s: &Option<PlaylistSource>) -> (r: Option<PlaylistSource>)
    ensures
        r == *s,
{
    match s {
        Some(x) => Some(x.copy()),
        None => None,
    }
}

impl Song {
    /// A copy of the song.
    pub fn copy(&self) -> (r: Song)
        ensures
            r == *self,
    {
        Song {
            id: self.id.clone(),
            youtube_id: self.youtube_id.clone(),
            title: self.title.clone(),
            artist: self.artist.clone(),
            duration: self.duration,
            original_title: copy_opt_string(&self.original_title),
            original_artist: copy_opt_string(&self.original_artist),
            original_duration: self.original_duration,
            thumbnail_url: self.thumbnail_url.clone(),
            added_by: self.added_by.clone(),
            added_at: self.added_at,
            resolution_status: self.resolution_status,
            source: copy_opt_song_source(&self.source),
        }
    }
}

/// A copy of a list of songs.
pub fn copy_songs(v: &Vec<Song>) -> (r: Vec<Song>)
    ensures
        r@ == v@,
{
    let mut out: Vec<Song> = Vec::new();
    let mut i: usize = 0;
    while i < v.len()
        invariant
            i <= v.len(),
            out@ == v@.take(i as int),
        decreases v.len() - i,
    {
        out.push(v[i].copy());
        i = i + 1;
        assert(out@ =~= v@.take(i as int));
    }
    assert(v@.take(v.len() as int) =~= v@);
    out
}

/// A playlist collection as a mathematical value: its songs as a sequence.
pub ghost struct CollectionModel {
    pub id: String,
    pub name: String,
    pub visibility: CollectionVisibility,
    pub songs: Seq<Song>,
    pub description: Option<String>,
    pub source: Option<PlaylistSource>,
    pub created_at: i64,
    pub updated_at: i64,
}

impl View for PlaylistCollection {
    type V = CollectionModel;

    open spec fn view(&self) -> CollectionModel {
        CollectionModel {
            id: self.id,
            name: self.name,
            visibility: self.visibility,
            songs: self.songs@,
            description: self.description,
            source: self.source,
            created_at: self.created_at,
            updated_at: self.updated_at,
        }
    }
}

/// The models of a list of collections.
pub open spec fn collection_models(v: Seq<PlaylistCollection>) -> Seq<CollectionModel> {
    v.map_values(|c: PlaylistCollection| c@)
}

/// Appends copies of the songs of `b` to `a`.
pub fn append_songs(a: &mut Vec<Song>, b: &Vec<Song>)
    ensures
        final(a)@ == old(a)@ + b@,
{
    let mut i: usize = 0;
    while i < b.len()
        invariant
            i <= b.len(),
            a@ == old(a)@ + b@.take(i as int),
        decreases b.len() - i,
    {
        a.push(b[i].copy());
        i = i + 1;
        assert(a@ =~= old(a)@ + b@.take(i as int));
    }
    assert(b@.take(i as int) =~= b@);
}

impl PlaylistCollection {
    /// A copy of the collection.
    pub fn copy(&self) -> (r: PlaylistCollection)
        ensures
            r@ == self@,
    {
        PlaylistCollection {
            id: self.id.clone(),
            name: self.name.clone(),
            visibility: self.visibility,
            songs: copy_songs(&self.songs),
            description: copy_opt_string(&self.description),
            source: copy_opt_playlist_source(&self.source),
            created_at: self.created_at,
            updated_at: self.updated_at,
        }
    }
}

/// A copy of a list of collections.
pub fn copy_collections(v: &Vec<PlaylistCollection>) -> (r: Vec<PlaylistCollection>)
    ensures
        collection_models(r@) == collection_models(v@),
{
    let mut out: Vec<PlaylistCollection> = Vec::new();
    let mut i: usize = 0;
    while i < v.len()
        invariant
            i <= v.len(),
            out@.len() == i,
            collection_models(out@) == collection_models(v@.take(i as int)),
        decreases v.len() - i,
    {
        let c = v[i].copy();
        let ghost prev = out@;
        out.push(c);
        assert(out@ == prev.push(c));
        assert(v@.take(i + 1) == v@.take(i as int).push(v@[i as int]));
        assert forall|j: int| 0 <= j < i + 1 implies collection_models(out@)[j]
            == collection_models(v@.take(i + 1))[j] by {
            if j < i {
                assert(collection_models(prev)[j] == collection_models(v@.take(i as int))[j]);
                assert(out@[j] == prev[j]);
                assert(v@.take(i + 1)[j] == v@.take(i as int)[j]);
            } else {
                assert(out@[j] == c);
                assert(v@.take(i + 1)[j] == v@[i as int]);
            }
        }
        assert(collection_models(out@) =~= collection_models(v@.take(i + 1)));
        i = i + 1;
    }
    assert(v@.take(v.len() as int) =~= v@);
    out
}

impl ConnectedClient {
    pub fn copy(&self) -> (r: ConnectedClient)
        ensures
            r == *self,
    {
        ConnectedClient {
            id: self.id.clone(),
            display_name: self.display_name.clone(),
            connected_at: self.connected_at,
        }
    }
}

impl PlayerState {
    pub fn copy(&self) -> (r: PlayerState)
        ensures
            r == *self,
    {
        PlayerState {
            status: self.status,
            current_song: match &self.current_song {
                Some(s) => Some(s.copy()),
                None => None,
            },
            current_time: self.current_time,
            duration: self.duration,
            volume: self.volume,
            is_muted: self.is_muted,
            auto_play_next: self.auto_play_next,
        }
    }
}

/// `original_title` when it holds more than whitespace, else `title`.
pub open spec fn original_or_current(original: Option<String>, current: String) -> Seq<char> {
    match original {
        Some(o) => if crate::text::trim_ws(o@).len() > 0 {
            o@
        } else {
            current@
        },
        None => current@,
    }
}

impl Song {
    /// The title the song was imported with, when it has one that is not
    /// blank, else its current title.
    pub fn original_title_or_current(&self) -> (r: String)
        ensures
            r@ == original_or_current(self.original_title, self.title),
    {
        match &self.original_title {
            Some(o) => if !crate::text::is_blank(o.as_str()) {
                o.clone()
            } else {
                self.title.clone()
            },
            None => self.title.clone(),
        }
    }

    /// The artist the song was imported with, when it has one that is not
    /// blank, else its current artist.
    pub fn original_artist_or_current(&self) -> (r: String)
        ensures
            r@ == original_or_current(self.original_artist, self.artist),
    {
        match &self.original_artist {
            Some(o) => if !crate::text::is_blank(o.as_str()) {
                o.clone()
            } else {
                self.artist.clone()
            },
            None => self.artist.clone(),
        }
    }

    /// The duration the song was imported with, else its current duration.
    pub fn original_duration_or_current(&self) -> (r: u32)
        ensures
            r == (match self.original_duration {
                Some(d) => d,
                None => self.duration,
            }),
    {
        match self.original_duration {
            Some(d) => d,
            None => self.duration,
        }
    }
}

/// Whether a player read without the setting starts the next song by
/// itself: it does.
pub fn default_auto_play_next() -> (r: bool)
    ensures
        r,
{
    true
}

} // verus!
