//! The playlist store: the host's collections, independent of any room.
use vstd::prelude::*;
use vstd::multiset::Multiset;
use crate::external::{new_uuid_string, now_millis};
use crate::model::{
    collection_models, copy_collections, copy_opt_string, copy_opt_song_source, CollectionModel,
    CollectionVisibility, PlaylistCollection, PlaylistSource, ResolutionStatus, Song, SongSource,
};
use crate::importer::opt_view;
use crate::room::{first_with_id, no_song_with_id, position_by_id};
use crate::text::{chars_of, same_text};

verus! {

/// The host's playlist collections.
pub struct PlaylistStore {
    playlists: Vec<PlaylistCollection>,
}

impl View for PlaylistStore {
    type V = Seq<CollectionModel>;

    closed spec fn view(&self) -> Seq<CollectionModel> {
        collection_models(self.playlists@)
    }
}

/// `i` is the first position of a collection with the id `id`.
pub open spec fn first_coll_with_id(ps: Seq<CollectionModel>, id: Seq<char>, i: int) -> bool {
    0 <= i < ps.len() && ps[i].id@ == id && forall|j: int| 0 <= j < i ==> ps[j].id@ != id
}

/// No collection has the id `id`.
pub open spec fn no_coll_with_id(ps: Seq<CollectionModel>, id: Seq<char>) -> bool {
    forall|j: int| 0 <= j < ps.len() ==> ps[j].id@ != id
}

/// The Spotify playlist a collection was imported from, if any.
pub open spec fn spotify_playlist_of(c: CollectionModel) -> Option<Seq<char>> {
    match c.source {
        Some(PlaylistSource::Spotify { playlist_id, .. }) => Some(playlist_id@),
        _ => None,
    }
}

/// `i` is the first position of a collection imported from the Spotify
/// playlist `pid`.
pub open spec fn first_with_spotify_playlist(ps: Seq<CollectionModel>, pid: Seq<char>, i: int) -> bool {
    0 <= i < ps.len() && spotify_playlist_of(ps[i]) == Some(pid) && forall|j: int|
        0 <= j < i ==> spotify_playlist_of(ps[j]) != Some(pid)
}

/// No two collections were imported from the same Spotify playlist.
pub open spec fn spotify_playlists_unique(ps: Seq<CollectionModel>) -> bool {
    forall|i: int, j: int|
        0 <= i < ps.len() && 0 <= j < ps.len() && i != j && spotify_playlist_of(ps[i]) is Some
            ==> spotify_playlist_of(ps[i]) != spotify_playlist_of(ps[j])
}

/// No two collections share an id.
pub open spec fn collection_ids_unique(ps: Seq<CollectionModel>) -> bool {
    forall|i: int, j: int| 0 <= i < ps.len() && 0 <= j < ps.len() && i != j ==> ps[i].id@ != ps[j].id@
}

/// Whether a song has been resolved to a YouTube video.
pub open spec fn is_resolved(s: Song) -> bool {
    s.youtube_id@.len() > 0
}

/// The queue entry made from a collection song: a new id and time, the given
/// adder, marked resolved; the rest copied.
pub open spec fn queue_copy(s: Song, id: String, added_by: String, added_at: i64) -> Song {
    Song { id, added_by, added_at, resolution_status: Some(ResolutionStatus::Resolved), ..s }
}

/// The fields of a replacement song once merged into the song it replaces:
/// the old id and the old time it was added are kept.
pub open spec fn merged_replacement(old_song: Song, new_song: Song) -> Song {
    Song { id: old_song.id, added_at: old_song.added_at, ..new_song }
}

/// The songs of `songs` whose ids are in `ids`.
pub open spec fn picked(songs: Seq<Song>, ids: Seq<Seq<char>>) -> Seq<Song> {
    songs.filter(|s: Song| ids.contains(s.id@))
}

/// The songs of `songs` whose ids are not in `ids`.
pub open spec fn kept(songs: Seq<Song>, ids: Seq<Seq<char>>) -> Seq<Song> {
    songs.filter(|s: Song| !ids.contains(s.id@))
}

/// The position of the first collection with the id `id`.
pub open spec fn first_index_of(ps: Seq<CollectionModel>, id: Seq<char>) -> Option<int> {
    if exists|i: int| first_coll_with_id(ps, id, i) {
        Some(choose|i: int| first_coll_with_id(ps, id, i))
    } else {
        None
    }
}

pub proof fn lemma_first_index_of(ps: Seq<CollectionModel>, id: Seq<char>, i: int)
    requires
        first_coll_with_id(ps, id, i),
    ensures
        first_index_of(ps, id) == Some(i),
{
    let k = choose|k: int| first_coll_with_id(ps, id, k);
    if k < i {
        assert(ps[k].id@ != id);
    } else if i < k {
        assert(ps[i].id@ != id);
    }
}

pub proof fn lemma_first_index_of_none(ps: Seq<CollectionModel>, id: Seq<char>)
    requires
        no_coll_with_id(ps, id),
    ensures
        first_index_of(ps, id) is None,
{
}

/// The position of the first song with the id `id`.
pub open spec fn song_index_of(q: Seq<Song>, id: Seq<char>) -> Option<int> {
    if exists|i: int| first_with_id(q, id, i) {
        Some(choose|i: int| first_with_id(q, id, i))
    } else {
        None
    }
}

pub proof fn lemma_song_index_of(q: Seq<Song>, id: Seq<char>, i: int)
    requires
        first_with_id(q, id, i),
    ensures
        song_index_of(q, id) == Some(i),
{
    let k = choose|k: int| first_with_id(q, id, k);
    crate::room::lemma_first_unique(q, id, i, k);
}

pub proof fn lemma_song_index_of_none(q: Seq<Song>, id: Seq<char>)
    requires
        no_song_with_id(q, id),
    ensures
        song_index_of(q, id) is None,
{
}

/// A new, empty, local collection.
pub open spec fn new_collection(
    id: String,
    name: String,
    visibility: CollectionVisibility,
    now: i64,
) -> CollectionModel {
    CollectionModel {
        id,
        name,
        visibility,
        songs: seq![],
        description: None,
        source: Some(PlaylistSource::Local),
        created_at: now,
        updated_at: now,
    }
}

/// Replacing a collection by one from the same source keeps Spotify imports
/// unique.
pub proof fn lemma_update_same_source(ps: Seq<CollectionModel>, k: int, c: CollectionModel)
    requires
        0 <= k < ps.len(),
        spotify_playlist_of(c) == spotify_playlist_of(ps[k]),
    ensures
        spotify_playlists_unique(ps) ==> spotify_playlists_unique(ps.update(k, c)),
{
    let qs = ps.update(k, c);
    assert forall|a: int, b: int|
        0 <= a < qs.len() && 0 <= b < qs.len() && a != b && spotify_playlist_of(qs[a]) is Some
            && spotify_playlists_unique(ps) implies spotify_playlist_of(qs[a])
        != spotify_playlist_of(qs[b]) by {
        assert(spotify_playlist_of(qs[a]) == spotify_playlist_of(ps[a]));
        assert(spotify_playlist_of(qs[b]) == spotify_playlist_of(ps[b]));
    }
}

/// The store after a new empty collection named `name` is added under the id `r`.
pub open spec fn creates_collection(pre: Seq<CollectionModel>, post: Seq<CollectionModel>, name: String, visibility: CollectionVisibility, r: String) -> bool {
    &&& exists|now: i64| post == pre.push(new_collection(r, name, visibility, now))
}

/// The store after the collection `collection_id` is deleted, `r` telling whether one was.
pub open spec fn deletes_collection(pre: Seq<CollectionModel>, post: Seq<CollectionModel>, collection_id: Seq<char>, r: bool) -> bool {
    &&& r == !no_coll_with_id(pre, collection_id)
    &&& r ==> exists|i: int|
            first_coll_with_id(pre, collection_id, i) && post == pre.remove(i)
    &&& !r ==> post == pre
}

/// The store after the collection `collection_id` is renamed, `r` telling whether it was found.
pub open spec fn renames_collection(pre: Seq<CollectionModel>, post: Seq<CollectionModel>, collection_id: Seq<char>, name: String, r: bool) -> bool {
    &&& r == (first_index_of(pre, collection_id) is Some)
    &&& r ==> ({
            let k = first_index_of(pre, collection_id)->0;
            post == pre.update(
                k,
                CollectionModel {
                    name,
                    updated_at: post[k].updated_at,
                    ..pre[k]
                },
            )
        })
    &&& !r ==> post == pre
}

/// The store after the visibility of the collection `collection_id` is set, `r` telling whether it was found.
pub open spec fn sets_visibility(pre: Seq<CollectionModel>, post: Seq<CollectionModel>, collection_id: Seq<char>, visibility: CollectionVisibility, r: bool) -> bool {
    &&& r == (first_index_of(pre, collection_id) is Some)
    &&& r ==> ({
            let k = first_index_of(pre, collection_id)->0;
            post == pre.update(
                k,
                CollectionModel {
                    visibility,
                    updated_at: post[k].updated_at,
                    ..pre[k]
                },
            )
        })
    &&& !r ==> post == pre
}

/// The store after `song` is appended to the collection `collection_id`, `r` telling whether it was found.
pub open spec fn adds_to_collection(pre: Seq<CollectionModel>, post: Seq<CollectionModel>, collection_id: Seq<char>, song: Song, r: bool) -> bool {
    &&& r == (first_index_of(pre, collection_id) is Some)
    &&& r ==> ({
            let k = first_index_of(pre, collection_id)->0;
            post == pre.update(
                k,
                CollectionModel {
                    songs: pre[k].songs.push(song),
                    updated_at: post[k].updated_at,
                    ..pre[k]
                },
            )
        })
    &&& !r ==> post == pre
}

/// The store after the song `song_id` is removed from the collection `collection_id`, `r` telling whether it was.
pub open spec fn removes_from_collection(pre: Seq<CollectionModel>, post: Seq<CollectionModel>, collection_id: Seq<char>, song_id: Seq<char>, r: bool) -> bool {
    &&& r == (first_index_of(pre, collection_id) matches Some(k) && song_index_of(
            pre[k].songs,
            song_id,
        ) is Some)
    &&& r ==> ({
            let k = first_index_of(pre, collection_id)->0;
            let j = song_index_of(pre[k].songs, song_id)->0;
            post == pre.update(
                k,
                CollectionModel {
                    songs: pre[k].songs.remove(j),
                    updated_at: post[k].updated_at,
                    ..pre[k]
                },
            )
        })
    &&& !r ==> post == pre
}

/// The store after the default collection is looked up, or created when there is none, `r` being its id.
pub open spec fn gets_default_collection(pre: Seq<CollectionModel>, post: Seq<CollectionModel>, r: String) -> bool {
    &&& pre.len() > 0 ==> r == pre[0].id && post == pre
    &&& pre.len() == 0 ==> exists|now: i64, name: String|
        name@ == "Default Playlist"@ && post == pre.push(
            new_collection(r, name, CollectionVisibility::Public, now),
        )
}

/// The collection part of an exported collection document.
#[derive(Debug)]
pub struct ImportedCollectionData {
    pub name: String,
    pub visibility: CollectionVisibility,
    pub songs: Vec<Song>,
}

/// An exported collection document as read: the legacy `karaokenatin`
/// marker, the `format` and `version` header, and the collection.
#[derive(Debug)]
pub struct ExportedCollection {
    pub karaokenatin: Option<String>,
    pub format: Option<String>,
    pub version: Option<u32>,
    pub collection: ImportedCollectionData,
}

/// The name an imported collection tries on its `k`-th attempt: the name
/// itself, then with ` (Imported)`, then with ` (Imported k)`.
pub open spec fn imported_name(base: Seq<char>, k: nat) -> Seq<char> {
    if k == 0 {
        base
    } else if k == 1 {
        base + " (Imported)"@
    } else {
        base + " (Imported "@ + crate::text::dec(k) + ")"@
    }
}

/// The names of the collections, in order.
pub open spec fn collection_names(ps: Seq<CollectionModel>) -> Seq<Seq<char>> {
    ps.map_values(|c: CollectionModel| c.name@)
}

/// `k` is the first attempt whose name no collection has.
pub open spec fn first_free_name(names: Seq<Seq<char>>, base: Seq<char>, k: nat) -> bool {
    &&& !names.contains(imported_name(base, k))
    &&& forall|j: nat| j < k ==> names.contains(imported_name(base, j))
}

/// `post` is `pre` with each song given a new id and the time `now`.
pub open spec fn refreshed_songs(pre: Seq<Song>, post: Seq<Song>, now: i64) -> bool {
    &&& post.len() == pre.len()
    &&& forall|i: int| 0 <= i < pre.len() ==> #[trigger] post[i] == (Song { id: post[i].id, added_at: now, ..pre[i] })
}

/// Why an exported collection document is refused, if it is.
pub open spec fn import_header_error(e: ExportedCollection) -> Option<Seq<char>> {
    if e.karaokenatin is None && !(e.format matches Some(f) && f@ == "karaoke-playlist"@) {
        Some(crate::karaoke::incompatible_message())
    } else if e.version matches Some(v) && v != 1 {
        Some(crate::karaoke::unsupported_version_message())
    } else {
        None
    }
}

/// The store after the collection of an exported document is imported.
pub open spec fn imports_collection(
    pre: Seq<CollectionModel>,
    post: Seq<CollectionModel>,
    e: ExportedCollection,
    r: Result<String, String>,
) -> bool {
    match import_header_error(e) {
        Some(m) => r matches Err(x) && x@ == m && post == pre,
        None => r matches Ok(id) && post.len() == pre.len() + 1 && post.drop_last() == pre && {
            let c = post.last();
            &&& c.id == id
            &&& exists|k: nat|
                first_free_name(collection_names(pre), e.collection.name@, k) && c.name@
                    == imported_name(e.collection.name@, k)
            &&& c.visibility == e.collection.visibility
            &&& refreshed_songs(e.collection.songs@, c.songs, c.created_at)
            &&& c.description is None
            &&& c.source == Some(PlaylistSource::Local)
            &&& c.updated_at == c.created_at
        },
    }
}

/// The video ids of the songs of the collection `id`, in order; none when
/// there is no such collection.
pub open spec fn video_ids_of(ps: Seq<CollectionModel>, id: Seq<char>) -> Seq<String> {
    match first_index_of(ps, id) {
        Some(i) => ps[i].songs.map_values(|s: Song| s.youtube_id),
        None => Seq::empty(),
    }
}

/// The song `song_id` of the collection `collection_id`, if both exist.
pub open spec fn song_in(ps: Seq<CollectionModel>, collection_id: Seq<char>, song_id: Seq<char>) -> Option<Song> {
    match first_index_of(ps, collection_id) {
        Some(k) => match song_index_of(ps[k].songs, song_id) {
            Some(j) => Some(ps[k].songs[j]),
            None => None,
        },
        None => None,
    }
}

/// The video of the song `song_id` of the collection `collection_id`, when
/// the song is resolved.
pub open spec fn song_video_id(ps: Seq<CollectionModel>, collection_id: Seq<char>, song_id: Seq<char>) -> Option<String> {
    match song_in(ps, collection_id, song_id) {
        Some(s) => if is_resolved(s) {
            Some(s.youtube_id)
        } else {
            None
        },
        None => None,
    }
}

/// `r` is the queue entry made from the song `song_id` of the collection
/// `collection_id`: none unless the song exists and is resolved.
pub open spec fn is_queue_entry(ps: Seq<CollectionModel>, collection_id: Seq<char>, song_id: Seq<char>, r: Option<Song>) -> bool {
    match song_in(ps, collection_id, song_id) {
        Some(s) => if is_resolved(s) {
            r matches Some(q) && q == queue_copy(s, q.id, s.added_by, q.added_at)
        } else {
            r is None
        },
        None => r is None,
    }
}

/// The store after the song `song_id` of the collection `collection_id` is replaced by `song` (keeping its id and the time it was added), `r` telling whether it was found.
pub open spec fn replaces_song(pre: Seq<CollectionModel>, post: Seq<CollectionModel>, collection_id: Seq<char>, song_id: Seq<char>, song: Song, r: bool) -> bool {
    &&& r == (first_index_of(pre, collection_id) matches Some(k) && song_index_of(
            pre[k].songs,
            song_id,
        ) is Some)
    &&& r ==> ({
            let k = first_index_of(pre, collection_id)->0;
            let j = song_index_of(pre[k].songs, song_id)->0;
            post == pre.update(
                k,
                CollectionModel {
                    songs: pre[k].songs.update(
                        j,
                        merged_replacement(pre[k].songs[j], song),
                    ),
                    updated_at: post[k].updated_at,
                    ..pre[k]
                },
            )
        })
    &&& !r ==> post == pre
}

/// The store after the songs `song_ids` move from one collection to the end of another, `r` telling whether any did (or whether there was nothing to do).
pub open spec fn moves_songs(pre: Seq<CollectionModel>, post: Seq<CollectionModel>, source_collection_id: Seq<char>, target_collection_id: Seq<char>, song_ids: Seq<String>, r: bool) -> bool {
    &&& ({
            let ps = pre;
            let ids = id_views(song_ids);
            if source_collection_id == target_collection_id || song_ids.len() == 0 {
                r && post == ps
            } else {
                match (
                    first_index_of(ps, source_collection_id),
                    first_index_of(ps, target_collection_id),
                ) {
                    (Some(si), Some(ti)) => if picked(ps[si].songs, ids).len() == 0 {
                        !r && post == ps
                    } else {
                        r && post == ps.update(
                            si,
                            CollectionModel {
                                songs: kept(ps[si].songs, ids),
                                updated_at: post[si].updated_at,
                                ..ps[si]
                            },
                        ).update(
                            ti,
                            CollectionModel {
                                songs: ps[ti].songs + picked(ps[si].songs, ids),
                                updated_at: post[si].updated_at,
                                ..ps[ti]
                            },
                        )
                    },
                    _ => !r && post == ps,
                }
            }
        })
}

/// The store after an imported collection is added, or replaces the collection imported from the same Spotify playlist.
pub open spec fn upserts_collection(pre: Seq<CollectionModel>, post: Seq<CollectionModel>, collection: CollectionModel, update_existing: bool, r: Result<String, String>) -> bool {
    &&& ({
            let ps = pre;
            let c = collection;
            match spotify_playlist_of(c) {
                Some(pid) if exists|i: int| first_with_spotify_playlist(ps, pid, i) => {
                    let i = choose|i: int| first_with_spotify_playlist(ps, pid, i);
                    let k = first_index_of(ps, ps[i].id@)->0;
                    if update_existing {
                        r == Ok::<String, String>(ps[i].id) && post == ps.update(
                            k,
                            CollectionModel { id: ps[i].id, created_at: ps[k].created_at, ..c },
                        )
                    } else {
                        (r matches Err(e) && e@ == "Esta playlist ya esta importada."@)
                            && post == ps
                    }
                },
                _ => r == Ok::<String, String>(c.id) && post == ps.push(c),
            }
        })
}

/// `r` is the queue entries made from the resolved songs of the collection `collection_id`, in order, all added by `added_by` at one time; none when there is no such collection.
pub open spec fn is_queue_batch(ps: Seq<CollectionModel>, collection_id: Seq<char>, added_by: Seq<char>, r: Option<Vec<Song>>) -> bool {
    &&& match first_index_of(ps, collection_id) {
            Some(k) => r matches Some(v) && ({
                let rs = ps[k].songs.filter(|s: Song| is_resolved(s));
                &&& v@.len() == rs.len()
                &&& forall|i: int|
                    0 <= i < v@.len() ==> v@[i] == queue_copy(
                        rs[i],
                        v@[i].id,
                        v@[i].added_by,
                        v@[0].added_at,
                    ) && v@[i].added_by@ == added_by
            }),
            None => r is None,
        }
}

/// The first position of a collection with the id `id`.
pub fn position_of_collection(ps: &Vec<PlaylistCollection>, id: &str) -> (r: Option<usize>)
    ensures
        match r {
            Some(i) => first_coll_with_id(collection_models(ps@), id@, i as int),
            None => no_coll_with_id(collection_models(ps@), id@),
        },
{
    let mut i: usize = 0;
    while i < ps.len()
        invariant
            i <= ps.len(),
            forall|j: int| 0 <= j < i ==> collection_models(ps@)[j].id@ != id@,
        decreases ps.len() - i,
    {
        if same_text(ps[i].id.as_str(), id) {
            return Some(i);
        }
        i = i + 1;
    }
    None
}

proof fn lemma_models_update(ps: Seq<PlaylistCollection>, i: int, c: PlaylistCollection)
    requires
        0 <= i < ps.len(),
    ensures
        collection_models(ps.remove(i).insert(i, c)) == collection_models(ps).update(i, c@),
        collection_models(ps).len() == ps.len(),
{
    assert(collection_models(ps.remove(i).insert(i, c)) =~= collection_models(ps).update(i, c@));
}

proof fn lemma_models_remove(ps: Seq<PlaylistCollection>, i: int)
    requires
        0 <= i < ps.len(),
    ensures
        collection_models(ps.remove(i)) == collection_models(ps).remove(i),
{
    assert(collection_models(ps.remove(i)) =~= collection_models(ps).remove(i));
}

proof fn lemma_models_push(ps: Seq<PlaylistCollection>, c: PlaylistCollection)
    ensures
        collection_models(ps.push(c)) == collection_models(ps).push(c@),
{
    assert(collection_models(ps.push(c)) =~= collection_models(ps).push(c@));
}

impl PlaylistStore {
    /// An empty store.
    pub fn new() -> (r: PlaylistStore)
        ensures
            r@ == Seq::<CollectionModel>::empty(),
    {
        let r = PlaylistStore { playlists: Vec::new() };
        assert(r@ =~= Seq::<CollectionModel>::empty());
        r
    }

    /// Takes the collections loaded from disk and returns a copy of them.
    pub fn initialize(&mut self, loaded: Vec<PlaylistCollection>) -> (r: Vec<PlaylistCollection>)
        ensures
            final(self)@ == collection_models(loaded@),
            collection_models(r@) == collection_models(loaded@),
    {
        let copy = copy_collections(&loaded);
        self.playlists = loaded;
        copy
    }

    /// A snapshot of all collections.
    pub fn get_all(&self) -> (r: Vec<PlaylistCollection>)
        ensures
            collection_models(r@) == self@,
    {
        copy_collections(&self.playlists)
    }

    /// The id of the first collection imported from the Spotify playlist
    /// `playlist_id`.
    pub fn find_collection_by_spotify_playlist_id(&self, playlist_id: &str) -> (r: Option<String>)
        ensures
            match r {
                Some(id) => exists|i: int|
                    first_with_spotify_playlist(self@, playlist_id@, i) && self@[i].id == id,
                None => forall|i: int|
                    0 <= i < self@.len() ==> spotify_playlist_of(self@[i]) != Some(playlist_id@),
            },
    {
        let mut i: usize = 0;
        while i < self.playlists.len()
            invariant
                i <= self.playlists.len(),
                forall|j: int|
                    0 <= j < i ==> spotify_playlist_of(self@[j]) != Some(playlist_id@),
            decreases self.playlists.len() - i,
        {
            let c = &self.playlists[i];
            assert(self@[i as int] == c@);
            match &c.source {
                Some(PlaylistSource::Spotify { playlist_id: existing, .. }) => {
                    if same_text(existing.as_str(), playlist_id) {
                        assert(first_with_spotify_playlist(self@, playlist_id@, i as int));
                        return Some(c.id.clone());
                    }
                },
                _ => {},
            }
            i = i + 1;
        }
        None
    }

    /// Adds a collection made by an importer. When it comes from a Spotify
    /// playlist that is already in the store, the stored collection is
    /// replaced in place (keeping its id and creation time) if
    /// `update_existing`, and the import is refused otherwise. Returns the
    /// id under which the collection is stored.
    pub fn upsert_imported_collection(
        &mut self,
        collection: PlaylistCollection,
        update_existing: bool,
    ) -> (r: Result<String, String>)
        ensures
            upserts_collection(old(self)@, final(self)@, collection@, update_existing, r),
            spotify_playlists_unique(old(self)@) && collection_ids_unique(old(self)@)
                ==> spotify_playlists_unique(final(self)@),
    {
        let ghost ps = self@;
        let ghost c = collection@;
        let pid = match &collection.source {
            Some(PlaylistSource::Spotify { playlist_id, .. }) => Some(playlist_id.clone()),
            _ => None,
        };
        if let Some(pid) = pid {
            if let Some(existing_id) = self.find_collection_by_spotify_playlist_id(pid.as_str()) {
                let ghost i = choose|i: int| first_with_spotify_playlist(ps, pid@, i) && ps[i].id == existing_id;
                proof {
                    let k = choose|k: int| first_with_spotify_playlist(ps, pid@, k);
                    if k < i {
                        assert(spotify_playlist_of(ps[k]) != Some(pid@));
                    } else if i < k {
                        assert(spotify_playlist_of(ps[i]) != Some(pid@));
                    }
                }
                if !update_existing {
                    return Err(crate::text::owned("Esta playlist ya esta importada."));
                }
                let mut collection = collection;
                collection.id = existing_id.clone();
                match position_of_collection(&self.playlists, existing_id.as_str()) {
                    Some(pos) => {
                        let existing = self.playlists.remove(pos);
                        collection.created_at = existing.created_at;
                        self.playlists.insert(pos, collection);
                        proof {
                            lemma_models_update(old(self).playlists@, pos as int, collection);
                            assert(ps[i].id@ == existing_id@);
                            lemma_first_index_of(ps, existing_id@, pos as int);
                            assert(self@ =~= ps.update(
                                pos as int,
                                CollectionModel { id: ps[i].id, created_at: ps[pos as int].created_at, ..c },
                            ));
                            assert forall|a: int, b: int|
                                0 <= a < self@.len() && 0 <= b < self@.len() && a != b
                                    && spotify_playlist_of(self@[a]) is Some && spotify_playlists_unique(ps)
                                    && collection_ids_unique(ps)
                                    implies spotify_playlist_of(self@[a]) != spotify_playlist_of(self@[b]) by {
                                assert(pos as int == i);
                                assert(spotify_playlist_of(self@[i]) == spotify_playlist_of(ps[i]));
                                if a != i && b != i {
                                    assert(self@[a] == ps[a]);
                                    assert(self@[b] == ps[b]);
                                } else if a == i {
                                    assert(self@[b] == ps[b]);
                                } else {
                                    assert(self@[a] == ps[a]);
                                }
                            }
                        }
                        return Ok(existing_id);
                    },
                    None => {
                        return Err(crate::text::owned("Collection not found"));
                    },
                }
            }
        }
        let id = collection.id.clone();
        self.playlists.push(collection);
        proof {
            lemma_models_push(old(self).playlists@, collection);
            if spotify_playlist_of(c) is Some {
                assert(forall|j: int| 0 <= j < ps.len() ==> spotify_playlist_of(ps[j]) != spotify_playlist_of(c));
            }
            assert forall|a: int, b: int|
                0 <= a < self@.len() && 0 <= b < self@.len() && a != b
                    && spotify_playlist_of(self@[a]) is Some && spotify_playlists_unique(ps)
                    implies spotify_playlist_of(self@[a]) != spotify_playlist_of(self@[b]) by {
                if a < ps.len() {
                    assert(self@[a] == ps[a]);
                }
                if b < ps.len() {
                    assert(self@[b] == ps[b]);
                }
            }
        }
        Ok(id)
    }

    /// Adds an empty local collection with the given id, name, visibility
    /// and creation time.
    pub fn add_new_collection(
        &mut self,
        id: String,
        name: String,
        visibility: CollectionVisibility,
        now: i64,
    )
        ensures
            final(self)@ == old(self)@.push(new_collection(id, name, visibility, now)),
            spotify_playlists_unique(old(self)@) ==> spotify_playlists_unique(final(self)@),
    {
        let c = PlaylistCollection {
            id,
            name,
            visibility,
            songs: Vec::new(),
            description: None,
            source: Some(PlaylistSource::Local),
            created_at: now,
            updated_at: now,
        };
        assert(c@ == new_collection(id, name, visibility, now));
        self.playlists.push(c);
        proof {
            lemma_models_push(old(self).playlists@, c);
            let ps = old(self)@;
            assert forall|a: int, b: int|
                0 <= a < self@.len() && 0 <= b < self@.len() && a != b
                    && spotify_playlist_of(self@[a]) is Some && spotify_playlists_unique(ps)
                    implies spotify_playlist_of(self@[a]) != spotify_playlist_of(self@[b]) by {
                if a < ps.len() {
                    assert(self@[a] == ps[a]);
                }
                if b < ps.len() {
                    assert(self@[b] == ps[b]);
                }
            }
        }
    }

    /// Creates an empty local collection with a fresh id and returns the id.
    pub fn create_collection(&mut self, name: String, visibility: CollectionVisibility) -> (r:
        String)
        ensures
            creates_collection(old(self)@, final(self)@, name, visibility, r),
            spotify_playlists_unique(old(self)@) ==> spotify_playlists_unique(final(self)@),
    {
        let now = now_millis();
        let id = new_uuid_string();
        let r = id.clone();
        self.add_new_collection(id, name, visibility, now);
        r
    }

    /// Deletes the first collection with the id `collection_id`.
    pub fn delete_collection(&mut self, collection_id: &str) -> (r: bool)
        ensures
            deletes_collection(old(self)@, final(self)@, collection_id@, r),
            spotify_playlists_unique(old(self)@) ==> spotify_playlists_unique(final(self)@),
    {
        match position_of_collection(&self.playlists, collection_id) {
            Some(pos) => {
                self.playlists.remove(pos);
                proof {
                    lemma_models_remove(old(self).playlists@, pos as int);
                    let ps = old(self)@;
                    assert forall|a: int, b: int|
                        0 <= a < self@.len() && 0 <= b < self@.len() && a != b
                            && spotify_playlist_of(self@[a]) is Some && spotify_playlists_unique(ps)
                            implies spotify_playlist_of(self@[a]) != spotify_playlist_of(self@[b]) by {
                        let a0 = if a < pos { a } else { a + 1 };
                        let b0 = if b < pos { b } else { b + 1 };
                        assert(self@[a] == ps[a0]);
                        assert(self@[b] == ps[b0]);
                    }
                }
                true
            },
            None => false,
        }
    }

    /// The YouTube ids of the songs of the first collection with the id
    /// `collection_id`; empty when there is none.
    pub fn collection_video_ids(&self, collection_id: &str) -> (r: Vec<String>)
        ensures
            r@ == video_ids_of(self@, collection_id@),
    {
        match position_of_collection(&self.playlists, collection_id) {
            Some(pos) => {
                let songs = &self.playlists[pos].songs;
                let mut out: Vec<String> = Vec::new();
                let mut k: usize = 0;
                while k < songs.len()
                    invariant
                        k <= songs.len(),
                        out@ == songs@.take(k as int).map_values(|s: Song| s.youtube_id),
                    decreases songs.len() - k,
                {
                    out.push(songs[k].youtube_id.clone());
                    k = k + 1;
                    assert(out@ =~= songs@.take(k as int).map_values(|s: Song| s.youtube_id));
                }
                assert(songs@.take(k as int) =~= songs@);
                proof {
                    lemma_first_index_of(self@, collection_id@, pos as int);
                }
                out
            },
            None => {
                proof {
                    lemma_first_index_of_none(self@, collection_id@);
                }
                Vec::new()
            },
        }
    }
}


impl PlaylistStore {
    /// Puts `c` back at position `pos`.
    fn replace_at(&mut self, pos: usize, c: PlaylistCollection)
        requires
            pos < old(self)@.len(),
        ensures
            final(self)@ == old(self)@.update(pos as int, c@),
    {
        proof {
            lemma_models_update(old(self).playlists@, pos as int, c);
        }
        self.playlists.remove(pos);
        self.playlists.insert(pos, c);
    }

    /// A copy of the collection at `pos`.
    fn take_copy(&self, pos: usize) -> (r: PlaylistCollection)
        requires
            pos < self@.len(),
        ensures
            r@ == self@[pos as int],
    {
        self.playlists[pos].copy()
    }

    /// Renames the first collection with the id `collection_id`.
    pub fn rename_collection(&mut self, collection_id: &str, name: String) -> (r: bool)
        ensures
            renames_collection(old(self)@, final(self)@, collection_id@, name, r),
            spotify_playlists_unique(old(self)@) ==> spotify_playlists_unique(final(self)@),
    {
        match position_of_collection(&self.playlists, collection_id) {
            Some(pos) => {
                proof {
                    lemma_first_index_of(self@, collection_id@, pos as int);
                }
                let mut c = self.take_copy(pos);
                c.name = name;
                c.updated_at = now_millis();
                proof {
                    lemma_update_same_source(self@, pos as int, c@);
                }
                self.replace_at(pos, c);
                true
            },
            None => false,
        }
    }

    /// Sets the visibility of the first collection with the id
    /// `collection_id`.
    pub fn set_collection_visibility(
        &mut self,
        collection_id: &str,
        visibility: CollectionVisibility,
    ) -> (r: bool)
        ensures
            sets_visibility(old(self)@, final(self)@, collection_id@, visibility, r),
            spotify_playlists_unique(old(self)@) ==> spotify_playlists_unique(final(self)@),
    {
        match position_of_collection(&self.playlists, collection_id) {
            Some(pos) => {
                proof {
                    lemma_first_index_of(self@, collection_id@, pos as int);
                }
                let mut c = self.take_copy(pos);
                c.visibility = visibility;
                c.updated_at = now_millis();
                proof {
                    lemma_update_same_source(self@, pos as int, c@);
                }
                self.replace_at(pos, c);
                true
            },
            None => false,
        }
    }

    /// Appends a song to the first collection with the id `collection_id`.
    pub fn add_to_collection(&mut self, collection_id: &str, song: Song) -> (r: bool)
        ensures
            adds_to_collection(old(self)@, final(self)@, collection_id@, song, r),
            spotify_playlists_unique(old(self)@) ==> spotify_playlists_unique(final(self)@),
    {
        match position_of_collection(&self.playlists, collection_id) {
            Some(pos) => {
                proof {
                    lemma_first_index_of(self@, collection_id@, pos as int);
                }
                let mut c = self.take_copy(pos);
                c.songs.push(song);
                c.updated_at = now_millis();
                proof {
                    lemma_update_same_source(self@, pos as int, c@);
                }
                self.replace_at(pos, c);
                true
            },
            None => false,
        }
    }

    /// Removes the first song with the id `song_id` from the first collection
    /// with the id `collection_id`.
    pub fn remove_from_collection(&mut self, collection_id: &str, song_id: &str) -> (r: bool)
        ensures
            removes_from_collection(old(self)@, final(self)@, collection_id@, song_id@, r),
            spotify_playlists_unique(old(self)@) ==> spotify_playlists_unique(final(self)@),
    {
        match position_of_collection(&self.playlists, collection_id) {
            Some(pos) => {
                proof {
                    lemma_first_index_of(self@, collection_id@, pos as int);
                }
                match position_by_id(&self.playlists[pos].songs, song_id) {
                    Some(j) => {
                        proof {
                            lemma_song_index_of(self@[pos as int].songs, song_id@, j as int);
                        }
                        let mut c = self.take_copy(pos);
                        c.songs.remove(j);
                        c.updated_at = now_millis();
                        proof {
                            lemma_update_same_source(self@, pos as int, c@);
                        }
                        self.replace_at(pos, c);
                        true
                    },
                    None => {
                        proof {
                            lemma_song_index_of_none(self@[pos as int].songs, song_id@);
                        }
                        false
                    },
                }
            },
            None => false,
        }
    }

    /// Replaces the first song with the id `song_id` of the first collection
    /// with the id `collection_id` by `song`, keeping the old song's id and
    /// the time it was added.
    pub fn replace_song_in_collection(&mut self, collection_id: &str, song_id: &str, song: Song) -> (r:
        bool)
        ensures
            replaces_song(old(self)@, final(self)@, collection_id@, song_id@, song, r),
            spotify_playlists_unique(old(self)@) ==> spotify_playlists_unique(final(self)@),
    {
        match position_of_collection(&self.playlists, collection_id) {
            Some(pos) => {
                proof {
                    lemma_first_index_of(self@, collection_id@, pos as int);
                }
                match position_by_id(&self.playlists[pos].songs, song_id) {
                    Some(j) => {
                        proof {
                            lemma_song_index_of(self@[pos as int].songs, song_id@, j as int);
                        }
                        let mut c = self.take_copy(pos);
                        let mut song = song;
                        song.id = c.songs[j].id.clone();
                        song.added_at = c.songs[j].added_at;
                        c.songs.set(j, song);
                        c.updated_at = now_millis();
                        proof {
                            lemma_update_same_source(self@, pos as int, c@);
                        }
                        self.replace_at(pos, c);
                        true
                    },
                    None => {
                        proof {
                            lemma_song_index_of_none(self@[pos as int].songs, song_id@);
                        }
                        false
                    },
                }
            },
            None => false,
        }
    }

    /// A copy of the first song with the id `song_id` of the first collection
    /// with the id `collection_id`.
    pub fn clone_song_from_collection(&self, collection_id: &str, song_id: &str) -> (r: Option<
        Song,
    >)
        ensures
            r == song_in(self@, collection_id@, song_id@),
    {
        match position_of_collection(&self.playlists, collection_id) {
            Some(pos) => {
                proof {
                    lemma_first_index_of(self@, collection_id@, pos as int);
                }
                match position_by_id(&self.playlists[pos].songs, song_id) {
                    Some(j) => {
                        proof {
                            lemma_song_index_of(self@[pos as int].songs, song_id@, j as int);
                        }
                        Some(self.playlists[pos].songs[j].copy())
                    },
                    None => {
                        proof {
                            lemma_song_index_of_none(self@[pos as int].songs, song_id@);
                        }
                        None
                    },
                }
            },
            None => None,
        }
    }

    /// The YouTube id of the first song with the id `song_id` of the first
    /// collection with the id `collection_id`, when it has one.
    pub fn collection_song_youtube_id(&self, collection_id: &str, song_id: &str) -> (r: Option<
        String,
    >)
        ensures
            r == song_video_id(self@, collection_id@, song_id@),
    {
        match self.clone_song_from_collection(collection_id, song_id) {
            Some(s) => if s.youtube_id.as_str().is_empty() {
                None
            } else {
                Some(s.youtube_id)
            },
            None => None,
        }
    }
}

/// The ids named by a list of strings.
pub open spec fn id_views(ids: Seq<String>) -> Seq<Seq<char>> {
    ids.map_values(|s: String| s@)
}

/// Whether `id` is one of `ids`.
pub fn ids_contain(ids: &[String], id: &str) -> (r: bool)
    ensures
        r == id_views(ids@).contains(id@),
{
    let mut i: usize = 0;
    while i < ids.len()
        invariant
            i <= ids@.len(),
            forall|j: int| 0 <= j < i ==> ids@[j]@ != id@,
        decreases ids@.len() - i,
    {
        if same_text(ids[i].as_str(), id) {
            assert(id_views(ids@)[i as int] == id@);
            return true;
        }
        i = i + 1;
    }
    assert forall|j: int| 0 <= j < id_views(ids@).len() implies id_views(ids@)[j] != id@ by {
        assert(id_views(ids@)[j] == ids@[j]@);
    }
    false
}

/// Splitting a list of songs by membership of their ids keeps every song:
/// the songs picked and the songs kept together are the original songs.
pub proof fn law_pick_and_keep_partition(songs: Seq<Song>, ids: Seq<Seq<char>>)
    ensures
        picked(songs, ids).to_multiset().add(kept(songs, ids).to_multiset())
            == songs.to_multiset(),
        picked(songs, ids).len() + kept(songs, ids).len() == songs.len(),
    decreases songs.len(),
{
    broadcast use vstd::seq_lib::to_multiset_build;
    broadcast use vstd::multiset::group_multiset_axioms;
    broadcast use vstd::seq_lib::group_filter_ensures;

    if songs.len() == 0 {
        assert(songs =~= Seq::<Song>::empty());
        assert(picked(songs, ids) =~= Seq::<Song>::empty());
        assert(kept(songs, ids) =~= Seq::<Song>::empty());
        songs.to_multiset_ensures();
        picked(songs, ids).to_multiset_ensures();
        kept(songs, ids).to_multiset_ensures();
        assert(songs.to_multiset() =~= Multiset::<Song>::empty());
        assert(picked(songs, ids).to_multiset() =~= Multiset::<Song>::empty());
        assert(kept(songs, ids).to_multiset() =~= Multiset::<Song>::empty());
    } else {
        let rest = songs.drop_last();
        let x = songs.last();
        law_pick_and_keep_partition(rest, ids);
        assert(songs =~= rest.push(x));
        rest.lemma_filter_push(x, |s: Song| ids.contains(s.id@));
        rest.lemma_filter_push(x, |s: Song| !ids.contains(s.id@));
        if ids.contains(x.id@) {
            assert(picked(songs, ids) == picked(rest, ids).push(x));
            assert(kept(songs, ids) == kept(rest, ids));
        } else {
            assert(picked(songs, ids) == picked(rest, ids));
            assert(kept(songs, ids) == kept(rest, ids).push(x));
        }
        assert(picked(songs, ids).to_multiset().add(kept(songs, ids).to_multiset())
            =~= songs.to_multiset());
    }
}

impl PlaylistStore {
    /// Moves the songs whose ids are in `song_ids` from the first collection
    /// with the id `source_collection_id` to the end of the first collection
    /// with the id `target_collection_id`, in their order. Moving within one
    /// collection, or moving nothing, is a success that changes nothing.
    /// Fails, changing nothing, when a collection is missing or no song
    /// matches.
    pub fn move_songs_to_collection(
        &mut self,
        source_collection_id: &str,
        target_collection_id: &str,
        song_ids: &[String],
    ) -> (r: bool)
        ensures
            moves_songs(old(self)@, final(self)@, source_collection_id@, target_collection_id@, song_ids@, r),
            spotify_playlists_unique(old(self)@) ==> spotify_playlists_unique(final(self)@),
    {
        if same_text(source_collection_id, target_collection_id) || song_ids.len() == 0 {
            return true;
        }
        let si = match position_of_collection(&self.playlists, source_collection_id) {
            Some(i) => i,
            None => {
                return false;
            },
        };
        let ti = match position_of_collection(&self.playlists, target_collection_id) {
            Some(i) => i,
            None => {
                return false;
            },
        };
        proof {
            lemma_first_index_of(self@, source_collection_id@, si as int);
            lemma_first_index_of(self@, target_collection_id@, ti as int);
        }
        let ghost ids = id_views(song_ids@);
        let mut source = self.take_copy(si);
        let mut keep: Vec<Song> = Vec::new();
        let mut moved: Vec<Song> = Vec::new();
        let mut k: usize = 0;
        let ghost songs = source.songs@;
        while k < source.songs.len()
            invariant
                k <= source.songs.len(),
                songs == source.songs@,
                ids == id_views(song_ids@),
                keep@ == kept(songs.take(k as int), ids),
                moved@ == picked(songs.take(k as int), ids),
            decreases source.songs.len() - k,
        {
            let song = source.songs[k].copy();
            proof {
                assert(songs.take(k + 1) =~= songs.take(k as int).push(song));
                songs.take(k as int).lemma_filter_push(song, |s: Song| ids.contains(s.id@));
                songs.take(k as int).lemma_filter_push(song, |s: Song| !ids.contains(s.id@));
            }
            if ids_contain(song_ids, song.id.as_str()) {
                moved.push(song);
            } else {
                keep.push(song);
            }
            k = k + 1;
        }
        assert(songs.take(k as int) =~= songs);
        if moved.len() == 0 {
            return false;
        }
        let now = now_millis();
        source.songs = keep;
        source.updated_at = now;
        proof {
            lemma_update_same_source(self@, si as int, source@);
        }
        self.replace_at(si, source);
        assert(si != ti) by {
            assert(old(self)@[si as int].id@ == source_collection_id@);
            assert(old(self)@[ti as int].id@ == target_collection_id@);
        }
        let mut target = self.take_copy(ti);
        let mut tsongs = crate::model::copy_songs(&target.songs);
        crate::model::append_songs(&mut tsongs, &moved);
        target.songs = tsongs;
        target.updated_at = now;
        proof {
            lemma_update_same_source(self@, ti as int, target@);
        }
        self.replace_at(ti, target);
        true
    }

    /// A queue entry for the first song with the id `song_id` of the first
    /// collection with the id `collection_id`, when that song is resolved:
    /// a copy with a fresh id, the current time and a resolved status.
    pub fn clone_song_for_queue(&self, collection_id: &str, song_id: &str) -> (r: Option<Song>)
        ensures
            is_queue_entry(self@, collection_id@, song_id@, r),
    {
        match self.clone_song_from_collection(collection_id, song_id) {
            Some(song) => {
                if song.youtube_id.as_str().is_empty() {
                    None
                } else {
                    let mut q = song;
                    q.id = new_uuid_string();
                    q.added_at = now_millis();
                    q.resolution_status = Some(ResolutionStatus::Resolved);
                    Some(q)
                }
            },
            None => None,
        }
    }

    /// Queue entries for the resolved songs of the first collection with the
    /// id `collection_id`, in order: copies with fresh ids, one shared current
    /// time, `added_by` as the adder and a resolved status. `None` when there
    /// is no such collection.
    pub fn clone_collection_for_queue(&self, collection_id: &str, added_by: &str) -> (r: Option<
        Vec<Song>,
    >)
        ensures
            is_queue_batch(self@, collection_id@, added_by@, r),
    {
        match position_of_collection(&self.playlists, collection_id) {
            Some(pos) => {
                proof {
                    lemma_first_index_of(self@, collection_id@, pos as int);
                }
                let now = now_millis();
                let songs = &self.playlists[pos].songs;
                let ghost all = songs@;
                let mut out: Vec<Song> = Vec::new();
                let mut k: usize = 0;
                while k < songs.len()
                    invariant
                        k <= songs.len(),
                        all == songs@,
                        out@.len() == all.take(k as int).filter(|s: Song| is_resolved(s)).len(),
                        forall|i: int|
                            0 <= i < out@.len() ==> out@[i] == queue_copy(
                                all.take(k as int).filter(|s: Song| is_resolved(s))[i],
                                out@[i].id,
                                out@[i].added_by,
                                now,
                            ) && out@[i].added_by@ == added_by@,
                    decreases songs.len() - k,
                {
                    let song = songs[k].copy();
                    proof {
                        assert(all.take(k + 1) =~= all.take(k as int).push(song));
                        all.take(k as int).lemma_filter_push(song, |s: Song| is_resolved(s));
                    }
                    if !song.youtube_id.as_str().is_empty() {
                        let mut q = song;
                        q.id = new_uuid_string();
                        q.added_by = crate::text::owned(added_by);
                        q.added_at = now;
                        q.resolution_status = Some(ResolutionStatus::Resolved);
                        out.push(q);
                    }
                    k = k + 1;
                }
                assert(all.take(k as int) =~= all);
                Some(out)
            },
            None => None,
        }
    }

    /// The id of the first collection; when there is none, a new public
    /// collection named "Default Playlist" is created and its id returned.
    pub fn get_or_create_default_collection(&mut self) -> (r: String)
        ensures
            gets_default_collection(old(self)@, final(self)@, r),
            spotify_playlists_unique(old(self)@) ==> spotify_playlists_unique(final(self)@),
    {
        if self.playlists.len() > 0 {
            return self.playlists[0].id.clone();
        }
        let name = crate::text::owned("Default Playlist");
        self.create_collection(name, CollectionVisibility::Public)
    }

    /// Whether some collection is named `name`.
    fn has_collection_named(&self, name: &Vec<char>) -> (r: bool)
        ensures
            r == collection_names(self@).contains(name@),
    {
        let mut i: usize = 0;
        while i < self.playlists.len()
            invariant
                i <= self.playlists.len(),
                forall|j: int| 0 <= j < i ==> collection_names(self@)[j] != name@,
            decreases self.playlists.len() - i,
        {
            let n = chars_of(self.playlists[i].name.as_str());
            assert(collection_names(self@)[i as int] == self.playlists@[i as int].name@);
            if crate::text::seq_eq(&n, name) {
                return true;
            }
            i = i + 1;
        }
        false
    }

    /// Adds a collection read from an exported collection document
    /// (`import_collection` after the parse). The document must carry the
    /// legacy `karaokenatin` marker or the `karaoke-playlist` format, and be
    /// of version 1 when it says. The songs get fresh ids and are stamped
    /// with the import time; the collection gets a fresh id and a name that
    /// no collection has: the document's, else with ` (Imported)`, else
    /// with ` (Imported 2)`, ` (Imported 3)`... Returns the new id.
    pub fn import_collection(&mut self, exported: ExportedCollection) -> (r: Result<String, String>)
        ensures
            imports_collection(old(self)@, final(self)@, exported, r),
            spotify_playlists_unique(old(self)@) ==> spotify_playlists_unique(final(self)@),
    {
        proof {
            reveal_strlit("karaoke-playlist");
        }
        let compatible = match &exported.format {
            Some(f) => same_text(f.as_str(), "karaoke-playlist"),
            None => false,
        };
        if exported.karaokenatin.is_none() && !compatible {
            return Err(crate::text::owned("El archivo no es una playlist compatible con FESTEJAR."));
        }
        match exported.version {
            Some(v) => if v != 1 {
                return Err(crate::text::owned("Version de playlist no soportada."));
            },
            None => {},
        }
        let now = now_millis();
        let id = new_uuid_string();
        let data = exported.collection;
        let mut songs: Vec<Song> = Vec::new();
        let mut i: usize = 0;
        while i < data.songs.len()
            invariant
                i <= data.songs.len(),
                songs@.len() == i,
                forall|j: int|
                    0 <= j < i ==> #[trigger] songs@[j] == (Song {
                        id: songs@[j].id,
                        added_at: now,
                        ..data.songs@[j]
                    }),
            decreases data.songs.len() - i,
        {
            let mut s = data.songs[i].copy();
            s.id = new_uuid_string();
            s.added_at = now;
            songs.push(s);
            i = i + 1;
        }
        let base = chars_of(data.name.as_str());
        let mut candidate = chars_of(data.name.as_str());
        let ghost names = collection_names(self@);
        let mut k: usize = 0;
        assert(candidate@ == imported_name(base@, 0));
        while self.has_collection_named(&candidate)
            invariant
                names == collection_names(self@),
                base@ == data.name@,
                candidate@ == imported_name(base@, k as nat),
                forall|j: nat| j < k ==> names.contains(imported_name(base@, j)),
                k <= names.len(),
            decreases names.len() - k,
        {
            proof {
                lemma_taken_names_bound(names, base@, (k + 1) as nat);
                assert(names.len() == self.playlists@.len());
            }
            let n = self.playlists.len();
            assert(k + 1 <= n);
            k = k + 1;
            let mut next = base.clone();
            if k == 1 {
                let tail = crate::text::lit(" (Imported)");
                crate::text::append_chars(&mut next, &tail);
            } else {
                let open = crate::text::lit(" (Imported ");
                crate::text::append_chars(&mut next, &open);
                let digits = crate::text::dec_chars(k as u64);
                crate::text::append_chars(&mut next, &digits);
                next.push(')');
                proof {
                    reveal_strlit(")");
                }
            }
            assert(next@ =~= imported_name(base@, k as nat));
            candidate = next;
        }
        let c = PlaylistCollection {
            id: id.clone(),
            name: crate::text::string_of(&candidate),
            visibility: data.visibility,
            songs,
            description: None,
            source: Some(PlaylistSource::Local),
            created_at: now,
            updated_at: now,
        };
        self.playlists.push(c);
        proof {
            lemma_models_push(old(self).playlists@, c);
            let ps = old(self)@;
            assert(self@.drop_last() =~= ps);
            assert(first_free_name(collection_names(ps), exported.collection.name@, k as nat));
            assert forall|a: int, b: int|
                0 <= a < self@.len() && 0 <= b < self@.len() && a != b
                    && spotify_playlist_of(self@[a]) is Some && spotify_playlists_unique(ps)
                    implies spotify_playlist_of(self@[a]) != spotify_playlist_of(self@[b]) by {
                if a < ps.len() {
                    assert(self@[a] == ps[a]);
                }
                if b < ps.len() {
                    assert(self@[b] == ps[b]);
                }
            }
        }
        Ok(id)
    }
}

/// When the first `k` names tried are all taken, there are at least `k`
/// collections: the names tried are all different.
proof fn lemma_taken_names_bound(names: Seq<Seq<char>>, base: Seq<char>, k: nat)
    requires
        forall|j: nat| j < k ==> names.contains(imported_name(base, j)),
    ensures
        k <= names.len(),
{
    let tried = Seq::new(k, |j: int| imported_name(base, j as nat));
    assert forall|a: int, b: int| 0 <= a < tried.len() && 0 <= b < tried.len() && a != b implies tried[a]
        != tried[b] by {
        lemma_imported_names_differ(base, a as nat, b as nat);
    }
    assert(tried.no_duplicates());
    tried.unique_seq_to_set();
    names.lemma_cardinality_of_set();
    assert forall|x: Seq<char>| tried.to_set().contains(x) implies names.to_set().contains(x) by {
        let j = choose|j: int| 0 <= j < tried.len() && tried[j] == x;
        assert(names.contains(imported_name(base, j as nat)));
    }
    vstd::set_lib::lemma_len_subset(tried.to_set(), names.to_set());
}

/// The names tried for an import are pairwise different.
proof fn lemma_imported_names_differ(base: Seq<char>, a: nat, b: nat)
    requires
        a != b,
    ensures
        imported_name(base, a) != imported_name(base, b),
{
    reveal_strlit(" (Imported)");
    reveal_strlit(" (Imported ");
    reveal_strlit(")");
    crate::text::lemma_dec_len(a);
    crate::text::lemma_dec_len(b);
    assert(" (Imported)"@.len() == 11);
    assert(" (Imported "@.len() == 11);
    assert(")"@.len() == 1);
    assert(imported_name(base, 0).len() == base.len());
    assert(imported_name(base, 1).len() == base.len() + 11);
    assert(a >= 2 ==> imported_name(base, a).len() == base.len() + 12 + crate::text::dec(a).len());
    assert(b >= 2 ==> imported_name(base, b).len() == base.len() + 12 + crate::text::dec(b).len());
    if a >= 2 && b >= 2 && imported_name(base, a) == imported_name(base, b) {
        let na = imported_name(base, a);
        let nb = imported_name(base, b);
        let start = base.len() + 11;
        assert(na.subrange(start as int, na.len() - 1) =~= crate::text::dec(a));
        assert(nb.subrange(start as int, nb.len() - 1) =~= crate::text::dec(b));
        crate::text::lemma_dec_injective(a, b);
    }
}

// ------------------------------------------------------------------
// Exporting a collection as a karaoke playlist file
// ------------------------------------------------------------------
/// The source of a track in an exported file.
#[derive(Debug)]
pub struct KaraokeTrackSource {
    pub source_type: String,
    pub playlist_id: Option<String>,
    pub track_id: Option<String>,
    pub url: Option<String>,
}

/// A track of an exported file.
#[derive(Debug)]
pub struct KaraokePlaylistTrack {
    pub title: String,
    pub artists: Vec<String>,
    pub duration_ms: Option<u32>,
    pub source: KaraokeTrackSource,
}

/// The source of an exported playlist.
#[derive(Debug)]
pub struct KaraokePlaylistSource {
    pub source_type: String,
    pub playlist_id: Option<String>,
    pub original_url: Option<String>,
}

/// A karaoke playlist file (`format: "karaoke-playlist"`, version 1), as
/// written by the host. A missing description is left out of the file.
#[derive(Debug)]
pub struct KaraokePlaylistFile {
    pub format: String,
    pub version: u32,
    pub generator: String,
    pub name: String,
    pub description: Option<String>,
    pub source: KaraokePlaylistSource,
    pub tracks: Vec<KaraokePlaylistTrack>,
}

/// An exported track, as a value.
pub ghost struct ExportTrack {
    pub title: Seq<char>,
    pub artists: Seq<Seq<char>>,
    pub duration_ms: Option<u32>,
    pub source_type: Seq<char>,
    pub playlist_id: Option<Seq<char>>,
    pub track_id: Option<Seq<char>>,
    pub url: Option<Seq<char>>,
}

impl View for KaraokePlaylistTrack {
    type V = ExportTrack;

    open spec fn view(&self) -> ExportTrack {
        ExportTrack {
            title: self.title@,
            artists: crate::json::views_of(self.artists@),
            duration_ms: self.duration_ms,
            source_type: self.source.source_type@,
            playlist_id: opt_view(self.source.playlist_id),
            track_id: opt_view(self.source.track_id),
            url: opt_view(self.source.url),
        }
    }
}

/// The artists written for a song: none when its artist is blank, else
/// the artist split at commas, each part trimmed.
pub open spec fn exported_artists(artist: Seq<char>) -> Seq<Seq<char>> {
    if crate::text::trim_ws(artist).len() == 0 {
        Seq::empty()
    } else {
        crate::text::split_char(artist, ',').map_values(|x: Seq<char>| crate::text::trim_ws(x))
    }
}

/// The track written for a song. Its source says where it came from: a
/// Spotify track keeps its playlist, track and link; a YouTube video is
/// written as its id and link; a song without a source is local.
pub open spec fn exported_track(s: Song) -> ExportTrack {
    let (kind, playlist_id, track_id, url) = match s.source {
        Some(SongSource::Spotify { playlist_id, track_id, url }) => (
            "spotify"@,
            opt_view(playlist_id),
            opt_view(track_id),
            opt_view(url),
        ),
        Some(SongSource::Youtube { video_id, url }) => ("youtube"@, None, opt_view(video_id), opt_view(url)),
        _ => ("local"@, None, None, None),
    };
    ExportTrack {
        title: s.title@,
        artists: exported_artists(s.artist@),
        duration_ms: if s.duration == 0 {
            None
        } else {
            Some((s.duration * 1000) as u32)
        },
        source_type: kind,
        playlist_id,
        track_id,
        url,
    }
}

/// The tracks of a file, as values.
pub open spec fn export_tracks(v: Seq<KaraokePlaylistTrack>) -> Seq<ExportTrack> {
    v.map_values(|t: KaraokePlaylistTrack| t@)
}

/// The file is the export of the collection `c`.
pub open spec fn is_export_of(f: KaraokePlaylistFile, c: CollectionModel) -> bool {
    &&& f.format@ == "karaoke-playlist"@
    &&& f.version == 1
    &&& f.generator@ == "FESTEJAR"@
    &&& f.name@ == c.name@
    &&& opt_view(f.description) == opt_view(c.description)
    &&& match c.source {
        Some(PlaylistSource::Spotify { playlist_id, original_url, .. }) => {
            &&& f.source.source_type@ == "spotify"@
            &&& opt_view(f.source.playlist_id) == Some(playlist_id@)
            &&& opt_view(f.source.original_url) == Some(original_url@)
        },
        _ => {
            &&& f.source.source_type@ == "local"@
            &&& f.source.playlist_id is None
            &&& f.source.original_url is None
        },
    }
    &&& export_tracks(f.tracks@) == c.songs.map_values(|s: Song| exported_track(s))
}

/// Every song of the collection `id` has a length whose milliseconds fit
/// in 32 bits.
pub open spec fn durations_fit(ps: Seq<CollectionModel>, id: Seq<char>) -> bool {
    match first_index_of(ps, id) {
        Some(k) => forall|j: int| 0 <= j < ps[k].songs.len() ==> #[trigger] ps[k].songs[j].duration * 1000 <= u32::MAX,
        None => true,
    }
}

fn export_song(s: &Song) -> (r: KaraokePlaylistTrack)
    requires
        s.duration * 1000 <= u32::MAX,
    ensures
        r@ == exported_track(*s),
{
    proof {
        reveal_strlit("spotify");
        reveal_strlit("youtube");
        reveal_strlit("local");
    }
    let source = match &s.source {
        Some(SongSource::Spotify { playlist_id, track_id, url }) => KaraokeTrackSource {
            source_type: crate::text::owned("spotify"),
            playlist_id: copy_opt_string(playlist_id),
            track_id: copy_opt_string(track_id),
            url: copy_opt_string(url),
        },
        Some(SongSource::Youtube { video_id, url }) => KaraokeTrackSource {
            source_type: crate::text::owned("youtube"),
            playlist_id: None,
            track_id: copy_opt_string(video_id),
            url: copy_opt_string(url),
        },
        _ => KaraokeTrackSource {
            source_type: crate::text::owned("local"),
            playlist_id: None,
            track_id: None,
            url: None,
        },
    };
    let artists = if crate::text::is_blank(s.artist.as_str()) {
        let v: Vec<String> = Vec::new();
        assert(crate::json::views_of(v@) =~= Seq::<Seq<char>>::empty());
        v
    } else {
        let a = chars_of(s.artist.as_str());
        let parts = crate::text::split_chars(&a, ',');
        let mut out: Vec<String> = Vec::new();
        let mut i: usize = 0;
        while i < parts.len()
            invariant
                i <= parts.len(),
                crate::text::views(parts@) == crate::text::split_char(s.artist@, ','),
                crate::json::views_of(out@) == crate::text::split_char(s.artist@, ',').take(
                    i as int,
                ).map_values(|x: Seq<char>| crate::text::trim_ws(x)),
            decreases parts.len() - i,
        {
            let t = crate::text::trim_ws_chars(&parts[i]);
            let ghost before = out@;
            out.push(crate::text::string_of(&t));
            assert(crate::text::views(parts@)[i as int] == parts@[i as int]@);
            assert(crate::json::views_of(out@) =~= crate::json::views_of(before).push(t@));
            assert(crate::text::split_char(s.artist@, ',').take(i + 1) =~= crate::text::split_char(
                s.artist@,
                ',',
            ).take(i as int).push(crate::text::split_char(s.artist@, ',')[i as int]));
            assert(crate::json::views_of(out@) =~= crate::text::split_char(s.artist@, ',').take(
                i + 1,
            ).map_values(|x: Seq<char>| crate::text::trim_ws(x)));
            i = i + 1;
        }
        assert(crate::text::split_char(s.artist@, ',').take(i as int) =~= crate::text::split_char(
            s.artist@,
            ',',
        ));
        out
    };
    let duration_ms = if s.duration == 0 {
        None
    } else {
        Some(s.duration * 1000)
    };
    KaraokePlaylistTrack { title: s.title.clone(), artists, duration_ms, source }
}

impl PlaylistStore {
    /// The karaoke playlist file of a collection (`export_collection`
    /// before the file is serialised).
    pub fn export_collection(&self, collection_id: &str) -> (r: Result<KaraokePlaylistFile, String>)
        requires
            durations_fit(self@, collection_id@),
        ensures
            match first_index_of(self@, collection_id@) {
                Some(k) => r matches Ok(f) && is_export_of(f, self@[k]),
                None => r matches Err(e) && e@ == "Collection not found"@,
            },
    {
        proof {
            reveal_strlit("karaoke-playlist");
            reveal_strlit("FESTEJAR");
            reveal_strlit("spotify");
            reveal_strlit("local");
        }
        let k = match position_of_collection(&self.playlists, collection_id) {
            Some(k) => k,
            None => {
                proof {
                    lemma_first_index_of_none(self@, collection_id@);
                }
                return Err(crate::text::owned("Collection not found"));
            },
        };
        proof {
            lemma_first_index_of(self@, collection_id@, k as int);
        }
        let col = &self.playlists[k];
        assert(self@[k as int] == col@);
        let ghost songs = col.songs@;
        let mut tracks: Vec<KaraokePlaylistTrack> = Vec::new();
        let mut i: usize = 0;
        while i < col.songs.len()
            invariant
                i <= col.songs.len(),
                songs == col.songs@,
                forall|j: int| 0 <= j < songs.len() ==> #[trigger] songs[j].duration * 1000 <= u32::MAX,
                export_tracks(tracks@) == songs.take(i as int).map_values(|s: Song| exported_track(s)),
            decreases col.songs.len() - i,
        {
            let t = export_song(&col.songs[i]);
            let ghost before = tracks@;
            tracks.push(t);
            assert(export_tracks(tracks@) =~= export_tracks(before).push(t@));
            assert(songs.take(i + 1) =~= songs.take(i as int).push(songs[i as int]));
            assert(export_tracks(tracks@) =~= songs.take(i + 1).map_values(|s: Song| exported_track(s)));
            i = i + 1;
        }
        assert(songs.take(i as int) =~= songs);
        let source = match &col.source {
            Some(PlaylistSource::Spotify { playlist_id, original_url, .. }) => KaraokePlaylistSource {
                source_type: crate::text::owned("spotify"),
                playlist_id: Some(playlist_id.clone()),
                original_url: Some(original_url.clone()),
            },
            _ => KaraokePlaylistSource {
                source_type: crate::text::owned("local"),
                playlist_id: None,
                original_url: None,
            },
        };
        Ok(
            KaraokePlaylistFile {
                format: crate::text::owned("karaoke-playlist"),
                version: 1,
                generator: crate::text::owned("FESTEJAR"),
                name: col.name.clone(),
                description: copy_opt_string(&col.description),
                source,
                tracks,
            },
        )
    }
}

/// The collection that songs saved by an old version become: a public
/// local collection named `Default Playlist` with a fresh id.
pub fn legacy_default_collection(songs: Vec<Song>) -> (r: PlaylistCollection)
    ensures
        r.name@ == "Default Playlist"@,
        r.visibility == CollectionVisibility::Public,
        r.songs@ == songs@,
        r.description is None,
        r.source == Some(PlaylistSource::Local),
        r.created_at == r.updated_at,
{
    let now = now_millis();
    PlaylistCollection {
        id: new_uuid_string(),
        name: crate::text::owned("Default Playlist"),
        visibility: CollectionVisibility::Public,
        songs,
        description: None,
        source: Some(PlaylistSource::Local),
        created_at: now,
        updated_at: now,
    }
}

/// An imported collection takes a name that no collection had.
pub proof fn law_imported_name_is_new(
    pre: Seq<CollectionModel>,
    post: Seq<CollectionModel>,
    e: ExportedCollection,
    r: Result<String, String>,
)
    requires
        imports_collection(pre, post, e, r),
        r is Ok,
    ensures
        !collection_names(pre).contains(post.last().name@),
{
    let k = choose|k: nat|
        first_free_name(collection_names(pre), e.collection.name@, k) && post.last().name@
            == imported_name(e.collection.name@, k);
}

} // verus!
