use festejar::commands::{
    confirm_playlist_import, playlist_queue_collection, playlist_resolve_song,
    preview_karaoke_json_playlist_import, preview_spotify_playlist_import,
    preview_text_playlist_import,
};
use festejar::history::SessionHistoryStore;
use festejar::importer::{
    imported_playlist_to_collection, ImportSourceType, ImportedPlaylist, ImportedPlaylistSource,
    ImportedTrack, ImportedTrackSource,
};
use festejar::model::{CollectionVisibility, PlaylistSource, ResolutionStatus, Song, SongSource};
use festejar::room::RoomState;
use festejar::store::{
    legacy_default_collection, ExportedCollection, ImportedCollectionData, PlaylistStore,
};
use festejar::youtube::SearchResult;

fn song(id: &str, youtube_id: &str, artist: &str, duration: u32) -> Song {
    Song {
        id: id.to_string(),
        youtube_id: youtube_id.to_string(),
        title: format!("title-{id}"),
        artist: artist.to_string(),
        duration,
        original_title: None,
        original_artist: None,
        original_duration: None,
        thumbnail_url: "".to_string(),
        added_by: "Guest".to_string(),
        added_at: 7,
        resolution_status: None,
        source: None,
    }
}

fn exported(name: &str, version: Option<u32>, format: Option<&str>) -> ExportedCollection {
    ExportedCollection {
        karaokenatin: None,
        format: format.map(|f| f.to_string()),
        version,
        collection: ImportedCollectionData {
            name: name.to_string(),
            visibility: CollectionVisibility::Public,
            songs: vec![song("a", "vid", "Queen", 10)],
        },
    }
}

#[test]
fn import_collection_renames_on_collision_and_refreshes_songs() {
    let mut store = PlaylistStore::new();
    store.create_collection("Fiesta".to_string(), CollectionVisibility::Public);
    let id1 = store
        .import_collection(exported("Fiesta", Some(1), Some("karaoke-playlist")))
        .unwrap();
    let id2 = store
        .import_collection(exported("Fiesta", None, Some("karaoke-playlist")))
        .unwrap();
    let all = store.get_all();
    assert_eq!(all.len(), 3);
    assert_eq!(all[1].id, id1);
    assert_eq!(all[1].name, "Fiesta (Imported)");
    assert_eq!(all[2].id, id2);
    assert_eq!(all[2].name, "Fiesta (Imported 2)");
    assert_ne!(all[1].songs[0].id, "a");
    assert_eq!(all[1].songs[0].added_at, all[1].created_at);
    assert_eq!(all[1].songs[0].youtube_id, "vid");
    assert!(matches!(all[1].source, Some(PlaylistSource::Local)));
}

#[test]
fn import_collection_refuses_foreign_files_and_other_versions() {
    let mut store = PlaylistStore::new();
    assert_eq!(
        store.import_collection(exported("x", Some(1), Some("wrong"))).unwrap_err(),
        "El archivo no es una playlist compatible con FESTEJAR."
    );
    assert_eq!(
        store.import_collection(exported("x", Some(2), Some("karaoke-playlist"))).unwrap_err(),
        "Version de playlist no soportada."
    );
    let mut legacy = exported("x", None, None);
    legacy.karaokenatin = Some("1".to_string());
    assert!(store.import_collection(legacy).is_ok());
    assert_eq!(store.get_all().len(), 1);
}

#[test]
fn export_collection_writes_the_karaoke_file() {
    let mut store = PlaylistStore::new();
    let id = store.create_collection("Mix".to_string(), CollectionVisibility::Public);
    let mut spotify = song("s", "", "Queen, David Bowie", 0);
    spotify.source = Some(SongSource::Spotify {
        playlist_id: Some("pl".to_string()),
        track_id: Some("tr".to_string()),
        url: None,
    });
    store.add_to_collection(&id, spotify);
    store.add_to_collection(&id, song("y", "vid", "  ", 185));
    let file = store.export_collection(&id).unwrap();
    assert_eq!(file.format, "karaoke-playlist");
    assert_eq!(file.version, 1);
    assert_eq!(file.generator, "FESTEJAR");
    assert_eq!(file.source.source_type, "local");
    assert_eq!(file.tracks[0].artists, vec!["Queen", "David Bowie"]);
    assert_eq!(file.tracks[0].duration_ms, None);
    assert_eq!(file.tracks[0].source.source_type, "spotify");
    assert_eq!(file.tracks[0].source.track_id.as_deref(), Some("tr"));
    assert!(file.tracks[1].artists.is_empty());
    assert_eq!(file.tracks[1].duration_ms, Some(185000));
    assert_eq!(file.tracks[1].source.source_type, "local");
    assert_eq!(store.export_collection("missing").unwrap_err(), "Collection not found");
}

#[test]
fn session_history_exports_once_per_new_song() {
    let mut history = SessionHistoryStore::new();
    assert!(history.export_current_session(1, "20240101-000000").is_none());
    history.record_song(&song("a", "vid", "Queen", 10));
    assert!(history.export_current_session(1, "20240101-000000").is_none());
    history.initialize("/tmp/sessions".to_string());
    let export = history.export_current_session(5, "20240101-120000").unwrap();
    assert_eq!(export.file_name, "karaoke-session-20240101-120000.karaoke.json");
    assert_eq!(export.document.kind, "session-history");
    assert_eq!(export.document.collection.name, "Session 20240101-120000");
    assert_eq!(export.document.session.song_count, 1);
    assert_eq!(export.document.session.exported_at, 5);
    let session_id = &export.document.session.id;
    assert_eq!(session_id.len(), 36);
    for (i, c) in session_id.chars().enumerate() {
        if i == 8 || i == 13 || i == 18 || i == 23 {
            assert_eq!(c, '-');
        } else {
            assert!(c.is_ascii_digit() || ('a'..='f').contains(&c));
        }
    }
    history.mark_exported(1);
    assert!(history.export_current_session(6, "x").is_none());
    history.record_song(&song("b", "vid2", "Queen", 10));
    assert!(history.export_current_session(7, "y").is_some());
    assert_eq!(history.get_all().len(), 2);
}

fn track(title: &str, artists: &[&str], video: Option<&str>, kind: ImportSourceType) -> ImportedTrack {
    ImportedTrack {
        title: title.to_string(),
        artists: artists.iter().map(|a| a.to_string()).collect(),
        duration_ms: Some(185500),
        source: ImportedTrackSource {
            source_type: kind,
            playlist_id: Some("pl".to_string()),
            track_id: Some("tr".to_string()),
            url: None,
        },
        youtube_video_id: video.map(|v| v.to_string()),
        resolution_status: ResolutionStatus::Unresolved,
    }
}

fn spotify_playlist() -> ImportedPlaylist {
    ImportedPlaylist {
        name: "Fiesta".to_string(),
        description: None,
        source: ImportedPlaylistSource {
            source_type: ImportSourceType::Spotify,
            playlist_id: Some("spotify123".to_string()),
            original_url: None,
        },
        imported_at: 42,
        tracks: vec![
            track("Houdini", &["Dua Lipa", "Kevin"], None, ImportSourceType::Spotify),
            track("Zombie", &[], Some("fJ9rUzIMcZQ"), ImportSourceType::Youtube),
        ],
    }
}

#[test]
fn imported_playlist_becomes_personal_collection() {
    let c = imported_playlist_to_collection(spotify_playlist(), Some("keep".to_string()));
    assert_eq!(c.id, "keep");
    assert_eq!(c.visibility, CollectionVisibility::Personal);
    assert!(matches!(c.source, Some(PlaylistSource::Spotify { ref playlist_id, ref original_url, imported_at: 42 }) if playlist_id == "spotify123" && original_url.is_empty()));
    assert_eq!(c.songs[0].artist, "Dua Lipa, Kevin");
    assert_eq!(c.songs[0].duration, 185);
    assert_eq!(c.songs[0].resolution_status, Some(ResolutionStatus::Unresolved));
    assert_eq!(c.songs[0].thumbnail_url, "");
    assert_eq!(c.songs[1].artist, "Unknown Artist");
    assert_eq!(c.songs[1].youtube_id, "fJ9rUzIMcZQ");
    assert_eq!(c.songs[1].thumbnail_url, "https://i.ytimg.com/vi/fJ9rUzIMcZQ/hqdefault.jpg");
    assert_eq!(c.songs[1].added_by, "Import");
    assert!(matches!(c.songs[1].source, Some(SongSource::Youtube { video_id: Some(ref v), .. }) if v == "fJ9rUzIMcZQ"));
}

#[test]
fn confirming_a_spotify_reimport_updates_or_refuses() {
    let mut store = PlaylistStore::new();
    let mut room = RoomState::new("room".to_string(), "host".to_string(), Vec::new());
    let first = confirm_playlist_import(&mut store, &mut room, spotify_playlist(), false).unwrap();
    assert_eq!(room.playlists.len(), 1);
    assert_eq!(
        confirm_playlist_import(&mut store, &mut room, spotify_playlist(), false).unwrap_err(),
        "Esta playlist ya esta importada."
    );
    let again = confirm_playlist_import(&mut store, &mut room, spotify_playlist(), true).unwrap();
    assert_eq!(first, again);
    assert_eq!(store.get_all().len(), 1);
}

#[test]
fn queueing_a_collection_queues_resolved_songs_only() {
    let mut store = PlaylistStore::new();
    let mut room = RoomState::new("room".to_string(), "host".to_string(), Vec::new());
    let mut history = SessionHistoryStore::new();
    let id = store.create_collection("Mix".to_string(), CollectionVisibility::Public);
    assert_eq!(
        playlist_queue_collection(&store, &mut room, &mut history, &id, None).unwrap_err(),
        "No hay canciones resueltas para encolar."
    );
    store.add_to_collection(&id, song("a", "vid1", "Queen", 10));
    store.add_to_collection(&id, song("b", "", "Queen", 10));
    store.add_to_collection(&id, song("c", "vid3", "Queen", 10));
    assert_eq!(playlist_queue_collection(&store, &mut room, &mut history, &id, None).unwrap(), 2);
    assert_eq!(room.player.current_song.as_ref().unwrap().youtube_id, "vid1");
    assert_eq!(room.queue.len(), 1);
    assert_eq!(room.queue[0].added_by, "Host");
    assert_eq!(history.get_all().len(), 2);
    assert_eq!(
        playlist_queue_collection(&store, &mut room, &mut history, "missing", None).unwrap_err(),
        "Collection not found"
    );
}

#[test]
fn resolving_a_song_keeps_its_original_details() {
    let mut store = PlaylistStore::new();
    let mut room = RoomState::new("room".to_string(), "host".to_string(), Vec::new());
    let id = store.create_collection("Mix".to_string(), CollectionVisibility::Public);
    let mut original = song("s1", "", "Queen", 200);
    original.original_title = Some("Radio Ga Ga".to_string());
    store.add_to_collection(&id, original);
    let result = SearchResult {
        id: "abcdefghijk".to_string(),
        title: "Queen - Radio Ga Ga (Karaoke)".to_string(),
        channel: "Sing King".to_string(),
        duration: "5:48".to_string(),
        thumbnail: "thumb".to_string(),
        url: "https://youtu.be/abcdefghijk".to_string(),
    };
    playlist_resolve_song(&mut store, &mut room, &id, "s1", result).unwrap();
    let resolved = &store.get_all()[0].songs[0];
    assert_eq!(resolved.id, "s1");
    assert_eq!(resolved.title, "Radio Ga Ga");
    assert_eq!(resolved.artist, "Queen");
    assert_eq!(resolved.duration, 200);
    assert_eq!(resolved.youtube_id, "abcdefghijk");
    assert_eq!(resolved.resolution_status, Some(ResolutionStatus::Resolved));
    assert_eq!(room.playlists.len(), 1);
}

#[test]
fn previews_count_complete_and_incomplete_tracks() {
    let preview = preview_text_playlist_import("Queen - Radio Ga Ga\nSome Title").unwrap();
    assert_eq!(preview.valid_track_count, 2);
    assert_eq!(preview.incomplete_track_count, 0);
    assert!(preview.existing_collection_id.is_none());
    assert!(preview_karaoke_json_playlist_import("{").is_err());
    let store = PlaylistStore::new();
    let err = preview_spotify_playlist_import(
        &store,
        "pl".to_string(),
        "https://open.spotify.com/embed/playlist/pl".to_string(),
        "<html></html>".to_string(),
    )
    .unwrap_err();
    assert!(err.contains("Spotify"));
}

#[test]
fn legacy_songs_become_the_default_playlist() {
    let c = legacy_default_collection(vec![song("a", "vid", "Queen", 10)]);
    assert_eq!(c.name, "Default Playlist");
    assert_eq!(c.visibility, CollectionVisibility::Public);
    assert_eq!(c.songs.len(), 1);
    assert!(matches!(c.source, Some(PlaylistSource::Local)));
}
