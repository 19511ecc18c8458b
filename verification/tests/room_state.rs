use festejar::model::{
    CollectionVisibility, PlayerStatus, PlaylistCollection, PlaylistSource, ResolutionStatus, Song,
    SongSource,
};
use festejar::room::RoomState;
use festejar::store::PlaylistStore;

fn song(id: &str) -> Song {
    Song {
        id: id.to_string(),
        youtube_id: "abc123".to_string(),
        title: "Song".to_string(),
        artist: "Artist".to_string(),
        duration: 180,
        original_title: None,
        original_artist: None,
        original_duration: None,
        thumbnail_url: "thumb.jpg".to_string(),
        added_by: "Singer".to_string(),
        added_at: 0,
        resolution_status: Some(ResolutionStatus::Resolved),
        source: Some(SongSource::Youtube {
            video_id: Some("abc123".to_string()),
            url: None,
        }),
    }
}

fn imported_spotify_collection(id: &str, playlist_id: &str, name: &str) -> PlaylistCollection {
    PlaylistCollection {
        id: id.to_string(),
        name: name.to_string(),
        visibility: CollectionVisibility::Personal,
        songs: vec![song("song")],
        description: None,
        source: Some(PlaylistSource::Spotify {
            playlist_id: playlist_id.to_string(),
            original_url: format!("https://open.spotify.com/playlist/{playlist_id}"),
            imported_at: 1,
        }),
        created_at: 1,
        updated_at: 1,
    }
}

fn room() -> RoomState {
    RoomState::new("room".to_string(), "host".to_string(), Vec::new())
}

fn secs(bits: u64) -> f64 {
    f64::from_bits(bits)
}

#[test]
fn pause_without_a_current_song_keeps_player_idle() {
    let mut state = room();

    state.pause();

    assert!(matches!(state.player.status, PlayerStatus::Idle));
    assert!(state.player.current_song.is_none());
    assert_eq!(secs(state.player.current_time), 0.0);
    assert_eq!(secs(state.player.duration), 0.0);
}

#[test]
fn skip_song_with_auto_play_on_loads_next_song() {
    let mut state = room();
    state.player.current_song = Some(song("current"));
    state.queue.push(song("next"));

    state.skip_song(true);

    assert_eq!(state.player.current_song.as_ref().map(|song| song.id.as_str()), Some("next"));
    assert!(matches!(state.player.status, PlayerStatus::Loading));
    assert_eq!(secs(state.player.current_time), 0.0);
    assert_eq!(secs(state.player.duration), 0.0);
}

#[test]
fn skip_song_with_auto_play_off_cues_next_song_paused() {
    let mut state = room();
    state.player.current_song = Some(song("current"));
    state.queue.push(song("next"));

    state.skip_song(false);

    assert_eq!(state.player.current_song.as_ref().map(|song| song.id.as_str()), Some("next"));
    assert!(matches!(state.player.status, PlayerStatus::Paused));
    assert_eq!(secs(state.player.current_time), 0.0);
    assert_eq!(secs(state.player.duration), 0.0);
}

#[test]
fn skip_song_with_empty_queue_clears_player_regardless_of_auto_play() {
    let mut state = room();
    state.player.current_song = Some(song("current"));
    state.player.status = PlayerStatus::Playing;
    state.player.current_time = 42.0f64.to_bits();
    state.player.duration = 180.0f64.to_bits();

    state.skip_song(true);

    assert!(state.player.current_song.is_none());
    assert!(matches!(state.player.status, PlayerStatus::Idle));
    assert_eq!(secs(state.player.current_time), 0.0);
    assert_eq!(secs(state.player.duration), 0.0);
}

#[test]
fn playlist_store_detects_and_updates_spotify_reimport_without_duplicate() {
    let mut store = PlaylistStore::new();
    let first_id = store
        .upsert_imported_collection(imported_spotify_collection("local-1", "spotify123", "Fiesta"), false)
        .unwrap();
    assert_eq!(first_id, "local-1");
    assert_eq!(store.get_all().len(), 1);
    assert_eq!(
        store.upsert_imported_collection(imported_spotify_collection("local-2", "spotify123", "Fiesta 2"), false).unwrap_err(),
        "Esta playlist ya esta importada."
    );
    let updated_id = store
        .upsert_imported_collection(imported_spotify_collection("local-2", "spotify123", "Fiesta Updated"), true)
        .unwrap();
    let all = store.get_all();
    assert_eq!(updated_id, "local-1");
    assert_eq!(all.len(), 1);
    assert_eq!(all[0].name, "Fiesta Updated");
}

#[test]
fn playlist_store_replaces_song_in_place() {
    let mut store = PlaylistStore::new();
    let collection_id = store.create_collection("Songs".to_string(), CollectionVisibility::Personal);
    let original = Song {
        id: "song-1".to_string(),
        youtube_id: String::new(),
        title: "Unresolved".to_string(),
        artist: "Artist".to_string(),
        duration: 0,
        original_title: Some("Unresolved".to_string()),
        original_artist: Some("Artist".to_string()),
        original_duration: Some(0),
        thumbnail_url: String::new(),
        added_by: "Import".to_string(),
        added_at: 10,
        resolution_status: Some(ResolutionStatus::Unresolved),
        source: Some(SongSource::Local),
    };
    store.add_to_collection(&collection_id, original);

    let mut resolved = song("replacement");
    resolved.youtube_id = "resolvedid".to_string();
    assert!(store.replace_song_in_collection(&collection_id, "song-1", resolved));
    let all = store.get_all();
    assert_eq!(all[0].songs[0].id, "song-1");
    assert_eq!(all[0].songs[0].youtube_id, "resolvedid");
    assert_eq!(all[0].songs[0].added_at, 10);
}

#[test]
fn playlist_store_moves_songs_between_collections() {
    let mut store = PlaylistStore::new();
    let source_id = store.create_collection("Source".to_string(), CollectionVisibility::Personal);
    let target_id = store.create_collection("Target".to_string(), CollectionVisibility::Personal);
    store.add_to_collection(&source_id, song("song-a"));
    store.add_to_collection(&source_id, song("song-b"));

    assert!(store.move_songs_to_collection(&source_id, &target_id, &["song-a".to_string()]));
    let all = store.get_all();
    let source = all.iter().find(|collection| collection.id == source_id).unwrap();
    let target = all.iter().find(|collection| collection.id == target_id).unwrap();
    assert_eq!(source.songs.iter().map(|song| song.id.as_str()).collect::<Vec<_>>(), vec!["song-b"]);
    assert_eq!(target.songs.iter().map(|song| song.id.as_str()).collect::<Vec<_>>(), vec!["song-a"]);
}

#[test]
fn player_update_cannot_leave_playing_state_without_a_song() {
    let mut state = room();

    state.update_player(Some(PlayerStatus::Paused), Some(42.0f64.to_bits()), Some(180.0f64.to_bits()));

    assert!(matches!(state.player.status, PlayerStatus::Idle));
    assert_eq!(secs(state.player.current_time), 0.0);
    assert_eq!(secs(state.player.duration), 0.0);
}

#[test]
fn play_from_queue_resets_stale_player_clock() {
    let mut state = room();
    state.player.current_time = 99.0f64.to_bits();
    state.player.duration = 240.0f64.to_bits();
    state.queue.push(song("queued"));

    state.play();

    assert!(matches!(state.player.status, PlayerStatus::Loading));
    assert_eq!(state.player.current_song.as_ref().map(|s| s.id.as_str()), Some("queued"));
    assert_eq!(secs(state.player.current_time), 0.0);
    assert_eq!(secs(state.player.duration), 0.0);
}

#[test]
fn removing_the_current_song_stops_the_player_without_skipping() {
    let mut state = room();
    state.player.current_song = Some(song("current"));
    state.player.status = PlayerStatus::Playing;
    state.player.current_time = 77.0f64.to_bits();
    state.player.duration = 180.0f64.to_bits();
    state.queue.push(song("next"));

    assert!(state.remove_song("current"));

    assert!(matches!(state.player.status, PlayerStatus::Idle));
    assert!(state.player.current_song.is_none());
    assert_eq!(secs(state.player.current_time), 0.0);
    assert_eq!(secs(state.player.duration), 0.0);
    assert_eq!(state.queue.len(), 1);
    assert_eq!(state.queue[0].id, "next");
}

#[test]
fn stop_if_current_youtube_id_stops_matching_loaded_video() {
    let mut state = room();
    let mut current = song("current");
    current.youtube_id = "same-video".to_string();
    state.player.current_song = Some(current);
    state.player.status = PlayerStatus::Playing;
    state.player.current_time = 33.0f64.to_bits();
    state.player.duration = 180.0f64.to_bits();

    assert!(state.stop_if_current_youtube_id("same-video"));

    assert!(matches!(state.player.status, PlayerStatus::Idle));
    assert!(state.player.current_song.is_none());
    assert_eq!(secs(state.player.current_time), 0.0);
    assert_eq!(secs(state.player.duration), 0.0);
}

#[test]
fn shutting_down_host_session_clears_player_and_queue() {
    let mut state = room();
    state.add_song(song("current"));
    state.add_song(song("queued"));
    state.player.status = PlayerStatus::Playing;
    state.player.current_time = 42.0f64.to_bits();
    state.player.duration = 180.0f64.to_bits();

    state.shutdown_host_session();

    assert!(state.player.current_song.is_none());
    assert!(state.queue.is_empty());
    assert!(state.connected_clients.is_empty());
    assert!(matches!(state.player.status, PlayerStatus::Idle));
    assert_eq!(secs(state.player.current_time), 0.0);
    assert_eq!(secs(state.player.duration), 0.0);
}
