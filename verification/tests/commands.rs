use festejar::commands::{
    describe_io_error, extract_youtube_id, parse_duration_label, process_command,
    queue_song_if_embeddable, ClientCommand, CommandStep, PendingWork,
};
use festejar::model::{ResolutionStatus, Song, SongSource};
use festejar::room::RoomState;
use festejar::store::PlaylistStore;
use festejar::youtube::unplayable_video_message;

fn dummy_song(id: &str, youtube_id: &str) -> Song {
    Song {
        id: id.to_string(),
        youtube_id: youtube_id.to_string(),
        title: format!("title-{id}"),
        artist: "artist".to_string(),
        duration: 180,
        original_title: None,
        original_artist: None,
        original_duration: None,
        thumbnail_url: "thumb.jpg".to_string(),
        added_by: "Guest".to_string(),
        added_at: 1,
        resolution_status: Some(ResolutionStatus::Resolved),
        source: Some(SongSource::Youtube {
            video_id: Some(youtube_id.to_string()),
            url: None,
        }),
    }
}

fn room_state_with_current_song() -> RoomState {
    let mut room_state = RoomState::new("room".to_string(), "host".to_string(), Vec::new());
    room_state.player.current_song = Some(dummy_song("current", "currentid"));
    room_state
}

#[test]
fn test_queue_song_if_embeddable_adds_to_queue() {
    let mut room_state = room_state_with_current_song();
    let before_len = room_state.queue.len();

    queue_song_if_embeddable(&mut room_state, dummy_song("next", "abc123"), true)
        .expect("embeddable song should enter the queue");

    assert_eq!(room_state.queue.len(), before_len + 1);
    assert_eq!(room_state.queue[0].youtube_id, "abc123");
}

#[test]
fn test_queue_song_if_not_embeddable_leaves_queue_unchanged() {
    let mut room_state = room_state_with_current_song();
    let before_len = room_state.queue.len();

    let result = queue_song_if_embeddable(&mut room_state, dummy_song("bad", "blockedid"), false);

    assert_eq!(result, Err(unplayable_video_message()));
    assert_eq!(room_state.queue.len(), before_len);
    assert!(room_state.queue.iter().all(|song| song.youtube_id != "blockedid"));
}

#[test]
fn test_extract_youtube_id() {
    assert_eq!(
        extract_youtube_id("https://www.youtube.com/watch?v=dQw4w9WgXcQ"),
        Some("dQw4w9WgXcQ".to_string())
    );
    assert_eq!(
        extract_youtube_id("https://youtu.be/dQw4w9WgXcQ"),
        Some("dQw4w9WgXcQ".to_string())
    );
    assert_eq!(
        extract_youtube_id("dQw4w9WgXcQ"),
        Some("dQw4w9WgXcQ".to_string())
    );
}

#[test]
fn test_parse_duration_label() {
    assert_eq!(parse_duration_label("3:45"), 225);
    assert_eq!(parse_duration_label("1:02:03"), 3723);
    assert_eq!(parse_duration_label("Live"), 0);
}

#[test]
fn test_describe_io_error_includes_action_and_target() {
    let err = std::io::Error::new(std::io::ErrorKind::PermissionDenied, "denied");
    let msg = describe_io_error("open for writing", "content://example/doc", &err);
    assert!(msg.contains("open for writing"));
    assert!(msg.contains("content://example/doc"));
    assert!(msg.contains("denied"));
}

#[test]
fn extract_youtube_id_stops_at_other_parameters_and_refuses_other_text() {
    assert_eq!(
        extract_youtube_id("https://www.youtube.com/watch?v=abcdefghijk&t=42"),
        Some("abcdefghijk".to_string())
    );
    assert_eq!(
        extract_youtube_id("https://youtu.be/abcdefghijk?si=x"),
        Some("abcdefghijk".to_string())
    );
    assert_eq!(extract_youtube_id("not a link"), None);
    // Eleven characters but more than eleven bytes: not taken as an id.
    assert_eq!(extract_youtube_id("ñññññññññññ"), None);
}

#[test]
fn parse_duration_label_saturates_and_trims() {
    assert_eq!(parse_duration_label(" 2 : 05 "), 125);
    assert_eq!(parse_duration_label("4294967295:0"), u32::MAX);
    assert_eq!(parse_duration_label(""), 0);
}

#[test]
fn process_command_reports_unknown_songs_and_bad_links() {
    let mut room = RoomState::new("room".to_string(), "host".to_string(), Vec::new());
    let mut store = PlaylistStore::new();
    let r = process_command(&mut room, &mut store, ClientCommand::REMOVE_SONG { song_id: "nope".to_string() });
    assert!(matches!(r, CommandStep::Done(Err(ref e)) if e == "Song not found"));
    let r = process_command(
        &mut room,
        &mut store,
        ClientCommand::ADD_SONG { youtube_url: "nothing here".to_string(), added_by: None },
    );
    assert!(matches!(r, CommandStep::Done(Err(ref e)) if e == "Invalid YouTube URL"));
    let r = process_command(
        &mut room,
        &mut store,
        ClientCommand::ADD_SONG { youtube_url: "https://youtu.be/abcdefghijk".to_string(), added_by: None },
    );
    assert!(matches!(r, CommandStep::Pending(PendingWork::QueueVideo { ref youtube_id, .. }) if youtube_id == "abcdefghijk"));
}

#[test]
fn process_command_creates_and_syncs_collections() {
    let mut room = RoomState::new("room".to_string(), "host".to_string(), Vec::new());
    let mut store = PlaylistStore::new();
    let r = process_command(
        &mut room,
        &mut store,
        ClientCommand::CREATE_COLLECTION {
            name: "Party".to_string(),
            visibility: festejar::model::CollectionVisibility::Public,
        },
    );
    assert!(matches!(r, CommandStep::Done(Ok(()))));
    assert_eq!(store.get_all().len(), 1);
    assert_eq!(room.playlists.len(), 1);
    assert_eq!(room.playlists[0].name, "Party");
    let r = process_command(
        &mut room,
        &mut store,
        ClientCommand::DELETE_COLLECTION { collection_id: "missing".to_string() },
    );
    assert!(matches!(r, CommandStep::Done(Err(ref e)) if e == "Collection not found"));
}
