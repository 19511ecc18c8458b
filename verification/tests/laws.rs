use festejar::commands::parse_duration_label;
use festejar::importer::{PlaylistImporter, TextPlaylistImporter};
use festejar::importer::ImportSourceType;
use festejar::karaoke::KaraokeJsonImporter;
use festejar::model::{CollectionVisibility, ResolutionStatus, Song, SongSource};
use festejar::spotify::SpotifyEmbedParser;
use festejar::store::{KaraokePlaylistFile, PlaylistStore};
use serde_json::Value;
use festejar::youtube::{format_duration_ms, unique_video_ids, video_id_batches};

#[test]
fn formatted_durations_read_back_as_whole_seconds() {
    for ms in [0u64, 999, 1_000, 65_000, 3_599_999, 3_600_000, 3_661_500, 86_399_000, 360_000_000] {
        assert_eq!(parse_duration_label(&format_duration_ms(ms)) as u64, ms / 1000);
    }
}

#[test]
fn pasted_text_never_repeats_a_video() {
    let parsed = TextPlaylistImporter
        .import("A | https://youtu.be/04854XqcfCY\nB | https://youtu.be/04854XqcfCY\nhttps://youtu.be/fJ9rUzIMcZQ")
        .unwrap();
    assert_eq!(parsed.tracks.len(), 2);
    assert_ne!(parsed.tracks[0].youtube_video_id, parsed.tracks[1].youtube_video_id);
}

#[test]
fn unique_ids_are_trimmed_distinct_and_not_blank() {
    let ids = vec![" a ".to_string(), "a".to_string(), "".to_string(), "b".to_string(), "  ".to_string()];
    assert_eq!(unique_video_ids(&ids), vec!["a".to_string(), "b".to_string()]);
}

#[test]
fn video_ids_are_sent_fifty_at_a_time() {
    let ids: Vec<String> = (0..120).map(|i| format!("v{i}")).collect();
    let batches = video_id_batches(&ids);
    assert_eq!(batches.len(), 3);
    assert_eq!(batches[0].split(',').count(), 50);
    assert_eq!(batches[2].split(',').count(), 20);
    assert!(batches[0].starts_with("v0,v1,"));
}

fn opt_str(map: &mut serde_json::Map<String, Value>, key: &str, v: &Option<String>) {
    if let Some(s) = v {
        map.insert(key.to_string(), Value::String(s.clone()));
    }
}

fn file_json(file: &KaraokePlaylistFile) -> String {
    let mut root = serde_json::Map::new();
    root.insert("format".to_string(), Value::String(file.format.clone()));
    root.insert("version".to_string(), Value::from(file.version));
    root.insert("generator".to_string(), Value::String(file.generator.clone()));
    root.insert("name".to_string(), Value::String(file.name.clone()));
    opt_str(&mut root, "description", &file.description);
    let mut source = serde_json::Map::new();
    source.insert("type".to_string(), Value::String(file.source.source_type.clone()));
    opt_str(&mut source, "playlist_id", &file.source.playlist_id);
    opt_str(&mut source, "original_url", &file.source.original_url);
    root.insert("source".to_string(), Value::Object(source));
    let mut tracks = Vec::new();
    for t in &file.tracks {
        let mut track = serde_json::Map::new();
        track.insert("title".to_string(), Value::String(t.title.clone()));
        track.insert(
            "artists".to_string(),
            Value::Array(t.artists.iter().map(|a| Value::String(a.clone())).collect()),
        );
        if let Some(ms) = t.duration_ms {
            track.insert("duration_ms".to_string(), Value::from(ms));
        }
        let mut src = serde_json::Map::new();
        src.insert("type".to_string(), Value::String(t.source.source_type.clone()));
        opt_str(&mut src, "playlist_id", &t.source.playlist_id);
        opt_str(&mut src, "track_id", &t.source.track_id);
        opt_str(&mut src, "url", &t.source.url);
        track.insert("source".to_string(), Value::Object(src));
        tracks.push(Value::Object(track));
    }
    root.insert("tracks".to_string(), Value::Array(tracks));
    serde_json::to_string_pretty(&Value::Object(root)).unwrap()
}

#[test]
fn an_exported_collection_reads_back_as_its_songs() {

    let song = |id: &str, title: &str, artist: &str, duration: u32, source: Option<SongSource>| Song {
        id: id.to_string(),
        youtube_id: String::new(),
        title: title.to_string(),
        artist: artist.to_string(),
        duration,
        original_title: None,
        original_artist: None,
        original_duration: None,
        thumbnail_url: String::new(),
        added_by: "Host".to_string(),
        added_at: 1,
        resolution_status: None,
        source,
    };
    let mut store = PlaylistStore::new();
    let id = store.create_collection("Fiesta".to_string(), CollectionVisibility::Public);
    store.add_to_collection(
        &id,
        song(
            "a",
            "Bohemian Rhapsody",
            "Queen, David Bowie",
            354,
            Some(SongSource::Youtube {
                video_id: Some("fJ9rUzIMcZQ".to_string()),
                url: Some("https://youtu.be/fJ9rUzIMcZQ".to_string()),
            }),
        ),
    );
    store.add_to_collection(&id, song("b", "No artist", "  ", 100, None));
    store.add_to_collection(&id, song("c", "Local &amp; live", "Artist", 0, None));

    let file = store.export_collection(&id).unwrap();
    let playlist = KaraokeJsonImporter.import(&file_json(&file)).unwrap();
    assert_eq!(playlist.name, "Fiesta");
    assert_eq!(playlist.tracks.len(), 2);
    let first = &playlist.tracks[0];
    assert_eq!(first.title, "Bohemian Rhapsody");
    assert_eq!(first.artists, vec!["Queen", "David Bowie"]);
    assert_eq!(first.duration_ms, Some(354_000));
    assert_eq!(first.source.source_type, ImportSourceType::Youtube);
    assert_eq!(first.youtube_video_id.as_deref(), Some("fJ9rUzIMcZQ"));
    assert_eq!(first.resolution_status, ResolutionStatus::Resolved);
    let second = &playlist.tracks[1];
    assert_eq!(second.title, "Local & live");
    assert_eq!(second.duration_ms, None);
    assert_eq!(second.source.source_type, ImportSourceType::Local);
    assert_eq!(second.resolution_status, ResolutionStatus::Unresolved);
}

#[test]
fn a_spotify_page_never_gives_the_same_track_twice() {
    let page = r#"<html><head><meta property="og:title" content="Fiesta" />
    <script type="application/json">
    {"tracks":[
      {"title":"Houdini","artists":[{"name":"Dua Lipa"}],"uri":"spotify:track:1"},
      {"title":"Houdini","artists":[{"name":"Dua Lipa"}],"uri":"spotify:track:1"},
      {"title":"Zombie","artists":[{"name":"The Cranberries"}],"uri":"spotify:track:2"}
    ]}
    </script>
    <script type="application/json">
    {"more":[{"title":"Zombie","artists":[{"name":"The Cranberries"}],"uri":"spotify:track:2"}]}
    </script></head></html>"#;
    let parsed = SpotifyEmbedParser::new("pl", "https://open.spotify.com/playlist/pl").parse(page).unwrap();
    assert_eq!(parsed.tracks.len(), 2);
    assert_eq!(parsed.tracks[0].title, "Houdini");
    assert_eq!(parsed.tracks[1].title, "Zombie");
}
