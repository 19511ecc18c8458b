use festejar::importer::{ImportSourceType, PlaylistImporter, TextPlaylistImporter};
use festejar::model::ResolutionStatus;

#[test]
fn text_importer_accepts_plain_lines_and_preserves_order() {
    let parsed = TextPlaylistImporter.import("Queen - Radio Ga Ga\r\nDua Lipa - Houdini\n  The Killers - Mr Brightside  ").unwrap();
    assert_eq!(parsed.tracks.len(), 3);
    assert_eq!(parsed.tracks[0].title, "Radio Ga Ga");
    assert_eq!(parsed.tracks[0].artists, vec!["Queen"]);
    assert_eq!(parsed.tracks[1].title, "Houdini");
    assert_eq!(parsed.tracks[2].resolution_status, ResolutionStatus::Unresolved);
}

#[test]
fn text_importer_accepts_youtube_video_urls() {
    let parsed = TextPlaylistImporter.import(
        "Queen - We Are The Champions | https://www.youtube.com/watch?v=04854XqcfCY\r\nhttps://youtu.be/fJ9rUzIMcZQ\nhttps://youtube.com/shorts/9bZkp7q19f0",
    ).unwrap();
    assert_eq!(parsed.tracks.len(), 3);
    assert_eq!(parsed.tracks[0].title, "We Are The Champions");
    assert_eq!(parsed.tracks[0].youtube_video_id.as_deref(), Some("04854XqcfCY"));
    assert_eq!(parsed.tracks[0].source.source_type, ImportSourceType::Youtube);
    assert_eq!(parsed.tracks[0].resolution_status, ResolutionStatus::Resolved);
    assert_eq!(parsed.tracks[1].youtube_video_id.as_deref(), Some("fJ9rUzIMcZQ"));
    assert_eq!(parsed.tracks[2].youtube_video_id.as_deref(), Some("9bZkp7q19f0"));
}

#[test]
fn text_importer_deduplicates_plain_text_and_youtube_ids() {
    let parsed = TextPlaylistImporter.import(
        "Queen - Radio Ga Ga\nqueen radio ga ga\nFirst | https://youtu.be/04854XqcfCY\nSecond | https://www.youtube.com/watch?v=04854XqcfCY",
    ).unwrap();
    assert_eq!(parsed.tracks.len(), 2);
    assert_eq!(parsed.tracks[0].title, "Radio Ga Ga");
    assert_eq!(parsed.tracks[1].youtube_video_id.as_deref(), Some("04854XqcfCY"));
}

#[test]
fn text_importer_rejects_youtube_playlist_urls() {
    let err = TextPlaylistImporter.import("https://www.youtube.com/playlist?list=PL123").unwrap_err();
    assert!(err.contains("playlist de YouTube"));
}

use festejar::commands::preview_karaoke_file_import;
use festejar::karaoke::{
    karaoke_playlist_from_file, KaraokeFile, KaraokeFileTrack, KaraokeFileTrackSource, KaraokeJsonImporter,
};
use festejar::spotify::{parse_spotify_playlist_id, SpotifyEmbedParser};

const SPOTIFY_FIXTURE: &str = r#"
    <html><head>
    <meta property="og:title" content="Fiesta" />
    <script id="__NEXT_DATA__" type="application/json">
    {
      "props": {
        "pageProps": {
          "state": {
            "data": {
              "entity": {
                "type": "playlist",
                "name": "Fiesta",
                "description": "Party songs",
                "tracks": [
                  {"id":"track1","name":"Houdini","artists":[{"name":"Dua Lipa"}],"duration_ms":185000},
                  {"id":"track2","name":"Don't Stop Me Now","artists":[{"name":"Queen"}],"duration_ms":209000},
                  {"id":"track3","name":"Mr. Brightside","artists":[{"name":"The Killers"}],"duration_ms":222000}
                ]
              }
            }
          }
        }
      }
    }
    </script></head></html>
"#;

const SPOTIFY_INCOMPLETE_FIXTURE: &str = r#"
    <script type="application/json">
    {"playlist":{"type":"playlist","name":"Partial","tracks":[
      {"id":"ok","name":"Zombie","artists":["The Cranberries"],"durationMs":306000},
      {"id":"bad","name":"","artists":[]}
    ]}}
    </script>
"#;

#[test]
fn spotify_playlist_url_valid() {
    assert_eq!(parse_spotify_playlist_id("https://open.spotify.com/playlist/ABC123").unwrap(), "ABC123");
    assert_eq!(parse_spotify_playlist_id("https://open.spotify.com/playlist/ABC123?si=xyz").unwrap(), "ABC123");
}

#[test]
fn spotify_playlist_url_rejects_non_playlist_and_fake_domain() {
    assert!(parse_spotify_playlist_id("https://open.spotify.com/track/ABC123").is_err());
    assert!(parse_spotify_playlist_id("https://open-spotify.example.com/playlist/ABC123").is_err());
}

#[test]
fn spotify_parser_extracts_playlist_and_ordered_tracks() {
    let parsed = SpotifyEmbedParser::new("playlist1", "https://open.spotify.com/playlist/playlist1")
        .parse(SPOTIFY_FIXTURE)
        .unwrap();
    assert_eq!(parsed.name, "Fiesta");
    assert_eq!(parsed.tracks.len(), 3);
    assert_eq!(parsed.tracks[0].title, "Houdini");
    assert_eq!(parsed.tracks[0].artists, vec!["Dua Lipa"]);
    assert_eq!(parsed.tracks[1].title, "Don't Stop Me Now");
    assert_eq!(parsed.tracks[2].duration_ms, Some(222000));
    assert_eq!(parsed.tracks[0].resolution_status, ResolutionStatus::Unresolved);
}

#[test]
fn spotify_parser_ignores_incomplete_tracks() {
    let parsed = SpotifyEmbedParser::new("playlist1", "https://open.spotify.com/playlist/playlist1")
        .parse(SPOTIFY_INCOMPLETE_FIXTURE)
        .unwrap();
    assert_eq!(parsed.tracks.len(), 1);
    assert_eq!(parsed.tracks[0].title, "Zombie");
}

#[test]
fn spotify_parser_returns_controlled_error_for_incompatible_html() {
    let err = SpotifyEmbedParser::new("playlist1", "https://open.spotify.com/playlist/playlist1")
        .parse("<html></html>")
        .unwrap_err();
    assert!(err.contains("Spotify"));
}

#[test]
fn karaoke_json_imports_version_one() {
    let parsed = KaraokeJsonImporter.import(r#"{
      "format": "karaoke-playlist",
      "version": 1,
      "generator": "FESTEJAR",
      "name": "Fiesta",
      "tracks": [
        {"title":"Zombie","artists":["The Cranberries"],"duration_ms":306000,"source":{"type":"spotify","track_id":null,"url":null}}
      ]
    }"#).unwrap();
    assert_eq!(parsed.name, "Fiesta");
    assert_eq!(parsed.tracks.len(), 1);
    assert_eq!(parsed.tracks[0].resolution_status, ResolutionStatus::Unresolved);
}

#[test]
fn karaoke_json_restores_youtube_source_as_resolved() {
    let parsed = KaraokeJsonImporter.import(r#"{
      "format": "karaoke-playlist",
      "version": 1,
      "name": "Videos",
      "tracks": [
        {"title":"Bohemian Rhapsody","artists":["Queen"],"duration_ms":354000,"source":{"type":"youtube","track_id":"fJ9rUzIMcZQ","url":"https://youtu.be/fJ9rUzIMcZQ"}}
      ]
    }"#).unwrap();
    assert_eq!(parsed.tracks[0].youtube_video_id.as_deref(), Some("fJ9rUzIMcZQ"));
    assert_eq!(parsed.tracks[0].source.source_type, ImportSourceType::Youtube);
    assert_eq!(parsed.tracks[0].resolution_status, ResolutionStatus::Resolved);
}

#[test]
fn karaoke_json_rejects_invalid_json_format_and_future_version() {
    assert!(KaraokeJsonImporter.import("not json").is_err());
    assert!(KaraokeJsonImporter.import(r#"{"format":"wrong","version":1,"name":"x","tracks":[]}"#).is_err());
    assert!(KaraokeJsonImporter.import(r#"{"format":"karaoke-playlist","version":99,"name":"x","tracks":[]}"#).is_err());
}

#[test]
fn karaoke_json_reads_records_written_as_lists() {
    let parsed = KaraokeJsonImporter.import(r#"["karaoke-playlist",1,"Fiesta"]"#).unwrap();
    assert_eq!(parsed.name, "Fiesta");
    assert_eq!(parsed.description, None);
    assert!(parsed.tracks.is_empty());

    let parsed = KaraokeJsonImporter
        .import(r#"["karaoke-playlist",1,"Mix",null,[["Zombie",["The Cranberries"],306000,["youtube","fJ9rUzIMcZQ"]],["Solo",["Artist"]]]]"#)
        .unwrap();
    assert_eq!(parsed.tracks.len(), 2);
    assert_eq!(parsed.tracks[0].duration_ms, Some(306000));
    assert_eq!(parsed.tracks[0].youtube_video_id.as_deref(), Some("fJ9rUzIMcZQ"));
    assert_eq!(parsed.tracks[0].resolution_status, ResolutionStatus::Resolved);
    assert_eq!(parsed.tracks[1].duration_ms, None);
    assert_eq!(parsed.tracks[1].source.source_type, ImportSourceType::Local);

    let incompatible = "El archivo no es una playlist compatible con FESTEJAR.";
    assert_eq!(KaraokeJsonImporter.import(r#"["karaoke-playlist"]"#).unwrap_err(), incompatible);
    assert_eq!(KaraokeJsonImporter.import(r#"["karaoke-playlist",1,"x",null,[],"extra"]"#).unwrap_err(), incompatible);
    assert_eq!(KaraokeJsonImporter.import(r#"["karaoke-playlist",2,"x"]"#).unwrap_err(), "Version de playlist no soportada.");
}

#[test]
fn karaoke_files_read_into_their_fields_are_imported() {
    let file = |version: u32, name: &str| KaraokeFile {
        format: "karaoke-playlist".to_string(),
        version,
        name: name.to_string(),
        description: Some("  Party  ".to_string()),
        tracks: vec![
            KaraokeFileTrack {
                title: "Zombie".to_string(),
                artists: vec!["The Cranberries".to_string(), " ".to_string()],
                duration_ms: Some(306000),
                source: Some(KaraokeFileTrackSource {
                    source_type: "youtube".to_string(),
                    track_id: Some("fJ9rUzIMcZQ".to_string()),
                    url: None,
                }),
            },
            KaraokeFileTrack { title: " ".to_string(), artists: vec!["A".to_string()], duration_ms: None, source: None },
        ],
    };
    let parsed = karaoke_playlist_from_file(Some(file(1, "Fiesta"))).unwrap();
    assert_eq!(parsed.name, "Fiesta");
    assert_eq!(parsed.description.as_deref(), Some("Party"));
    assert_eq!(parsed.tracks.len(), 1);
    assert_eq!(parsed.tracks[0].artists, vec!["The Cranberries"]);
    assert_eq!(parsed.tracks[0].resolution_status, ResolutionStatus::Resolved);
    let incompatible = "El archivo no es una playlist compatible con FESTEJAR.";
    assert_eq!(karaoke_playlist_from_file(None).unwrap_err(), incompatible);
    assert_eq!(karaoke_playlist_from_file(Some(file(1, "  "))).unwrap_err(), incompatible);
    assert_eq!(karaoke_playlist_from_file(Some(file(2, "x"))).unwrap_err(), "Version de playlist no soportada.");
    let preview = preview_karaoke_file_import(Some(file(1, "Fiesta"))).unwrap();
    assert_eq!(preview.valid_track_count, 1);
    assert_eq!(preview.existing_collection_id, None);
}
