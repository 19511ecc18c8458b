use festejar::external::UrlParts;
use festejar::importer::{is_playlist_url, video_id_from_url};
use festejar::spotify::{is_spotify_origin, playlist_id_from_url};

fn url(host: &str, segments: &[&str], query: &[(&str, &str)]) -> UrlParts {
    UrlParts {
        scheme: "https".to_string(),
        host: Some(host.to_string()),
        segments: Some(segments.iter().map(|s| s.to_string()).collect()),
        query: query.iter().map(|(k, v)| (k.to_string(), v.to_string())).collect(),
    }
}

#[test]
fn video_ids_are_read_from_parsed_youtube_urls() {
    let watch = url("www.youtube.com", &["watch"], &[("t", "1"), ("v", "04854XqcfCY")]);
    assert_eq!(video_id_from_url(&watch).as_deref(), Some("04854XqcfCY"));
    assert_eq!(video_id_from_url(&url("youtu.be", &["fJ9rUzIMcZQ"], &[])).as_deref(), Some("fJ9rUzIMcZQ"));
    assert_eq!(video_id_from_url(&url("m.youtube.com", &["shorts", "9bZkp7q19f0"], &[])).as_deref(), Some("9bZkp7q19f0"));
    assert_eq!(video_id_from_url(&url("youtube.com", &["watch"], &[("v", "short")])), None);
    assert_eq!(video_id_from_url(&url("example.com", &["watch"], &[("v", "04854XqcfCY")])), None);
}

#[test]
fn playlist_urls_are_recognised_once_parsed() {
    assert!(is_playlist_url(&url("www.youtube.com", &["playlist"], &[("list", "PL123")])));
    assert!(is_playlist_url(&url("youtube.com", &["watch"], &[("list", "PL123")])));
    assert!(!is_playlist_url(&url("youtube.com", &["watch"], &[("v", "04854XqcfCY")])));
    assert!(!is_playlist_url(&url("example.com", &["playlist"], &[])));
}

#[test]
fn spotify_playlist_ids_are_read_from_parsed_urls() {
    let link = url("open.spotify.com", &["playlist", "ABC123"], &[("si", "xyz")]);
    assert!(is_spotify_origin(&link));
    assert_eq!(playlist_id_from_url(&link).as_deref(), Some("ABC123"));
    assert_eq!(playlist_id_from_url(&url("open.spotify.com", &["track", "ABC123"], &[])), None);
    assert_eq!(playlist_id_from_url(&url("open-spotify.example.com", &["playlist", "ABC123"], &[])), None);
    let mut plain = link;
    plain.scheme = "http".to_string();
    assert_eq!(playlist_id_from_url(&plain), None);
}
