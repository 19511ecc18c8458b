use festejar::commands::{generate_join_token, generate_room_id, join_token_from};
use festejar::spotify::{embed_page_text, MAX_SPOTIFY_HTML_BYTES};
use festejar::youtube::cache_key;

const UNREADABLE: &str = "Spotify ha devuelto un formato que FESTEJAR no puede interpretar.";

#[test]
fn cache_key_lower_cases_the_search_text() {
    assert_eq!(cache_key("ABBA Karaoke", 10, true), "karaoke:abba karaoke:10");
    assert_eq!(cache_key("Ñandú ÉXITO", 5, false), "all:ñandú éxito:5");
}

#[test]
fn room_id_is_six_hex_digits_of_a_digest() {
    let id = generate_room_id();
    assert_eq!(id.len(), 6);
    assert!(id.chars().all(|c| c.is_ascii_hexdigit() && !c.is_ascii_uppercase()));
}

#[test]
fn join_token_drops_the_dashes_of_the_identifier() {
    assert_eq!(
        join_token_from("123e4567-e89b-12d3-a456-426614174000"),
        "123e4567e89b12d3a456426614174000"
    );
    let token = generate_join_token();
    assert_eq!(token.len(), 32);
    assert!(!token.contains('-'));
}

#[test]
fn embed_page_text_reads_utf8_and_refuses_the_rest() {
    assert_eq!(embed_page_text("<title>Fiesta ñ</title>".as_bytes().to_vec()).unwrap(), "<title>Fiesta ñ</title>");
    assert_eq!(embed_page_text(vec![0xff, 0xfe, 0x41]).unwrap_err(), UNREADABLE);
    assert_eq!(embed_page_text(vec![b'a'; MAX_SPOTIFY_HTML_BYTES + 1]).unwrap_err(), UNREADABLE);
}
