//! Spotify playlists: share links, and the embed page that holds the
//! tracks.
use vstd::prelude::*;
use crate::external::{now_millis, parse_url, url_parse, UrlModel};
use crate::importer::{
    contains_text, opt_view, track_models, ImportSourceType, ImportedPlaylist,
    ImportedPlaylistSource, ImportedTrack, ImportedTrackSource, PlaylistImporter, TrackModel,
};
use crate::json::{field, field_exec, json_parse, opt_deref, parse_json, views_of, JsonValue};
use crate::karaoke::{clean_names, clean_names_exec};
use crate::model::ResolutionStatus;
use crate::text::{
    chars_of, clean, contains_seq, decode_entities, split_char, decode_entities_chars, find_in, find_index,
    is_ascii_alnum, lit, opt_int, replace_all, replace_chars, rfind_in, rfind_index, slice_chars,
    string_of, trim_ws, trim_ws_chars,
};

verus! {

// ------------------------------------------------------------------
// Share links
// ------------------------------------------------------------------
/// A Spotify id: 1 to 128 characters, each an ASCII letter or digit.
pub open spec fn valid_spotify_id(s: Seq<char>) -> bool {
    0 < s.len() <= 128 && forall|i: int| 0 <= i < s.len() ==> is_ascii_alnum(#[trigger] s[i])
}

/// Whether a text is a Spotify id (`is_valid_spotify_id`).
pub fn is_valid_spotify_id(value: &str) -> (r: bool)
    ensures
        r == valid_spotify_id(value@),
{
    let v = chars_of(value);
    if v.len() == 0 || v.len() > 128 {
        return false;
    }
    let mut i: usize = 0;
    while i < v.len()
        invariant
            i <= v.len(),
            v@ == value@,
            forall|j: int| 0 <= j < i ==> is_ascii_alnum(#[trigger] v@[j]),
        decreases v.len() - i,
    {
        if !crate::text::char_is_ascii_alnum(v[i]) {
            return false;
        }
        i = i + 1;
    }
    true
}

/// The message for a link that is not a Spotify playlist link.
pub open spec fn not_playlist_link_message() -> Seq<char> {
    "No parece una URL de playlist de Spotify."@
}

/// A parsed URL is on `https://open.spotify.com`.
pub open spec fn on_spotify(u: UrlModel) -> bool {
    u.scheme == "https"@ && u.host == Some("open.spotify.com"@)
}

/// The playlist id of a parsed share link: exactly the path
/// `/playlist/ID` with a well-formed id.
pub open spec fn playlist_id_of(u: UrlModel) -> Option<Seq<char>> {
    if on_spotify(u) {
        match u.segments {
            Some(sg) => if sg.len() == 2 && sg[0] == "playlist"@ && valid_spotify_id(sg[1]) {
                Some(sg[1])
            } else {
                None
            },
            None => None,
        }
    } else {
        None
    }
}

/// The playlist id that a share link names, once trimmed and parsed.
pub open spec fn spotify_playlist_id(input: Seq<char>) -> Option<Seq<char>> {
    match url_parse(trim_ws(input)) {
        Some(u) => playlist_id_of(u),
        None => None,
    }
}

/// The playlist id of a Spotify share link (`parse_spotify_playlist_id`).
pub fn parse_spotify_playlist_id(input: &str) -> (r: Result<String, String>)
    ensures
        match spotify_playlist_id(input@) {
            Some(id) => r matches Ok(s) && s@ == id,
            None => r matches Err(e) && e@ == not_playlist_link_message(),
        },
{
    let t = crate::text::trim_str(input);
    let ts = string_of(&t);
    match parse_url(ts.as_str()) {
        Some(u) => match playlist_id_from_url(&u) {
            Some(id) => Ok(id),
            None => Err(crate::text::owned("No parece una URL de playlist de Spotify.")),
        },
        None => Err(crate::text::owned("No parece una URL de playlist de Spotify.")),
    }
}

/// The playlist id of a parsed share link.
pub fn playlist_id_from_url(u: &crate::external::UrlParts) -> (r: Option<String>)
    ensures
        opt_view(r) == playlist_id_of(u@),
{
    if !is_spotify_origin(u) {
        return None;
    }
    match &u.segments {
        Some(sg) => {
            if sg.len() == 2 && crate::text::same_text(sg[0].as_str(), "playlist")
                && is_valid_spotify_id(sg[1].as_str()) {
                proof {
                    reveal_strlit("playlist");
                    assert(u@.segments->0[0] == sg@[0]@);
                    assert(u@.segments->0[1] == sg@[1]@);
                }
                Some(sg[1].clone())
            } else {
                proof {
                    if sg@.len() == 2 {
                        assert(u@.segments->0[0] == sg@[0]@);
                        assert(u@.segments->0[1] == sg@[1]@);
                    }
                }
                None
            }
        },
        None => None,
    }
}

/// Whether a parsed URL is on `https://open.spotify.com`.
pub fn is_spotify_origin(u: &crate::external::UrlParts) -> (r: bool)
    ensures
        r == on_spotify(u@),
{
    if !crate::text::same_text(u.scheme.as_str(), "https") {
        return false;
    }
    match &u.host {
        Some(h) => crate::text::same_text(h.as_str(), "open.spotify.com"),
        None => false,
    }
}

/// The message for a playlist that its share link does not open.
pub open spec fn not_accessible_message() -> Seq<char> {
    "No se puede acceder a esta playlist mediante el enlace compartido."@
}

/// Checks that the page an embed request ended on is still on
/// `https://open.spotify.com` (`validate_spotify_embed_url`).
pub fn validate_spotify_embed_url(url: &str) -> (r: Result<(), String>)
    ensures
        match url_parse(url@) {
            Some(u) => if on_spotify(u) {
                r is Ok
            } else {
                r matches Err(e) && e@ == not_accessible_message()
            },
            None => r matches Err(e) && e@ == not_accessible_message(),
        },
{
    match parse_url(url) {
        Some(u) => if is_spotify_origin(&u) {
            Ok(())
        } else {
            Err(crate::text::owned("No se puede acceder a esta playlist mediante el enlace compartido."))
        },
        None => Err(crate::text::owned("No se puede acceder a esta playlist mediante el enlace compartido.")),
    }
}

/// The embed page of a playlist.
pub open spec fn embed_url(id: Seq<char>) -> Seq<char> {
    "https://open.spotify.com/embed/playlist/"@ + id
}

/// The address of the embed page of a playlist.
pub fn spotify_embed_url(playlist_id: &str) -> (r: String)
    ensures
        r@ == embed_url(playlist_id@),
{
    let mut v = lit("https://open.spotify.com/embed/playlist/");
    let id = chars_of(playlist_id);
    crate::text::append_chars(&mut v, &id);
    string_of(&v)
}

// ------------------------------------------------------------------
// Reading the embed page's HTML
// ------------------------------------------------------------------
/// The value of the attribute `attr="..."` that first occurs in `input`,
/// with its entities decoded.
pub open spec fn attr_value(input: Seq<char>, attr: Seq<char>) -> Option<Seq<char>> {
    let needle = attr + "=\""@;
    match find_index(input, needle) {
        None => None,
        Some(p) => {
            let start = p + needle.len();
            match find_index(input.skip(start), "\""@) {
                None => None,
                Some(q) => Some(decode_entities(input.subrange(start, start + q))),
            }
        },
    }
}

/// Reads the value of an attribute (`extract_attr`).
pub fn extract_attr(input: &Vec<char>, attr: &str) -> (r: Option<Vec<char>>)
    ensures
        match attr_value(input@, attr@) {
            Some(v) => r matches Some(x) && x@ == v,
            None => r is None,
        },
{
    let mut needle = chars_of(attr);
    needle.push('=');
    needle.push('"');
    proof {
        reveal_strlit("=\"");
        reveal_strlit("\"");
        assert(needle@ =~= attr@ + "=\""@);
    }
    let p = match find_in(input, &needle) {
        Some(p) => p,
        None => {
            return None;
        },
    };
    let n = input.len();
    assert(p + needle@.len() <= n);
    let start = p + needle.len();
    let rest = slice_chars(input, start, input.len());
    assert(rest@ =~= input@.skip(start as int));
    let quote = lit("\"");
    let q = match find_in(&rest, &quote) {
        Some(q) => q,
        None => {
            return None;
        },
    };
    let raw = slice_chars(input, start, start + q);
    Some(decode_entities_chars(&raw))
}

/// One attempt of `meta_content` with one needle: `None` ends the search
/// with nothing, `Some(None)` goes on with the next needle.
pub open spec fn meta_attempt(html: Seq<char>, needle: Seq<char>) -> Option<Option<Seq<char>>> {
    match find_index(html, needle) {
        None => Some(None),
        Some(pos) => {
            let start = match rfind_index(html.take(pos), "<meta"@) {
                Some(s) => s,
                None => pos,
            };
            match find_index(html.skip(pos), ">"@) {
                None => None,
                Some(i) => Some(attr_value(html.subrange(start, pos + i), "content"@)),
            }
        },
    }
}

/// The `content` of the `<meta>` tag whose `property` (or else `name`) is
/// `property`.
pub open spec fn meta_content(html: Seq<char>, property: Seq<char>) -> Option<Seq<char>> {
    let by_property = "property=\""@ + property + "\""@;
    let by_name = "name=\""@ + property + "\""@;
    match meta_attempt(html, by_property) {
        None => None,
        Some(Some(c)) => Some(c),
        Some(None) => match meta_attempt(html, by_name) {
            None => None,
            Some(c) => c,
        },
    }
}

fn meta_attempt_exec(html: &Vec<char>, needle: &Vec<char>) -> (r: Option<Option<Vec<char>>>)
    ensures
        match meta_attempt(html@, needle@) {
            None => r is None,
            Some(None) => r matches Some(None),
            Some(Some(c)) => r matches Some(Some(x)) && x@ == c,
        },
{
    proof {
        reveal_strlit("<meta");
        reveal_strlit(">");
        reveal_strlit("content");
    }
    let pos = match find_in(html, needle) {
        Some(p) => p,
        None => {
            return Some(None);
        },
    };
    let before = slice_chars(html, 0, pos);
    assert(before@ =~= html@.take(pos as int));
    let meta = lit("<meta");
    let start = match rfind_in(&before, &meta) {
        Some(s) => s,
        None => pos,
    };
    let after = slice_chars(html, pos, html.len());
    assert(after@ =~= html@.skip(pos as int));
    let gt = lit(">");
    let i = match find_in(&after, &gt) {
        Some(i) => i,
        None => {
            return None;
        },
    };
    let tag = slice_chars(html, start, pos + i);
    match extract_attr(&tag, "content") {
        Some(c) => Some(Some(c)),
        None => Some(None),
    }
}

/// Reads the content of a `<meta>` tag (`extract_meta_content`).
pub fn extract_meta_content(html: &Vec<char>, property: &str) -> (r: Option<Vec<char>>)
    ensures
        match meta_content(html@, property@) {
            Some(v) => r matches Some(x) && x@ == v,
            None => r is None,
        },
{
    proof {
        reveal_strlit("property=\"");
        reveal_strlit("name=\"");
        reveal_strlit("\"");
    }
    let p = chars_of(property);
    let mut by_property = lit("property=\"");
    crate::text::append_chars(&mut by_property, &p);
    by_property.push('"');
    assert(by_property@ =~= "property=\""@ + property@ + "\""@);
    match meta_attempt_exec(html, &by_property) {
        None => None,
        Some(Some(c)) => Some(c),
        Some(None) => {
            let mut by_name = lit("name=\"");
            crate::text::append_chars(&mut by_name, &p);
            by_name.push('"');
            assert(by_name@ =~= "name=\""@ + property@ + "\""@);
            match meta_attempt_exec(html, &by_name) {
                None => None,
                Some(c) => c,
            }
        },
    }
}

/// The text of the `<title>` tag, entities decoded, without ` | Spotify`.
pub open spec fn title_text(html: Seq<char>) -> Option<Seq<char>> {
    match find_index(html, "<title>"@) {
        None => None,
        Some(p) => {
            let start = p + 7;
            match find_index(html.skip(start), "</title>"@) {
                None => None,
                Some(q) => Some(
                    replace_all(decode_entities(html.subrange(start, start + q)), " | Spotify"@, ""@),
                ),
            }
        },
    }
}

/// Reads the page title (`extract_title`).
pub fn extract_title(html: &Vec<char>) -> (r: Option<Vec<char>>)
    ensures
        match title_text(html@) {
            Some(v) => r matches Some(x) && x@ == v,
            None => r is None,
        },
{
    proof {
        reveal_strlit("<title>");
        reveal_strlit("</title>");
        reveal_strlit(" | Spotify");
        reveal_strlit("");
    }
    let open = lit("<title>");
    let p = match find_in(html, &open) {
        Some(p) => p,
        None => {
            return None;
        },
    };
    assert(open@.len() == 7);
    let n = html.len();
    assert(p + open@.len() <= n);
    let start = p + 7;
    let rest = slice_chars(html, start, html.len());
    assert(rest@ =~= html@.skip(start as int));
    let close = lit("</title>");
    let q = match find_in(&rest, &close) {
        Some(q) => q,
        None => {
            return None;
        },
    };
    let raw = slice_chars(html, start, start + q);
    let decoded = decode_entities_chars(&raw);
    let pat = lit(" | Spotify");
    let empty = lit("");
    Some(replace_chars(&decoded, &pat, &empty))
}

/// The JSON script blocks of a page, in order: for each
/// `<script ...>...</script>` whose opening tag mentions `application/json`
/// or `__NEXT_DATA__`, its content, trimmed, entities decoded. The scan
/// stops at a tag that is not closed.
pub open spec fn script_blocks(s: Seq<char>) -> Seq<Seq<char>>
    decreases s.len(),
{
    match find_index(s, "<script"@) {
        None => Seq::empty(),
        Some(a) => match find_index(s.skip(a), ">"@) {
            None => Seq::empty(),
            Some(o) => {
                let cs = a + o + 1;
                match find_index(s.skip(cs), "</script>"@) {
                    None => Seq::empty(),
                    Some(c) => {
                        let ce = cs + c;
                        proof {
                            lemma_block_bounds(s, a, o, c);
                        }
                        let attrs = s.subrange(a, cs);
                        let tail = script_blocks(s.skip(ce + 9));
                        if contains_seq(attrs, "application/json"@) || contains_seq(
                            attrs,
                            "__NEXT_DATA__"@,
                        ) {
                            seq![decode_entities(trim_ws(s.subrange(cs, ce)))] + tail
                        } else {
                            tail
                        }
                    },
                }
            },
        },
    }
}

pub proof fn lemma_block_bounds(s: Seq<char>, a: int, o: int, c: int)
    requires
        find_index(s, "<script"@) == Some(a),
        find_index(s.skip(a), ">"@) == Some(o),
        find_index(s.skip(a + o + 1), "</script>"@) == Some(c),
    ensures
        0 <= a,
        0 <= o,
        0 <= c,
        a + o + 1 + c + 9 <= s.len(),
{
    reveal_strlit("<script");
    reveal_strlit(">");
    reveal_strlit("</script>");
    crate::text::lemma_find_index(s, "<script"@);
    crate::text::lemma_find_index(s.skip(a), ">"@);
    crate::text::lemma_find_index(s.skip(a + o + 1), "</script>"@);
}

/// Reads the JSON script blocks of a page (`extract_json_script_blocks`).
pub fn extract_json_script_blocks(html: &Vec<char>) -> (r: Vec<Vec<char>>)
    ensures
        crate::text::views(r@) == script_blocks(html@),
{
    proof {
        reveal_strlit("<script");
        reveal_strlit(">");
        reveal_strlit("</script>");
        reveal_strlit("application/json");
        reveal_strlit("__NEXT_DATA__");
    }
    let open = lit("<script");
    let gt = lit(">");
    let close = lit("</script>");
    let json_type = lit("application/json");
    let next_data = lit("__NEXT_DATA__");
    let mut blocks: Vec<Vec<char>> = Vec::new();
    let mut cursor: usize = 0;
    assert(html@.skip(0) =~= html@);
    loop
        invariant
            cursor <= html@.len(),
            open@ == "<script"@,
            gt@ == ">"@,
            close@ == "</script>"@,
            json_type@ == "application/json"@,
            next_data@ == "__NEXT_DATA__"@,
            script_blocks(html@) == crate::text::views(blocks@) + script_blocks(
                html@.skip(cursor as int),
            ),
        decreases html@.len() - cursor,
    {
        proof {
            reveal_strlit(">");
            reveal_strlit("</script>");
        }
        let s = slice_chars(html, cursor, html.len());
        let ghost sv = s@;
        assert(sv =~= html@.skip(cursor as int));
        let a = match find_in(&s, &open) {
            Some(a) => a,
            None => {
                assert(crate::text::views(blocks@) + Seq::<Seq<char>>::empty() =~= crate::text::views(blocks@));
                return blocks;
            },
        };
        let sa = slice_chars(&s, a, s.len());
        assert(sa@ =~= sv.skip(a as int));
        let o = match find_in(&sa, &gt) {
            Some(o) => o,
            None => {
                assert(crate::text::views(blocks@) + Seq::<Seq<char>>::empty() =~= crate::text::views(blocks@));
                return blocks;
            },
        };
        assert(gt@.len() == 1);
        assert(o + 1 <= sa@.len());
        assert(sa@.len() == s@.len() - a);
        let cs = a + o + 1;
        let sc = slice_chars(&s, cs, s.len());
        assert(sc@ =~= sv.skip(cs as int));
        let c = match find_in(&sc, &close) {
            Some(c) => c,
            None => {
                assert(crate::text::views(blocks@) + Seq::<Seq<char>>::empty() =~= crate::text::views(blocks@));
                return blocks;
            },
        };
        proof {
            lemma_block_bounds(sv, a as int, o as int, c as int);
        }
        let ce = cs + c;
        let attrs = slice_chars(&s, a, cs);
        let ghost before = blocks@;
        if crate::text::contains_chars(&attrs, &json_type) || crate::text::contains_chars(
            &attrs,
            &next_data,
        ) {
            let body = slice_chars(&s, cs, ce);
            let t = trim_ws_chars(&body);
            let d = decode_entities_chars(&t);
            blocks.push(d);
            assert(crate::text::views(blocks@) =~= crate::text::views(before).push(d@));
        }
        proof {
            assert(sv.skip(ce + 9) =~= html@.skip(cursor + ce + 9));
            assert(crate::text::views(before) + (seq![decode_entities(trim_ws(sv.subrange(cs as int, ce as int)))] + script_blocks(sv.skip(ce + 9))) =~= crate::text::views(before).push(decode_entities(trim_ws(sv.subrange(cs as int, ce as int)))) + script_blocks(sv.skip(ce + 9)));
        }
        cursor = cursor + ce + 9;
    }
}

/// A duration written `M:SS`, in milliseconds; any other shape gives none.
/// The arithmetic wraps at 32 bits as the release build does.
pub open spec fn duration_ms_of(input: Seq<char>) -> Option<u32> {
    let parts = crate::text::split_char(input, ':');
    if parts.len() == 2 {
        match (crate::text::parse_u32_spec(parts[0]), crate::text::parse_u32_spec(parts[1])) {
            (Some(m), Some(sec)) => Some(m.wrapping_mul(60).wrapping_add(sec).wrapping_mul(1000)),
            _ => None,
        }
    } else {
        None
    }
}

/// Reads a `M:SS` duration into milliseconds (`parse_duration_to_ms`).
pub fn parse_duration_to_ms(input: &Vec<char>) -> (r: Option<u32>)
    ensures
        r == duration_ms_of(input@),
{
    let parts = crate::text::split_chars(input, ':');
    if parts.len() == 2 {
        assert(crate::text::views(parts@)[0] == parts@[0]@);
        assert(crate::text::views(parts@)[1] == parts@[1]@);
        let m = match crate::text::parse_u32_chars(&parts[0]) {
            Some(m) => m,
            None => {
                return None;
            },
        };
        let sec = match crate::text::parse_u32_chars(&parts[1]) {
            Some(x) => x,
            None => {
                return None;
            },
        };
        Some(m.wrapping_mul(60).wrapping_add(sec).wrapping_mul(1000))
    } else {
        None
    }
}

// ------------------------------------------------------------------
// Tracks in the page's JSON
// ------------------------------------------------------------------
/// The member `key` of a value, when it is a string.
pub open spec fn str_member(v: JsonValue, key: Seq<char>) -> Option<Seq<char>> {
    match field(v, key) {
        Some(JsonValue::Str(s)) => Some(s@),
        _ => None,
    }
}

/// The first of two choices that is there.
pub open spec fn either(a: Option<Seq<char>>, b: Option<Seq<char>>) -> Option<Seq<char>> {
    match a {
        Some(x) => Some(x),
        None => b,
    }
}

/// The title of a JSON track: its string `name`, or else its string
/// `title`.
pub open spec fn title_of(v: JsonValue) -> Option<Seq<char>> {
    either(str_member(v, "name"@), str_member(v, "title"@))
}

/// The name that an item of an `artists` list gives: the string itself, or
/// the `name` or `title` of an object.
pub open spec fn artist_item_name(x: JsonValue) -> Option<Seq<char>> {
    match x {
        JsonValue::Str(s) => Some(s@),
        _ => title_of(x),
    }
}

/// The names that the items of an `artists` list give, in order.
pub open spec fn artist_item_names(items: Seq<JsonValue>) -> Seq<Seq<char>>
    decreases items.len(),
{
    if items.len() == 0 {
        Seq::empty()
    } else {
        let prev = artist_item_names(items.drop_last());
        match artist_item_name(items.last()) {
            Some(n) => prev.push(n),
            None => prev,
        }
    }
}

/// The artists of a JSON track: its `artists` list, or else its `artist`
/// or `subtitle` string split at commas; cleaned, without empty names.
pub open spec fn artist_names(v: JsonValue) -> Seq<Seq<char>> {
    match field(v, "artists"@) {
        Some(JsonValue::Array(items)) => clean_names(artist_item_names(items@)),
        _ => match either(str_member(v, "artist"@), str_member(v, "subtitle"@)) {
            Some(a) => clean_names(split_char(a, ',')),
            None => Seq::empty(),
        },
    }
}

/// A duration member: a number that fits in `u32`, or a `M:SS` string.
pub open spec fn numeric_member(v: Option<JsonValue>) -> Option<u32> {
    match v {
        Some(JsonValue::Number { unsigned: Some(n), .. }) => if n <= u32::MAX {
            Some(n as u32)
        } else {
            None
        },
        Some(JsonValue::Str(s)) => duration_ms_of(s@),
        _ => None,
    }
}

/// The text after a prefix, when the text starts with it.
pub open spec fn strip_prefix(s: Seq<char>, p: Seq<char>) -> Option<Seq<char>> {
    if crate::text::matches_at(s, 0, p) {
        Some(s.skip(p.len() as int))
    } else {
        None
    }
}

/// The Spotify id of a JSON track: `id`, else `trackId` or `track_id`,
/// else a `spotify:track:` `uri`.
pub open spec fn track_id_of(v: JsonValue) -> Option<Seq<char>> {
    either(
        str_member(v, "id"@),
        either(
            either(str_member(v, "trackId"@), str_member(v, "track_id"@)),
            match str_member(v, "uri"@) {
                Some(u) => strip_prefix(u, "spotify:track:"@),
                None => None,
            },
        ),
    )
}

/// The Spotify page of a track.
pub open spec fn track_page(id: Seq<char>) -> Seq<char> {
    "https://open.spotify.com/track/"@ + id
}

/// The imported track that a JSON value describes, if it has a title that
/// is not blank and an artist.
pub open spec fn track_of(v: JsonValue, playlist_id: Seq<char>) -> Option<TrackModel> {
    if !(v is Object) {
        None
    } else {
        match title_of(v) {
            None => None,
            Some(t) => {
                let artists = artist_names(v);
                if trim_ws(t).len() == 0 || artists.len() == 0 {
                    None
                } else {
                    let id = track_id_of(v);
                    Some(
                        TrackModel {
                            title: clean(t),
                            artists: artists,
                            duration_ms: match numeric_member(field(v, "duration_ms"@)) {
                                Some(d) => Some(d),
                                None => numeric_member(field(v, "durationMs"@)),
                            },
                            source_type: ImportSourceType::Spotify,
                            playlist_id: Some(playlist_id),
                            track_id: id,
                            url: either(
                                str_member(v, "url"@),
                                match id {
                                    Some(x) => Some(track_page(x)),
                                    None => None,
                                },
                            ),
                            youtube_video_id: None,
                            resolution_status: ResolutionStatus::Unresolved,
                        },
                    )
                }
            },
        }
    }
}

/// An object with a `name` or `title` and an `artists`, `artist` or
/// `subtitle` member.
pub open spec fn looks_like_track(v: JsonValue) -> bool {
    &&& v is Object
    &&& (field(v, "name"@) is Some || field(v, "title"@) is Some)
    &&& (field(v, "artists"@) is Some || field(v, "artist"@) is Some || field(v, "subtitle"@)
        is Some)
}

/// The tracks read so far and the keys that they were recorded under.
pub ghost struct Collected {
    pub tracks: Seq<TrackModel>,
    pub seen: Seq<Seq<char>>,
}

/// A text, or the empty text.
pub open spec fn or_empty(o: Option<Seq<char>>) -> Seq<char> {
    match o {
        Some(s) => s,
        None => Seq::empty(),
    }
}

/// Records the track of one item unless its key (`track_id|title`) was
/// seen.
pub open spec fn add_track(item: JsonValue, pid: Seq<char>, st: Collected) -> Collected {
    match track_of(item, pid) {
        None => st,
        Some(t) => {
            let key = or_empty(t.track_id) + "|"@ + t.title;
            if st.seen.contains(key) {
                st
            } else {
                Collected { tracks: st.tracks.push(t), seen: st.seen.push(key) }
            }
        },
    }
}

/// Records the tracks of a list of items, in order.
pub open spec fn add_tracks(items: Seq<JsonValue>, pid: Seq<char>, st: Collected) -> Collected
    decreases items.len(),
{
    if items.len() == 0 {
        st
    } else {
        add_tracks(items.drop_first(), pid, add_track(items[0], pid, st))
    }
}

/// Some item of the list looks like a track.
pub open spec fn any_track_like(items: Seq<JsonValue>) -> bool {
    exists|i: int| 0 <= i < items.len() && looks_like_track(#[trigger] items[i])
}

/// Walks a JSON value for tracks: a list in which some item looks like a
/// track is read as a list of tracks; any other list, and every object, is
/// searched member by member, in order.
pub open spec fn collect(v: JsonValue, pid: Seq<char>, st: Collected) -> Collected
    decreases v,
{
    match v {
        JsonValue::Array(items) => if any_track_like(items@) {
            add_tracks(items@, pid, st)
        } else {
            collect_items(items@, pid, st)
        },
        JsonValue::Object(es) => collect_entries(es@, pid, st),
        _ => st,
    }
}

pub open spec fn collect_items(items: Seq<JsonValue>, pid: Seq<char>, st: Collected) -> Collected
    decreases items,
{
    if items.len() == 0 {
        st
    } else {
        collect_items(items.drop_first(), pid, collect(items[0], pid, st))
    }
}

pub open spec fn collect_entries(es: Seq<(String, JsonValue)>, pid: Seq<char>, st: Collected) -> Collected
    decreases es,
{
    if es.len() == 0 {
        st
    } else {
        collect_entries(es.drop_first(), pid, collect(es[0].1, pid, st))
    }
}

/// The state of a walk, as a value.
pub open spec fn collected(out: Seq<ImportedTrack>, seen: Seq<Vec<char>>) -> Collected {
    Collected { tracks: track_models(out), seen: crate::text::views(seen) }
}

fn is_object(v: &JsonValue) -> (r: bool)
    ensures
        r == v is Object,
{
    match v {
        JsonValue::Object(_) => true,
        _ => false,
    }
}

/// Reads a string member (`string_field` with one key).
pub fn string_member(v: &JsonValue, key: &str) -> (r: Option<String>)
    ensures
        opt_view(r) == str_member(*v, key@),
{
    match field_exec(v, key) {
        Some(JsonValue::Str(s)) => Some(s.clone()),
        _ => None,
    }
}

fn either_exec(a: Option<String>, b: Option<String>) -> (r: Option<String>)
    ensures
        opt_view(r) == either(opt_view(a), opt_view(b)),
{
    match a {
        Some(x) => Some(x),
        None => b,
    }
}

fn title_from_value(v: &JsonValue) -> (r: Option<String>)
    ensures
        opt_view(r) == title_of(*v),
{
    proof {
        reveal_strlit("name");
        reveal_strlit("title");
    }
    let a = string_member(v, "name");
    let b = string_member(v, "title");
    either_exec(a, b)
}

/// Reads the artists of a JSON track (`artists_from_value`).
pub fn artists_from_value(v: &JsonValue) -> (r: Vec<String>)
    ensures
        views_of(r@) == artist_names(*v),
{
    proof {
        reveal_strlit("artists");
        reveal_strlit("artist");
        reveal_strlit("subtitle");
    }
    match field_exec(v, "artists") {
        Some(JsonValue::Array(items)) => {
            let mut names: Vec<String> = Vec::new();
            let mut i: usize = 0;
            while i < items.len()
                invariant
                    i <= items.len(),
                    views_of(names@) == artist_item_names(items@.take(i as int)),
                decreases items.len() - i,
            {
                proof {
                    assert(items@.take(i + 1).drop_last() =~= items@.take(i as int));
                    assert(items@.take(i + 1).last() == items@[i as int]);
                }
                let n = match &items[i] {
                    JsonValue::Str(s) => Some(s.clone()),
                    other => title_from_value(other),
                };
                match n {
                    Some(x) => {
                        let ghost before = names@;
                        names.push(x);
                        assert(views_of(names@) =~= views_of(before).push(x@));
                    },
                    None => {},
                }
                i = i + 1;
            }
            assert(items@.take(i as int) =~= items@);
            clean_names_exec(&names)
        },
        _ => {
            let a = string_member(v, "artist");
            let b = string_member(v, "subtitle");
            match either_exec(a, b) {
                Some(x) => {
                    let xc = chars_of(x.as_str());
                    let parts = crate::text::split_chars(&xc, ',');
                    let ps = crate::importer::strings_of(&parts);
                    assert(views_of(ps@) == crate::importer::string_views(ps@));
                    clean_names_exec(&ps)
                },
                None => {
                    let r: Vec<String> = Vec::new();
                    assert(views_of(r@) =~= Seq::<Seq<char>>::empty());
                    r
                },
            }
        },
    }
}

/// Reads a duration member (`numeric_field`).
pub fn numeric_field(v: Option<&JsonValue>) -> (r: Option<u32>)
    ensures
        r == numeric_member(opt_deref(v)),
{
    match v {
        Some(JsonValue::Number { unsigned: Some(n), .. }) => if *n <= 4294967295u64 {
            Some(*n as u32)
        } else {
            None
        },
        Some(JsonValue::Str(s)) => {
            let c = chars_of(s.as_str());
            parse_duration_to_ms(&c)
        },
        _ => None,
    }
}

fn strip_prefix_exec(s: &String, p: &str) -> (r: Option<String>)
    ensures
        opt_view(r) == strip_prefix(s@, p@),
{
    let sc = chars_of(s.as_str());
    let pc = chars_of(p);
    if crate::text::starts_with_chars(&sc, &pc) {
        let rest = slice_chars(&sc, pc.len(), sc.len());
        assert(rest@ =~= s@.skip(p@.len() as int));
        Some(string_of(&rest))
    } else {
        None
    }
}

/// Reads the track that a JSON value describes (`track_from_value`).
pub fn track_from_value(v: &JsonValue, playlist_id: &str) -> (r: Option<ImportedTrack>)
    ensures
        match r {
            Some(t) => track_of(*v, playlist_id@) == Some(t@),
            None => track_of(*v, playlist_id@) is None,
        },
{
    proof {
        reveal_strlit("id");
        reveal_strlit("trackId");
        reveal_strlit("track_id");
        reveal_strlit("uri");
        reveal_strlit("spotify:track:");
        reveal_strlit("url");
        reveal_strlit("duration_ms");
        reveal_strlit("durationMs");
        reveal_strlit("https://open.spotify.com/track/");
    }
    if !is_object(v) {
        return None;
    }
    let title = match title_from_value(v) {
        Some(t) => t,
        None => {
            return None;
        },
    };
    let artists = artists_from_value(v);
    if crate::text::is_blank(title.as_str()) || artists.len() == 0 {
        return None;
    }
    let by_uri = match string_member(v, "uri") {
        Some(u) => strip_prefix_exec(&u, "spotify:track:"),
        None => None,
    };
    let id_a = string_member(v, "trackId");
    let id_b = string_member(v, "track_id");
    let id_ab = either_exec(id_a, id_b);
    let id_rest = either_exec(id_ab, by_uri);
    let id = either_exec(string_member(v, "id"), id_rest);
    let page = match &id {
        Some(x) => {
            let mut c = lit("https://open.spotify.com/track/");
            let xc = chars_of(x.as_str());
            crate::text::append_chars(&mut c, &xc);
            Some(string_of(&c))
        },
        None => None,
    };
    let url = either_exec(string_member(v, "url"), page);
    let duration_ms = match numeric_field(field_exec(v, "duration_ms")) {
        Some(d) => Some(d),
        None => numeric_field(field_exec(v, "durationMs")),
    };
    Some(
        ImportedTrack {
            title: crate::text::clean_text(title.as_str()),
            artists,
            duration_ms,
            source: ImportedTrackSource {
                source_type: ImportSourceType::Spotify,
                playlist_id: Some(crate::text::owned(playlist_id)),
                track_id: id,
                url,
            },
            youtube_video_id: None,
            resolution_status: ResolutionStatus::Unresolved,
        },
    )
}

/// Whether a JSON value looks like a track (`looks_like_track_object`).
pub fn looks_like_track_object(v: &JsonValue) -> (r: bool)
    ensures
        r == looks_like_track(*v),
{
    proof {
        reveal_strlit("name");
        reveal_strlit("title");
        reveal_strlit("artists");
        reveal_strlit("artist");
        reveal_strlit("subtitle");
    }
    if !is_object(v) {
        return false;
    }
    (field_exec(v, "name").is_some() || field_exec(v, "title").is_some()) && (field_exec(
        v,
        "artists",
    ).is_some() || field_exec(v, "artist").is_some() || field_exec(v, "subtitle").is_some())
}

fn add_track_exec(
    item: &JsonValue,
    playlist_id: &str,
    out: &mut Vec<ImportedTrack>,
    seen: &mut Vec<Vec<char>>,
)
    ensures
        collected(final(out)@, final(seen)@) == add_track(
            *item,
            playlist_id@,
            collected(old(out)@, old(seen)@),
        ),
{
    proof {
        reveal_strlit("|");
    }
    match track_from_value(item, playlist_id) {
        None => {},
        Some(t) => {
            let mut key = match &t.source.track_id {
                Some(x) => chars_of(x.as_str()),
                None => Vec::new(),
            };
            key.push('|');
            let tc = chars_of(t.title.as_str());
            crate::text::append_chars(&mut key, &tc);
            assert(key@ =~= or_empty(t@.track_id) + "|"@ + t@.title);
            if !contains_text(seen, &key) {
                let ghost so = seen@;
                let ghost oo = out@;
                seen.push(key);
                out.push(t);
                assert(crate::text::views(seen@) =~= crate::text::views(so).push(key@));
                assert(track_models(out@) =~= track_models(oo).push(t@));
            }
        },
    }
}

/// Walks a JSON value for tracks (`collect_tracks_from_value`).
pub fn collect_tracks_from_value(
    v: &JsonValue,
    playlist_id: &str,
    out: &mut Vec<ImportedTrack>,
    seen: &mut Vec<Vec<char>>,
)
    ensures
        collected(final(out)@, final(seen)@) == collect(
            *v,
            playlist_id@,
            collected(old(out)@, old(seen)@),
        ),
    decreases v,
{
    let ghost st0 = collected(out@, seen@);
    match v {
        JsonValue::Array(items) => {
            let mut any = false;
            let mut k: usize = 0;
            while k < items.len()
                invariant
                    k <= items.len(),
                    any == exists|j: int| 0 <= j < k && looks_like_track(#[trigger] items@[j]),
                decreases items.len() - k,
            {
                if looks_like_track_object(&items[k]) {
                    any = true;
                }
                k = k + 1;
            }
            assert(any == any_track_like(items@));
            let mut i: usize = 0;
            assert(items@.skip(0) =~= items@);
            if any {
                while i < items.len()
                    invariant
                        i <= items.len(),
                        add_tracks(items@, playlist_id@, st0) == add_tracks(
                            items@.skip(i as int),
                            playlist_id@,
                            collected(out@, seen@),
                        ),
                    decreases items.len() - i,
                {
                    assert(items@.skip(i as int).drop_first() =~= items@.skip(i + 1));
                    assert(items@.skip(i as int)[0] == items@[i as int]);
                    add_track_exec(&items[i], playlist_id, out, seen);
                    i = i + 1;
                }
            } else {
                while i < items.len()
                    invariant
                        i <= items.len(),
                        collect_items(items@, playlist_id@, st0) == collect_items(
                            items@.skip(i as int),
                            playlist_id@,
                            collected(out@, seen@),
                        ),
                        *v == JsonValue::Array(*items),
                    decreases items.len() - i,
                {
                    assert(decreases_to!(*v => (*v)->Array_0));
                    assert(decreases_to!(*items => items@));
                    assert(decreases_to!(items@ => items@[i as int]));
                    assert(decreases_to!(*v => items@[i as int]));
                    assert(items@.skip(i as int).drop_first() =~= items@.skip(i + 1));
                    assert(items@.skip(i as int)[0] == items@[i as int]);
                    collect_tracks_from_value(&items[i], playlist_id, out, seen);
                    i = i + 1;
                }
            }
        },
        JsonValue::Object(es) => {
            let mut i: usize = 0;
            assert(es@.skip(0) =~= es@);
            while i < es.len()
                invariant
                    i <= es.len(),
                    collect_entries(es@, playlist_id@, st0) == collect_entries(
                        es@.skip(i as int),
                        playlist_id@,
                        collected(out@, seen@),
                    ),
                    *v == JsonValue::Object(*es),
                decreases es.len() - i,
            {
                assert(decreases_to!(*v => (*v)->Object_0));
                assert(decreases_to!(*es => es@));
                assert(decreases_to!(es@ => es@[i as int]));
                assert(decreases_to!(es@[i as int] => es@[i as int].1));
                assert(decreases_to!(*v => es@[i as int].1));
                assert(es@.skip(i as int).drop_first() =~= es@.skip(i + 1));
                assert(es@.skip(i as int)[0] == es@[i as int]);
                collect_tracks_from_value(&es[i].1, playlist_id, out, seen);
                i = i + 1;
            }
        },
        _ => {},
    }
}

// ------------------------------------------------------------------
// The playlist's name and description in the page's JSON
// ------------------------------------------------------------------
/// The playlist name in a JSON value: an object of `type` `playlist` gives
/// its `name` or `title`; otherwise its `playlist`, `entity` and `data`
/// members are searched, then every member in order; a list is searched
/// item by item.
pub open spec fn playlist_name(v: JsonValue) -> Option<Seq<char>>
    decreases v,
{
    match v {
        JsonValue::Object(es) => if str_member(v, "type"@) == Some("playlist"@) && title_of(v) is Some {
            title_of(v)
        } else {
            match name_under(es@, "playlist"@) {
                Some(n) => Some(n),
                None => match name_under(es@, "entity"@) {
                    Some(n) => Some(n),
                    None => match name_under(es@, "data"@) {
                        Some(n) => Some(n),
                        None => name_in_entries(es@),
                    },
                },
            }
        },
        JsonValue::Array(items) => name_in_items(items@),
        _ => None,
    }
}

/// The playlist name under the first member named `key`.
pub open spec fn name_under(es: Seq<(String, JsonValue)>, key: Seq<char>) -> Option<Seq<char>>
    decreases es,
{
    if es.len() == 0 {
        None
    } else if es[0].0@ == key {
        playlist_name(es[0].1)
    } else {
        name_under(es.drop_first(), key)
    }
}

pub open spec fn name_in_entries(es: Seq<(String, JsonValue)>) -> Option<Seq<char>>
    decreases es,
{
    if es.len() == 0 {
        None
    } else {
        match playlist_name(es[0].1) {
            Some(n) => Some(n),
            None => name_in_entries(es.drop_first()),
        }
    }
}

pub open spec fn name_in_items(items: Seq<JsonValue>) -> Option<Seq<char>>
    decreases items,
{
    if items.len() == 0 {
        None
    } else {
        match playlist_name(items[0]) {
            Some(n) => Some(n),
            None => name_in_items(items.drop_first()),
        }
    }
}

fn name_under_exec(v: &JsonValue, es: &Vec<(String, JsonValue)>, key: &str) -> (r: Option<String>)
    requires
        *v == JsonValue::Object(*es),
    ensures
        opt_view(r) == name_under(es@, key@),
    decreases v, 0nat,
{
    let mut i: usize = 0;
    assert(es@.skip(0) =~= es@);
    while i < es.len()
        invariant
            i <= es.len(),
            *v == JsonValue::Object(*es),
            name_under(es@, key@) == name_under(es@.skip(i as int), key@),
        decreases es.len() - i,
    {
        assert(es@.skip(i as int).drop_first() =~= es@.skip(i + 1));
        assert(es@.skip(i as int)[0] == es@[i as int]);
        if crate::text::same_text(es[i].0.as_str(), key) {
            assert(decreases_to!(*v => (*v)->Object_0));
            assert(decreases_to!(*es => es@));
            assert(decreases_to!(es@ => es@[i as int]));
            assert(decreases_to!(es@[i as int] => es@[i as int].1));
            return find_playlist_name(&es[i].1);
        }
        i = i + 1;
    }
    None
}

/// Searches a JSON value for the playlist name (`find_playlist_name`).
pub fn find_playlist_name(v: &JsonValue) -> (r: Option<String>)
    ensures
        opt_view(r) == playlist_name(*v),
    decreases v, 1nat,
{
    proof {
        reveal_strlit("type");
        reveal_strlit("playlist");
        reveal_strlit("entity");
        reveal_strlit("data");
    }
    match v {
        JsonValue::Object(es) => {
            let t = string_member(v, "type");
            let is_playlist = match &t {
                Some(x) => crate::text::same_text(x.as_str(), "playlist"),
                None => false,
            };
            if is_playlist {
                let name = title_from_value(v);
                if name.is_some() {
                    return name;
                }
            }
            let a = name_under_exec(v, es, "playlist");
            if a.is_some() {
                return a;
            }
            let b = name_under_exec(v, es, "entity");
            if b.is_some() {
                return b;
            }
            let c = name_under_exec(v, es, "data");
            if c.is_some() {
                return c;
            }
            let mut i: usize = 0;
            assert(es@.skip(0) =~= es@);
            assert(playlist_name(*v) == name_in_entries(es@));
            while i < es.len()
                invariant
                    i <= es.len(),
                    *v == JsonValue::Object(*es),
                    playlist_name(*v) == name_in_entries(es@),
                    name_in_entries(es@) == name_in_entries(es@.skip(i as int)),
                decreases es.len() - i,
            {
                assert(es@.skip(i as int).drop_first() =~= es@.skip(i + 1));
                assert(es@.skip(i as int)[0] == es@[i as int]);
                assert(decreases_to!(*v => (*v)->Object_0));
                assert(decreases_to!(*es => es@));
                assert(decreases_to!(es@ => es@[i as int]));
                assert(decreases_to!(es@[i as int] => es@[i as int].1));
                let found = find_playlist_name(&es[i].1);
                if found.is_some() {
                    return found;
                }
                i = i + 1;
            }
            None
        },
        JsonValue::Array(items) => {
            let mut i: usize = 0;
            assert(items@.skip(0) =~= items@);
            while i < items.len()
                invariant
                    i <= items.len(),
                    *v == JsonValue::Array(*items),
                    name_in_items(items@) == name_in_items(items@.skip(i as int)),
                decreases items.len() - i,
            {
                assert(items@.skip(i as int).drop_first() =~= items@.skip(i + 1));
                assert(items@.skip(i as int)[0] == items@[i as int]);
                assert(decreases_to!(*v => (*v)->Array_0));
                assert(decreases_to!(*items => items@));
                assert(decreases_to!(items@ => items@[i as int]));
                let found = find_playlist_name(&items[i]);
                if found.is_some() {
                    return found;
                }
                i = i + 1;
            }
            None
        },
        _ => None,
    }
}

/// The first string member named `key` in a JSON value: the object's own
/// member, else the first found in its members in order; a list is
/// searched item by item.
pub open spec fn string_key(v: JsonValue, key: Seq<char>) -> Option<Seq<char>>
    decreases v,
{
    match v {
        JsonValue::Object(es) => match str_member(v, key) {
            Some(s) => Some(s),
            None => key_in_entries(es@, key),
        },
        JsonValue::Array(items) => key_in_items(items@, key),
        _ => None,
    }
}

pub open spec fn key_in_entries(es: Seq<(String, JsonValue)>, key: Seq<char>) -> Option<Seq<char>>
    decreases es,
{
    if es.len() == 0 {
        None
    } else {
        match string_key(es[0].1, key) {
            Some(n) => Some(n),
            None => key_in_entries(es.drop_first(), key),
        }
    }
}

pub open spec fn key_in_items(items: Seq<JsonValue>, key: Seq<char>) -> Option<Seq<char>>
    decreases items,
{
    if items.len() == 0 {
        None
    } else {
        match string_key(items[0], key) {
            Some(n) => Some(n),
            None => key_in_items(items.drop_first(), key),
        }
    }
}

/// Searches a JSON value for a string member (`find_string_key`).
pub fn find_string_key(v: &JsonValue, key: &str) -> (r: Option<String>)
    ensures
        opt_view(r) == string_key(*v, key@),
    decreases v,
{
    match v {
        JsonValue::Object(es) => {
            let own = string_member(v, key);
            if own.is_some() {
                return own;
            }
            let mut i: usize = 0;
            assert(es@.skip(0) =~= es@);
            while i < es.len()
                invariant
                    i <= es.len(),
                    *v == JsonValue::Object(*es),
                    string_key(*v, key@) == key_in_entries(es@, key@),
                    key_in_entries(es@, key@) == key_in_entries(es@.skip(i as int), key@),
                decreases es.len() - i,
            {
                assert(es@.skip(i as int).drop_first() =~= es@.skip(i + 1));
                assert(es@.skip(i as int)[0] == es@[i as int]);
                assert(decreases_to!(*v => (*v)->Object_0));
                assert(decreases_to!(*es => es@));
                assert(decreases_to!(es@ => es@[i as int]));
                assert(decreases_to!(es@[i as int] => es@[i as int].1));
                let found = find_string_key(&es[i].1, key);
                if found.is_some() {
                    return found;
                }
                i = i + 1;
            }
            None
        },
        JsonValue::Array(items) => {
            let mut i: usize = 0;
            assert(items@.skip(0) =~= items@);
            while i < items.len()
                invariant
                    i <= items.len(),
                    *v == JsonValue::Array(*items),
                    key_in_items(items@, key@) == key_in_items(items@.skip(i as int), key@),
                decreases items.len() - i,
            {
                assert(items@.skip(i as int).drop_first() =~= items@.skip(i + 1));
                assert(items@.skip(i as int)[0] == items@[i as int]);
                assert(decreases_to!(*v => (*v)->Array_0));
                assert(decreases_to!(*items => items@));
                assert(decreases_to!(items@ => items@[i as int]));
                let found = find_string_key(&items[i], key);
                if found.is_some() {
                    return found;
                }
                i = i + 1;
            }
            None
        },
        _ => None,
    }
}

/// Reads a Spotify embed page fetched for a playlist.
#[derive(Debug)]
pub struct SpotifyPlaylistImporter {
    pub html: String,
    pub playlist_id: String,
    pub original_url: String,
}

impl SpotifyPlaylistImporter {
    pub fn new(html: String, playlist_id: String, original_url: String) -> (r: Self)
        ensures
            r.html == html,
            r.playlist_id == playlist_id,
            r.original_url == original_url,
    {
        SpotifyPlaylistImporter { html, playlist_id, original_url }
    }
}

/// Reads the tracks of a Spotify embed page.
#[derive(Debug)]
pub struct SpotifyEmbedParser<'a> {
    pub playlist_id: &'a str,
    pub original_url: &'a str,
}

impl<'a> SpotifyEmbedParser<'a> {
    pub fn new(playlist_id: &'a str, original_url: &'a str) -> (r: Self)
        ensures
            r.playlist_id == playlist_id,
            r.original_url == original_url,
    {
        SpotifyEmbedParser { playlist_id, original_url }
    }
}

// ------------------------------------------------------------------
// Tracks in the page's markup, when its JSON has none
// ------------------------------------------------------------------
/// One line of the markup: a line with `data-track-title` gives a track
/// when its title and artist are not blank and `title|artist` was not
/// seen.
pub open spec fn fallback_line(line: Seq<char>, pid: Seq<char>, st: Collected) -> Collected {
    if !contains_seq(line, "data-track-title"@) {
        st
    } else {
        let title = or_empty(attr_value(line, "data-track-title"@));
        let artist = or_empty(attr_value(line, "data-track-artist"@));
        if trim_ws(title).len() == 0 || trim_ws(artist).len() == 0 {
            st
        } else {
            let key = title + "|"@ + artist;
            if st.seen.contains(key) {
                st
            } else {
                Collected {
                    tracks: st.tracks.push(
                        TrackModel {
                            title: clean(title),
                            artists: clean_names(split_char(artist, ',')),
                            duration_ms: match attr_value(line, "data-duration-ms"@) {
                                Some(d) => crate::text::parse_u32_spec(d),
                                None => None,
                            },
                            source_type: ImportSourceType::Spotify,
                            playlist_id: Some(pid),
                            track_id: attr_value(line, "data-track-id"@),
                            url: attr_value(line, "data-track-url"@),
                            youtube_video_id: None,
                            resolution_status: ResolutionStatus::Unresolved,
                        },
                    ),
                    seen: st.seen.push(key),
                }
            }
        }
    }
}

/// The lines of the markup, in order.
pub open spec fn html_fallback(ls: Seq<Seq<char>>, pid: Seq<char>, st: Collected) -> Collected
    decreases ls.len(),
{
    if ls.len() == 0 {
        st
    } else {
        html_fallback(ls.drop_first(), pid, fallback_line(ls[0], pid, st))
    }
}

fn opt_string_of(o: &Option<Vec<char>>) -> (r: Option<String>)
    ensures
        opt_view(r) == (match o {
            Some(v) => Some(v@),
            None => None,
        }),
{
    match o {
        Some(v) => Some(string_of(v)),
        None => None,
    }
}

fn fallback_line_exec(
    line: &Vec<char>,
    playlist_id: &str,
    out: &mut Vec<ImportedTrack>,
    seen: &mut Vec<Vec<char>>,
)
    ensures
        collected(final(out)@, final(seen)@) == fallback_line(
            line@,
            playlist_id@,
            collected(old(out)@, old(seen)@),
        ),
{
    proof {
        reveal_strlit("data-track-title");
        reveal_strlit("data-track-artist");
        reveal_strlit("data-duration-ms");
        reveal_strlit("data-track-id");
        reveal_strlit("data-track-url");
        reveal_strlit("|");
    }
    let marker = lit("data-track-title");
    if !crate::text::contains_chars(line, &marker) {
        return;
    }
    let title = match extract_attr(line, "data-track-title") {
        Some(t) => t,
        None => Vec::new(),
    };
    let artist = match extract_attr(line, "data-track-artist") {
        Some(a) => a,
        None => Vec::new(),
    };
    assert(title@ == or_empty(attr_value(line@, "data-track-title"@)));
    assert(artist@ == or_empty(attr_value(line@, "data-track-artist"@)));
    let tt = trim_ws_chars(&title);
    let at = trim_ws_chars(&artist);
    if tt.len() == 0 || at.len() == 0 {
        return;
    }
    let mut key = title.clone();
    key.push('|');
    crate::text::append_chars(&mut key, &artist);
    assert(key@ =~= title@ + "|"@ + artist@);
    if contains_text(seen, &key) {
        return;
    }
    let parts = crate::text::split_chars(&artist, ',');
    let ps = crate::importer::strings_of(&parts);
    assert(views_of(ps@) == crate::importer::string_views(ps@));
    let artists = clean_names_exec(&ps);
    let duration_ms = match extract_attr(line, "data-duration-ms") {
        Some(d) => crate::text::parse_u32_chars(&d),
        None => None,
    };
    let track_id = extract_attr(line, "data-track-id");
    let url = extract_attr(line, "data-track-url");
    let t = ImportedTrack {
        title: string_of(&crate::text::clean_chars(&title)),
        artists,
        duration_ms,
        source: ImportedTrackSource {
            source_type: ImportSourceType::Spotify,
            playlist_id: Some(crate::text::owned(playlist_id)),
            track_id: opt_string_of(&track_id),
            url: opt_string_of(&url),
        },
        youtube_video_id: None,
        resolution_status: ResolutionStatus::Unresolved,
    };
    let ghost so = seen@;
    let ghost oo = out@;
    seen.push(key);
    out.push(t);
    assert(crate::text::views(seen@) =~= crate::text::views(so).push(key@));
    assert(track_models(out@) =~= track_models(oo).push(t@));
}

/// Reads tracks from the markup of a page
/// (`collect_tracks_from_html_fallback`).
pub fn collect_tracks_from_html_fallback(
    html: &Vec<char>,
    playlist_id: &str,
    out: &mut Vec<ImportedTrack>,
    seen: &mut Vec<Vec<char>>,
)
    ensures
        collected(final(out)@, final(seen)@) == html_fallback(
            crate::text::lines(html@),
            playlist_id@,
            collected(old(out)@, old(seen)@),
        ),
{
    let ls = crate::text::lines_of(html);
    let ghost all = crate::text::views(ls@);
    let ghost st0 = collected(out@, seen@);
    let mut i: usize = 0;
    assert(all.skip(0) =~= all);
    while i < ls.len()
        invariant
            i <= ls.len(),
            all == crate::text::views(ls@),
            html_fallback(all, playlist_id@, st0) == html_fallback(
                all.skip(i as int),
                playlist_id@,
                collected(out@, seen@),
            ),
        decreases ls.len() - i,
    {
        assert(all.skip(i as int).drop_first() =~= all.skip(i + 1));
        assert(all.skip(i as int)[0] == ls@[i as int]@);
        fallback_line_exec(&ls[i], playlist_id, out, seen);
        i = i + 1;
    }
    assert(all.skip(i as int) =~= Seq::<Seq<char>>::empty());
}

// ------------------------------------------------------------------
// The whole page
// ------------------------------------------------------------------
/// What reading the page's JSON blocks has found so far.
pub ghost struct Scan {
    pub name: Seq<char>,
    pub description: Option<Seq<char>>,
    pub st: Collected,
}

/// The name a playlist has until its JSON names it.
pub open spec fn placeholder_name() -> Seq<char> {
    "Spotify Playlist"@
}

/// One parsed block: it may name the playlist (while the name is the
/// placeholder), describe it (while there is no description), and it is
/// walked for tracks. A block that did not parse is skipped.
pub open spec fn scan_doc(doc: Option<JsonValue>, pid: Seq<char>, acc: Scan) -> Scan {
    match doc {
        None => acc,
        Some(v) => Scan {
            name: if acc.name == placeholder_name() {
                match playlist_name(v) {
                    Some(n) => n,
                    None => acc.name,
                }
            } else {
                acc.name
            },
            description: if acc.description is None {
                string_key(v, "description"@)
            } else {
                acc.description
            },
            st: collect(v, pid, acc.st),
        },
    }
}

/// The parsed blocks, in order.
pub open spec fn scan_docs(docs: Seq<Option<JsonValue>>, pid: Seq<char>, acc: Scan) -> Scan
    decreases docs.len(),
{
    if docs.len() == 0 {
        acc
    } else {
        scan_docs(docs.drop_first(), pid, scan_doc(docs[0], pid, acc))
    }
}

/// The message for a page that holds no track.
pub open spec fn unreadable_message() -> Seq<char> {
    "Spotify ha devuelto un formato que FESTEJAR no puede interpretar."@
}

/// What reading a page gives, from its markup and its parsed JSON blocks:
/// the error message, or the playlist's name, description and tracks.
/// The name starts as the `og:title` meta, else the page title, else the
/// placeholder; the description as the `og:description` meta. When the
/// JSON has no track, the markup is read line by line.
pub open spec fn spotify_import(html: Seq<char>, docs: Seq<Option<JsonValue>>, pid: Seq<char>) -> Result<
    (Seq<char>, Option<Seq<char>>, Seq<TrackModel>),
    Seq<char>,
> {
    let start = Scan {
        name: match meta_content(html, "og:title"@) {
            Some(t) => t,
            None => match title_text(html) {
                Some(t) => t,
                None => placeholder_name(),
            },
        },
        description: meta_content(html, "og:description"@),
        st: Collected { tracks: Seq::empty(), seen: Seq::empty() },
    };
    let acc = scan_docs(docs, pid, start);
    let st = if acc.st.tracks.len() == 0 {
        html_fallback(crate::text::lines(html), pid, acc.st)
    } else {
        acc.st
    };
    if st.tracks.len() == 0 {
        Err(unreadable_message())
    } else {
        Ok(
            (
                clean(acc.name),
                match acc.description {
                    Some(d) => if clean(d).len() > 0 {
                        Some(clean(d))
                    } else {
                        None
                    },
                    None => None,
                },
                st.tracks,
            ),
        )
    }
}

/// The playlist `p` is what `spotify_import` gives, from the playlist
/// `pid` shared at `url`.
pub open spec fn is_spotify_playlist(
    p: ImportedPlaylist,
    expected: (Seq<char>, Option<Seq<char>>, Seq<TrackModel>),
    pid: Seq<char>,
    url: Seq<char>,
) -> bool {
    &&& p.name@ == expected.0
    &&& opt_view(p.description) == expected.1
    &&& track_models(p.tracks@) == expected.2
    &&& p.source.source_type == ImportSourceType::Spotify
    &&& opt_view(p.source.playlist_id) == Some(pid)
    &&& opt_view(p.source.original_url) == Some(url)
}

/// The JSON documents of the blocks of a page, as parsed.
pub open spec fn parsed_blocks(html: Seq<char>) -> Seq<Option<JsonValue>> {
    script_blocks(html).map_values(|b: Seq<char>| json_parse(b))
}

impl<'a> SpotifyEmbedParser<'a> {
    /// Reads a page whose JSON blocks were parsed into `docs` (`parse`
    /// after the parses).
    pub fn parse_documents(&self, html: &str, docs: Vec<Option<JsonValue>>) -> (r: Result<
        ImportedPlaylist,
        String,
    >)
        ensures
            match spotify_import(html@, docs@, self.playlist_id@) {
                Err(m) => r matches Err(e) && e@ == m,
                Ok(expected) => r matches Ok(p) && is_spotify_playlist(
                    p,
                    expected,
                    self.playlist_id@,
                    self.original_url@,
                ),
            },
    {
        proof {
            reveal_strlit("og:title");
            reveal_strlit("og:description");
            reveal_strlit("Spotify Playlist");
            reveal_strlit("description");
        }
        let h = chars_of(html);
        let mut name: String = match extract_meta_content(&h, "og:title") {
            Some(t) => string_of(&t),
            None => match extract_title(&h) {
                Some(t) => string_of(&t),
                None => crate::text::owned("Spotify Playlist"),
            },
        };
        let mut description: Option<String> = match extract_meta_content(&h, "og:description") {
            Some(d) => Some(string_of(&d)),
            None => None,
        };
        let mut tracks: Vec<ImportedTrack> = Vec::new();
        let mut seen: Vec<Vec<char>> = Vec::new();
        let ghost start = Scan {
            name: name@,
            description: opt_view(description),
            st: collected(tracks@, seen@),
        };
        assert(track_models(tracks@) =~= Seq::<TrackModel>::empty());
        assert(crate::text::views(seen@) =~= Seq::<Seq<char>>::empty());
        assert(start.st == Collected { tracks: Seq::empty(), seen: Seq::empty() });
        let ghost all = docs@;
        let mut i: usize = 0;
        assert(all.skip(0) =~= all);
        while i < docs.len()
            invariant
                i <= docs.len(),
                all == docs@,
                scan_docs(all, self.playlist_id@, start) == scan_docs(
                    all.skip(i as int),
                    self.playlist_id@,
                    Scan {
                        name: name@,
                        description: opt_view(description),
                        st: collected(tracks@, seen@),
                    },
                ),
            decreases docs.len() - i,
        {
            proof {
                reveal_strlit("Spotify Playlist");
                reveal_strlit("description");
            }
            assert(all.skip(i as int).drop_first() =~= all.skip(i + 1));
            assert(all.skip(i as int)[0] == docs@[i as int]);
            match &docs[i] {
                None => {},
                Some(v) => {
                    if crate::text::same_text(name.as_str(), "Spotify Playlist") {
                        match find_playlist_name(v) {
                            Some(found) => {
                                name = found;
                            },
                            None => {},
                        }
                    }
                    if description.is_none() {
                        description = find_string_key(v, "description");
                    }
                    collect_tracks_from_value(v, self.playlist_id, &mut tracks, &mut seen);
                },
            }
            i = i + 1;
        }
        assert(all.skip(i as int) =~= Seq::<Option<JsonValue>>::empty());
        if tracks.len() == 0 {
            collect_tracks_from_html_fallback(&h, self.playlist_id, &mut tracks, &mut seen);
        }
        if tracks.len() == 0 {
            return Err(crate::text::owned("Spotify ha devuelto un formato que FESTEJAR no puede interpretar."));
        }
        let description = match &description {
            Some(d) => {
                let c = crate::text::clean_text(d.as_str());
                if c.as_str().is_empty() {
                    None
                } else {
                    Some(c)
                }
            },
            None => None,
        };
        Ok(
            ImportedPlaylist {
                name: crate::text::clean_text(name.as_str()),
                description,
                source: ImportedPlaylistSource {
                    source_type: ImportSourceType::Spotify,
                    playlist_id: Some(crate::text::owned(self.playlist_id)),
                    original_url: Some(crate::text::owned(self.original_url)),
                },
                imported_at: now_millis(),
                tracks,
            },
        )
    }

    /// Reads the playlist from a Spotify embed page (`parse`).
    pub fn parse(&self, html: &str) -> (r: Result<ImportedPlaylist, String>)
        ensures
            match spotify_import(html@, parsed_blocks(html@), self.playlist_id@) {
                Err(m) => r matches Err(e) && e@ == m,
                Ok(expected) => r matches Ok(p) && is_spotify_playlist(
                    p,
                    expected,
                    self.playlist_id@,
                    self.original_url@,
                ),
            },
    {
        let h = chars_of(html);
        let blocks = extract_json_script_blocks(&h);
        let mut docs: Vec<Option<JsonValue>> = Vec::new();
        let mut i: usize = 0;
        while i < blocks.len()
            invariant
                i <= blocks.len(),
                crate::text::views(blocks@) == script_blocks(html@),
                docs@ == parsed_blocks(html@).take(i as int),
            decreases blocks.len() - i,
        {
            let b = string_of(&blocks[i]);
            assert(crate::text::views(blocks@)[i as int] == blocks@[i as int]@);
            let d = parse_json(b.as_str());
            docs.push(d);
            assert(docs@ =~= parsed_blocks(html@).take(i + 1));
            i = i + 1;
        }
        assert(docs@ =~= parsed_blocks(html@));
        self.parse_documents(html, docs)
    }
}

impl PlaylistImporter for SpotifyPlaylistImporter {
    /// Reads the fetched page; the pasted input is not used.
    fn import(&self, input: &str) -> (r: Result<ImportedPlaylist, String>)
        ensures
            match spotify_import(self.html@, parsed_blocks(self.html@), self.playlist_id@) {
                Err(m) => r matches Err(e) && e@ == m,
                Ok(expected) => r matches Ok(p) && is_spotify_playlist(
                    p,
                    expected,
                    self.playlist_id@,
                    self.original_url@,
                ),
            },
    {
        SpotifyEmbedParser::new(self.playlist_id.as_str(), self.original_url.as_str()).parse(
            self.html.as_str(),
        )
    }
}

// ------------------------------------------------------------------
// The fetched page
// ------------------------------------------------------------------
/// The largest embed page that is read, in bytes.
pub const MAX_SPOTIFY_HTML_BYTES: usize = 2000000;

/// The text that bytes encode in UTF-8, when they are valid UTF-8.
pub uninterp spec fn utf8_decode(bytes: Seq<u8>) -> Option<Seq<char>>;

/// `String::from_utf8`: the text of valid UTF-8 bytes, none for invalid
/// ones. The result is claimed to depend on the bytes alone; the rules of
/// UTF-8 are not restated.
#[verifier::external_body]
fn utf8_text(bytes: Vec<u8>) -> (r: Option<String>)
    ensures
        opt_view(r) == utf8_decode(bytes@),
{
    String::from_utf8(bytes).ok()
}

/// The page text of a fetched embed response (`fetch_embed_html` after the
/// download): refused when larger than `MAX_SPOTIFY_HTML_BYTES` or not
/// UTF-8.
pub fn embed_page_text(bytes: Vec<u8>) -> (r: Result<String, String>)
    ensures
        bytes@.len() > MAX_SPOTIFY_HTML_BYTES ==> (r matches Err(e) && e@ == unreadable_message()),
        bytes@.len() <= MAX_SPOTIFY_HTML_BYTES ==> match utf8_decode(bytes@) {
            Some(t) => r matches Ok(s) && s@ == t,
            None => r matches Err(e) && e@ == unreadable_message(),
        },
{
    if bytes.len() > MAX_SPOTIFY_HTML_BYTES {
        return Err(crate::text::owned("Spotify ha devuelto un formato que FESTEJAR no puede interpretar."));
    }
    match utf8_text(bytes) {
        Some(t) => Ok(t),
        None => Err(crate::text::owned("Spotify ha devuelto un formato que FESTEJAR no puede interpretar.")),
    }
}

// ------------------------------------------------------------------
// Tracks read from JSON are never repeated
// ------------------------------------------------------------------
/// The key under which a track read from JSON is remembered.
pub open spec fn track_key(t: TrackModel) -> Seq<char> {
    or_empty(t.track_id) + "|"@ + t.title
}

/// The walk remembers exactly the keys of the tracks it recorded, each
/// once.
pub open spec fn walk_consistent(st: Collected) -> bool {
    &&& st.seen == st.tracks.map_values(|t: TrackModel| track_key(t))
    &&& st.seen.no_duplicates()
}

proof fn lemma_add_track(item: JsonValue, pid: Seq<char>, st: Collected)
    requires
        walk_consistent(st),
    ensures
        walk_consistent(add_track(item, pid, st)),
{
    match track_of(item, pid) {
        None => {},
        Some(t) => {
            let key = or_empty(t.track_id) + "|"@ + t.title;
            if !st.seen.contains(key) {
                let r = add_track(item, pid, st);
                assert(r.tracks.map_values(|t: TrackModel| track_key(t)) =~= st.tracks.map_values(
                    |t: TrackModel| track_key(t),
                ).push(track_key(t)));
                assert(r.seen.no_duplicates()) by {
                    assert forall|i: int, j: int|
                        0 <= i < r.seen.len() && 0 <= j < r.seen.len() && i != j implies r.seen[i]
                        != r.seen[j] by {
                        if i < st.seen.len() && j < st.seen.len() {
                        } else if i < st.seen.len() {
                            assert(st.seen[i] != key);
                        } else {
                            assert(st.seen[j] != key);
                        }
                    }
                }
            }
        },
    }
}

proof fn lemma_add_tracks(items: Seq<JsonValue>, pid: Seq<char>, st: Collected)
    requires
        walk_consistent(st),
    ensures
        walk_consistent(add_tracks(items, pid, st)),
    decreases items.len(),
{
    if items.len() > 0 {
        lemma_add_track(items[0], pid, st);
        lemma_add_tracks(items.drop_first(), pid, add_track(items[0], pid, st));
    }
}

proof fn lemma_collect(v: JsonValue, pid: Seq<char>, st: Collected)
    requires
        walk_consistent(st),
    ensures
        walk_consistent(collect(v, pid, st)),
    decreases v,
{
    match v {
        JsonValue::Array(items) => if any_track_like(items@) {
            lemma_add_tracks(items@, pid, st);
        } else {
            lemma_collect_items(items@, pid, st);
        },
        JsonValue::Object(es) => {
            lemma_collect_entries(es@, pid, st);
        },
        _ => {},
    }
}

proof fn lemma_collect_items(items: Seq<JsonValue>, pid: Seq<char>, st: Collected)
    requires
        walk_consistent(st),
    ensures
        walk_consistent(collect_items(items, pid, st)),
    decreases items,
{
    if items.len() > 0 {
        lemma_collect(items[0], pid, st);
        lemma_collect_items(items.drop_first(), pid, collect(items[0], pid, st));
    }
}

proof fn lemma_collect_entries(es: Seq<(String, JsonValue)>, pid: Seq<char>, st: Collected)
    requires
        walk_consistent(st),
    ensures
        walk_consistent(collect_entries(es, pid, st)),
    decreases es,
{
    if es.len() > 0 {
        lemma_collect(es[0].1, pid, st);
        lemma_collect_entries(es.drop_first(), pid, collect(es[0].1, pid, st));
    }
}

proof fn lemma_scan_docs(docs: Seq<Option<JsonValue>>, pid: Seq<char>, acc: Scan)
    requires
        walk_consistent(acc.st),
    ensures
        walk_consistent(scan_docs(docs, pid, acc).st),
    decreases docs.len(),
{
    if docs.len() > 0 {
        match docs[0] {
            Some(v) => lemma_collect(v, pid, acc.st),
            None => {},
        }
        lemma_scan_docs(docs.drop_first(), pid, scan_doc(docs[0], pid, acc));
    }
}

/// The tracks read from a page's JSON blocks never repeat a track: no two
/// have both the same Spotify track id and the same title. (When there is
/// at least one, these are the tracks that `spotify_import` gives.)
pub proof fn law_json_tracks_never_repeat(docs: Seq<Option<JsonValue>>, pid: Seq<char>, acc: Scan)
    requires
        acc.st.tracks.len() == 0,
        acc.st.seen.len() == 0,
    ensures
        forall|i: int, j: int|
            0 <= i < j < scan_docs(docs, pid, acc).st.tracks.len() ==> track_key(
                #[trigger] scan_docs(docs, pid, acc).st.tracks[i],
            ) != track_key(#[trigger] scan_docs(docs, pid, acc).st.tracks[j]),
{
    assert(acc.st.tracks.map_values(|t: TrackModel| track_key(t)) =~= acc.st.seen);
    lemma_scan_docs(docs, pid, acc);
    let st = scan_docs(docs, pid, acc).st;
    assert forall|i: int, j: int| 0 <= i < j < st.tracks.len() implies track_key(st.tracks[i]) != track_key(
        st.tracks[j],
    ) by {
        assert(st.seen[i] == track_key(st.tracks[i]));
        assert(st.seen[j] == track_key(st.tracks[j]));
    }
}

// ------------------------------------------------------------------
// Every listed artist is kept
// ------------------------------------------------------------------
/// The items of an `artists` list that give a name, in order.
pub open spec fn named_items(items: Seq<JsonValue>) -> Seq<JsonValue> {
    items.filter(|x: JsonValue| artist_item_name(x) is Some)
}

/// The cleaned names of those items, in order.
pub open spec fn cleaned_item_names(items: Seq<JsonValue>) -> Seq<Seq<char>> {
    named_items(items).map_values(|x: JsonValue| clean(artist_item_name(x)->0))
}

/// The names that are not empty, in order.
pub open spec fn nonempty_names(xs: Seq<Seq<char>>) -> Seq<Seq<char>> {
    xs.filter(|c: Seq<char>| c.len() > 0)
}

proof fn lemma_item_names(items: Seq<JsonValue>)
    ensures
        artist_item_names(items).map_values(|n: Seq<char>| clean(n)) == cleaned_item_names(items),
    decreases items.len(),
{
    reveal(Seq::filter);
    if items.len() > 0 {
        let p = items.drop_last();
        lemma_item_names(p);
        assert(items =~= p.push(items.last()));
        p.lemma_filter_push(items.last(), |x: JsonValue| artist_item_name(x) is Some);
        match artist_item_name(items.last()) {
            Some(n) => {
                assert(artist_item_names(items) == artist_item_names(p).push(n));
                assert(artist_item_names(items).map_values(|n: Seq<char>| clean(n)) =~= artist_item_names(
                    p,
                ).map_values(|n: Seq<char>| clean(n)).push(clean(n)));
                assert(named_items(items) == named_items(p).push(items.last()));
                assert(cleaned_item_names(items) =~= cleaned_item_names(p).push(clean(n)));
            },
            None => {
                assert(named_items(items) == named_items(p));
            },
        }
    } else {
        assert(artist_item_names(items).map_values(|n: Seq<char>| clean(n)) =~= Seq::<Seq<char>>::empty());
        assert(named_items(items) =~= Seq::<JsonValue>::empty());
        assert(cleaned_item_names(items) =~= Seq::<Seq<char>>::empty());
    }
}

proof fn lemma_clean_names(xs: Seq<Seq<char>>)
    ensures
        clean_names(xs) == nonempty_names(xs.map_values(|n: Seq<char>| clean(n))),
    decreases xs.len(),
{
    reveal(Seq::filter);
    let m = xs.map_values(|n: Seq<char>| clean(n));
    if xs.len() > 0 {
        let p = xs.drop_last();
        lemma_clean_names(p);
        let mp = p.map_values(|n: Seq<char>| clean(n));
        assert(m =~= mp.push(clean(xs.last())));
        mp.lemma_filter_push(clean(xs.last()), |c: Seq<char>| c.len() > 0);
    } else {
        assert(m =~= Seq::<Seq<char>>::empty());
        assert(nonempty_names(m) =~= Seq::<Seq<char>>::empty());
    }
}

/// When a JSON track lists its artists, every item of the list that gives
/// a name counts: the artists are the cleaned names of all such items, in
/// order, without the ones that clean to nothing. The imported track has
/// these artists.
pub proof fn law_all_listed_artists_are_kept(v: JsonValue, playlist_id: Seq<char>)
    requires
        field(v, "artists"@) matches Some(JsonValue::Array(_)),
    ensures
        ({
            let items = match field(v, "artists"@) {
                Some(JsonValue::Array(items)) => items@,
                _ => Seq::empty(),
            };
            artist_names(v) == nonempty_names(cleaned_item_names(items))
        }),
        track_of(v, playlist_id) matches Some(t) ==> t.artists == artist_names(v),
{
    let items = match field(v, "artists"@) {
        Some(JsonValue::Array(items)) => items@,
        _ => Seq::empty(),
    };
    lemma_item_names(items);
    lemma_clean_names(artist_item_names(items));
}

} // verus!
