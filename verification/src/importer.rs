//! Playlist importers: pasted text, karaoke JSON files and Spotify embeds,
//! all turned into one `ImportedPlaylist` shape.
use vstd::prelude::*;
use crate::external::{now_millis, parse_url, url_parse, url_view, UrlModel, UrlParts};
use crate::model::{
    CollectionVisibility, PlaylistCollection, PlaylistSource, ResolutionStatus, Song, SongSource,
};
use crate::text::{
    chars_of, clean, clean_chars, dedup_key, dedup_key_chars, is_ascii_alnum, lines, lines_of,
    lit, matches_at, replace_all, replace_chars, same_text, seq_eq, split_once_chars,
    split_once_spec, split_ws, string_of, trim_by, trim_chars, trim_ws, views, words, CharClass,
};

verus! {

/// Where an imported playlist or track came from.
#[derive(Clone, Copy, Debug, PartialEq, Eq, Structural)]
pub enum ImportSourceType {
    Local,
    Spotify,
    Youtube,
}

/// The origin of an imported playlist.
#[derive(Clone, Debug)]
pub struct ImportedPlaylistSource {
    pub source_type: ImportSourceType,
    pub playlist_id: Option<String>,
    pub original_url: Option<String>,
}

/// The origin of an imported track.
#[derive(Clone, Debug)]
pub struct ImportedTrackSource {
    pub source_type: ImportSourceType,
    pub playlist_id: Option<String>,
    pub track_id: Option<String>,
    pub url: Option<String>,
}

/// A track read by an importer.
#[derive(Clone, Debug)]
pub struct ImportedTrack {
    pub title: String,
    pub artists: Vec<String>,
    pub duration_ms: Option<u32>,
    pub source: ImportedTrackSource,
    pub youtube_video_id: Option<String>,
    pub resolution_status: ResolutionStatus,
}

/// A playlist read by an importer.
#[derive(Clone, Debug)]
pub struct ImportedPlaylist {
    pub name: String,
    pub description: Option<String>,
    pub source: ImportedPlaylistSource,
    pub imported_at: i64,
    pub tracks: Vec<ImportedTrack>,
}

/// What the host is shown before confirming an import.
#[derive(Clone, Debug)]
pub struct ImportPreview {
    pub playlist: ImportedPlaylist,
    pub valid_track_count: usize,
    pub incomplete_track_count: usize,
    pub existing_collection_id: Option<String>,
}

/// An imported track as a mathematical value.
pub ghost struct TrackModel {
    pub title: Seq<char>,
    pub artists: Seq<Seq<char>>,
    pub duration_ms: Option<u32>,
    pub source_type: ImportSourceType,
    pub playlist_id: Option<Seq<char>>,
    pub track_id: Option<Seq<char>>,
    pub url: Option<Seq<char>>,
    pub youtube_video_id: Option<Seq<char>>,
    pub resolution_status: ResolutionStatus,
}

pub open spec fn opt_view(o: Option<String>) -> Option<Seq<char>> {
    match o {
        Some(s) => Some(s@),
        None => None,
    }
}

impl View for ImportedTrack {
    type V = TrackModel;

    open spec fn view(&self) -> TrackModel {
        TrackModel {
            title: self.title@,
            artists: self.artists@.map_values(|a: String| a@),
            duration_ms: self.duration_ms,
            source_type: self.source.source_type,
            playlist_id: opt_view(self.source.playlist_id),
            track_id: opt_view(self.source.track_id),
            url: opt_view(self.source.url),
            youtube_video_id: opt_view(self.youtube_video_id),
            resolution_status: self.resolution_status,
        }
    }
}

/// The models of a list of tracks.
pub open spec fn track_models(v: Seq<ImportedTrack>) -> Seq<TrackModel> {
    v.map_values(|t: ImportedTrack| t@)
}

/// The models of a list of strings.
pub open spec fn string_views(v: Seq<String>) -> Seq<Seq<char>> {
    v.map_values(|s: String| s@)
}

/// A vector of strings made from character vectors.
pub fn strings_of(v: &Vec<Vec<char>>) -> (r: Vec<String>)
    ensures
        string_views(r@) == views(v@),
{
    let mut out: Vec<String> = Vec::new();
    let mut i: usize = 0;
    while i < v.len()
        invariant
            i <= v.len(),
            out@.len() == i,
            string_views(out@) == views(v@.take(i as int)),
        decreases v.len() - i,
    {
        let s = string_of(&v[i]);
        let ghost before = out@;
        out.push(s);
        proof {
            assert(v@.take(i + 1) =~= v@.take(i as int).push(v@[i as int]));
            assert(string_views(out@) =~= string_views(before).push(s@));
            assert(views(v@.take(i + 1)) =~= views(v@.take(i as int)).push(v@[i as int]@));
        }
        i = i + 1;
    }
    assert(v@.take(i as int) =~= v@);
    out
}

// ------------------------------------------------------------------
// YouTube links in pasted text
// ------------------------------------------------------------------
/// `s` without every leading repetition of `p` (`str::trim_start_matches`).
pub open spec fn strip_prefixes(s: Seq<char>, p: Seq<char>) -> Seq<char>
    decreases s.len(),
{
    if p.len() > 0 && matches_at(s, 0, p) {
        strip_prefixes(s.skip(p.len() as int), p)
    } else {
        s
    }
}

/// A host name without its leading `www.` and `m.` labels.
pub open spec fn bare_host(h: Seq<char>) -> Seq<char> {
    strip_prefixes(strip_prefixes(h, "www."@), "m."@)
}

/// Eleven characters, each an ASCII letter or digit, `-` or `_`.
pub open spec fn valid_video_id(s: Seq<char>) -> bool {
    s.len() == 11 && forall|i: int|
        0 <= i < s.len() ==> is_ascii_alnum(#[trigger] s[i]) || s[i] == '-' || s[i] == '_'
}

/// The value of the first query pair with the key `key`.
pub open spec fn first_query_value(q: Seq<(Seq<char>, Seq<char>)>, key: Seq<char>) -> Option<
    Seq<char>,
>
    decreases q.len(),
{
    if q.len() == 0 {
        None
    } else if q[0].0 == key {
        Some(q[0].1)
    } else {
        first_query_value(q.drop_first(), key)
    }
}

/// The video id that a YouTube URL names, before checking its shape.
pub open spec fn video_id_candidate(u: UrlModel, host: Seq<char>) -> Option<Seq<char>> {
    if host == "youtu.be"@ {
        match u.segments {
            Some(sg) => if sg.len() > 0 {
                Some(sg[0])
            } else {
                None
            },
            None => None,
        }
    } else if host == "youtube.com"@ || host == "music.youtube.com"@ {
        match u.segments {
            Some(sg) => if sg.len() > 0 && sg[0] == "watch"@ {
                first_query_value(u.query, "v"@)
            } else if sg.len() > 0 && (sg[0] == "shorts"@ || sg[0] == "embed"@) {
                if sg.len() > 1 {
                    Some(sg[1])
                } else {
                    None
                }
            } else {
                None
            },
            None => None,
        }
    } else {
        None
    }
}

/// The YouTube video that a link points to: `youtu.be/ID`, or on
/// `youtube.com`/`music.youtube.com` a `watch?v=ID`, `shorts/ID` or
/// `embed/ID` link, with a well-formed id.
pub open spec fn video_id_of(input: Seq<char>) -> Option<Seq<char>> {
    match url_parse(input) {
        Some(u) => video_id_in_url(u),
        None => None,
    }
}

/// The id of the YouTube video that a parsed URL points to: a well-formed
/// id named by the URL, on a YouTube host (`www.` and `m.` left aside).
pub open spec fn video_id_in_url(u: UrlModel) -> Option<Seq<char>> {
    match u.host {
        Some(h) => match video_id_candidate(u, bare_host(h)) {
            Some(id) => if valid_video_id(id) {
                Some(id)
            } else {
                None
            },
            None => None,
        },
        None => None,
    }
}

/// A pasted word without the quotes and brackets around it.
pub open spec fn unwrapped(w: Seq<char>) -> Seq<char> {
    trim_by(w, CharClass::UrlWrapping)
}

/// The first word of `ws`, unwrapped, that is a YouTube video link.
pub open spec fn first_video_link(ws: Seq<Seq<char>>) -> Option<Seq<char>>
    decreases ws.len(),
{
    if ws.len() == 0 {
        None
    } else if video_id_of(unwrapped(ws[0])) is Some {
        Some(unwrapped(ws[0]))
    } else {
        first_video_link(ws.drop_first())
    }
}

/// The URL's first path segment is `seg`.
pub open spec fn first_segment_is(u: UrlModel, seg: Seq<char>) -> bool {
    match u.segments {
        Some(sg) => sg.len() > 0 && sg[0] == seg,
        None => false,
    }
}

/// The query has a pair with the key `key`.
pub open spec fn has_query_key(q: Seq<(Seq<char>, Seq<char>)>, key: Seq<char>) -> bool {
    exists|i: int| 0 <= i < q.len() && q[i].0 == key
}

/// A YouTube playlist link that is not a video link.
pub open spec fn is_playlist_link(w: Seq<char>) -> bool {
    video_id_of(w) is None && match url_parse(w) {
        Some(u) => playlist_url(u),
        None => false,
    }
}

/// A parsed URL on a YouTube host that names a playlist: its path starts
/// with `playlist` or its query has a `list` key.
pub open spec fn playlist_url(u: UrlModel) -> bool {
    match u.host {
        Some(h) => {
            let host = bare_host(h);
            (host == "youtube.com"@ || host == "music.youtube.com"@ || host == "youtu.be"@)
                && (first_segment_is(u, "playlist"@) || has_query_key(u.query, "list"@))
        },
        None => false,
    }
}

/// Some word of the text is a YouTube playlist link.
pub open spec fn has_playlist_link(s: Seq<char>) -> bool {
    exists|i: int| 0 <= i < words(s).len() && is_playlist_link(unwrapped(#[trigger] words(s)[i]))
}

fn strip_prefixes_chars(s: &Vec<char>, p: &Vec<char>) -> (r: Vec<char>)
    requires
        p@.len() > 0,
    ensures
        r@ == strip_prefixes(s@, p@),
{
    let mut i: usize = 0;
    assert(s@.skip(0) =~= s@);
    while i <= s.len() && crate::text::match_at(s, i, p)
        invariant
            i <= s.len(),
            p@.len() > 0,
            strip_prefixes(s@, p@) == strip_prefixes(s@.skip(i as int), p@),
        decreases s.len() - i,
    {
        proof {
            assert(s@.skip(i as int).subrange(0, p@.len() as int) =~= s@.subrange(
                i as int,
                i + p@.len(),
            ));
            assert(s@.skip(i as int).skip(p@.len() as int) =~= s@.skip(i + p@.len()));
        }
        i = i + p.len();
    }
    proof {
        if matches_at(s@.skip(i as int), 0, p@) {
            assert(s@.skip(i as int).subrange(0, p@.len() as int) =~= s@.subrange(
                i as int,
                i + p@.len(),
            ));
        }
    }
    crate::text::slice_chars(s, i, s.len())
}

fn bare_host_chars(h: &Vec<char>) -> (r: Vec<char>)
    ensures
        r@ == bare_host(h@),
{
    proof {
        reveal_strlit("www.");
        reveal_strlit("m.");
    }
    let www = lit("www.");
    let m = lit("m.");
    let a = strip_prefixes_chars(h, &www);
    strip_prefixes_chars(&a, &m)
}

/// Whether a string is a well-formed YouTube video id.
pub fn is_valid_youtube_video_id(value: &str) -> (r: bool)
    ensures
        r == valid_video_id(value@),
{
    let v = chars_of(value);
    if v.len() != 11 {
        return false;
    }
    let mut i: usize = 0;
    while i < v.len()
        invariant
            i <= v.len(),
            v@ == value@,
            forall|j: int| 0 <= j < i ==> is_ascii_alnum(#[trigger] v@[j]) || v@[j] == '-' || v@[j] == '_',
        decreases v.len() - i,
    {
        let c = v[i];
        if !(crate::text::char_is_ascii_alnum(c) || c == '-' || c == '_') {
            return false;
        }
        i = i + 1;
    }
    true
}

fn text_is(s: &Vec<char>, t: &str) -> (r: bool)
    ensures
        r == (s@ == t@),
{
    let v = chars_of(t);
    seq_eq(s, &v)
}

fn first_query_value_exec(q: &Vec<(String, String)>, key: &str) -> (r: Option<String>)
    ensures
        opt_view(r) == first_query_value(q@.map_values(|p: (String, String)| (p.0@, p.1@)), key@),
{
    let ghost qs = q@.map_values(|p: (String, String)| (p.0@, p.1@));
    let mut i: usize = 0;
    assert(qs.skip(0) =~= qs);
    while i < q.len()
        invariant
            i <= q.len(),
            qs == q@.map_values(|p: (String, String)| (p.0@, p.1@)),
            first_query_value(qs, key@) == first_query_value(qs.skip(i as int), key@),
        decreases q.len() - i,
    {
        assert(qs.skip(i as int)[0] == qs[i as int]);
        assert(qs.skip(i as int).drop_first() =~= qs.skip(i + 1));
        if same_text(q[i].0.as_str(), key) {
            return Some(q[i].1.clone());
        }
        i = i + 1;
    }
    None
}

fn video_id_candidate_exec(u: &UrlParts, host: &Vec<char>) -> (r: Option<String>)
    ensures
        opt_view(r) == video_id_candidate(u@, host@),
{
    proof {
        reveal_strlit("youtu.be");
        reveal_strlit("youtube.com");
        reveal_strlit("music.youtube.com");
        reveal_strlit("watch");
        reveal_strlit("shorts");
        reveal_strlit("embed");
        reveal_strlit("v");
    }
    if text_is(host, "youtu.be") {
        match &u.segments {
            Some(sg) => if sg.len() > 0 {
                Some(sg[0].clone())
            } else {
                None
            },
            None => None,
        }
    } else if text_is(host, "youtube.com") || text_is(host, "music.youtube.com") {
        match &u.segments {
            Some(sg) => {
                if sg.len() > 0 && same_text(sg[0].as_str(), "watch") {
                    first_query_value_exec(&u.query, "v")
                } else if sg.len() > 0 && (same_text(sg[0].as_str(), "shorts") || same_text(
                    sg[0].as_str(),
                    "embed",
                )) {
                    if sg.len() > 1 {
                        Some(sg[1].clone())
                    } else {
                        None
                    }
                } else {
                    None
                }
            },
            None => None,
        }
    } else {
        None
    }
}

/// The id of the YouTube video that a parsed URL points to.
pub fn video_id_from_url(u: &UrlParts) -> (r: Option<String>)
    ensures
        opt_view(r) == video_id_in_url(u@),
{
    match &u.host {
        Some(h) => {
            let hv = chars_of(h.as_str());
            let host = bare_host_chars(&hv);
            match video_id_candidate_exec(u, &host) {
                Some(id) => if is_valid_youtube_video_id(id.as_str()) {
                    Some(id)
                } else {
                    None
                },
                None => None,
            }
        },
        None => None,
    }
}

/// The id of the YouTube video a link points to (`parse_youtube_video_id`).
pub fn parse_youtube_video_id(input: &str) -> (r: Option<String>)
    ensures
        opt_view(r) == video_id_of(input@),
{
    match parse_url(input) {
        Some(u) => video_id_from_url(&u),
        None => None,
    }
}

/// Whether a parsed URL is a YouTube playlist address.
pub fn is_playlist_url(u: &UrlParts) -> (r: bool)
    ensures
        r == playlist_url(u@),
{
    proof {
        reveal_strlit("youtu.be");
        reveal_strlit("youtube.com");
        reveal_strlit("music.youtube.com");
        reveal_strlit("playlist");
        reveal_strlit("list");
    }
    match &u.host {
        Some(h) => {
            let hv = chars_of(h.as_str());
            let host = bare_host_chars(&hv);
            if !(text_is(&host, "youtube.com") || text_is(&host, "music.youtube.com")
                || text_is(&host, "youtu.be")) {
                return false;
            }
            match &u.segments {
                Some(sg) => {
                    if sg.len() > 0 && same_text(sg[0].as_str(), "playlist") {
                        assert(sg@.map_values(|x: String| x@)[0] == sg@[0]@);
                        assert(u@.segments == Some(sg@.map_values(|x: String| x@)));
                        return true;
                    }
                },
                None => {},
            }
            let ghost qs = u.query@.map_values(|p: (String, String)| (p.0@, p.1@));
            assert(playlist_url(u@) == has_query_key(qs, "list"@));
            let mut i: usize = 0;
            while i < u.query.len()
                invariant
                    i <= u.query.len(),
                    qs == u.query@.map_values(|p: (String, String)| (p.0@, p.1@)),
                    playlist_url(u@) == has_query_key(qs, "list"@),
                    forall|j: int| 0 <= j < i ==> qs[j].0 != "list"@,
                decreases u.query.len() - i,
            {
                if same_text(u.query[i].0.as_str(), "list") {
                    assert(qs[i as int].0 == "list"@);
                    return true;
                }
                i = i + 1;
            }
            false
        },
        None => false,
    }
}

/// Whether a word, once parsed, is a YouTube playlist link.
fn is_playlist_link_exec(w: &Vec<char>) -> (r: bool)
    ensures
        r == is_playlist_link(w@),
{
    let s = string_of(w);
    if parse_youtube_video_id(s.as_str()).is_some() {
        return false;
    }
    match parse_url(s.as_str()) {
        Some(u) => is_playlist_url(&u),
        None => false,
    }
}

/// Whether some word of a pasted line is a YouTube playlist link
/// (`contains_youtube_playlist_url`).
pub fn contains_youtube_playlist_url(input: &Vec<char>) -> (r: bool)
    ensures
        r == has_playlist_link(input@),
{
    let ws = split_ws(input);
    let mut i: usize = 0;
    while i < ws.len()
        invariant
            i <= ws.len(),
            views(ws@) == words(input@),
            forall|j: int|
                0 <= j < i ==> !is_playlist_link(unwrapped(#[trigger] words(input@)[j])),
        decreases ws.len() - i,
    {
        let clean = trim_chars(&ws[i], CharClass::UrlWrapping);
        assert(views(ws@)[i as int] == ws@[i as int]@);
        if is_playlist_link_exec(&clean) {
            return true;
        }
        i = i + 1;
    }
    false
}

/// The first word of a text that is a YouTube video link, unwrapped
/// (`first_youtube_video_url`).
pub fn first_youtube_video_url(input: &Vec<char>) -> (r: Option<Vec<char>>)
    ensures
        match r {
            Some(v) => first_video_link(words(input@)) == Some(v@),
            None => first_video_link(words(input@)) is None,
        },
{
    let ws = split_ws(input);
    let ghost all = words(input@);
    let mut i: usize = 0;
    assert(all.skip(0) =~= all);
    while i < ws.len()
        invariant
            i <= ws.len(),
            views(ws@) == all,
            all == words(input@),
            first_video_link(all) == first_video_link(all.skip(i as int)),
        decreases ws.len() - i,
    {
        let clean = trim_chars(&ws[i], CharClass::UrlWrapping);
        assert(views(ws@)[i as int] == ws@[i as int]@);
        assert(all.skip(i as int)[0] == all[i as int]);
        assert(all.skip(i as int).drop_first() =~= all.skip(i + 1));
        let s = string_of(&clean);
        if parse_youtube_video_id(s.as_str()).is_some() {
            return Some(clean);
        }
        i = i + 1;
    }
    None
}

// ------------------------------------------------------------------
// The text importer
// ------------------------------------------------------------------
/// `None` for empty text.
pub open spec fn nonempty(s: Seq<char>) -> Option<Seq<char>> {
    if s.len() == 0 {
        None
    } else {
        Some(s)
    }
}

/// The label and the video link of a pasted line: a link after a `|` with
/// the text before the `|` as the label, else the first link of the line
/// with the rest of the line as the label, else the whole line as label.
pub open spec fn label_and_link(line: Seq<char>) -> (Option<Seq<char>>, Option<Seq<char>>) {
    match bar_link(line) {
        Some((l, url)) => (l, Some(url)),
        None => match first_video_link(words(line)) {
            Some(url) => (
                nonempty(trim_by(replace_all(line, url, seq![]), CharClass::LabelEdge)),
                Some(url),
            ),
            None => (Some(line), None),
        },
    }
}

/// A video link after a `|`, with the trimmed text before the `|`.
pub open spec fn bar_link(line: Seq<char>) -> Option<(Option<Seq<char>>, Seq<char>)> {
    match split_once_spec(line, "|"@) {
        Some((label, rest)) => match first_video_link(words(rest)) {
            Some(url) => Some((nonempty(trim_ws(label)), url)),
            None => None,
        },
        None => None,
    }
}

/// "Artist<sep>Title" read as a title and its artist, when both are present.
pub open spec fn artist_title(c: Seq<char>, sep: Seq<char>) -> Option<(Seq<char>, Seq<Seq<char>>)> {
    match split_once_spec(c, sep) {
        Some((a, t)) => if clean(a).len() > 0 && clean(t).len() > 0 {
            Some((clean(t), seq![clean(a)]))
        } else {
            None
        },
        None => None,
    }
}

/// The title and artists of a pasted label.
pub open spec fn plain_label(label: Seq<char>, video_id: Option<Seq<char>>) -> (
    Seq<char>,
    Seq<Seq<char>>,
) {
    let cleaned = clean(label);
    if cleaned.len() == 0 {
        match video_id {
            Some(id) => ("YouTube Video "@ + id, seq!["YouTube"@]),
            None => (seq![], seq![]),
        }
    } else {
        match artist_title(cleaned, " - "@) {
            Some(p) => p,
            None => match artist_title(cleaned, " -- "@) {
                Some(p) => p,
                None => (cleaned, seq!["Unknown Artist"@]),
            },
        }
    }
}

/// The track that a pasted line describes, if it describes one.
pub open spec fn line_track(line: Seq<char>) -> Option<TrackModel> {
    let (label, url) = label_and_link(line);
    let video_id = match url {
        Some(u) => video_id_of(u),
        None => None,
    };
    let (title, artists) = plain_label(
        match label {
            Some(l) => l,
            None => line,
        },
        video_id,
    );
    if title.len() == 0 || artists.len() == 0 {
        None
    } else {
        Some(
            TrackModel {
                title,
                artists,
                duration_ms: None,
                source_type: if video_id is Some {
                    ImportSourceType::Youtube
                } else {
                    ImportSourceType::Local
                },
                playlist_id: None,
                track_id: video_id,
                url,
                youtube_video_id: video_id,
                resolution_status: if video_id is Some {
                    ResolutionStatus::Resolved
                } else {
                    ResolutionStatus::Unresolved
                },
            },
        )
    }
}

/// The tracks read so far from pasted lines, and what was seen.
pub ghost struct TextImport {
    pub tracks: Seq<TrackModel>,
    pub seen_videos: Seq<Seq<char>>,
    pub seen_keys: Seq<Seq<char>>,
}

/// Reads pasted lines in order: blank lines and lines that describe no
/// track are skipped, and so is a line whose video was already read or,
/// without a video, whose duplicate key was already read.
pub open spec fn text_import(ls: Seq<Seq<char>>) -> TextImport
    decreases ls.len(),
{
    if ls.len() == 0 {
        TextImport { tracks: seq![], seen_videos: seq![], seen_keys: seq![] }
    } else {
        let st = text_import(ls.drop_last());
        let line = trim_ws(ls.last());
        if line.len() == 0 {
            st
        } else {
            match line_track(line) {
                None => st,
                Some(t) => match t.youtube_video_id {
                    Some(v) => if st.seen_videos.contains(v) {
                        st
                    } else {
                        TextImport {
                            tracks: st.tracks.push(t),
                            seen_videos: st.seen_videos.push(v),
                            ..st
                        }
                    },
                    None => {
                        let k = dedup_key(line);
                        if k.len() == 0 || st.seen_keys.contains(k) {
                            st
                        } else {
                            TextImport {
                                tracks: st.tracks.push(t),
                                seen_keys: st.seen_keys.push(k),
                                ..st
                            }
                        }
                    },
                },
            }
        }
    }
}

/// Some line of the text holds a YouTube playlist link.
pub open spec fn any_playlist_link(s: Seq<char>) -> bool {
    exists|i: int| 0 <= i < lines(s).len() && has_playlist_link(trim_ws(#[trigger] lines(s)[i]))
}

/// Whether `x` is one of `v`.
pub fn contains_text(v: &Vec<Vec<char>>, x: &Vec<char>) -> (r: bool)
    ensures
        r == views(v@).contains(x@),
{
    let mut i: usize = 0;
    while i < v.len()
        invariant
            i <= v.len(),
            forall|j: int| 0 <= j < i ==> views(v@)[j] != x@,
        decreases v.len() - i,
    {
        assert(views(v@)[i as int] == v@[i as int]@);
        if seq_eq(&v[i], x) {
            return true;
        }
        i = i + 1;
    }
    false
}

fn opt_chars(o: &Option<Vec<char>>) -> (r: Option<String>)
    ensures
        opt_view(r) == (match o {
            Some(v) => Some(v@),
            None => None,
        }),
{
    match o {
        Some(v) => Some(string_of(v)),
        None => None,
    }
}

/// The label and the video link of a pasted line
/// (`split_text_playlist_label_and_url`).
pub fn split_text_playlist_label_and_url(line: &Vec<char>) -> (r: (Option<Vec<char>>, Option<Vec<char>>))
    ensures
        ({
            let (l, u) = label_and_link(line@);
            &&& l == (match r.0 {
                Some(v) => Some(v@),
                None => None,
            })
            &&& u == (match r.1 {
                Some(v) => Some(v@),
                None => None,
            })
        }),
{
    proof {
        reveal_strlit("|");
    }
    let bar = lit("|");
    match split_once_chars(line, &bar) {
        Some((label, rest)) => {
            match first_youtube_video_url(&rest) {
                Some(url) => {
                    let clean_label = crate::text::trim_ws_chars(&label);
                    let l = if clean_label.len() == 0 {
                        None
                    } else {
                        Some(clean_label)
                    };
                    return (l, Some(url));
                },
                None => {},
            }
        },
        None => {},
    }
    assert(bar_link(line@) is None);
    match first_youtube_video_url(line) {
        Some(url) => {
            let empty: Vec<char> = Vec::new();
            assert(empty@ =~= seq![]);
            let stripped = if url.len() == 0 {
                assert(url@ =~= seq![]);
                proof {
                    crate::text::lemma_replace_empty_pattern(line@, empty@);
                }
                let whole = crate::text::slice_chars(line, 0, line.len());
                assert(whole@ =~= line@);
                whole
            } else {
                replace_chars(line, &url, &empty)
            };
            let label = trim_chars(&stripped, CharClass::LabelEdge);
            let l = if label.len() == 0 {
                None
            } else {
                Some(label)
            };
            (l, Some(url))
        },
        None => {
            let whole = crate::text::slice_chars(line, 0, line.len());
            assert(whole@ =~= line@);
            (Some(whole), None)
        },
    }
}

fn artist_title_exec(c: &Vec<char>, sep: &str) -> (r: Option<(Vec<char>, Vec<Vec<char>>)>)
    ensures
        match r {
            Some((t, a)) => artist_title(c@, sep@) == Some((t@, views(a@))),
            None => artist_title(c@, sep@) is None,
        },
{
    let sv = lit(sep);
    match split_once_chars(c, &sv) {
        Some((a, t)) => {
            let a2 = clean_chars(&a);
            let t2 = clean_chars(&t);
            if a2.len() > 0 && t2.len() > 0 {
                let mut artists: Vec<Vec<char>> = Vec::new();
                artists.push(a2);
                assert(views(artists@) =~= seq![a2@]);
                Some((t2, artists))
            } else {
                None
            }
        },
        None => None,
    }
}

/// The title and artists of a pasted label (`parse_plain_track_label`).
pub fn parse_plain_track_label(label: &Vec<char>, youtube_video_id: &Option<Vec<char>>) -> (r: (
    Vec<char>,
    Vec<Vec<char>>,
))
    ensures
        plain_label(
            label@,
            match youtube_video_id {
                Some(v) => Some(v@),
                None => None,
            },
        ) == (r.0@, views(r.1@)),
{
    proof {
        reveal_strlit("YouTube Video ");
        reveal_strlit("YouTube");
        reveal_strlit(" - ");
        reveal_strlit(" -- ");
        reveal_strlit("Unknown Artist");
    }
    let cleaned = clean_chars(label);
    if cleaned.len() == 0 {
        match youtube_video_id {
            Some(id) => {
                let mut title = lit("YouTube Video ");
                crate::text::append_chars(&mut title, id);
                let mut artists: Vec<Vec<char>> = Vec::new();
                artists.push(lit("YouTube"));
                assert(views(artists@) =~= seq!["YouTube"@]);
                return (title, artists);
            },
            None => {
                let artists: Vec<Vec<char>> = Vec::new();
                assert(views(artists@) =~= Seq::<Seq<char>>::empty());
                return (Vec::new(), artists);
            },
        }
    }
    match artist_title_exec(&cleaned, " - ") {
        Some(p) => return p,
        None => {},
    }
    match artist_title_exec(&cleaned, " -- ") {
        Some(p) => return p,
        None => {},
    }
    let mut artists: Vec<Vec<char>> = Vec::new();
    artists.push(lit("Unknown Artist"));
    assert(views(artists@) =~= seq!["Unknown Artist"@]);
    (cleaned, artists)
}

/// The track a pasted line describes (`parse_text_playlist_line`).
pub fn parse_text_playlist_line(line: &Vec<char>) -> (r: Option<ImportedTrack>)
    ensures
        match r {
            Some(t) => line_track(line@) == Some(t@),
            None => line_track(line@) is None,
        },
{
    let (label, url) = split_text_playlist_label_and_url(line);
    let video_id: Option<Vec<char>> = match &url {
        Some(u) => {
            let us = string_of(u);
            match parse_youtube_video_id(us.as_str()) {
                Some(id) => Some(chars_of(id.as_str())),
                None => None,
            }
        },
        None => None,
    };
    let base = match &label {
        Some(l) => crate::text::slice_chars(l, 0, l.len()),
        None => crate::text::slice_chars(line, 0, line.len()),
    };
    assert(base@ =~= (match label {
        Some(l) => l@,
        None => line@,
    }));
    let (title, artists) = parse_plain_track_label(&base, &video_id);
    if title.len() == 0 || artists.len() == 0 {
        return None;
    }
    let resolved = video_id.is_some();
    let track = ImportedTrack {
        title: string_of(&title),
        artists: strings_of(&artists),
        duration_ms: None,
        source: ImportedTrackSource {
            source_type: if resolved {
                ImportSourceType::Youtube
            } else {
                ImportSourceType::Local
            },
            playlist_id: None,
            track_id: opt_chars(&video_id),
            url: opt_chars(&url),
        },
        youtube_video_id: opt_chars(&video_id),
        resolution_status: if resolved {
            ResolutionStatus::Resolved
        } else {
            ResolutionStatus::Unresolved
        },
    };
    assert(track@.artists =~= views(artists@));
    Some(track)
}

/// The message for pasted text that holds a YouTube playlist link.
pub open spec fn youtube_playlist_message() -> Seq<char> {
    "Los enlaces de playlist de YouTube todavia no se importan directamente. Pega titulos o enlaces de video individuales."@
}

/// The message for pasted text in which no track was found.
pub open spec fn no_tracks_message() -> Seq<char> {
    "No se han encontrado canciones importables en el texto."@
}

/// Reads a playlist from pasted text (`parse_text_playlist`): one track per
/// line, as "Artist - Title", a title, or a YouTube video link with an
/// optional label. Text that holds a YouTube playlist link is refused.
pub fn parse_text_playlist(input: &str) -> (r: Result<ImportedPlaylist, String>)
    ensures
        any_playlist_link(input@) ==> (r matches Err(e) && e@ == youtube_playlist_message()),
        !any_playlist_link(input@) && text_import(lines(input@)).tracks.len() == 0 ==> (r matches Err(
            e,
        ) && e@ == no_tracks_message()),
        !any_playlist_link(input@) && text_import(lines(input@)).tracks.len() > 0 ==> (r matches Ok(
            p,
        ) && {
            &&& track_models(p.tracks@) == text_import(lines(input@)).tracks
            &&& p.name@ == "Imported Playlist"@
            &&& opt_view(p.description) == Some("Imported from pasted text"@)
            &&& p.source.source_type == ImportSourceType::Local
            &&& p.source.playlist_id is None
            &&& p.source.original_url is None
        }),
{
    let text = chars_of(input);
    let ls = lines_of(&text);
    let mut i: usize = 0;
    while i < ls.len()
        invariant
            i <= ls.len(),
            views(ls@) == lines(input@),
            forall|j: int|
                0 <= j < i ==> !has_playlist_link(trim_ws(#[trigger] lines(input@)[j])),
        decreases ls.len() - i,
    {
        let t = crate::text::trim_ws_chars(&ls[i]);
        assert(views(ls@)[i as int] == ls@[i as int]@);
        if contains_youtube_playlist_url(&t) {
            return Err(crate::text::owned(
                "Los enlaces de playlist de YouTube todavia no se importan directamente. Pega titulos o enlaces de video individuales.",
            ));
        }
        i = i + 1;
    }
    let mut tracks: Vec<ImportedTrack> = Vec::new();
    let mut seen_videos: Vec<Vec<char>> = Vec::new();
    let mut seen_keys: Vec<Vec<char>> = Vec::new();
    let ghost all = lines(input@);
    let mut k: usize = 0;
    while k < ls.len()
        invariant
            k <= ls.len(),
            views(ls@) == all,
            all == lines(input@),
            track_models(tracks@) == text_import(all.take(k as int)).tracks,
            views(seen_videos@) == text_import(all.take(k as int)).seen_videos,
            views(seen_keys@) == text_import(all.take(k as int)).seen_keys,
        decreases ls.len() - k,
    {
        let ghost prev = all.take(k as int);
        proof {
            assert(all.take(k + 1).drop_last() =~= prev);
            assert(all.take(k + 1).last() == all[k as int]);
            assert(views(ls@)[k as int] == ls@[k as int]@);
        }
        let line = crate::text::trim_ws_chars(&ls[k]);
        k = k + 1;
        if line.len() == 0 {
            continue;
        }
        let track = match parse_text_playlist_line(&line) {
            Some(t) => t,
            None => {
                continue;
            },
        };
        match &track.youtube_video_id {
            Some(v) => {
                let vc = chars_of(v.as_str());
                if contains_text(&seen_videos, &vc) {
                    continue;
                }
                let ghost sv = seen_videos@;
                seen_videos.push(vc);
                proof {
                    assert(views(seen_videos@) =~= views(sv).push(vc@));
                }
            },
            None => {
                let key = dedup_key_chars(&line);
                if key.len() == 0 || contains_text(&seen_keys, &key) {
                    continue;
                }
                let ghost sk = seen_keys@;
                seen_keys.push(key);
                proof {
                    assert(views(seen_keys@) =~= views(sk).push(key@));
                }
            },
        }
        let ghost tb = tracks@;
        tracks.push(track);
        proof {
            assert(track_models(tracks@) =~= track_models(tb).push(track@));
        }
    }
    assert(all.take(ls.len() as int) =~= all);
    if tracks.len() == 0 {
        return Err(crate::text::owned("No se han encontrado canciones importables en el texto."));
    }
    Ok(
        ImportedPlaylist {
            name: crate::text::owned("Imported Playlist"),
            description: Some(crate::text::owned("Imported from pasted text")),
            source: ImportedPlaylistSource {
                source_type: ImportSourceType::Local,
                playlist_id: None,
                original_url: None,
            },
            imported_at: now_millis(),
            tracks,
        },
    )
}

/// Reads a pasted input into a playlist.
pub trait PlaylistImporter {
    fn import(&self, input: &str) -> Result<ImportedPlaylist, String>;
}

/// Reads playlists from pasted text.
pub struct TextPlaylistImporter;

impl PlaylistImporter for TextPlaylistImporter {
    fn import(&self, input: &str) -> (r: Result<ImportedPlaylist, String>)
        ensures
            any_playlist_link(input@) ==> (r matches Err(e) && e@ == youtube_playlist_message()),
            !any_playlist_link(input@) && text_import(lines(input@)).tracks.len() == 0 ==> (r matches Err(
                e,
            ) && e@ == no_tracks_message()),
            !any_playlist_link(input@) && text_import(lines(input@)).tracks.len() > 0 ==> (r matches Ok(
                p,
            ) && track_models(p.tracks@) == text_import(lines(input@)).tracks),
    {
        parse_text_playlist(input)
    }
}

/// The Spotify playlist an import came from, if it came from Spotify.
pub fn spotify_playlist_id_from_import(imported: &ImportedPlaylist) -> (r: Option<&str>)
    ensures
        match r {
            Some(s) => imported.source.source_type == ImportSourceType::Spotify && (
            imported.source.playlist_id matches Some(p) && p@ == s@),
            None => imported.source.source_type != ImportSourceType::Spotify
                || imported.source.playlist_id is None,
        },
{
    if imported.source.source_type == ImportSourceType::Spotify {
        match &imported.source.playlist_id {
            Some(p) => Some(p.as_str()),
            None => None,
        }
    } else {
        None
    }
}

/// A track that has a title and an artist.
pub open spec fn track_complete(t: TrackModel) -> bool {
    trim_ws(t.title).len() > 0 && t.artists.len() > 0
}

/// The number of complete tracks.
pub open spec fn complete_count(ts: Seq<TrackModel>) -> nat {
    ts.filter(|t: TrackModel| track_complete(t)).len()
}

/// The preview of an import: the playlist, how many of its tracks are
/// complete and how many are not, and the collection it would update.
pub fn preview_from_imported(playlist: ImportedPlaylist, existing_collection_id: Option<String>) -> (r:
    ImportPreview)
    ensures
        r.playlist == playlist,
        r.valid_track_count == complete_count(track_models(playlist.tracks@)),
        r.valid_track_count + r.incomplete_track_count == playlist.tracks@.len(),
        r.existing_collection_id == existing_collection_id,
{
    let ghost ts = track_models(playlist.tracks@);
    let mut valid: usize = 0;
    let mut i: usize = 0;
    while i < playlist.tracks.len()
        invariant
            i <= playlist.tracks.len(),
            ts == track_models(playlist.tracks@),
            valid == complete_count(ts.take(i as int)),
            valid <= i,
        decreases playlist.tracks.len() - i,
    {
        let t = &playlist.tracks[i];
        proof {
            assert(ts[i as int] == t@);
            assert(ts.take(i + 1) =~= ts.take(i as int).push(t@));
            ts.take(i as int).lemma_filter_push(t@, |t: TrackModel| track_complete(t));
        }
        if !crate::text::is_blank(t.title.as_str()) && t.artists.len() > 0 {
            valid = valid + 1;
        }
        i = i + 1;
    }
    assert(ts.take(i as int) =~= ts);
    let n = playlist.tracks.len();
    ImportPreview {
        incomplete_track_count: n - valid,
        valid_track_count: valid,
        playlist,
        existing_collection_id,
    }
}

// ------------------------------------------------------------------
// From an import to a collection
// ------------------------------------------------------------------
/// A text, or the empty text.
pub open spec fn text_or_empty(o: Option<Seq<char>>) -> Seq<char> {
    match o {
        Some(s) => s,
        None => Seq::empty(),
    }
}

/// The artist line of an imported track: its artists joined with `, `, or
/// `Unknown Artist` when it has none.
pub open spec fn artist_line(artists: Seq<Seq<char>>) -> Seq<char> {
    if artists.len() == 0 {
        "Unknown Artist"@
    } else {
        crate::text::join(artists, ", "@)
    }
}

/// The thumbnail of a YouTube video, none without a video.
pub open spec fn thumbnail_of(video: Seq<char>) -> Seq<char> {
    if video.len() == 0 {
        Seq::empty()
    } else {
        "https://i.ytimg.com/vi/"@ + video + "/hqdefault.jpg"@
    }
}

/// The length in whole seconds of an imported track, when known.
pub open spec fn seconds_of(ms: Option<u32>) -> Option<u32> {
    match ms {
        Some(x) => Some((x / 1000) as u32),
        None => None,
    }
}

/// The source a song keeps of the track it was imported from.
pub open spec fn song_source_of(src: Option<SongSource>, t: TrackModel, video: Seq<char>) -> bool {
    match src {
        Some(SongSource::Spotify { playlist_id, track_id, url }) => {
            &&& t.source_type == ImportSourceType::Spotify
            &&& opt_view(playlist_id) == t.playlist_id
            &&& opt_view(track_id) == t.track_id
            &&& opt_view(url) == t.url
        },
        Some(SongSource::Youtube { video_id, url }) => {
            &&& t.source_type == ImportSourceType::Youtube
            &&& opt_view(video_id) == (if video.len() == 0 {
                t.track_id
            } else {
                Some(video)
            })
            &&& opt_view(url) == t.url
        },
        Some(SongSource::Local) => t.source_type == ImportSourceType::Local,
        None => false,
    }
}

/// `s` is the song made from the imported track `t` at the time `now`
/// (its id aside): resolved exactly when the track names a video, with the
/// track's title, artists and length kept as the originals.
pub open spec fn song_of_track(t: TrackModel, s: Song, now: i64) -> bool {
    let video = text_or_empty(t.youtube_video_id);
    let artist = artist_line(t.artists);
    &&& s.youtube_id@ == video
    &&& s.title@ == t.title
    &&& s.artist@ == artist
    &&& s.duration == (match seconds_of(t.duration_ms) {
        Some(d) => d,
        None => 0,
    })
    &&& opt_view(s.original_title) == Some(t.title)
    &&& opt_view(s.original_artist) == Some(artist)
    &&& s.original_duration == seconds_of(t.duration_ms)
    &&& s.thumbnail_url@ == thumbnail_of(video)
    &&& s.added_by@ == "Import"@
    &&& s.added_at == now
    &&& s.resolution_status == Some(
        if video.len() == 0 {
            ResolutionStatus::Unresolved
        } else {
            ResolutionStatus::Resolved
        },
    )
    &&& song_source_of(s.source, t, video)
}

/// `c` is the collection made from the import `p`: personal, under
/// `existing` when given, with one song per track in order; an import from
/// a Spotify playlist keeps the playlist as its source.
pub open spec fn collection_of_import(p: ImportedPlaylist, existing: Option<String>, c: PlaylistCollection) -> bool {
    &&& (existing matches Some(id) ==> c.id == id)
    &&& c.name == p.name
    &&& c.visibility == CollectionVisibility::Personal
    &&& c.description == p.description
    &&& match p.source.source_type {
        ImportSourceType::Spotify => match p.source.playlist_id {
            Some(pid) => c.source matches Some(PlaylistSource::Spotify { playlist_id, original_url, imported_at })
                && playlist_id == pid && original_url@ == text_or_empty(opt_view(p.source.original_url))
                && imported_at == p.imported_at,
            None => c.source is None,
        },
        _ => c.source == Some(PlaylistSource::Local),
    }
    &&& c.songs@.len() == p.tracks@.len()
    &&& forall|i: int| 0 <= i < p.tracks@.len() ==> song_of_track(#[trigger] p.tracks@[i]@, c.songs@[i], c.created_at)
    &&& c.updated_at == c.created_at
}

fn song_from_track(t: &ImportedTrack, now: i64) -> (r: Song)
    ensures
        song_of_track(t@, r, now),
{
    proof {
        reveal_strlit("Unknown Artist");
        reveal_strlit(", ");
        reveal_strlit("https://i.ytimg.com/vi/");
        reveal_strlit("/hqdefault.jpg");
        reveal_strlit("Import");
    }
    let video = match &t.youtube_video_id {
        Some(v) => v.clone(),
        None => String::new(),
    };
    assert(video@ == text_or_empty(t@.youtube_video_id));
    let artist = if t.artists.len() == 0 {
        crate::text::owned("Unknown Artist")
    } else {
        let mut parts: Vec<Vec<char>> = Vec::new();
        let mut i: usize = 0;
        while i < t.artists.len()
            invariant
                i <= t.artists.len(),
                views(parts@) == t@.artists.take(i as int),
            decreases t.artists.len() - i,
        {
            let ghost before = parts@;
            parts.push(chars_of(t.artists[i].as_str()));
            assert(views(parts@) =~= views(before).push(t.artists@[i as int]@));
            assert(t@.artists.take(i + 1) =~= t@.artists.take(i as int).push(t.artists@[i as int]@));
            i = i + 1;
        }
        assert(t@.artists.take(i as int) =~= t@.artists);
        let sep = lit(", ");
        string_of(&crate::text::join_chars(&parts, &sep))
    };
    let thumbnail_url = if video.as_str().is_empty() {
        String::new()
    } else {
        let mut u = lit("https://i.ytimg.com/vi/");
        let vc = chars_of(video.as_str());
        crate::text::append_chars(&mut u, &vc);
        let tail = lit("/hqdefault.jpg");
        crate::text::append_chars(&mut u, &tail);
        string_of(&u)
    };
    let seconds = match t.duration_ms {
        Some(ms) => Some(ms / 1000),
        None => None,
    };
    let resolved = !video.as_str().is_empty();
    let source = match t.source.source_type {
        ImportSourceType::Spotify => SongSource::Spotify {
            playlist_id: crate::model::copy_opt_string(&t.source.playlist_id),
            track_id: crate::model::copy_opt_string(&t.source.track_id),
            url: crate::model::copy_opt_string(&t.source.url),
        },
        ImportSourceType::Youtube => SongSource::Youtube {
            video_id: if resolved {
                Some(video.clone())
            } else {
                crate::model::copy_opt_string(&t.source.track_id)
            },
            url: crate::model::copy_opt_string(&t.source.url),
        },
        ImportSourceType::Local => SongSource::Local,
    };
    Song {
        id: crate::external::new_uuid_string(),
        youtube_id: video,
        title: t.title.clone(),
        artist: artist.clone(),
        duration: match seconds {
            Some(d) => d,
            None => 0,
        },
        original_title: Some(t.title.clone()),
        original_artist: Some(artist),
        original_duration: seconds,
        thumbnail_url,
        added_by: crate::text::owned("Import"),
        added_at: now,
        resolution_status: Some(
            if resolved {
                ResolutionStatus::Resolved
            } else {
                ResolutionStatus::Unresolved
            },
        ),
        source: Some(source),
    }
}

/// The collection made from an import (`imported_playlist_to_collection`):
/// a fresh id unless `existing_id` is given, songs with fresh ids.
pub fn imported_playlist_to_collection(imported: ImportedPlaylist, existing_id: Option<String>) -> (r:
    PlaylistCollection)
    ensures
        collection_of_import(imported, existing_id, r),
{
    let now = now_millis();
    let source = match imported.source.source_type {
        ImportSourceType::Spotify => match &imported.source.playlist_id {
            Some(pid) => Some(
                PlaylistSource::Spotify {
                    playlist_id: pid.clone(),
                    original_url: match &imported.source.original_url {
                        Some(u) => u.clone(),
                        None => String::new(),
                    },
                    imported_at: imported.imported_at,
                },
            ),
            None => None,
        },
        _ => Some(PlaylistSource::Local),
    };
    let mut songs: Vec<Song> = Vec::new();
    let mut i: usize = 0;
    while i < imported.tracks.len()
        invariant
            i <= imported.tracks.len(),
            songs@.len() == i,
            forall|j: int| 0 <= j < i ==> song_of_track(#[trigger] imported.tracks@[j]@, songs@[j], now),
        decreases imported.tracks.len() - i,
    {
        let s = song_from_track(&imported.tracks[i], now);
        songs.push(s);
        i = i + 1;
    }
    let id = match existing_id {
        Some(id) => id,
        None => crate::external::new_uuid_string(),
    };
    PlaylistCollection {
        id,
        name: imported.name,
        visibility: CollectionVisibility::Personal,
        songs,
        description: imported.description,
        source,
        created_at: now,
        updated_at: now,
    }
}

/// The key under which pasted lines are compared for duplicates
/// (`normalize_text_import_key`).
pub fn normalize_text_import_key(value: &str) -> (r: String)
    ensures
        r@ == dedup_key(value@),
{
    let v = chars_of(value);
    string_of(&dedup_key_chars(&v))
}

/// The videos of the tracks read so far are all among the videos seen.
proof fn lemma_text_import_seen(ls: Seq<Seq<char>>)
    ensures
        forall|i: int|
            0 <= i < text_import(ls).tracks.len() && (#[trigger] text_import(ls).tracks[i]).youtube_video_id
                is Some ==> text_import(ls).seen_videos.contains(
                text_import(ls).tracks[i].youtube_video_id->0,
            ),
    decreases ls.len(),
{
    if ls.len() > 0 {
        lemma_text_import_seen(ls.drop_last());
        let st = text_import(ls.drop_last());
        let now = text_import(ls);
        assert forall|i: int|
            0 <= i < now.tracks.len() && (#[trigger] now.tracks[i]).youtube_video_id is Some implies now.seen_videos.contains(
            now.tracks[i].youtube_video_id->0,
        ) by {
            if i < st.tracks.len() {
                assert(now.tracks[i] == st.tracks[i]);
                assert(st.seen_videos.contains(st.tracks[i].youtube_video_id->0));
                let k = choose|k: int| 0 <= k < st.seen_videos.len() && st.seen_videos[k] == st.tracks[i].youtube_video_id->0;
                assert(now.seen_videos[k] == st.seen_videos[k]);
            } else {
                assert(now.seen_videos.last() == now.tracks[i].youtube_video_id->0);
                assert(now.seen_videos.contains(now.seen_videos[now.seen_videos.len() - 1]));
            }
        }
    }
}

/// Pasted text never gives two tracks of the same YouTube video: a line
/// whose video was already read is skipped.
pub proof fn law_text_import_distinct_videos(ls: Seq<Seq<char>>)
    ensures
        forall|i: int, j: int|
            0 <= i < j < text_import(ls).tracks.len() && (#[trigger] text_import(ls).tracks[i]).youtube_video_id
                is Some ==> text_import(ls).tracks[i].youtube_video_id != (
            #[trigger] text_import(ls).tracks[j]).youtube_video_id,
    decreases ls.len(),
{
    if ls.len() > 0 {
        law_text_import_distinct_videos(ls.drop_last());
        lemma_text_import_seen(ls.drop_last());
        let st = text_import(ls.drop_last());
        let now = text_import(ls);
        assert forall|i: int, j: int|
            0 <= i < j < now.tracks.len() && (#[trigger] now.tracks[i]).youtube_video_id is Some implies now.tracks[i].youtube_video_id
            != (#[trigger] now.tracks[j]).youtube_video_id by {
            if j < st.tracks.len() {
                assert(now.tracks[i] == st.tracks[i]);
                assert(now.tracks[j] == st.tracks[j]);
            } else {
                assert(now.tracks[i] == st.tracks[i]);
                assert(st.seen_videos.contains(st.tracks[i].youtube_video_id->0));
            }
        }
    }
}

/// The key under which the pasted line `l` is compared for duplicates:
/// the whole line, trimmed.
pub open spec fn line_key(l: Seq<char>) -> Seq<char> {
    dedup_key(trim_ws(l))
}

proof fn lemma_seen_keys_are_line_keys(ls: Seq<Seq<char>>)
    ensures
        forall|j: int|
            0 <= j < text_import(ls).seen_keys.len() ==> exists|i: int|
                0 <= i < ls.len() && #[trigger] text_import(ls).seen_keys[j] == line_key(ls[i]),
    decreases ls.len(),
{
    if ls.len() > 0 {
        let p = ls.drop_last();
        lemma_seen_keys_are_line_keys(p);
        let st = text_import(p);
        let now = text_import(ls);
        assert forall|j: int| 0 <= j < now.seen_keys.len() implies exists|i: int|
            0 <= i < ls.len() && #[trigger] now.seen_keys[j] == line_key(ls[i]) by {
            if j < st.seen_keys.len() {
                assert(now.seen_keys[j] == st.seen_keys[j]);
                let i = choose|i: int| 0 <= i < p.len() && st.seen_keys[j] == line_key(p[i]);
                assert(p[i] == ls[i]);
            } else {
                assert(now.seen_keys[j] == line_key(ls[ls.len() - 1]));
            }
        }
    }
}

/// A pasted line that names no video is read as a track whenever its
/// whole line, compared as duplicates are compared, differs from every
/// earlier line: two songs of one artist on two lines are both kept.
pub proof fn law_text_line_with_new_key_is_kept(pre: Seq<Seq<char>>, l: Seq<char>)
    requires
        trim_ws(l).len() > 0,
        line_track(trim_ws(l)) matches Some(t) && t.youtube_video_id is None,
        line_key(l).len() > 0,
        forall|i: int| 0 <= i < pre.len() ==> line_key(#[trigger] pre[i]) != line_key(l),
    ensures
        text_import(pre.push(l)).tracks == text_import(pre).tracks.push(line_track(trim_ws(l))->0),
{
    lemma_seen_keys_are_line_keys(pre);
    let st = text_import(pre);
    assert(pre.push(l).drop_last() =~= pre);
    if st.seen_keys.contains(line_key(l)) {
        let j = choose|j: int| 0 <= j < st.seen_keys.len() && st.seen_keys[j] == line_key(l);
        let i = choose|i: int| 0 <= i < pre.len() && #[trigger] st.seen_keys[j] == line_key(pre[i]);
        assert(line_key(pre[i]) != line_key(l));
    }
}

} // verus!
