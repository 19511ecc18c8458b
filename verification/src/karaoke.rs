//! The karaoke playlist file (`format: "karaoke-playlist"`, version 1):
//! reading it into an imported playlist.
use vstd::prelude::*;
use crate::external::now_millis;
use crate::importer::{
    opt_view, track_models, valid_video_id, ImportSourceType, ImportedPlaylist,
    ImportedPlaylistSource, ImportedTrack, ImportedTrackSource, PlaylistImporter, TrackModel,
};
use crate::json::{
    default_string, field, is_record, is_record_exec, member, member_exec, opt_deref, opt_string, opt_u32, parse_json, json_parse,
    read_default_string, read_opt_string, read_opt_u32, read_req_string, read_req_strings,
    read_req_u32, req_string, req_strings, req_u32, string_items, views_of, JsonValue,
};
use crate::model::{CollectionModel, ResolutionStatus, Song};
use crate::store::{export_tracks, exported_track, is_export_of, ExportTrack, KaraokePlaylistFile};
use crate::text::{clean, clean_text, is_blank, trim_ws};

verus! {

/// The source of a track in a karaoke file.
#[derive(Debug)]
pub struct KaraokeFileTrackSource {
    pub source_type: String,
    pub track_id: Option<String>,
    pub url: Option<String>,
}

/// A track of a karaoke file.
pub struct KaraokeFileTrack {
    pub title: String,
    pub artists: Vec<String>,
    pub duration_ms: Option<u32>,
    pub source: Option<KaraokeFileTrackSource>,
}

/// A karaoke file as read, before its header is checked.
pub struct KaraokeFile {
    pub format: String,
    pub version: u32,
    pub name: String,
    pub description: Option<String>,
    pub tracks: Vec<KaraokeFileTrack>,
}

/// The source of a track in a karaoke file, as a value.
pub ghost struct SourceDoc {
    pub source_type: Seq<char>,
    pub track_id: Option<Seq<char>>,
    pub url: Option<Seq<char>>,
}

/// A track of a karaoke file, as a value.
pub ghost struct TrackDoc {
    pub title: Seq<char>,
    pub artists: Seq<Seq<char>>,
    pub duration_ms: Option<u32>,
    pub source: Option<SourceDoc>,
}

/// A karaoke file, as a value.
pub ghost struct FileDoc {
    pub format: Seq<char>,
    pub version: u32,
    pub name: Seq<char>,
    pub description: Option<Seq<char>>,
    pub tracks: Seq<TrackDoc>,
}

impl View for KaraokeFileTrackSource {
    type V = SourceDoc;

    open spec fn view(&self) -> SourceDoc {
        SourceDoc {
            source_type: self.source_type@,
            track_id: opt_view(self.track_id),
            url: opt_view(self.url),
        }
    }
}

pub open spec fn opt_source_view(s: Option<KaraokeFileTrackSource>) -> Option<SourceDoc> {
    match s {
        Some(x) => Some(x@),
        None => None,
    }
}

impl View for KaraokeFileTrack {
    type V = TrackDoc;

    open spec fn view(&self) -> TrackDoc {
        TrackDoc {
            title: self.title@,
            artists: views_of(self.artists@),
            duration_ms: self.duration_ms,
            source: opt_source_view(self.source),
        }
    }
}

pub open spec fn track_docs(v: Seq<KaraokeFileTrack>) -> Seq<TrackDoc> {
    v.map_values(|t: KaraokeFileTrack| t@)
}

impl View for KaraokeFile {
    type V = FileDoc;

    open spec fn view(&self) -> FileDoc {
        FileDoc {
            format: self.format@,
            version: self.version,
            name: self.name@,
            description: opt_view(self.description),
            tracks: track_docs(self.tracks@),
        }
    }
}

// ------------------------------------------------------------------
// Reading the file's JSON
// ------------------------------------------------------------------
/// The source of a track: absent or `null` give none; otherwise a record
/// (`type`, `track_id`, `url`) with a string `type` and, optionally, the
/// other two.
pub open spec fn decode_source(v: Option<JsonValue>) -> Option<Option<SourceDoc>> {
    match v {
        None => Some(None),
        Some(x) => if x is Null {
            Some(None)
        } else if is_record(x, 3) {
            match (
                req_string(member(x, "type"@, 0)),
                opt_string(member(x, "track_id"@, 1)),
                opt_string(member(x, "url"@, 2)),
            ) {
                (Some(t), Some(id), Some(u)) => Some(
                    Some(SourceDoc { source_type: t, track_id: id, url: u }),
                ),
                _ => None,
            }
        } else {
            None
        },
    }
}

/// A track: a record (`title`, `artists`, `duration_ms`, `source`) with a
/// string `title`, a list of strings `artists`, an optional `duration_ms`
/// and an optional `source`.
pub open spec fn decode_track(x: JsonValue) -> Option<TrackDoc> {
    if is_record(x, 4) {
        match (
            req_string(member(x, "title"@, 0)),
            req_strings(member(x, "artists"@, 1)),
            opt_u32(member(x, "duration_ms"@, 2)),
            decode_source(member(x, "source"@, 3)),
        ) {
            (Some(t), Some(a), Some(d), Some(s)) => Some(
                TrackDoc { title: t, artists: a, duration_ms: d, source: s },
            ),
            _ => None,
        }
    } else {
        None
    }
}

/// The tracks of a list, when every item is a track.
pub open spec fn decode_tracks(items: Seq<JsonValue>) -> Option<Seq<TrackDoc>>
    decreases items.len(),
{
    if items.len() == 0 {
        Some(Seq::empty())
    } else {
        match (decode_tracks(items.drop_last()), decode_track(items.last())) {
            (Some(prev), Some(t)) => Some(prev.push(t)),
            _ => None,
        }
    }
}

/// The `tracks` member: absent gives none; otherwise a list of tracks.
pub open spec fn decode_track_list(v: Option<JsonValue>) -> Option<Seq<TrackDoc>> {
    match v {
        None => Some(Seq::empty()),
        Some(JsonValue::Array(items)) => decode_tracks(items@),
        _ => None,
    }
}

/// A karaoke file: a record (`format`, `version`, `name`, `description`,
/// `tracks`) with a string `format`, a `u32` `version`, a string `name`
/// (empty when absent), an optional `description` and its `tracks` (none
/// when absent). As an object, other members are ignored; as a list, the
/// members come in that order and the last ones may be left out.
///
/// The document is read from the parsed `serde_json::Value`, in which a key
/// that an object repeats keeps only its last value; such a file is read
/// with that value, where a reader derived for the file's fields would
/// refuse it as a duplicate field.
pub open spec fn decode_file(x: JsonValue) -> Option<FileDoc> {
    if is_record(x, 5) {
        match (
            req_string(member(x, "format"@, 0)),
            req_u32(member(x, "version"@, 1)),
            default_string(member(x, "name"@, 2)),
            opt_string(member(x, "description"@, 3)),
            decode_track_list(member(x, "tracks"@, 4)),
        ) {
            (Some(f), Some(v), Some(n), Some(d), Some(t)) => Some(
                FileDoc { format: f, version: v, name: n, description: d, tracks: t },
            ),
            _ => None,
        }
    } else {
        None
    }
}

fn decode_source_exec(v: Option<&JsonValue>) -> (r: Option<Option<KaraokeFileTrackSource>>)
    ensures
        match r {
            Some(s) => decode_source(opt_deref(v)) == Some(opt_source_view(s)),
            None => decode_source(opt_deref(v)) is None,
        },
{
    proof {
        reveal_strlit("type");
        reveal_strlit("track_id");
        reveal_strlit("url");
    }
    match v {
        None => Some(None),
        Some(x) => match x {
            JsonValue::Null => Some(None),
            _ => if is_record_exec(x, 3) {
                let t = read_req_string(member_exec(x, "type", 0));
                let id = read_opt_string(member_exec(x, "track_id", 1));
                let u = read_opt_string(member_exec(x, "url", 2));
                match (t, id, u) {
                    (Some(t), Some(id), Some(u)) => Some(
                        Some(KaraokeFileTrackSource { source_type: t, track_id: id, url: u }),
                    ),
                    _ => None,
                }
            } else {
                None
            },
        },
    }
}

fn decode_track_exec(x: &JsonValue) -> (r: Option<KaraokeFileTrack>)
    ensures
        match r {
            Some(t) => decode_track(*x) == Some(t@),
            None => decode_track(*x) is None,
        },
{
    if is_record_exec(x, 4) {
        let t = read_req_string(member_exec(x, "title", 0));
        let a = read_req_strings(member_exec(x, "artists", 1));
        let d = read_opt_u32(member_exec(x, "duration_ms", 2));
        let s = decode_source_exec(member_exec(x, "source", 3));
        match (t, a, d, s) {
            (Some(t), Some(a), Some(d), Some(s)) => Some(
                KaraokeFileTrack { title: t, artists: a, duration_ms: d, source: s },
            ),
            _ => None,
        }
    } else {
        None
    }
}

proof fn lemma_decode_tracks_prefix(items: Seq<JsonValue>, n: int)
    requires
        0 <= n <= items.len(),
        decode_tracks(items.take(n)) is None,
    ensures
        decode_tracks(items) is None,
    decreases items.len() - n,
{
    if n < items.len() {
        assert(items.take(n + 1).drop_last() =~= items.take(n));
        lemma_decode_tracks_prefix(items, n + 1);
    } else {
        assert(items.take(n) =~= items);
    }
}

fn decode_track_list_exec(v: Option<&JsonValue>) -> (r: Option<Vec<KaraokeFileTrack>>)
    ensures
        match r {
            Some(ts) => decode_track_list(opt_deref(v)) == Some(track_docs(ts@)),
            None => decode_track_list(opt_deref(v)) is None,
        },
{
    let items = match v {
        None => {
            let out: Vec<KaraokeFileTrack> = Vec::new();
            assert(track_docs(out@) =~= Seq::<TrackDoc>::empty());
            return Some(out);
        },
        Some(JsonValue::Array(items)) => items,
        _ => {
            return None;
        },
    };
    let mut out: Vec<KaraokeFileTrack> = Vec::new();
    let mut i: usize = 0;
    while i < items.len()
        invariant
            i <= items.len(),
            decode_track_list(opt_deref(v)) == decode_tracks(items@),
            decode_tracks(items@.take(i as int)) == Some(track_docs(out@)),
        decreases items.len() - i,
    {
        proof {
            assert(items@.take(i + 1).drop_last() =~= items@.take(i as int));
            assert(items@.take(i + 1).last() == items@[i as int]);
        }
        match decode_track_exec(&items[i]) {
            Some(t) => {
                let ghost before = out@;
                out.push(t);
                assert(track_docs(out@) =~= track_docs(before).push(t@));
            },
            None => {
                proof {
                    lemma_decode_tracks_prefix(items@, i as int + 1);
                }
                return None;
            },
        }
        i = i + 1;
    }
    assert(items@.take(i as int) =~= items@);
    Some(out)
}

/// Reads a karaoke file from a JSON value.
pub fn decode_karaoke_file(x: &JsonValue) -> (r: Option<KaraokeFile>)
    ensures
        match r {
            Some(f) => decode_file(*x) == Some(f@),
            None => decode_file(*x) is None,
        },
{
    proof {
        reveal_strlit("format");
        reveal_strlit("version");
        reveal_strlit("name");
        reveal_strlit("description");
        reveal_strlit("tracks");
    }
    if is_record_exec(x, 5) {
        let f = read_req_string(member_exec(x, "format", 0));
        let v = read_req_u32(member_exec(x, "version", 1));
        let n = read_default_string(member_exec(x, "name", 2));
        let d = read_opt_string(member_exec(x, "description", 3));
        let t = decode_track_list_exec(member_exec(x, "tracks", 4));
        match (f, v, n, d, t) {
            (Some(f), Some(v), Some(n), Some(d), Some(t)) => Some(
                KaraokeFile { format: f, version: v, name: n, description: d, tracks: t },
            ),
            _ => None,
        }
    } else {
        None
    }
}

// ------------------------------------------------------------------
// From the file to an imported playlist
// ------------------------------------------------------------------
/// The kind of source that a `type` names: `spotify`, `youtube`, and
/// anything else is a local song.
pub open spec fn source_kind(t: Seq<char>) -> ImportSourceType {
    if t == "spotify"@ {
        ImportSourceType::Spotify
    } else if t == "youtube"@ {
        ImportSourceType::Youtube
    } else {
        ImportSourceType::Local
    }
}

/// A list of names, each cleaned, without those that are empty once
/// cleaned.
pub open spec fn clean_names(xs: Seq<Seq<char>>) -> Seq<Seq<char>>
    decreases xs.len(),
{
    if xs.len() == 0 {
        Seq::empty()
    } else {
        let prev = clean_names(xs.drop_last());
        let c = clean(xs.last());
        if c.len() > 0 {
            prev.push(c)
        } else {
            prev
        }
    }
}

/// The source a track has when the file gives none.
pub open spec fn local_source() -> SourceDoc {
    SourceDoc { source_type: "local"@, track_id: None, url: None }
}

/// The imported track that a track of the file becomes: a YouTube source
/// names the video, which makes the track resolved when the id is
/// well-formed.
pub open spec fn track_from_doc(t: TrackDoc) -> TrackModel {
    let src = match t.source {
        Some(s) => s,
        None => local_source(),
    };
    let kind = source_kind(src.source_type);
    let video = if kind == ImportSourceType::Youtube {
        src.track_id
    } else {
        None
    };
    TrackModel {
        title: clean(t.title),
        artists: clean_names(t.artists),
        duration_ms: t.duration_ms,
        source_type: kind,
        playlist_id: None,
        track_id: src.track_id,
        url: src.url,
        youtube_video_id: video,
        resolution_status: match video {
            Some(id) => if valid_video_id(id) {
                ResolutionStatus::Resolved
            } else {
                ResolutionStatus::Unresolved
            },
            None => ResolutionStatus::Unresolved,
        },
    }
}

/// A track of the file is kept when its title is not blank, it names an
/// artist, and an artist is left once the names are cleaned.
pub open spec fn keeps_track(t: TrackDoc) -> bool {
    trim_ws(t.title).len() > 0 && t.artists.len() > 0 && clean_names(t.artists).len() > 0
}

/// The imported tracks of a file, in order.
pub open spec fn karaoke_tracks(ts: Seq<TrackDoc>) -> Seq<TrackModel>
    decreases ts.len(),
{
    if ts.len() == 0 {
        Seq::empty()
    } else {
        let prev = karaoke_tracks(ts.drop_last());
        if keeps_track(ts.last()) {
            prev.push(track_from_doc(ts.last()))
        } else {
            prev
        }
    }
}

/// The message for a file that is not a karaoke playlist.
pub open spec fn incompatible_message() -> Seq<char> {
    "El archivo no es una playlist compatible con FESTEJAR."@
}

/// The message for a karaoke playlist of another version.
pub open spec fn unsupported_version_message() -> Seq<char> {
    "Version de playlist no soportada."@
}

/// The file read from a parsed document, if it is one.
pub open spec fn decode_document(doc: Option<JsonValue>) -> Option<FileDoc> {
    match doc {
        Some(v) => decode_file(v),
        None => None,
    }
}

/// What importing a parsed document gives, as the error message or the
/// playlist's name, description and tracks.
pub open spec fn karaoke_import(doc: Option<JsonValue>) -> Result<
    (Seq<char>, Option<Seq<char>>, Seq<TrackModel>),
    Seq<char>,
> {
    karaoke_import_file(decode_document(doc))
}

/// A file as a value, when there is one.
pub open spec fn opt_file_view(f: Option<KaraokeFile>) -> Option<FileDoc> {
    match f {
        Some(x) => Some(x@),
        None => None,
    }
}

/// What importing a read file gives (`None`: the text was not such a
/// file), as the error message or the playlist's name, description and
/// tracks: the header is checked, then the tracks are cleaned and those
/// without a title or an artist are left out.
pub open spec fn karaoke_import_file(file: Option<FileDoc>) -> Result<
    (Seq<char>, Option<Seq<char>>, Seq<TrackModel>),
    Seq<char>,
> {
    match file {
        None => Err(incompatible_message()),
        Some(f) => if f.format != "karaoke-playlist"@ {
            Err(incompatible_message())
        } else if f.version != 1 {
            Err(unsupported_version_message())
        } else if trim_ws(f.name).len() == 0 {
            Err(incompatible_message())
        } else {
            Ok(
                (
                    clean(f.name),
                    match f.description {
                        Some(d) => Some(clean(d)),
                        None => None,
                    },
                    karaoke_tracks(f.tracks),
                ),
            )
        },
    }
}

/// The playlist `p` is what `karaoke_import` gives.
pub open spec fn is_karaoke_playlist(
    p: ImportedPlaylist,
    expected: (Seq<char>, Option<Seq<char>>, Seq<TrackModel>),
) -> bool {
    &&& p.name@ == expected.0
    &&& opt_view(p.description) == expected.1
    &&& track_models(p.tracks@) == expected.2
    &&& p.source.source_type == ImportSourceType::Local
    &&& p.source.playlist_id is None
    &&& p.source.original_url is None
}

pub fn clean_names_exec(xs: &Vec<String>) -> (r: Vec<String>)
    ensures
        views_of(r@) == clean_names(views_of(xs@)),
{
    let ghost v = views_of(xs@);
    let mut out: Vec<String> = Vec::new();
    let mut i: usize = 0;
    while i < xs.len()
        invariant
            i <= xs.len(),
            v == views_of(xs@),
            views_of(out@) == clean_names(v.take(i as int)),
        decreases xs.len() - i,
    {
        proof {
            assert(v.take(i + 1).drop_last() =~= v.take(i as int));
            assert(v.take(i + 1).last() == xs@[i as int]@);
        }
        let c = clean_text(xs[i].as_str());
        if !c.as_str().is_empty() {
            let ghost before = out@;
            out.push(c);
            assert(views_of(out@) =~= views_of(before).push(c@));
        }
        i = i + 1;
    }
    assert(v.take(i as int) =~= v);
    out
}

fn source_kind_exec(t: &str) -> (r: ImportSourceType)
    ensures
        r == source_kind(t@),
{
    if crate::text::same_text(t, "spotify") {
        ImportSourceType::Spotify
    } else if crate::text::same_text(t, "youtube") {
        ImportSourceType::Youtube
    } else {
        ImportSourceType::Local
    }
}

fn track_from_file(t: &KaraokeFileTrack) -> (r: ImportedTrack)
    ensures
        r@ == track_from_doc(t@),
{
    let (kind, track_id, url) = match &t.source {
        Some(s) => (source_kind_exec(s.source_type.as_str()), crate::model::copy_opt_string(&s.track_id), crate::model::copy_opt_string(&s.url)),
        None => {
            proof {
                reveal_strlit("local");
            }
            (source_kind_exec("local"), None, None)
        },
    };
    let video = if kind == ImportSourceType::Youtube {
        crate::model::copy_opt_string(&track_id)
    } else {
        None
    };
    let resolution_status = match &video {
        Some(id) => if crate::importer::is_valid_youtube_video_id(id.as_str()) {
            ResolutionStatus::Resolved
        } else {
            ResolutionStatus::Unresolved
        },
        None => ResolutionStatus::Unresolved,
    };
    let artists = clean_names_exec(&t.artists);
    ImportedTrack {
        title: clean_text(t.title.as_str()),
        artists,
        duration_ms: t.duration_ms,
        source: ImportedTrackSource { source_type: kind, playlist_id: None, track_id, url },
        youtube_video_id: video,
        resolution_status,
    }
}

/// The playlist of a parsed karaoke document (`parse_karaoke_json` after
/// the parse): the document is read as a file, then imported.
pub fn karaoke_playlist_from_json(doc: Option<JsonValue>) -> (r: Result<ImportedPlaylist, String>)
    ensures
        match karaoke_import(doc) {
            Err(m) => r matches Err(e) && e@ == m,
            Ok(expected) => r matches Ok(p) && is_karaoke_playlist(p, expected),
        },
{
    let file = match &doc {
        Some(v) => decode_karaoke_file(v),
        None => None,
    };
    karaoke_playlist_from_file(file)
}

/// The playlist of a read karaoke file (`None` when the text did not read
/// as one): the header is checked, then the tracks are cleaned and those
/// without a title or an artist are left out.
pub fn karaoke_playlist_from_file(file: Option<KaraokeFile>) -> (r: Result<ImportedPlaylist, String>)
    ensures
        match karaoke_import_file(opt_file_view(file)) {
            Err(m) => r matches Err(e) && e@ == m,
            Ok(expected) => r matches Ok(p) && is_karaoke_playlist(p, expected),
        },
{
    proof {
        reveal_strlit("karaoke-playlist");
    }
    let file = match file {
        Some(f) => f,
        None => {
            return Err(crate::text::owned("El archivo no es una playlist compatible con FESTEJAR."));
        },
    };
    if !crate::text::same_text(file.format.as_str(), "karaoke-playlist") {
        return Err(crate::text::owned("El archivo no es una playlist compatible con FESTEJAR."));
    }
    if file.version != 1 {
        return Err(crate::text::owned("Version de playlist no soportada."));
    }
    if is_blank(file.name.as_str()) {
        return Err(crate::text::owned("El archivo no es una playlist compatible con FESTEJAR."));
    }
    let ghost docs = track_docs(file.tracks@);
    let mut tracks: Vec<ImportedTrack> = Vec::new();
    let mut i: usize = 0;
    while i < file.tracks.len()
        invariant
            i <= file.tracks.len(),
            docs == track_docs(file.tracks@),
            track_models(tracks@) == karaoke_tracks(docs.take(i as int)),
        decreases file.tracks.len() - i,
    {
        let t = &file.tracks[i];
        proof {
            assert(docs.take(i + 1).drop_last() =~= docs.take(i as int));
            assert(docs.take(i + 1).last() == t@);
            assert(views_of(t.artists@).len() == t.artists@.len());
        }
        if !is_blank(t.title.as_str()) && t.artists.len() > 0 {
            let track = track_from_file(t);
            if track.artists.len() > 0 {
                let ghost before = tracks@;
                tracks.push(track);
                assert(track_models(tracks@) =~= track_models(before).push(track@));
            }
        }
        i = i + 1;
    }
    assert(docs.take(i as int) =~= docs);
    let description = match &file.description {
        Some(d) => Some(clean_text(d.as_str())),
        None => None,
    };
    Ok(
        ImportedPlaylist {
            name: clean_text(file.name.as_str()),
            description,
            source: ImportedPlaylistSource {
                source_type: ImportSourceType::Local,
                playlist_id: None,
                original_url: None,
            },
            imported_at: now_millis(),
            tracks,
        },
    )
}

/// Reads a karaoke playlist file (`parse_karaoke_json`). Records may be
/// written as objects or as lists; a repeated key keeps its last value
/// (see `decode_file`), where a reader derived for the file's fields
/// refuses the file. `karaoke_playlist_from_file` takes what such a reader
/// gives.
pub fn parse_karaoke_json(input: &str) -> (r: Result<ImportedPlaylist, String>)
    ensures
        match karaoke_import(json_parse(input@)) {
            Err(m) => r matches Err(e) && e@ == m,
            Ok(expected) => r matches Ok(p) && is_karaoke_playlist(p, expected),
        },
{
    let doc = parse_json(input);
    karaoke_playlist_from_json(doc)
}

/// Reads playlists from karaoke playlist files.
#[derive(Debug)]
pub struct KaraokeJsonImporter;

impl PlaylistImporter for KaraokeJsonImporter {
    fn import(&self, input: &str) -> (r: Result<ImportedPlaylist, String>)
        ensures
            match karaoke_import(json_parse(input@)) {
                Err(m) => r matches Err(e) && e@ == m,
                Ok(expected) => r matches Ok(p) && is_karaoke_playlist(p, expected),
            },
    {
        parse_karaoke_json(input)
    }
}

// ------------------------------------------------------------------
// Files written by the host, read back
// ------------------------------------------------------------------
/// The member holds the string `s`.
pub open spec fn holds_str(d: Option<JsonValue>, s: Seq<char>) -> bool {
    d matches Some(JsonValue::Str(x)) && x@ == s
}

/// The member holds `o`, and is left out when `o` is none.
pub open spec fn holds_opt_str(d: Option<JsonValue>, o: Option<Seq<char>>) -> bool {
    match o {
        Some(s) => holds_str(d, s),
        None => d is None,
    }
}

/// The member holds the number `n`.
pub open spec fn holds_num(d: Option<JsonValue>, n: u32) -> bool {
    d matches Some(JsonValue::Number { unsigned: Some(m), .. }) && m == n
}

/// The items are the strings `xs`, in order.
pub open spec fn holds_strs(items: Seq<JsonValue>, xs: Seq<Seq<char>>) -> bool {
    &&& items.len() == xs.len()
    &&& forall|i: int| 0 <= i < items.len() ==> #[trigger] holds_str(Some(items[i]), xs[i])
}

/// A track of a written karaoke file, as JSON: an object with the title,
/// the artists as a list of strings, the length in milliseconds when there
/// is one, and the source with its `type` and the ids and link it has.
pub open spec fn writes_track(d: JsonValue, t: ExportTrack) -> bool {
    &&& d is Object
    &&& holds_str(field(d, "title"@), t.title)
    &&& field(d, "artists"@) matches Some(JsonValue::Array(items)) && holds_strs(items@, t.artists)
    &&& match t.duration_ms {
        Some(ms) => holds_num(field(d, "duration_ms"@), ms),
        None => field(d, "duration_ms"@) is None,
    }
    &&& field(d, "source"@) matches Some(src) && {
        &&& src is Object
        &&& holds_str(field(src, "type"@), t.source_type)
        &&& holds_opt_str(field(src, "playlist_id"@), t.playlist_id)
        &&& holds_opt_str(field(src, "track_id"@), t.track_id)
        &&& holds_opt_str(field(src, "url"@), t.url)
    }
}

/// A written karaoke file, as JSON: an object with the format, version,
/// generator, name, the description when there is one, the playlist's
/// source and the tracks in order.
pub open spec fn writes_file(d: JsonValue, f: KaraokePlaylistFile) -> bool {
    &&& d is Object
    &&& holds_str(field(d, "format"@), f.format@)
    &&& holds_num(field(d, "version"@), f.version)
    &&& holds_str(field(d, "generator"@), f.generator@)
    &&& holds_str(field(d, "name"@), f.name@)
    &&& holds_opt_str(field(d, "description"@), opt_view(f.description))
    &&& field(d, "source"@) matches Some(src) && {
        &&& src is Object
        &&& holds_str(field(src, "type"@), f.source.source_type@)
        &&& holds_opt_str(field(src, "playlist_id"@), opt_view(f.source.playlist_id))
        &&& holds_opt_str(field(src, "original_url"@), opt_view(f.source.original_url))
    }
    &&& field(d, "tracks"@) matches Some(JsonValue::Array(items)) && {
        &&& items@.len() == f.tracks@.len()
        &&& forall|i: int| 0 <= i < items@.len() ==> #[trigger] writes_track(items@[i], f.tracks@[i]@)
    }
}

/// How the karaoke importer sees the track written for a song.
pub open spec fn song_doc(s: Song) -> TrackDoc {
    let t = exported_track(s);
    TrackDoc {
        title: t.title,
        artists: t.artists,
        duration_ms: t.duration_ms,
        source: Some(SourceDoc { source_type: t.source_type, track_id: t.track_id, url: t.url }),
    }
}

proof fn lemma_string_items(items: Seq<JsonValue>, xs: Seq<Seq<char>>)
    requires
        holds_strs(items, xs),
    ensures
        string_items(items) == Some(xs),
    decreases items.len(),
{
    if items.len() > 0 {
        let n = items.len() - 1;
        assert(holds_str(Some(items[n]), xs[n]));
        assert(holds_strs(items.drop_last(), xs.drop_last())) by {
            assert forall|i: int| 0 <= i < items.drop_last().len() implies #[trigger] holds_str(
                Some(items.drop_last()[i]),
                xs.drop_last()[i],
            ) by {
                assert(holds_str(Some(items[i]), xs[i]));
            }
        }
        lemma_string_items(items.drop_last(), xs.drop_last());
        assert(xs.drop_last().push(xs[n]) =~= xs);
    } else {
        assert(xs =~= Seq::<Seq<char>>::empty());
    }
}

proof fn lemma_written_track(d: JsonValue, s: Song)
    requires
        writes_track(d, exported_track(s)),
    ensures
        decode_track(d) == Some(song_doc(s)),
{
    let t = exported_track(s);
    let items = match field(d, "artists"@) {
        Some(JsonValue::Array(items)) => items@,
        _ => Seq::empty(),
    };
    lemma_string_items(items, t.artists);
}

proof fn lemma_written_tracks(items: Seq<JsonValue>, songs: Seq<Song>, n: int)
    requires
        0 <= n <= items.len(),
        items.len() == songs.len(),
        forall|i: int| 0 <= i < items.len() ==> #[trigger] writes_track(items[i], exported_track(songs[i])),
    ensures
        decode_tracks(items.take(n)) == Some(songs.take(n).map_values(|x: Song| song_doc(x))),
    decreases n,
{
    if n > 0 {
        lemma_written_tracks(items, songs, n - 1);
        assert(items.take(n).drop_last() =~= items.take(n - 1));
        assert(items.take(n).last() == items[n - 1]);
        lemma_written_track(items[n - 1], songs[n - 1]);
        assert(songs.take(n).map_values(|x: Song| song_doc(x)) =~= songs.take(n - 1).map_values(
            |x: Song| song_doc(x),
        ).push(song_doc(songs[n - 1])));
    } else {
        assert(items.take(0) =~= Seq::<JsonValue>::empty());
        assert(songs.take(0).map_values(|x: Song| song_doc(x)) =~= Seq::<TrackDoc>::empty());
    }
}

proof fn lemma_kept_track_read(ts: Seq<TrackDoc>, j: int)
    requires
        0 <= j < ts.len(),
        keeps_track(ts[j]),
    ensures
        karaoke_tracks(ts).contains(track_from_doc(ts[j])),
    decreases ts.len(),
{
    let n = ts.len() - 1;
    if j == n {
        assert(karaoke_tracks(ts).last() == track_from_doc(ts[j]));
    } else {
        assert(ts.drop_last()[j] == ts[j]);
        lemma_kept_track_read(ts.drop_last(), j);
        let k = choose|k: int| 0 <= k < karaoke_tracks(ts.drop_last()).len()
            && karaoke_tracks(ts.drop_last())[k] == track_from_doc(ts[j]);
        if keeps_track(ts.last()) {
            assert(karaoke_tracks(ts)[k] == track_from_doc(ts[j]));
        }
    }
}

proof fn lemma_all_kept(ts: Seq<TrackDoc>)
    requires
        forall|j: int| 0 <= j < ts.len() ==> keeps_track(#[trigger] ts[j]),
    ensures
        karaoke_tracks(ts) == ts.map_values(|t: TrackDoc| track_from_doc(t)),
    decreases ts.len(),
{
    if ts.len() > 0 {
        let p = ts.drop_last();
        assert forall|j: int| 0 <= j < p.len() implies keeps_track(#[trigger] p[j]) by {
            assert(p[j] == ts[j]);
        }
        lemma_all_kept(p);
        assert(keeps_track(ts[ts.len() - 1]));
        assert(ts.map_values(|t: TrackDoc| track_from_doc(t)) =~= p.map_values(
            |t: TrackDoc| track_from_doc(t),
        ).push(track_from_doc(ts.last())));
    } else {
        assert(ts.map_values(|t: TrackDoc| track_from_doc(t)) =~= Seq::<TrackModel>::empty());
    }
}

/// A collection exported as a karaoke playlist file and read back by the
/// karaoke importer gives the collection's name and description (cleaned)
/// and, in order, a track for each of its songs that has a title and an
/// artist, made from what was written for that song. The file is the JSON
/// that holds the export; a collection with a blank name is refused on
/// import. When every song has a title and an artist, there is one track
/// per song, in order, with the song's cleaned title and its length.
pub proof fn law_exported_file_reads_back(c: CollectionModel, f: KaraokePlaylistFile, d: JsonValue)
    requires
        is_export_of(f, c),
        writes_file(d, f),
        trim_ws(c.name@).len() > 0,
    ensures
        karaoke_import(Some(d)) == Ok::<(Seq<char>, Option<Seq<char>>, Seq<TrackModel>), Seq<char>>(
            (
                clean(c.name@),
                match c.description {
                    Some(x) => Some(clean(x@)),
                    None => None,
                },
                karaoke_tracks(c.songs.map_values(|s: Song| song_doc(s))),
            ),
        ),
        forall|j: int|
            0 <= j < c.songs.len() && keeps_track(#[trigger] song_doc(c.songs[j])) ==> karaoke_tracks(
                c.songs.map_values(|s: Song| song_doc(s)),
            ).contains(track_from_doc(song_doc(c.songs[j]))),
        (forall|j: int| 0 <= j < c.songs.len() ==> keeps_track(#[trigger] song_doc(c.songs[j]))) ==> {
            let ts = karaoke_tracks(c.songs.map_values(|s: Song| song_doc(s)));
            &&& ts.len() == c.songs.len()
            &&& forall|j: int|
                0 <= j < c.songs.len() ==> {
                    &&& #[trigger] ts[j] == track_from_doc(song_doc(c.songs[j]))
                    &&& ts[j].title == clean(c.songs[j].title@)
                    &&& ts[j].duration_ms == exported_track(c.songs[j]).duration_ms
                }
        },
{
    if forall|j: int| 0 <= j < c.songs.len() ==> keeps_track(#[trigger] song_doc(c.songs[j])) {
        let docs = c.songs.map_values(|s: Song| song_doc(s));
        assert forall|j: int| 0 <= j < docs.len() implies keeps_track(#[trigger] docs[j]) by {
            assert(docs[j] == song_doc(c.songs[j]));
        }
        lemma_all_kept(docs);
        assert forall|j: int| 0 <= j < c.songs.len() implies #[trigger] karaoke_tracks(docs)[j]
            == track_from_doc(song_doc(c.songs[j])) by {
            assert(docs[j] == song_doc(c.songs[j]));
        }
    }
    assert forall|j: int|
        0 <= j < c.songs.len() && keeps_track(#[trigger] song_doc(c.songs[j])) implies karaoke_tracks(
            c.songs.map_values(|s: Song| song_doc(s)),
        ).contains(track_from_doc(song_doc(c.songs[j]))) by {
        assert(c.songs.map_values(|s: Song| song_doc(s))[j] == song_doc(c.songs[j]));
        lemma_kept_track_read(c.songs.map_values(|s: Song| song_doc(s)), j);
    }
    let items = match field(d, "tracks"@) {
        Some(JsonValue::Array(items)) => items@,
        _ => Seq::empty(),
    };
    assert(export_tracks(f.tracks@).len() == c.songs.len());
    assert forall|i: int| 0 <= i < items.len() implies #[trigger] writes_track(
        items[i],
        exported_track(c.songs[i]),
    ) by {
        assert(items.len() == c.songs.len());
        assert(writes_track(items[i], f.tracks@[i]@));
        assert(export_tracks(f.tracks@)[i] == f.tracks@[i]@);
        assert(c.songs.map_values(|s: Song| exported_track(s))[i] == exported_track(c.songs[i]));
    }
    lemma_written_tracks(items, c.songs, items.len() as int);
    assert(items.take(items.len() as int) =~= items);
    assert(c.songs.take(c.songs.len() as int) =~= c.songs);
    assert(decode_file(d) == Some(
        FileDoc {
            format: "karaoke-playlist"@,
            version: 1,
            name: c.name@,
            description: opt_view(c.description),
            tracks: c.songs.map_values(|s: Song| song_doc(s)),
        },
    ));
}

} // verus!
