//! The history of the current host session: every song that was queued,
//! and the file it is exported to.
use vstd::prelude::*;
use crate::external::{is_uuid_text, new_uuid_string, now_millis};
use crate::model::{copy_songs, CollectionVisibility, Song};

verus! {

/// The songs queued during the current host session.
#[derive(Debug)]
pub struct SessionHistoryStore {
    base_dir: Option<String>,
    session_id: String,
    started_at: i64,
    exported_song_count: usize,
    songs: Vec<Song>,
}

/// A session history store as a value.
pub ghost struct HistoryModel {
    pub base_dir: Option<String>,
    pub session_id: String,
    pub started_at: i64,
    pub exported_song_count: usize,
    pub songs: Seq<Song>,
}

impl View for SessionHistoryStore {
    type V = HistoryModel;

    closed spec fn view(&self) -> HistoryModel {
        HistoryModel {
            base_dir: self.base_dir,
            session_id: self.session_id,
            started_at: self.started_at,
            exported_song_count: self.exported_song_count,
            songs: self.songs@,
        }
    }
}

/// The facts about the session that an exported file records.
#[derive(Debug)]
pub struct ExportedSessionMeta {
    pub id: String,
    pub started_at: i64,
    pub exported_at: i64,
    pub song_count: usize,
}

/// The collection that an exported session file holds.
#[derive(Debug)]
pub struct ExportedSessionCollection {
    pub name: String,
    pub visibility: CollectionVisibility,
    pub songs: Vec<Song>,
}

/// A session history file (`kind: "session-history"`), readable as a
/// karaoke playlist.
#[derive(Debug)]
pub struct ExportedSession {
    pub format: String,
    pub version: u32,
    pub generator: String,
    pub kind: String,
    pub session: ExportedSessionMeta,
    pub collection: ExportedSessionCollection,
}

/// A session file to write: the directory, the file name and the content.
#[derive(Debug)]
pub struct SessionExport {
    pub dir: String,
    pub file_name: String,
    pub document: ExportedSession,
}

/// The name of the file a session exported at `stamp` goes to.
pub open spec fn session_file_name(stamp: Seq<char>) -> Seq<char> {
    "karaoke-session-"@ + stamp + ".karaoke.json"@
}

/// Whether there is something new to export: songs were queued since the
/// last export, and the store knows where to write.
pub open spec fn has_export(h: HistoryModel) -> bool {
    &&& h.songs.len() > 0
    &&& h.exported_song_count != h.songs.len()
    &&& h.base_dir is Some
}

/// The export of the history `h`, made at `exported_at` with the time
/// stamp `stamp`.
pub open spec fn is_session_export(x: SessionExport, h: HistoryModel, exported_at: i64, stamp: Seq<char>) -> bool {
    &&& x.dir == h.base_dir->0
    &&& x.file_name@ == session_file_name(stamp)
    &&& x.document.format@ == "karaoke-playlist"@
    &&& x.document.version == 1
    &&& x.document.generator@ == "FESTEJAR"@
    &&& x.document.kind@ == "session-history"@
    &&& x.document.session.id == h.session_id
    &&& x.document.session.started_at == h.started_at
    &&& x.document.session.exported_at == exported_at
    &&& x.document.session.song_count == h.songs.len()
    &&& x.document.collection.name@ == "Session "@ + stamp
    &&& x.document.collection.visibility == CollectionVisibility::Personal
    &&& x.document.collection.songs@ == h.songs
}

impl SessionHistoryStore {
    /// A new session with a fresh id, started now, with no songs and no
    /// place to export to yet. The id is a random UUID in its hyphenated
    /// form.
    pub fn new() -> (r: SessionHistoryStore)
        ensures
            is_uuid_text(r@.session_id@),
            r@.base_dir is None,
            r@.exported_song_count == 0,
            r@.songs.len() == 0,
    {
        SessionHistoryStore {
            base_dir: None,
            session_id: new_uuid_string(),
            started_at: now_millis(),
            exported_song_count: 0,
            songs: Vec::new(),
        }
    }

    /// Sets the directory that session files go to, once it exists.
    pub fn initialize(&mut self, dir: String)
        ensures
            final(self)@ == (HistoryModel { base_dir: Some(dir), ..old(self)@ }),
    {
        self.base_dir = Some(dir);
    }

    /// Records a queued song.
    pub fn record_song(&mut self, song: &Song)
        ensures
            final(self)@ == (HistoryModel { songs: old(self)@.songs.push(*song), ..old(self)@ }),
    {
        self.songs.push(song.copy());
    }

    /// The songs of the session, in the order they were queued.
    pub fn get_all(&self) -> (r: Vec<Song>)
        ensures
            r@ == self@.songs,
    {
        copy_songs(&self.songs)
    }

    /// The file to write for the session (`export_current_session` before
    /// the write), or none when there is nothing new to export or nowhere
    /// to write it. `exported_at` is the current time and `stamp` the same
    /// time as `YYYYmmdd-HHMMSS`.
    pub fn export_current_session(&self, exported_at: i64, stamp: &str) -> (r: Option<SessionExport>)
        ensures
            has_export(self@) ==> (r matches Some(x) && is_session_export(x, self@, exported_at, stamp@)),
            !has_export(self@) ==> r is None,
    {
        proof {
            reveal_strlit("karaoke-session-");
            reveal_strlit(".karaoke.json");
            reveal_strlit("Session ");
        }
        if self.songs.len() == 0 {
            return None;
        }
        if self.exported_song_count == self.songs.len() {
            return None;
        }
        let dir = match &self.base_dir {
            Some(d) => d.clone(),
            None => {
                return None;
            },
        };
        let st = crate::text::chars_of(stamp);
        let mut file_name = crate::text::lit("karaoke-session-");
        crate::text::append_chars(&mut file_name, &st);
        let suffix = crate::text::lit(".karaoke.json");
        crate::text::append_chars(&mut file_name, &suffix);
        let mut name = crate::text::lit("Session ");
        crate::text::append_chars(&mut name, &st);
        Some(
            SessionExport {
                dir,
                file_name: crate::text::string_of(&file_name),
                document: ExportedSession {
                    format: crate::text::owned("karaoke-playlist"),
                    version: 1,
                    generator: crate::text::owned("FESTEJAR"),
                    kind: crate::text::owned("session-history"),
                    session: ExportedSessionMeta {
                        id: self.session_id.clone(),
                        started_at: self.started_at,
                        exported_at,
                        song_count: self.songs.len(),
                    },
                    collection: ExportedSessionCollection {
                        name: crate::text::string_of(&name),
                        visibility: CollectionVisibility::Personal,
                        songs: copy_songs(&self.songs),
                    },
                },
            },
        )
    }

    /// Records that the first `count` songs were written to a session file.
    pub fn mark_exported(&mut self, count: usize)
        ensures
            final(self)@ == (HistoryModel { exported_song_count: count, ..old(self)@ }),
    {
        self.exported_song_count = count;
    }
}

/// Once the songs written are marked as exported, there is nothing more to
/// export until another song is recorded; a recorded song makes an export
/// due again when the store knows where to write.
pub proof fn law_export_after_marking(h: HistoryModel, song: Song)
    requires
        h.exported_song_count <= h.songs.len(),
        h.songs.len() <= usize::MAX,
    ensures
        !has_export(HistoryModel { exported_song_count: h.songs.len() as usize, ..h }),
        h.base_dir is Some ==> has_export(HistoryModel { songs: h.songs.push(song), ..h }),
{
}

} // verus!
