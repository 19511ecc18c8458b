//! What the Settings screen shows about the app and where it keeps its files.
use vstd::prelude::*;
use crate::text::owned;

verus! {

/// The app's name and version, and its storage locations as text.
#[derive(Debug)]
pub struct AppSettingsInfo {
    pub product_name: String,
    pub version: String,
    pub data_dir: Option<String>,
    pub log_dir: Option<String>,
    pub playlists_path: Option<String>,
    pub session_history_dir: Option<String>,
}

/// The name the app shows for itself.
pub open spec fn product_name() -> Seq<char> {
    "FESTEJAR"@
}

/// The settings information for a version and the storage locations found
/// for it; the product name is always `FESTEJAR`.
pub fn app_settings_info(
    version: String,
    data_dir: Option<String>,
    log_dir: Option<String>,
    playlists_path: Option<String>,
    session_history_dir: Option<String>,
) -> (r: AppSettingsInfo)
    ensures
        r.product_name@ == product_name(),
        r.version == version,
        r.data_dir == data_dir,
        r.log_dir == log_dir,
        r.playlists_path == playlists_path,
        r.session_history_dir == session_history_dir,
{
    proof {
        reveal_strlit("FESTEJAR");
    }
    AppSettingsInfo {
        product_name: owned("FESTEJAR"),
        version,
        data_dir,
        log_dir,
        playlists_path,
        session_history_dir,
    }
}

} // verus!
