use festejar::settings::app_settings_info;

#[test]
fn settings_info_names_the_app_and_keeps_the_locations() {
    let info = app_settings_info(
        "1.2.3".to_string(),
        Some("/data/FESTEJAR/data".to_string()),
        None,
        Some("/data/FESTEJAR/data/playlists.json".to_string()),
        Some("/data/FESTEJAR/data/session-history".to_string()),
    );
    assert_eq!(info.product_name, "FESTEJAR");
    assert_eq!(info.version, "1.2.3");
    assert_eq!(info.data_dir.as_deref(), Some("/data/FESTEJAR/data"));
    assert_eq!(info.log_dir, None);
    assert_eq!(info.playlists_path.as_deref(), Some("/data/FESTEJAR/data/playlists.json"));
    assert_eq!(info.session_history_dir.as_deref(), Some("/data/FESTEJAR/data/session-history"));
}
