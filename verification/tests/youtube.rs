use festejar::youtube::{
    embeddable_ids_from_response, filter_results_by_embeddable, format_duration_ms, SearchResult,
    VideoStatus, VideoStatusItem, VideosListResponse,
};

fn dummy_result(id: &str) -> SearchResult {
    SearchResult {
        id: id.to_string(),
        title: format!("title-{id}"),
        channel: "channel".to_string(),
        duration: "1:00".to_string(),
        thumbnail: "".to_string(),
        url: "".to_string(),
    }
}

#[test]
fn test_format_duration_ms() {
    assert_eq!(format_duration_ms(65000), "1:05");
    assert_eq!(format_duration_ms(3661000), "1:01:01");
    assert_eq!(format_duration_ms(0), "0:00");
}

#[test]
fn test_filter_results_keeps_embeddable_videos() {
    let mut embeddable_ids = Vec::new();
    embeddable_ids.push("ok-video".to_string());

    let filtered = filter_results_by_embeddable(
        vec![dummy_result("ok-video"), dummy_result("blocked-video")],
        &embeddable_ids,
    );

    assert_eq!(filtered.len(), 1);
    assert_eq!(filtered[0].id, "ok-video");
}

#[test]
fn test_filter_results_removes_non_embeddable_videos() {
    let embeddable_ids: Vec<String> = Vec::new();

    let filtered = filter_results_by_embeddable(vec![dummy_result("blocked-video")], &embeddable_ids);

    assert!(filtered.is_empty());
}

#[test]
fn test_filter_results_removes_missing_video_ids() {
    let mut embeddable_ids = Vec::new();
    embeddable_ids.push("other-video".to_string());

    let filtered = filter_results_by_embeddable(vec![dummy_result("missing-video")], &embeddable_ids);

    assert!(filtered.is_empty());
}

#[test]
fn test_embeddable_ids_from_response_only_accepts_true_status() {
    let embeddable_ids = embeddable_ids_from_response(VideosListResponse {
        items: vec![
            VideoStatusItem {
                id: "ok-video".to_string(),
                status: VideoStatus {
                    embeddable: Some(true),
                },
            },
            VideoStatusItem {
                id: "blocked-video".to_string(),
                status: VideoStatus {
                    embeddable: Some(false),
                },
            },
            VideoStatusItem {
                id: "unknown-video".to_string(),
                status: VideoStatus { embeddable: None },
            },
        ],
    });

    assert!(embeddable_ids.contains(&"ok-video".to_string()));
    assert!(!embeddable_ids.contains(&"blocked-video".to_string()));
    assert!(!embeddable_ids.contains(&"unknown-video".to_string()));
}
