use vidfetch::model::{
    ErrorKind, Info, OperationKind, OrchestratorConfig, ProviderFailure, QualityPolicy,
    RetrievalError, RetrievalOutcome, RetrievedFile, ToolReport, VideoMetadata,
};
use vidfetch::normalize::normalize;
use vidfetch::orchestrate::{download_outcome, external_report_outcome, metadata_outcome};
use vidfetch::respond::{
    begin_json_request, embedded_download_reply, external_download_reply, screen_body,
    video_info_reply, welcome_reply, HttpReply, ReplyPayload,
};

fn config() -> OrchestratorConfig {
    OrchestratorConfig::new(
        "/usr/local/bin/yt-dlp".to_string(),
        "downloads".to_string(),
        "downloads".to_string(),
        20,
        QualityPolicy::BestAvailable,
        4096,
    )
    .unwrap()
}

fn text_of(reply: &HttpReply) -> &str {
    match &reply.payload {
        ReplyPayload::PlainText(b) => b.as_str(),
        _ => panic!("expected a plain-text payload"),
    }
}

#[test]
fn video_info_success_carries_the_normalized_id() {
    let info = Info { data: "dQw4w9WgXcQ".to_string() };
    let reference = normalize(&info.data).unwrap();
    let details = VideoMetadata {
        title: "Never Gonna Give You Up".to_string(),
        author: "Rick Astley".to_string(),
        duration_seconds: 212,
    };
    let reply = video_info_reply(&reference, metadata_outcome(Ok(details)));
    assert_eq!(reply.status, 200);
    match reply.payload {
        ReplyPayload::Json(body) => {
            assert!(body.contains("\"id\":\"dQw4w9WgXcQ\""));
            assert!(body.contains("\"title\":\"Never Gonna Give You Up\""));
            assert!(body.contains("\"duration_seconds\":212"));
        },
        _ => panic!("expected a JSON payload"),
    }
}

#[test]
fn repeating_a_metadata_request_gives_an_identical_body() {
    let reference = normalize("dQw4w9WgXcQ").unwrap();
    let details = || VideoMetadata {
        title: "t".to_string(),
        author: "a".to_string(),
        duration_seconds: 212,
    };
    let first = video_info_reply(&reference, metadata_outcome(Ok(details())));
    let second = video_info_reply(&reference, metadata_outcome(Ok(details())));
    match (first.payload, second.payload) {
        (ReplyPayload::Json(a), ReplyPayload::Json(b)) => assert_eq!(a, b),
        _ => panic!("expected JSON payloads"),
    }
}

#[test]
fn invalid_download_reference_gives_bad_request() {
    let cfg = config();
    let info = Info { data: "not a url".to_string() };
    let reply = begin_json_request(info.data.len(), &info.data, OperationKind::DownloadEmbedded, &cfg)
        .unwrap_err();
    assert_eq!(reply.status, 400);
    assert_eq!(text_of(&reply), "Invalid YouTube URL");
}

#[test]
fn failed_download_gives_a_descriptive_server_error() {
    let outcome = download_outcome(Err(ProviderFailure::NetworkFailure(
        "connection reset mid-transfer".to_string(),
    )));
    let reply = embedded_download_reply(outcome);
    assert_eq!(reply.status, 500);
    assert_eq!(text_of(&reply), "Download failed: connection reset mid-transfer");
}

#[test]
fn successful_embedded_download_names_the_saved_path() {
    let file = RetrievedFile {
        path: "downloads/clip.mp4".to_string(),
        display_name: "clip.mp4".to_string(),
        media_type: "video/mp4".to_string(),
    };
    let reply = embedded_download_reply(RetrievalOutcome::File(file));
    assert_eq!(reply.status, 200);
    match reply.payload {
        ReplyPayload::Json(body) => {
            assert_eq!(body, "Downloaded video: \"downloads/clip.mp4\"");
        },
        _ => panic!("expected a JSON payload"),
    }
}

#[test]
fn external_success_is_served_as_an_attachment() {
    let outcome = external_report_outcome(
        ToolReport::Single(Some("My Video".to_string())),
        "downloads",
    );
    let reply = external_download_reply(outcome);
    assert_eq!(reply.status, 200);
    match reply.payload {
        ReplyPayload::Attachment(f) => {
            assert_eq!(f.path, "downloads/My Video.mp4");
            assert_eq!(f.display_name, "My Video.mp4");
        },
        _ => panic!("expected an attachment"),
    }
}

#[test]
fn missing_file_at_serve_time_is_file_not_found() {
    let outcome = download_outcome(Err(ProviderFailure::FileMissing(
        "downloads/My Video.mp4".to_string(),
    )));
    let reply = external_download_reply(outcome);
    assert_eq!(reply.status, 500);
    assert_eq!(text_of(&reply), "File not found");
}

#[test]
fn stream_unavailable_is_reported_without_a_crash() {
    let reply = embedded_download_reply(RetrievalOutcome::Failure(RetrievalError {
        kind: ErrorKind::StreamUnavailable,
        detail: None,
    }));
    assert_eq!(reply.status, 500);
    assert_eq!(text_of(&reply), "Stream unavailable: ");
}

#[test]
fn oversized_body_conflicts_before_normalization() {
    let cfg = config();
    let reply = screen_body(4097, &cfg).unwrap();
    assert_eq!(reply.status, 409);
    assert_eq!(text_of(&reply), "");
    assert!(screen_body(4096, &cfg).is_none());
    // even a perfectly valid reference is turned away first
    let r = begin_json_request(5000, "dQw4w9WgXcQ", OperationKind::MetadataOnly, &cfg);
    assert_eq!(r.unwrap_err().status, 409);
}

#[test]
fn timeout_is_reported_as_such() {
    let outcome = download_outcome(Err(ProviderFailure::TimedOut("20s elapsed".to_string())));
    let reply = external_download_reply(outcome);
    assert_eq!(reply.status, 500);
    assert_eq!(text_of(&reply), "Provider timed out: 20s elapsed");
}

#[test]
fn no_single_video_keeps_the_fixed_text() {
    let outcome = external_report_outcome(vidfetch::model::ToolReport::NoVideo, "downloads");
    let reply = external_download_reply(outcome);
    assert_eq!(reply.status, 500);
    assert_eq!(text_of(&reply), "Failed to get video info.");
}

#[test]
fn fetch_phase_failure_names_the_fetch() {
    let outcome = RetrievalOutcome::Failure(vidfetch::orchestrate::map_provider_failure(
        false,
        ProviderFailure::NetworkFailure("no route to host".to_string()),
    ));
    let reply = embedded_download_reply(outcome);
    assert_eq!(reply.status, 500);
    assert_eq!(text_of(&reply), "Failed to fetch video: no route to host");
}

#[test]
fn greeting_is_the_fixed_welcome() {
    let reply = welcome_reply();
    assert_eq!(reply.status, 200);
    assert_eq!(text_of(&reply), "Welcome to the YouTube Downloader API!");
}
