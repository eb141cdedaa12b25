use vidfetch::model::{
    ErrorKind, OperationKind, OrchestratorConfig, ProviderFailure, QualityPolicy,
    RetrievalOutcome, StreamDescriptor, ToolReport, VideoMetadata,
};
use vidfetch::orchestrate::{
    choose_stream, download_outcome, external_report_outcome, map_provider_failure,
    metadata_outcome, plan_request, resolve_output_file, select_stream, ProviderCall,
};

fn config() -> OrchestratorConfig {
    OrchestratorConfig::new(
        "/usr/local/bin/yt-dlp".to_string(),
        "downloads".to_string(),
        "downloads".to_string(),
        20,
        QualityPolicy::BestAvailable,
        4096,
    )
    .unwrap()
}

#[test]
fn config_rejects_empty_tool_path() {
    let r = OrchestratorConfig::new(
        "".to_string(),
        "downloads".to_string(),
        "downloads".to_string(),
        20,
        QualityPolicy::BestAvailable,
        4096,
    );
    assert!(r.is_none());
}

#[test]
fn metadata_request_plans_only_the_embedded_metadata_path() {
    let cfg = config();
    let call = plan_request("dQw4w9WgXcQ", OperationKind::MetadataOnly, &cfg).unwrap();
    match call {
        ProviderCall::EmbeddedMetadata { reference, timeout_secs } => {
            assert_eq!(reference.as_str(), "dQw4w9WgXcQ");
            assert_eq!(timeout_secs, 20);
        },
        _ => panic!("metadata request planned a download"),
    }
}

#[test]
fn embedded_download_carries_the_configured_policy() {
    let cfg = config();
    let call = plan_request("youtu.be/abcdefghijk", OperationKind::DownloadEmbedded, &cfg)
        .unwrap();
    match call {
        ProviderCall::EmbeddedDownload { reference, quality, timeout_secs } => {
            assert_eq!(reference.as_str(), "abcdefghijk");
            assert_eq!(quality, QualityPolicy::BestAvailable);
            assert_eq!(timeout_secs, 20);
        },
        _ => panic!("embedded download planned something else"),
    }
}

#[test]
fn external_download_carries_the_configuration_unchanged() {
    let cfg = config();
    let call = plan_request("abcdefghijk", OperationKind::DownloadExternalTool, &cfg).unwrap();
    match call {
        ProviderCall::ExternalDownload {
            reference,
            tool_path,
            output_dir,
            output_template,
            timeout_secs,
        } => {
            assert_eq!(reference.as_str(), "abcdefghijk");
            assert_eq!(tool_path, "/usr/local/bin/yt-dlp");
            assert_eq!(output_dir, "downloads");
            assert_eq!(output_template, "downloads");
            assert_eq!(timeout_secs, 20);
        },
        _ => panic!("external download planned something else"),
    }
}

#[test]
fn invalid_reference_never_reaches_a_provider() {
    let cfg = config();
    let e = plan_request("not a url", OperationKind::MetadataOnly, &cfg).unwrap_err();
    assert_eq!(e.kind, ErrorKind::InvalidReference);
}

#[test]
fn successful_metadata_is_passed_through_verbatim() {
    let m = VideoMetadata {
        title: "t".to_string(),
        author: "a".to_string(),
        duration_seconds: 7,
    };
    match metadata_outcome(Ok(m)) {
        RetrievalOutcome::Metadata(got) => {
            assert_eq!(got.title, "t");
            assert_eq!(got.author, "a");
            assert_eq!(got.duration_seconds, 7);
        },
        _ => panic!("success did not stay a success"),
    }
}

#[test]
fn each_failure_maps_to_its_taxonomy_kind() {
    let cases = vec![
        (ProviderFailure::ParseFailure("p".to_string()), false, ErrorKind::MetadataFetchFailed),
        (ProviderFailure::NetworkFailure("n".to_string()), false, ErrorKind::MetadataFetchFailed),
        (ProviderFailure::NetworkFailure("n".to_string()), true, ErrorKind::DownloadFailed),
        (ProviderFailure::IoFailure("i".to_string()), true, ErrorKind::DownloadFailed),
        (ProviderFailure::SubprocessFailure("s".to_string()), true, ErrorKind::DownloadFailed),
        (ProviderFailure::TimedOut("t".to_string()), true, ErrorKind::ProviderTimeout),
        (ProviderFailure::FileMissing("f".to_string()), true, ErrorKind::FileNotFound),
        (ProviderFailure::Other("o".to_string()), true, ErrorKind::Unknown),
    ];
    for (failure, during_download, expected) in cases {
        let e = map_provider_failure(during_download, failure);
        assert_eq!(e.kind, expected);
        assert!(e.detail.is_some());
    }
}

#[test]
fn unknown_failure_preserves_its_detail() {
    let e = map_provider_failure(true, ProviderFailure::Other("odd words".to_string()));
    assert_eq!(e.kind, ErrorKind::Unknown);
    assert_eq!(e.detail.unwrap(), "odd words");
}

#[test]
fn download_failure_becomes_a_failure_outcome() {
    match download_outcome(Err(ProviderFailure::NetworkFailure("mid-transfer".to_string()))) {
        RetrievalOutcome::Failure(e) => {
            assert_eq!(e.kind, ErrorKind::DownloadFailed);
            assert_eq!(e.detail.unwrap(), "mid-transfer");
        },
        _ => panic!("failure did not stay a failure"),
    }
}

#[test]
fn best_available_picks_the_highest_rank() {
    let streams = vec![
        StreamDescriptor { tag: 18, quality_rank: 360, audio_only: false },
        StreamDescriptor { tag: 22, quality_rank: 720, audio_only: false },
        StreamDescriptor { tag: 140, quality_rank: 128, audio_only: true },
    ];
    let i = select_stream(&streams, QualityPolicy::BestAvailable).unwrap();
    assert_eq!(streams[i].tag, 22);
}

#[test]
fn worst_audio_picks_the_lowest_audio_rank() {
    let streams = vec![
        StreamDescriptor { tag: 22, quality_rank: 720, audio_only: false },
        StreamDescriptor { tag: 140, quality_rank: 128, audio_only: true },
        StreamDescriptor { tag: 139, quality_rank: 48, audio_only: true },
    ];
    let i = select_stream(&streams, QualityPolicy::WorstAudio).unwrap();
    assert_eq!(streams[i].tag, 139);
}

#[test]
fn missing_stream_variant_is_stream_unavailable() {
    let streams = vec![
        StreamDescriptor { tag: 22, quality_rank: 720, audio_only: false },
    ];
    let e = choose_stream(&streams, QualityPolicy::WorstAudio).unwrap_err();
    assert_eq!(e.kind, ErrorKind::StreamUnavailable);
    let none = select_stream(&Vec::new(), QualityPolicy::BestAvailable);
    assert!(none.is_none());
}

#[test]
fn tie_in_rank_keeps_the_first_stream() {
    let streams = vec![
        StreamDescriptor { tag: 1, quality_rank: 720, audio_only: false },
        StreamDescriptor { tag: 2, quality_rank: 720, audio_only: false },
    ];
    let i = select_stream(&streams, QualityPolicy::BestAvailable).unwrap();
    assert_eq!(streams[i].tag, 1);
}

#[test]
fn reported_title_resolves_the_output_file() {
    let f = resolve_output_file(Some("My Video".to_string()), "downloads");
    assert_eq!(f.display_name, "My Video.mp4");
    assert_eq!(f.path, "downloads/My Video.mp4");
    assert_eq!(f.media_type, "video/mp4");
}

#[test]
fn missing_title_resolves_to_the_placeholder() {
    let f = resolve_output_file(None, "downloads");
    assert_eq!(f.display_name, "Unknown.mp4");
    assert_eq!(f.path, "downloads/Unknown.mp4");
}

#[test]
fn tool_report_without_a_single_video_fails() {
    match external_report_outcome(ToolReport::NoVideo, "downloads") {
        RetrievalOutcome::Failure(e) => {
            assert_eq!(e.kind, ErrorKind::MetadataFetchFailed);
            assert!(e.detail.is_none());
        },
        _ => panic!("missing video did not fail"),
    }
}
