use vidfetch::codec::{decode_video_response, encode_video_response};
use vidfetch::model::{VideoMetadata, VideoResponse};

fn sample() -> VideoResponse {
    VideoResponse {
        id: "dQw4w9WgXcQ".to_string(),
        details: VideoMetadata {
            title: "Never Gonna Give You Up".to_string(),
            author: "Rick Astley".to_string(),
            duration_seconds: 212,
        },
    }
}

#[test]
fn encode_has_exact_expected_frame() {
    let s = encode_video_response(&sample());
    assert_eq!(
        s,
        "{\"id\":\"dQw4w9WgXcQ\",\"details\":{\"title\":\"Never Gonna Give You Up\",\
         \"author\":\"Rick Astley\",\"duration_seconds\":212}}"
    );
}

#[test]
fn round_trip_preserves_everything() {
    let original = sample();
    let s = encode_video_response(&original);
    let back = decode_video_response(&s).unwrap();
    assert_eq!(back.id, original.id);
    assert_eq!(back.details.title, original.details.title);
    assert_eq!(back.details.author, original.details.author);
    assert_eq!(back.details.duration_seconds, original.details.duration_seconds);
}

#[test]
fn round_trip_preserves_escaped_characters() {
    let original = VideoResponse {
        id: "abc_efg-ijk".to_string(),
        details: VideoMetadata {
            title: "A \"quoted\"\ttitle\nwith \\ stuff\r".to_string(),
            author: "".to_string(),
            duration_seconds: 0,
        },
    };
    let s = encode_video_response(&original);
    let back = decode_video_response(&s).unwrap();
    assert_eq!(back.id, original.id);
    assert_eq!(back.details.title, original.details.title);
    assert_eq!(back.details.author, original.details.author);
    assert_eq!(back.details.duration_seconds, original.details.duration_seconds);
}

#[test]
fn round_trip_preserves_largest_duration() {
    let original = VideoResponse {
        id: "abcdefghijk".to_string(),
        details: VideoMetadata {
            title: "t".to_string(),
            author: "a".to_string(),
            duration_seconds: u64::MAX,
        },
    };
    let s = encode_video_response(&original);
    let back = decode_video_response(&s).unwrap();
    assert_eq!(back.details.duration_seconds, u64::MAX);
}

#[test]
fn encoded_frame_parses_as_json() {
    let original = VideoResponse {
        id: "dQw4w9WgXcQ".to_string(),
        details: VideoMetadata {
            title: "A \"quoted\" title".to_string(),
            author: "Some\tAuthor".to_string(),
            duration_seconds: 212,
        },
    };
    let s = encode_video_response(&original);
    let v: serde_json::Value = serde_json::from_str(&s).unwrap();
    assert_eq!(v["id"].as_str().unwrap(), "dQw4w9WgXcQ");
    assert_eq!(v["details"]["title"].as_str().unwrap(), "A \"quoted\" title");
    assert_eq!(v["details"]["author"].as_str().unwrap(), "Some\tAuthor");
    assert_eq!(v["details"]["duration_seconds"].as_u64().unwrap(), 212);
}

#[test]
fn garbage_does_not_decode() {
    assert!(decode_video_response("not a frame").is_none());
    assert!(decode_video_response("").is_none());
    assert!(decode_video_response("{\"id\":\"x\"}").is_none());
}

#[test]
fn control_characters_are_escaped_and_recovered() {
    let original = VideoResponse {
        id: "abcdefghijk".to_string(),
        details: VideoMetadata {
            title: "bell\u{7} null\u{0} esc\u{1b} unit\u{1f}".to_string(),
            author: "a".to_string(),
            duration_seconds: 1,
        },
    };
    let s = encode_video_response(&original);
    assert!(s.contains("\\u0007"));
    assert!(s.contains("\\u0000"));
    assert!(s.contains("\\u001b"));
    assert!(s.contains("\\u001f"));
    let back = decode_video_response(&s).unwrap();
    assert_eq!(back.details.title, original.details.title);
    let v: serde_json::Value = serde_json::from_str(&s).unwrap();
    assert_eq!(v["details"]["title"].as_str().unwrap(), original.details.title);
}
