use vidfetch::model::ErrorKind;
use vidfetch::normalize::normalize;

#[test]
fn bare_identifier_is_accepted() {
    let r = normalize("dQw4w9WgXcQ").unwrap();
    assert_eq!(r.as_str(), "dQw4w9WgXcQ");
}

#[test]
fn watch_url_is_accepted() {
    let r = normalize("https://www.youtube.com/watch?v=dQw4w9WgXcQ").unwrap();
    assert_eq!(r.as_str(), "dQw4w9WgXcQ");
}

#[test]
fn watch_url_with_query_tail_is_accepted() {
    let r = normalize("youtube.com/watch?v=abcdefghijk&t=42s").unwrap();
    assert_eq!(r.as_str(), "abcdefghijk");
}

#[test]
fn shorts_url_is_accepted() {
    let r = normalize("https://youtube.com/shorts/abcdefghijk").unwrap();
    assert_eq!(r.as_str(), "abcdefghijk");
}

#[test]
fn embed_url_is_accepted() {
    let r = normalize("http://www.youtube.com/embed/abc-efg_ijk").unwrap();
    assert_eq!(r.as_str(), "abc-efg_ijk");
}

#[test]
fn share_url_is_accepted() {
    let r = normalize("https://youtu.be/dQw4w9WgXcQ").unwrap();
    assert_eq!(r.as_str(), "dQw4w9WgXcQ");
}

#[test]
fn share_url_with_tail_is_rejected() {
    assert!(normalize("https://youtu.be/dQw4w9WgXcQ?t=1").is_err());
}

#[test]
fn plain_text_is_rejected() {
    let e = normalize("not a url").unwrap_err();
    assert_eq!(e.kind, ErrorKind::InvalidReference);
    assert!(e.detail.is_none());
}

#[test]
fn empty_string_is_rejected() {
    assert!(normalize("").is_err());
}

#[test]
fn short_identifier_is_rejected() {
    assert!(normalize("abcdefghij").is_err());
}

#[test]
fn long_identifier_is_rejected() {
    assert!(normalize("abcdefghijkl").is_err());
}

#[test]
fn identifier_with_bad_character_is_rejected() {
    assert!(normalize("abcdefghij!").is_err());
}

#[test]
fn wrong_host_is_rejected() {
    assert!(normalize("https://example.com/watch?v=dQw4w9WgXcQ").is_err());
}

#[test]
fn normalization_is_pure_and_repeatable() {
    let a = normalize("youtu.be/abcdefghijk").unwrap();
    let b = normalize("youtu.be/abcdefghijk").unwrap();
    assert_eq!(a.as_str(), b.as_str());
    assert!(normalize("???").is_err());
    assert!(normalize("???").is_err());
}

#[test]
fn extracted_identifier_is_itself_canonical() {
    let first = normalize("https://www.youtube.com/watch?v=dQw4w9WgXcQ").unwrap();
    let second = normalize(first.as_str()).unwrap();
    assert_eq!(second.as_str(), first.as_str());
}
