use yt_summarizer::errors::PipelineError;
use yt_summarizer::utils::extract_video_id;

#[test]
fn test_extract_video_id() {
    let test_cases = vec![
        ("https://www.youtube.com/watch?v=dQw4w9WgXcQ", Ok("dQw4w9WgXcQ".to_string())),
        ("https://youtu.be/dQw4w9WgXcQ", Ok("dQw4w9WgXcQ".to_string())),
        ("https://youtube.com/shorts/dQw4w9WgXcQ", Ok("dQw4w9WgXcQ".to_string())),
        ("https://www.youtube.com/embed/dQw4w9WgXcQ", Ok("dQw4w9WgXcQ".to_string())),
        ("https://invalid-url.com", Err(())),
    ];

    for (url, expected) in test_cases {
        match (extract_video_id(url), expected) {
            (Ok(id), Ok(expected_id)) => assert_eq!(id, expected_id),
            (Err(_), Err(_)) => {},
            _ => panic!("Mismatch for URL: {}", url),
        }
    }
}

#[test]
fn resolves_legacy_v_and_e_paths() {
    assert_eq!(
        extract_video_id("https://www.youtube.com/v/dQw4w9WgXcQ").unwrap(),
        "dQw4w9WgXcQ"
    );
    assert_eq!(
        extract_video_id("https://www.youtube.com/e/dQw4w9WgXcQ").unwrap(),
        "dQw4w9WgXcQ"
    );
}

#[test]
fn resolves_watch_url_with_later_v_parameter() {
    let url = "https://www.youtube.com/watch?app=desktop&v=dQw4w9WgXcQ";
    assert_eq!(extract_video_id(url).unwrap(), "dQw4w9WgXcQ");
}

#[test]
fn unrelated_host_fails_with_identifier_not_found() {
    let url = "https://invalid-url.com";
    match extract_video_id(url) {
        Err(PipelineError::IdentifierNotFound { url: u }) => assert_eq!(u, url),
        other => panic!("expected IdentifierNotFound, got {:?}", other),
    }
}

#[test]
fn too_short_identifier_is_rejected() {
    assert!(extract_video_id("https://youtu.be/short").is_err());
}

#[test]
fn identifier_stops_at_query_separator() {
    assert_eq!(
        extract_video_id("https://www.youtube.com/watch?v=dQw4w9WgXcQ&t=10").unwrap(),
        "dQw4w9WgXcQ"
    );
}

#[test]
fn identifier_not_found_message_carries_url() {
    let e = extract_video_id("https://example.org").unwrap_err();
    assert_eq!(
        e.message(),
        "Could not extract YouTube video ID from URL: https://example.org"
    );
}

#[test]
fn whitespace_inside_identifier_is_rejected() {
    assert!(extract_video_id("https://youtu.be/aaaaa\u{000B}aaaaa").is_err());
    assert!(extract_video_id("https://youtu.be/aaaaa\u{00A0}aaaaa").is_err());
    assert!(extract_video_id("https://youtu.be/aaaaa aaaaa").is_err());
}
