use yt_summarizer::errors::PipelineError;
use yt_summarizer::transcript::{
    build_video_metadata, extract_captions_url, extract_video_description, extract_video_title,
};

#[test]
fn og_title_wins_over_other_patterns() {
    let html = "<meta property=\"og:title\" content=\"First\"><meta name=\"title\" content=\"Second\"><title>Third - YouTube</title>";
    assert_eq!(extract_video_title(html), "First");
}

#[test]
fn meta_title_is_second_choice() {
    let html = "<meta name=\"title\" content=\"Second\"><title>Third - YouTube</title>";
    assert_eq!(extract_video_title(html), "Second");
}

#[test]
fn title_element_is_third_choice() {
    let html = "<head><title>Third - YouTube</title></head>";
    assert_eq!(extract_video_title(html), "Third");
}

#[test]
fn missing_title_yields_placeholder() {
    assert_eq!(extract_video_title("<html></html>"), "Untitled YouTube Video");
}

#[test]
fn title_entities_are_decoded() {
    let html = "<meta property=\"og:title\" content=\"Tom &amp; Jerry\">";
    assert_eq!(extract_video_title(html), "Tom & Jerry");
}

#[test]
fn og_description_wins() {
    let html = "<meta property=\"og:description\" content=\"From og\"><meta name=\"description\" content=\"From meta\">";
    assert_eq!(extract_video_description(html), "From og");
}

#[test]
fn json_description_does_not_stop_at_escaped_quote() {
    let html = "{\"description\": \"has \\\"quoted\\\" words\"}";
    assert_eq!(extract_video_description(html), "has \\\"quoted\\\" words");
}

#[test]
fn missing_description_yields_placeholder() {
    assert_eq!(
        extract_video_description("<html></html>"),
        "No description available."
    );
}

#[test]
fn tight_caption_pattern_extracts_and_unescapes() {
    let html = "{\"captionTracks\":[{\"baseUrl\":\"https://example.org/t?v=abc\\u0026lang=en\",\"name\":{}}]}";
    assert_eq!(
        extract_captions_url(html).unwrap(),
        "https://example.org/t?v=abc&lang=en"
    );
}

#[test]
fn loose_caption_pattern_covers_spaced_markup() {
    let html = "{\"playerCaptionsTracklistRenderer\": {\"captionTracks\": [ {\"baseUrl\": \"https://example.org/loose\"} ]}}";
    assert_eq!(extract_captions_url(html).unwrap(), "https://example.org/loose");
}

#[test]
fn tight_pattern_preferred_over_loose() {
    let html = "{\"playerCaptionsTracklistRenderer\": {\"captionTracks\": [ {\"baseUrl\": \"https://example.org/loose\"} ]}} {\"captionTracks\":[{\"baseUrl\":\"https://example.org/tight\",\"name\":{}}]}";
    assert_eq!(extract_captions_url(html).unwrap(), "https://example.org/tight");
}

#[test]
fn missing_captions_is_fatal() {
    match extract_captions_url("<html>no captions here</html>") {
        Err(PipelineError::NoCaptionsAvailable) => {},
        other => panic!("expected NoCaptionsAvailable, got {:?}", other),
    }
}

#[test]
fn no_captions_message() {
    let e = extract_captions_url("<html></html>").unwrap_err();
    assert_eq!(e.message(), "No caption tracks found for this video");
}

#[test]
fn end_to_end_canned_page() {
    let html = "<html><head><meta property=\"og:title\" content=\"My Video\"><meta name=\"description\" content=\"A canned page.\"></head><body><script>{\"captionTracks\":[{\"baseUrl\":\"https://example.org/timedtext?v=abc\\u0026lang=en\",\"name\":{}}]}</script></body></html>";
    assert_eq!(extract_video_title(html), "My Video");
    assert_eq!(extract_video_description(html), "A canned page.");
    let url = extract_captions_url(html).unwrap();
    assert_eq!(url, "https://example.org/timedtext?v=abc&lang=en");
    assert!(url.contains('&'));
    assert!(!url.contains("\\u0026"));

    let payload = "<transcript><text start=\"0.0\" dur=\"1.0\">Hello</text><text start=\"1.0\" dur=\"1.0\">world</text></transcript>";
    let metadata = build_video_metadata("abcdefghijk", html, payload).unwrap();
    assert_eq!(metadata.video_id, "abcdefghijk");
    assert_eq!(metadata.title, "My Video");
    assert_eq!(metadata.description, "A canned page.");
    assert_eq!(metadata.transcript, "Hello world ");
}

#[test]
fn empty_payload_fails_metadata_build() {
    let html = "<meta property=\"og:title\" content=\"My Video\">";
    match build_video_metadata("abcdefghijk", html, "<transcript></transcript>") {
        Err(PipelineError::EmptyTranscript) => {},
        other => panic!("expected EmptyTranscript, got {:?}", other),
    }
}

#[test]
fn loose_pattern_retries_later_candidates() {
    let html = "{\"playerCaptionsTracklistRenderer\": {\"audioTracks\": {\"captionTracks\": null}, \"captionTracks\": [ {\"baseUrl\": \"https://example.org/retry\"} ]}}";
    assert_eq!(extract_captions_url(html).unwrap(), "https://example.org/retry");
}

#[test]
fn loose_pattern_whitespace_may_span_lines() {
    let html = "{\"playerCaptionsTracklistRenderer\": {\"captionTracks\":\n[\n{\n\"baseUrl\": \"https://example.org/lines\"} ]}}";
    assert_eq!(extract_captions_url(html).unwrap(), "https://example.org/lines");
}

#[test]
fn loose_pattern_gap_may_not_span_lines() {
    let html = "{\"playerCaptionsTracklistRenderer\":\n{\"captionTracks\": [ {\"baseUrl\": \"https://example.org/far\"} ]}}";
    assert!(matches!(
        extract_captions_url(html),
        Err(PipelineError::NoCaptionsAvailable)
    ));
}
