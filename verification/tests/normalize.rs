use yt_summarizer::errors::PipelineError;
use yt_summarizer::transcript::parse_transcript_data;

#[test]
fn fragments_join_with_single_spaces() {
    let payload = "<text>Hello</text><text>World</text>";
    assert_eq!(parse_transcript_data(payload).unwrap(), "Hello World ");
}

#[test]
fn attributes_on_text_elements_are_ignored() {
    let payload = "<text start=\"0.0\" dur=\"2.5\">one</text><text start=\"2.5\">two</text>";
    assert_eq!(parse_transcript_data(payload).unwrap(), "one two ");
}

#[test]
fn fragment_entities_are_decoded() {
    let payload = "<text>Tom &amp; Jerry</text><text>&#33;</text>";
    assert_eq!(parse_transcript_data(payload).unwrap(), "Tom & Jerry ! ");
}

#[test]
fn fragments_keep_document_order() {
    let payload = "<text>a</text><text>b</text><text>c</text>";
    assert_eq!(parse_transcript_data(payload).unwrap(), "a b c ");
}

#[test]
fn zero_fragments_fail_with_empty_transcript() {
    match parse_transcript_data("<transcript></transcript>") {
        Err(PipelineError::EmptyTranscript) => {},
        other => panic!("expected EmptyTranscript, got {:?}", other),
    }
}

#[test]
fn empty_payload_fails_with_empty_transcript() {
    assert!(matches!(
        parse_transcript_data(""),
        Err(PipelineError::EmptyTranscript)
    ));
}

#[test]
fn empty_transcript_message() {
    let e = parse_transcript_data("").unwrap_err();
    assert_eq!(e.message(), "Failed to extract any text from transcript data");
}

#[test]
fn single_empty_fragment_is_a_success() {
    assert_eq!(parse_transcript_data("<text></text>").unwrap(), " ");
}
