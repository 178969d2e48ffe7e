use yt_summarizer::errors::PipelineError;
use yt_summarizer::summaries::{
    highlights_prompt, highlights_system_prompt, summary_prompt, summary_system_prompt,
    truncate_transcript,
};
use yt_summarizer::transcript::VideoMetadata;
use yt_summarizer::utils::{
    get_transcript_path, save_highlights, save_summary, save_video_files, video_directory,
};

#[test]
fn transcript_path_is_fixed_layout() {
    assert_eq!(get_transcript_path("abcdefghijk"), "output/abcdefghijk/transcript.txt");
    assert_eq!(video_directory("abcdefghijk"), "output/abcdefghijk");
}

#[test]
fn video_files_cover_all_four_outputs() {
    let metadata = VideoMetadata {
        video_id: "abcdefghijk".to_string(),
        title: "A Title".to_string(),
        description: "A description.".to_string(),
        transcript: "Hello world ".to_string(),
    };
    let entries = save_video_files(&metadata);
    assert_eq!(entries.len(), 4);
    assert_eq!(entries[0].path, "output/abcdefghijk/transcript.txt");
    assert_eq!(entries[0].content, "Hello world ");
    assert_eq!(entries[1].path, "output/abcdefghijk/info.md");
    assert_eq!(entries[1].content, "# A Title\n\nA description.");
    assert_eq!(entries[2].path, "output/abcdefghijk/summary.md");
    assert_eq!(entries[2].content, "");
    assert_eq!(entries[3].path, "output/abcdefghijk/highlights.md");
    assert_eq!(entries[3].content, "");
}

#[test]
fn summary_and_highlights_entries() {
    let s = save_summary("abcdefghijk", "the summary");
    assert_eq!(s.path, "output/abcdefghijk/summary.md");
    assert_eq!(s.content, "the summary");
    let h = save_highlights("abcdefghijk", "the highlights");
    assert_eq!(h.path, "output/abcdefghijk/highlights.md");
    assert_eq!(h.content, "the highlights");
}

#[test]
fn short_transcript_is_not_truncated() {
    assert_eq!(truncate_transcript("short"), "short");
    let exact: String = "x".repeat(10000);
    assert_eq!(truncate_transcript(&exact), exact);
}

#[test]
fn long_transcript_is_clipped_to_budget() {
    let long: String = "y".repeat(10001);
    let clipped = truncate_transcript(&long);
    assert_eq!(clipped.chars().count(), 10000);
    assert_eq!(clipped, "y".repeat(10000));
}

#[test]
fn prompts_embed_clipped_transcript() {
    let p = summary_prompt("the words");
    assert!(p.starts_with("Please provide a comprehensive summary"));
    assert!(p.ends_with(":\n\nthe words"));
    let h = highlights_prompt("the words");
    assert!(h.starts_with("Analyze the following transcript"));
    assert!(h.ends_with(":\n\nthe words"));
    let long: String = "z".repeat(20000);
    let clipped = summary_prompt(&long);
    assert!(clipped.ends_with(&"z".repeat(10000)));
    assert!(!clipped.ends_with(&"z".repeat(10001)));
}

#[test]
fn system_prompts_are_fixed() {
    assert!(summary_system_prompt().contains("summaries of YouTube video transcripts"));
    assert!(highlights_system_prompt().contains("new, unique, or unusual information"));
}

#[test]
fn fetch_error_messages_carry_cause() {
    let page = PipelineError::PageFetchFailed { cause: "timed out".to_string() };
    assert_eq!(page.message(), "Failed to fetch YouTube video page: timed out");
    let cap = PipelineError::CaptionFetchFailed { cause: "refused".to_string() };
    assert_eq!(cap.message(), "Failed to fetch transcript data: refused");
}
