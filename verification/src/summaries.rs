//! The computed side of summarization: input truncation and the prompts
//! handed to the language-model collaborator.  The collaborator itself is
//! a black box (text in, text out) and lives outside the library.

use crate::scan::{chars_string, chars_vec, copy_range};
use vstd::prelude::*;
use vstd::string::StringExecFns;

verus! {

/// The input-size budget of the summarization collaborator, in characters.
pub open spec fn transcript_budget() -> int {
    10000
}

/// A transcript clipped to the collaborator's input budget.
pub open spec fn spec_truncate(s: Seq<char>) -> Seq<char> {
    if s.len() <= transcript_budget() {
        s
    } else {
        s.subrange(0, transcript_budget())
    }
}

/// Clips a transcript to the first 10,000 characters; shorter transcripts
/// pass through unchanged.
pub fn truncate_transcript(transcript: &str) -> (t: String)
    ensures
        t@ == spec_truncate(transcript@),
{
    let v = chars_vec(transcript);
    if v.len() <= 10000 {
        transcript.to_owned()
    } else {
        chars_string(copy_range(v.as_slice(), 0, 10000).as_slice())
    }
}

pub open spec fn summary_system() -> Seq<char> {
    "You are a helpful assistant that generates concise, informative summaries of YouTube video transcripts. Focus on the main points, key insights, and important details. Format your response in Markdown."@
}

pub open spec fn summary_request() -> Seq<char> {
    "Please provide a comprehensive summary of the following YouTube video transcript. Organize it with appropriate headings and bullet points where relevant:\n\n"@
}

pub open spec fn highlights_system() -> Seq<char> {
    "You are a specialist at identifying and highlighting new, unique, or unusual information from video transcripts. Focus on extracting insights that are not commonly known or that represent innovative thinking. Format your response in Markdown."@
}

pub open spec fn highlights_request() -> Seq<char> {
    "Analyze the following transcript and identify any new, unique, or unusual information. Highlight key insights that might not be widely known or that represent innovative thinking. Format your response with appropriate headings and emphasis:\n\n"@
}

/// The system role of the summarization request.
pub fn summary_system_prompt() -> (p: String)
    ensures
        p@ == summary_system(),
{
    String::from_str(
        "You are a helpful assistant that generates concise, informative summaries of YouTube video transcripts. Focus on the main points, key insights, and important details. Format your response in Markdown.",
    )
}

/// The user message of the summarization request: the fixed instruction
/// followed by the clipped transcript.
pub fn summary_prompt(transcript: &str) -> (p: String)
    ensures
        p@ == summary_request() + spec_truncate(transcript@),
{
    let mut p = String::from_str(
        "Please provide a comprehensive summary of the following YouTube video transcript. Organize it with appropriate headings and bullet points where relevant:\n\n",
    );
    let t = truncate_transcript(transcript);
    p.append(t.as_str());
    p
}

/// The system role of the highlights request.
pub fn highlights_system_prompt() -> (p: String)
    ensures
        p@ == highlights_system(),
{
    String::from_str(
        "You are a specialist at identifying and highlighting new, unique, or unusual information from video transcripts. Focus on extracting insights that are not commonly known or that represent innovative thinking. Format your response in Markdown.",
    )
}

/// The user message of the highlights request: the fixed instruction
/// followed by the clipped transcript.
pub fn highlights_prompt(transcript: &str) -> (p: String)
    ensures
        p@ == highlights_request() + spec_truncate(transcript@),
{
    let mut p = String::from_str(
        "Analyze the following transcript and identify any new, unique, or unusual information. Highlight key insights that might not be widely known or that represent innovative thinking. Format your response with appropriate headings and emphasis:\n\n",
    );
    let t = truncate_transcript(transcript);
    p.append(t.as_str());
    p
}

} // verus!
