//! The error taxonomy of the transcript pipeline.
//!
//! Every terminal failure of a run is one of these variants.  Title and
//! description extraction are best-effort and never appear here: they
//! degrade to placeholder values instead.

use vstd::prelude::*;
use vstd::string::StringExecFns;

verus! {

/// A terminal failure of the transcript pipeline, with the step that failed.
#[derive(Debug, Clone)]
pub enum PipelineError {
    /// No URL pattern matched; carries the offending URL verbatim.
    IdentifierNotFound { url: String },
    /// Transport or timeout failure fetching the video page.
    PageFetchFailed { cause: String },
    /// No caption locator pattern matched: the video has no captions.
    NoCaptionsAvailable,
    /// Transport or timeout failure fetching the caption payload.
    CaptionFetchFailed { cause: String },
    /// The caption payload parsed but yielded zero text fragments.
    EmptyTranscript,
}

impl PipelineError {
    /// A human-readable description of the failure.
    pub fn message(&self) -> (m: String)
        ensures
            match self {
                PipelineError::IdentifierNotFound { url } => m@
                    == "Could not extract YouTube video ID from URL: "@ + url@,
                PipelineError::PageFetchFailed { cause } => m@
                    == "Failed to fetch YouTube video page: "@ + cause@,
                PipelineError::NoCaptionsAvailable => m@
                    == "No caption tracks found for this video"@,
                PipelineError::CaptionFetchFailed { cause } => m@
                    == "Failed to fetch transcript data: "@ + cause@,
                PipelineError::EmptyTranscript => m@
                    == "Failed to extract any text from transcript data"@,
            },
    {
        match self {
            PipelineError::IdentifierNotFound { url } => {
                let mut m = String::from_str("Could not extract YouTube video ID from URL: ");
                m.append(url.as_str());
                m
            },
            PipelineError::PageFetchFailed { cause } => {
                let mut m = String::from_str("Failed to fetch YouTube video page: ");
                m.append(cause.as_str());
                m
            },
            PipelineError::NoCaptionsAvailable => String::from_str(
                "No caption tracks found for this video",
            ),
            PipelineError::CaptionFetchFailed { cause } => {
                let mut m = String::from_str("Failed to fetch transcript data: ");
                m.append(cause.as_str());
                m
            },
            PipelineError::EmptyTranscript => String::from_str(
                "Failed to extract any text from transcript data",
            ),
        }
    }
}

} // verus!
