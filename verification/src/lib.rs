//! Transcript acquisition and normalization for public video pages.
//!
//! The library locates a caption resource inside raw page markup, decodes the
//! caption payload into a clean plain-text transcript, and builds the small
//! value types that the surrounding command-line program persists and hands
//! to a summarization service.  Everything here is pure computation over
//! strings; the network and file-system work lives outside the library.

pub mod entities;
pub mod errors;
pub mod scan;
pub mod summaries;
pub mod transcript;
pub mod utils;
