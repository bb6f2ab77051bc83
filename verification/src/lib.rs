//! Local mirror of a catalogue of serialized novels: records are extracted
//! from the index page's table, stored as delimited text, and each record's
//! page is then fetched into a download directory.
//!
//! The library holds the rules; reading files, running the page-archiving
//! tool and the worker pool belong to the program around it.

pub mod agreement;
pub mod entry;
pub mod error;
pub mod export;
pub mod extractor;
pub mod fetch;
pub mod markup;
pub mod orchestrator;
pub mod pattern;
pub mod record_store;
pub mod text;
