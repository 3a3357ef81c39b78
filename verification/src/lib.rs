//! Extraction of structured case records from a court-records results page,
//! detail-page enrichment, and a best-effort phone-number lookup.
//!
//! The library holds the parsing, normalization and URL-construction logic of
//! the pipeline, verified against the contracts below. Navigation against a
//! live browser session is left to the surrounding program, which feeds pages
//! and outcomes into the state machines and functions defined here.

pub mod text;
pub mod record;
pub mod table;
pub mod detail;
pub mod phone;
pub mod pipeline;
