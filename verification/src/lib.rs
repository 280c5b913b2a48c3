//! Reconstruction of a rooted selector tree from a flat, parent-referencing
//! sitemap document.
//!
//! A sitemap is a JSON object carrying a flat list of selector records, each
//! of which names zero or more parents by id. This crate decodes such a
//! document into a flat representation, then groups the records under a
//! synthetic root marker into a tree of typed selector nodes. The tree also
//! has a structured JSON form of its own with a proved lossless round trip.

pub mod builder;
pub mod codec;
pub mod decode;
pub mod json_model;
pub mod laws;
pub mod model;
