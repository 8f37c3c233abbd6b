//! Document-intelligence extraction for PDF renaming: candidate selection,
//! page stitching, request building, response interpretation, and tolerant
//! decoding of the model's JSON answer into a `{date, category, filename}`
//! record that drives a deterministic rename decision.

pub mod client;
pub mod error;
pub mod extract;
pub mod intel;
pub mod json;
pub mod orchestrate;
pub mod paths;
pub mod request;
pub mod selector;
pub mod stitch;
pub mod text;
