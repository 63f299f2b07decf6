//! The response-synthesis pipeline and its parts.

pub mod escape;
pub mod listing;
pub mod mime;
pub mod path;
pub mod request;
pub mod response;
pub mod synthesizer;
pub mod text;
