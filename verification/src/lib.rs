//! Response synthesis for a small static-file HTTP server.
//!
//! The crate turns a request path into a framed HTTP response: it decodes and
//! resolves the path against a server root, guards against directory
//! traversal, classifies file content, renders directory listings and frames
//! the result. All filesystem access is left to the caller, who drives a
//! [`http::synthesizer::Synthesizer`] and reports what it found.

pub mod http;
