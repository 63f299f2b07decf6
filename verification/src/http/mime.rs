//! The content classifier: a MIME type for a file, found by sniffing its
//! leading bytes and, failing that, by its extension.

use crate::http::path::{extension, extension_of};
use crate::http::text::str_eq;
use vstd::prelude::*;
use vstd::slice::slice_subrange;
use vstd::string::*;

verus! {

/// How many leading bytes of a file the sniffer looks at.
pub const SNIFF_LIMIT: usize = 8192;

/// The MIME type that content sniffing finds for a buffer of bytes, where it
/// knows the format.
pub uninterp spec fn sniffed_mime(buffer: Seq<u8>) -> Option<Seq<char>>;

/// The part of a file's content that is sniffed: its first `SNIFF_LIMIT`
/// bytes.
pub open spec fn sniff_window(content: Seq<u8>) -> Seq<u8> {
    if content.len() <= SNIFF_LIMIT {
        content
    } else {
        content.take(SNIFF_LIMIT as int)
    }
}

/// The MIME type that the extension table gives for an extension.
pub open spec fn mime_for_extension(ext: Seq<char>) -> Option<Seq<char>> {
    if ext == "html"@ {
        Some("text/html"@)
    } else if ext == "css"@ {
        Some("text/css"@)
    } else if ext == "js"@ {
        Some("application/javascript"@)
    } else if ext == "json"@ {
        Some("application/json"@)
    } else if ext == "png"@ {
        Some("image/png"@)
    } else if ext == "jpg"@ || ext == "jpeg"@ {
        Some("image/jpeg"@)
    } else if ext == "gif"@ {
        Some("image/gif"@)
    } else if ext == "svg"@ {
        Some("image/svg+xml"@)
    } else if ext == "pdf"@ {
        Some("application/pdf"@)
    } else if ext == "mp4"@ {
        Some("video/mp4"@)
    } else if ext == "txt"@ || ext == "toml"@ || ext == "lock"@ {
        Some("text/plain"@)
    } else {
        None
    }
}

/// The MIME type of a file, given what sniffing found: the sniffed type where
/// there is one, else the type for the path's extension, else the generic
/// `application/octet-stream`.
pub open spec fn mime_of(sniffed: Option<Seq<char>>, path: Seq<char>) -> Seq<char> {
    match sniffed {
        Some(mime) => mime,
        None => match mime_for_extension(extension(path)) {
            Some(mime) => mime,
            None => "application/octet-stream"@,
        },
    }
}

/// Whether a MIME type is textual: whether it begins with `text/`.
pub open spec fn is_text(mime: Seq<char>) -> bool {
    "text/"@.is_prefix_of(mime)
}

/// Calls `infer::get`, which matches the buffer against the signatures of the
/// formats it knows and returns the first that fits, and hands back that
/// format's MIME type. Its contract claims only that the buffer determines
/// the outcome.
#[verifier::external_body]
pub(crate) fn sniff(buffer: &[u8]) -> (mime: Option<String>)
    ensures
        sniffed_mime(buffer@) == mime.deep_view(),
{
    infer::get(buffer).map(|kind| String::from(kind.mime_type()))
}

fn extension_mime(ext: &str) -> (mime: Option<&'static str>)
    ensures
        mime_for_extension(ext@) == mime.deep_view(),
{
    if str_eq(ext, "html") {
        Some("text/html")
    } else if str_eq(ext, "css") {
        Some("text/css")
    } else if str_eq(ext, "js") {
        Some("application/javascript")
    } else if str_eq(ext, "json") {
        Some("application/json")
    } else if str_eq(ext, "png") {
        Some("image/png")
    } else if str_eq(ext, "jpg") || str_eq(ext, "jpeg") {
        Some("image/jpeg")
    } else if str_eq(ext, "gif") {
        Some("image/gif")
    } else if str_eq(ext, "svg") {
        Some("image/svg+xml")
    } else if str_eq(ext, "pdf") {
        Some("application/pdf")
    } else if str_eq(ext, "mp4") {
        Some("video/mp4")
    } else if str_eq(ext, "txt") || str_eq(ext, "toml") || str_eq(ext, "lock") {
        Some("text/plain")
    } else {
        None
    }
}

/// The MIME type of the file at `path`, given what sniffing its content
/// found.
pub fn mime_from(sniffed: Option<String>, path: &str) -> (mime: String)
    ensures
        mime@ == mime_of(sniffed.deep_view(), path@),
{
    match sniffed {
        Some(mime) => mime,
        None => match extension_mime(extension_of(path)) {
            Some(mime) => String::from_str(mime),
            None => String::from_str("application/octet-stream"),
        },
    }
}

/// The MIME type of the file at `path` with the given content.
pub fn get_mime(path: &str, content: &[u8]) -> (mime: String)
    ensures
        mime@ == mime_of(sniffed_mime(sniff_window(content@)), path@),
{
    let sniffed = if content.len() <= SNIFF_LIMIT {
        sniff(content)
    } else {
        sniff(slice_subrange(content, 0, SNIFF_LIMIT))
    };
    mime_from(sniffed, path)
}

/// Whether `mime` is a textual type.
pub fn is_text_mime(mime: &str) -> (text: bool)
    ensures
        text == is_text(mime@),
{
    proof {
        reveal_strlit("text/");
    }
    if mime.unicode_len() < 5 {
        false
    } else {
        str_eq(mime.substring_char(0, 5), "text/")
    }
}

} // verus!
