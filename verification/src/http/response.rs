//! The response: its status, its headers and its payload, and how they are
//! framed for the wire.

use crate::http::escape::{from_utf8_lossy, utf8_lossy};
use crate::http::listing::{listing, render_listing, DirEntry};
use crate::http::mime::{get_mime, is_text, is_text_mime, mime_of, sniff_window, sniffed_mime};
use crate::http::path::ResolvedPath;
use crate::http::text::{decimal, decimal_string};
use vstd::prelude::*;
use vstd::string::*;
use vstd::utf8::*;

verus! {

/// The protocol version that a response names in its status line.
#[derive(Debug, Clone, Copy, PartialEq, Eq)]
pub enum Version {
    V1_1,
    V2_0,
}

/// The status of a response.
#[derive(Debug, Clone, Copy, PartialEq, Eq)]
pub enum ResponseStatus {
    OK,
    NotFound,
    Forbidden,
}

/// Whether a response advertises that byte ranges of its resource can be
/// asked for.
#[derive(Debug, Clone, Copy, PartialEq, Eq)]
pub enum AcceptRanges {
    Bytes,
    NoRanges,
}

/// What resolving and inspecting a request path came to.
#[derive(Debug)]
pub enum Resource {
    /// The traversal guard denied the path.
    Denied,
    /// The path is allowed and nothing exists at it.
    Missing,
    /// The path is allowed and names a file with this content.
    File { content: Vec<u8> },
    /// The path is allowed and names a directory with these entries.
    Directory { entries: Vec<DirEntry> },
}

impl Version {
    /// The version as it stands in a status line.
    pub open spec fn text(self) -> Seq<char> {
        match self {
            Version::V1_1 => "HTTP/1.1"@,
            Version::V2_0 => "HTTP/2"@,
        }
    }

    /// The version as it stands in a status line.
    pub fn as_str(&self) -> (s: &'static str)
        ensures
            s@ == self.text(),
    {
        match self {
            Version::V1_1 => "HTTP/1.1",
            Version::V2_0 => "HTTP/2",
        }
    }
}

impl ResponseStatus {
    /// The status code and reason as they stand in a status line.
    pub open spec fn text(self) -> Seq<char> {
        match self {
            ResponseStatus::OK => "200 OK"@,
            ResponseStatus::NotFound => "404 NOT FOUND"@,
            ResponseStatus::Forbidden => "403 FORBIDDEN"@,
        }
    }

    /// The numeric status code.
    pub open spec fn spec_code(self) -> u16 {
        match self {
            ResponseStatus::OK => 200,
            ResponseStatus::NotFound => 404,
            ResponseStatus::Forbidden => 403,
        }
    }

    /// The status code and reason as they stand in a status line.
    pub fn as_str(&self) -> (s: &'static str)
        ensures
            s@ == self.text(),
    {
        match self {
            ResponseStatus::OK => "200 OK",
            ResponseStatus::NotFound => "404 NOT FOUND",
            ResponseStatus::Forbidden => "403 FORBIDDEN",
        }
    }

    /// The numeric status code.
    pub fn code(&self) -> (code: u16)
        ensures
            code == self.spec_code(),
    {
        match self {
            ResponseStatus::OK => 200,
            ResponseStatus::NotFound => 404,
            ResponseStatus::Forbidden => 403,
        }
    }
}

impl AcceptRanges {
    /// The header line that advertises the capability.
    pub open spec fn text(self) -> Seq<char> {
        match self {
            AcceptRanges::Bytes => "accept-ranges: bytes"@,
            AcceptRanges::NoRanges => "accept-ranges: none"@,
        }
    }

    /// The header line that advertises the capability.
    pub fn as_str(&self) -> (s: &'static str)
        ensures
            s@ == self.text(),
    {
        match self {
            AcceptRanges::Bytes => "accept-ranges: bytes",
            AcceptRanges::NoRanges => "accept-ranges: none",
        }
    }
}

/// The page that a denied request is answered with.
pub open spec fn forbidden_page() -> Seq<char> {
    "<html><body><h1>403 Forbidden</h1></body></html>"@
}

/// The page that a request for a missing resource is answered with.
pub open spec fn not_found_page() -> Seq<char> {
    "<html><body><h1>404 NOT FOUND</h1></body></html>"@
}

/// The header block of a response: the status line, the content type, the
/// content length and the empty line that ends the block.
pub open spec fn head(
    version: Version,
    status: ResponseStatus,
    content_type: Seq<char>,
    content_length: nat,
) -> Seq<char> {
    version.text() + " "@ + status.text() + "\r\n"@ + "Content-Type: "@ + content_type + "\r\n"@
        + "Content-Length: "@ + decimal(content_length) + "\r\n\r\n"@
}

/// A response as a mathematical value.
pub struct ResponseView {
    pub version: Version,
    pub status: ResponseStatus,
    pub content_length: nat,
    pub accept_ranges: AcceptRanges,
    pub content_type: Seq<char>,
    /// The textual section: the header block followed by the text body.
    pub response_body: Seq<char>,
    pub current_path: Seq<char>,
    /// The binary payload, sent after the textual section.
    pub binary_content: Option<Seq<u8>>,
}

impl ResponseView {
    /// The header block of the response.
    pub open spec fn head(self) -> Seq<char> {
        head(self.version, self.status, self.content_type, self.content_length)
    }

    /// The text that follows the header block in the textual section.
    pub open spec fn text_body(self) -> Seq<char> {
        self.response_body.skip(self.head().len() as int)
    }

    /// The payload that is transmitted: the binary payload where there is
    /// one, else the bytes of the text body.
    pub open spec fn payload(self) -> Seq<u8> {
        match self.binary_content {
            Some(bytes) => bytes,
            None => encode_utf8(self.text_body()),
        }
    }

    /// Whether the response is framed as it must be: the textual section
    /// begins with the header block, the content length is the length of the
    /// payload, and a response with a binary payload has no text body.
    pub open spec fn well_framed(self) -> bool {
        &&& self.head().is_prefix_of(self.response_body)
        &&& self.content_length == self.payload().len()
        &&& self.binary_content is Some ==> self.text_body().len() == 0
    }
}

/// The status that a resource is answered with.
pub open spec fn status_for(resource: Resource) -> ResponseStatus {
    match resource {
        Resource::Denied => ResponseStatus::Forbidden,
        Resource::Missing => ResponseStatus::NotFound,
        Resource::File { .. } => ResponseStatus::OK,
        Resource::Directory { .. } => ResponseStatus::OK,
    }
}

/// The content type that a resource is answered with: for a file, its
/// classified type, and `text/html` for everything else.
pub open spec fn content_type_for(candidate: Seq<char>, resource: Resource) -> Seq<char> {
    match resource {
        Resource::File { content } => mime_of(sniffed_mime(sniff_window(content@)), candidate),
        _ => "text/html"@,
    }
}

/// The text body that a resource is answered with: the fixed page of a
/// denied or missing resource, the listing of a directory, the lossy text of
/// a textual file, and nothing for any other file.
pub open spec fn text_body_for(
    decoded: Seq<char>,
    candidate: Seq<char>,
    resource: Resource,
) -> Seq<char> {
    match resource {
        Resource::Denied => forbidden_page(),
        Resource::Missing => not_found_page(),
        Resource::File { content } => if is_text(content_type_for(candidate, resource)) {
            utf8_lossy(content@)
        } else {
            Seq::empty()
        },
        Resource::Directory { entries } => listing(decoded, entries@),
    }
}

/// The binary payload that a resource is answered with: the content of a
/// file that is not textual.
pub open spec fn binary_for(candidate: Seq<char>, resource: Resource) -> Option<Seq<u8>> {
    match resource {
        Resource::File { content } => if is_text(content_type_for(candidate, resource)) {
            None
        } else {
            Some(content@)
        },
        _ => None,
    }
}

/// The response to a request whose decoded path is `decoded`, whose candidate
/// path is `candidate`, and which came to `resource`.
pub open spec fn synthesized(
    decoded: Seq<char>,
    candidate: Seq<char>,
    resource: Resource,
) -> ResponseView {
    let status = status_for(resource);
    let content_type = content_type_for(candidate, resource);
    let body = text_body_for(decoded, candidate, resource);
    let binary = binary_for(candidate, resource);
    let length = match binary {
        Some(bytes) => bytes.len(),
        None => encode_utf8(body).len(),
    };
    ResponseView {
        version: Version::V2_0,
        status,
        content_length: length,
        accept_ranges: match resource {
            Resource::File { .. } => AcceptRanges::Bytes,
            _ => AcceptRanges::NoRanges,
        },
        content_type,
        response_body: head(Version::V2_0, status, content_type, length) + body,
        current_path: decoded,
        binary_content: binary,
    }
}

/// A response, ready to be written: first `response_body`, the header block
/// with the text body, then `binary_content` where there is any.
#[derive(Debug)]
pub struct HttpResponse {
    version: Version,
    status: ResponseStatus,
    content_length: usize,
    accept_ranges: AcceptRanges,
    content_type: String,
    pub response_body: String,
    pub current_path: String,
    pub binary_content: Option<Vec<u8>>,
}

impl View for HttpResponse {
    type V = ResponseView;

    closed spec fn view(&self) -> ResponseView {
        ResponseView {
            version: self.version,
            status: self.status,
            content_length: self.content_length as nat,
            accept_ranges: self.accept_ranges,
            content_type: self.content_type@,
            response_body: self.response_body@,
            current_path: self.current_path@,
            binary_content: match self.binary_content {
                Some(bytes) => Some(bytes@),
                None => None,
            },
        }
    }
}

/// The payload that a file is sent as: the bytes of the lossy text of its
/// content where its type is textual, and its content as it is otherwise.
pub open spec fn file_payload(candidate: Seq<char>, content: Seq<u8>) -> Seq<u8> {
    if is_text(mime_of(sniffed_mime(sniff_window(content)), candidate)) {
        encode_utf8(utf8_lossy(content))
    } else {
        content
    }
}

/// Every synthesized response is well framed: its content length is the
/// exact number of bytes of the payload that is transmitted, be it text or
/// binary.
pub proof fn lemma_synthesized_is_well_framed(
    decoded: Seq<char>,
    candidate: Seq<char>,
    resource: Resource,
)
    ensures
        synthesized(decoded, candidate, resource).well_framed(),
        synthesized(decoded, candidate, resource).text_body() == text_body_for(
            decoded,
            candidate,
            resource,
        ),
{
    let response = synthesized(decoded, candidate, resource);
    let body = text_body_for(decoded, candidate, resource);
    assert(response.response_body == response.head() + body);
    assert(response.response_body.skip(response.head().len() as int) =~= body);
    assert(response.response_body.subrange(0, response.head().len() as int) =~= response.head());
}

/// The payload of the response to a file is the lossy text of the file's
/// content where the file's type is textual, and the content itself
/// otherwise; the content length is the length of that payload.
pub proof fn lemma_file_payload(decoded: Seq<char>, candidate: Seq<char>, content: Vec<u8>)
    ensures
        synthesized(decoded, candidate, (Resource::File { content })).payload() == file_payload(
            candidate,
            content@,
        ),
        synthesized(decoded, candidate, (Resource::File { content })).content_length
            == file_payload(candidate, content@).len(),
{
    lemma_synthesized_is_well_framed(decoded, candidate, Resource::File { content });
}

/// A missing resource is answered with status 404 and the fixed not-found
/// page, and a denied one with status 403 and the fixed forbidden page.
pub proof fn lemma_error_pages(decoded: Seq<char>, candidate: Seq<char>)
    ensures
        synthesized(decoded, candidate, Resource::Missing).status == ResponseStatus::NotFound,
        synthesized(decoded, candidate, Resource::Missing).text_body() == not_found_page(),
        synthesized(decoded, candidate, Resource::Denied).status == ResponseStatus::Forbidden,
        synthesized(decoded, candidate, Resource::Denied).text_body() == forbidden_page(),
{
    lemma_synthesized_is_well_framed(decoded, candidate, Resource::Missing);
    lemma_synthesized_is_well_framed(decoded, candidate, Resource::Denied);
}

impl HttpResponse {
    /// Synthesizes the response to the request for `path`, given what the
    /// path came to.
    pub fn new(path: &ResolvedPath, resource: Resource) -> (response: HttpResponse)
        ensures
            response@ == synthesized(path.decoded@, path.candidate@, resource),
            response@.well_framed(),
    {
        proof {
            lemma_synthesized_is_well_framed(path.decoded@, path.candidate@, resource);
        }
        let version = Version::V2_0;
        let mut status = ResponseStatus::OK;
        let mut accept_ranges = AcceptRanges::NoRanges;
        let mut binary_content: Option<Vec<u8>> = None;
        let content_type: String;
        let body: String;
        match resource {
            Resource::Denied => {
                status = ResponseStatus::Forbidden;
                content_type = String::from_str("text/html");
                body = String::from_str("<html><body><h1>403 Forbidden</h1></body></html>");
            },
            Resource::Missing => {
                status = ResponseStatus::NotFound;
                content_type = String::from_str("text/html");
                body = String::from_str("<html><body><h1>404 NOT FOUND</h1></body></html>");
            },
            Resource::File { content } => {
                accept_ranges = AcceptRanges::Bytes;
                content_type = get_mime(path.candidate.as_str(), content.as_slice());
                if is_text_mime(content_type.as_str()) {
                    body = from_utf8_lossy(content.as_slice());
                } else {
                    body = String::new();
                    binary_content = Some(content);
                }
            },
            Resource::Directory { entries } => {
                content_type = String::from_str("text/html");
                body = render_listing(path.decoded.as_str(), &entries);
            },
        }
        let content_length = match &binary_content {
            Some(bytes) => bytes.len(),
            None => body.as_str().as_bytes().len(),
        };
        let mut response_body = String::from_str(version.as_str());
        response_body.append(" ");
        response_body.append(status.as_str());
        response_body.append("\r\n");
        response_body.append("Content-Type: ");
        response_body.append(content_type.as_str());
        response_body.append("\r\n");
        response_body.append("Content-Length: ");
        response_body.append(decimal_string(content_length).as_str());
        response_body.append("\r\n\r\n");
        response_body.append(body.as_str());
        HttpResponse {
            version,
            status,
            content_length,
            accept_ranges,
            content_type,
            response_body,
            current_path: path.decoded.clone(),
            binary_content,
        }
    }

    /// The protocol version named in the status line.
    pub fn version(&self) -> (version: Version)
        ensures
            version == self@.version,
    {
        self.version
    }

    /// The status of the response.
    pub fn status(&self) -> (status: ResponseStatus)
        ensures
            status == self@.status,
    {
        self.status
    }

    /// The number of bytes of the payload.
    pub fn content_length(&self) -> (length: usize)
        ensures
            length == self@.content_length,
    {
        self.content_length
    }

    /// Whether the response advertises byte ranges.
    pub fn accept_ranges(&self) -> (ranges: AcceptRanges)
        ensures
            ranges == self@.accept_ranges,
    {
        self.accept_ranges
    }

    /// The MIME type of the payload.
    pub fn content_type(&self) -> (mime: &str)
        ensures
            mime@ == self@.content_type,
    {
        self.content_type.as_str()
    }
}

} // verus!
