//! The response, and the bytes that go on the wire for it.

use crate::number::{decimal, push_decimal};
use crate::text::{chars_of, string_of, utf8_len};
use vstd::prelude::*;
use vstd::string::StringExecFns;
use vstd::utf8::encode_utf8;

verus! {

/// What the server answers. These four are all there is: no response
/// carries the reason of a failure.
#[derive(Debug, Clone, PartialEq, Eq)]
pub enum HttpResponse {
    /// `404 Not Found`, without a body.
    NotFound,
    /// `200 OK`, with a plain-text body or without any.
    Success(Option<String>),
    /// `200 OK`, with the content of a file as its body.
    File(String),
    /// `201 Created`, without a body.
    Created,
}

/// A response as plain values.
pub enum ResponseView {
    NotFound,
    Success(Option<Seq<char>>),
    File(Seq<char>),
    Created,
}

impl View for HttpResponse {
    type V = ResponseView;

    open spec fn view(&self) -> ResponseView {
        match self {
            HttpResponse::NotFound => ResponseView::NotFound,
            HttpResponse::Success(Some(body)) => ResponseView::Success(Some(body@)),
            HttpResponse::Success(None) => ResponseView::Success(None),
            HttpResponse::File(content) => ResponseView::File(content@),
            HttpResponse::Created => ResponseView::Created,
        }
    }
}

/// A `200 OK` message with a body: the status line, the type of the body,
/// its length in bytes, an empty line, and the body as it is.
pub open spec fn with_body(content_type: Seq<char>, body: Seq<char>) -> Seq<char> {
    "HTTP/1.1 200 OK\r\nContent-Type: "@ + content_type + "\r\nContent-Length: "@ + decimal(
        encode_utf8(body).len(),
    ) + "\r\n\r\n"@ + body
}

impl ResponseView {
    /// The message that is sent for the response. Every line ends in CR LF,
    /// and an empty line ends the header block. `Content-Length` counts the
    /// bytes of the body in UTF-8, not its characters.
    pub open spec fn wire(self) -> Seq<char> {
        match self {
            ResponseView::NotFound => "HTTP/1.1 404 Not Found\r\n\r\n"@,
            ResponseView::Created => "HTTP/1.1 201 Created\r\n\r\n"@,
            ResponseView::Success(None) => "HTTP/1.1 200 OK\r\n\r\n"@,
            ResponseView::Success(Some(body)) => with_body("text/plain"@, body),
            ResponseView::File(content) => with_body("application/octet-stream"@, content),
        }
    }
}

/// Writes a `200 OK` message with a body.
fn write_with_body(content_type: &str, body: &str) -> (message: String)
    ensures
        message@ == with_body(content_type@, body@),
{
    let body_chars = chars_of(body);
    let mut length: Vec<char> = Vec::new();
    push_decimal(&mut length, utf8_len(body_chars.as_slice()));
    let length = string_of(length.as_slice());
    let mut message = String::from_str("HTTP/1.1 200 OK\r\nContent-Type: ");
    message.append(content_type);
    message.append("\r\nContent-Length: ");
    message.append(length.as_str());
    message.append("\r\n\r\n");
    message.append(body);
    message
}

impl HttpResponse {
    /// The message to send for this response.
    pub fn to_string(&self) -> (message: String)
        ensures
            message@ == self@.wire(),
    {
        match self {
            HttpResponse::NotFound => String::from_str("HTTP/1.1 404 Not Found\r\n\r\n"),
            HttpResponse::Created => String::from_str("HTTP/1.1 201 Created\r\n\r\n"),
            HttpResponse::Success(None) => String::from_str("HTTP/1.1 200 OK\r\n\r\n"),
            HttpResponse::Success(Some(body)) => write_with_body("text/plain", body.as_str()),
            HttpResponse::File(content) => write_with_body(
                "application/octet-stream",
                content.as_str(),
            ),
        }
    }
}

} // verus!
