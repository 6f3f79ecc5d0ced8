//! Responses and their layout on the wire.
//!
//! A response is a status line, then `Content-Type` and `Content-Length`
//! where it carries a body, then a blank line, then the body.

use crate::text::{append, append_text, decimal, decimal_digits};
use vstd::prelude::*;
use vstd::utf8::*;

verus! {

/// The status lines in use.
#[derive(Clone, Copy, Debug, PartialEq, Eq, Structural)]
pub enum Status {
    /// `200 OK`
    Success,
    /// `201 CREATED`
    Created,
    /// `404 NOT FOUND`
    NotFound,
}

/// The content types in use.
#[derive(Clone, Copy, Debug, PartialEq, Eq, Structural)]
pub enum ContentType {
    /// `text/plain`
    TextPlain,
    /// `application/octet-stream`
    OctetStream,
}

/// The body of a response, with the type that is declared for it.  Its
/// declared length is the number of its bytes.
#[derive(Clone, Debug, PartialEq, Eq)]
pub struct Body {
    pub content_type: ContentType,
    pub bytes: Vec<u8>,
}

/// A response.  One without a body declares neither type nor length.
#[derive(Clone, Debug, PartialEq, Eq)]
pub struct Response {
    pub status: Status,
    pub body: Option<Body>,
}

/// A body as specifications see it.
pub struct BodyModel {
    pub content_type: ContentType,
    pub bytes: Seq<u8>,
}

/// A response as specifications see it.
pub struct ResponseModel {
    pub status: Status,
    pub body: Option<BodyModel>,
}

impl View for Body {
    type V = BodyModel;

    open spec fn view(&self) -> BodyModel {
        BodyModel { content_type: self.content_type, bytes: self.bytes@ }
    }
}

impl View for Response {
    type V = ResponseModel;

    open spec fn view(&self) -> ResponseModel {
        ResponseModel {
            status: self.status,
            body: match self.body {
                Some(body) => Some(body@),
                None => None,
            },
        }
    }
}

/// The status line, line break included.
pub open spec fn status_line(status: Status) -> Seq<char> {
    match status {
        Status::Success => "HTTP/1.1 200 OK\r\n"@,
        Status::Created => "HTTP/1.1 201 CREATED\r\n"@,
        Status::NotFound => "HTTP/1.1 404 NOT FOUND\r\n"@,
    }
}

/// The name of a content type as `Content-Type` gives it.
pub open spec fn media_type(content_type: ContentType) -> Seq<char> {
    match content_type {
        ContentType::TextPlain => "text/plain"@,
        ContentType::OctetStream => "application/octet-stream"@,
    }
}

/// The two header lines that declare a body of `length` bytes.
pub open spec fn declaration(content_type: ContentType, length: nat) -> Seq<u8> {
    encode_utf8("Content-Type: "@) + encode_utf8(media_type(content_type)) + encode_utf8(
        "\r\nContent-Length: "@,
    ) + decimal(length) + encode_utf8("\r\n"@)
}

/// The header block: the status line, the declaration of the body where
/// there is one, and the blank line.
pub open spec fn head(status: Status, declared: Option<(ContentType, nat)>) -> Seq<u8> {
    encode_utf8(status_line(status)) + match declared {
        Some((content_type, length)) => declaration(content_type, length),
        None => Seq::empty(),
    } + encode_utf8("\r\n"@)
}

/// What a body declares of itself.
pub open spec fn declared(body: Option<BodyModel>) -> Option<(ContentType, nat)> {
    match body {
        Some(body) => Some((body.content_type, body.bytes.len())),
        None => None,
    }
}

/// The body's bytes; none where there is no body.
pub open spec fn payload(body: Option<BodyModel>) -> Seq<u8> {
    match body {
        Some(body) => body.bytes,
        None => Seq::empty(),
    }
}

/// The whole response as it goes out: header block, then body.
pub open spec fn wire(response: ResponseModel) -> Seq<u8> {
    head(response.status, declared(response.body)) + payload(response.body)
}

/// Lays out a header block.
pub fn encode_head(status: Status, declared: Option<(ContentType, u64)>) -> (out: Vec<u8>)
    ensures
        out@ == head(
            status,
            match declared {
                Some((content_type, length)) => Some((content_type, length as nat)),
                None => None,
            },
        ),
{
    let mut out: Vec<u8> = Vec::new();
    append_text(
        &mut out,
        match status {
            Status::Success => "HTTP/1.1 200 OK\r\n",
            Status::Created => "HTTP/1.1 201 CREATED\r\n",
            Status::NotFound => "HTTP/1.1 404 NOT FOUND\r\n",
        },
    );
    match declared {
        Some((content_type, length)) => {
            append_text(&mut out, "Content-Type: ");
            append_text(
                &mut out,
                match content_type {
                    ContentType::TextPlain => "text/plain",
                    ContentType::OctetStream => "application/octet-stream",
                },
            );
            append_text(&mut out, "\r\nContent-Length: ");
            let digits = decimal_digits(length);
            append(&mut out, digits.as_slice());
            append_text(&mut out, "\r\n");
        },
        None => {},
    }
    append_text(&mut out, "\r\n");
    out
}

impl Response {
    /// A response without a body.
    pub fn bare(status: Status) -> (response: Response)
        ensures
            response@ == (ResponseModel { status, body: None }),
    {
        Response { status, body: None }
    }

    /// A response `200 OK` with a body of plain text.
    pub fn text(bytes: Vec<u8>) -> (response: Response)
        ensures
            response@ == (ResponseModel {
                status: Status::Success,
                body: Some(BodyModel { content_type: ContentType::TextPlain, bytes: bytes@ }),
            }),
    {
        Response {
            status: Status::Success,
            body: Some(Body { content_type: ContentType::TextPlain, bytes }),
        }
    }

    /// Lays out the response as it goes out.
    pub fn to_bytes(&self) -> (out: Vec<u8>)
        ensures
            out@ == wire(self@),
    {
        match &self.body {
            Some(body) => {
                let mut out = encode_head(
                    self.status,
                    Some((body.content_type, body.bytes.len() as u64)),
                );
                append(&mut out, body.bytes.as_slice());
                out
            },
            None => encode_head(self.status, None),
        }
    }
}

} // verus!
