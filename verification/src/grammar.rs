//! The request grammar as a specification over bytes.
//!
//! ```text
//! request := method SP path SP version CRLF headers CRLF body
//! method  := "GET" | "POST"
//! path    := 1*(byte != SP)
//! version := "HTTP/1.1"
//! headers := *header
//! header  := name ": " value CRLF
//! name    := 1*(byte != ':')
//! value   := 1*(byte != CR)
//! body    := *byte
//! ```
//!
//! Each function reads one element from the front of its input and gives
//! what is left of the input first, then what it read.
//!
//! One rule is not the grammar's but the request's: the path of a request
//! begins with `/`.  The element `path` takes any field; the request line
//! is refused where its path begins otherwise.

use crate::request::{HeaderModel, Method, ParseError, RequestModel, Version};
use crate::text::{lemma_ascii_first, lemma_ascii_occurs};
use vstd::prelude::*;
use vstd::utf8::*;

verus! {

/// The space that separates method, path and version.
pub const SP: u8 = 0x20;

/// The slash that a path begins with.
pub const SLASH: u8 = 0x2f;

/// The colon that ends a header name.
pub const COLON: u8 = 0x3a;

/// The carriage return that ends a header value.
pub const CR: u8 = 0x0d;

/// A literal text: what is left of `input` behind the bytes of `text`, if
/// `input` begins with them.
pub open spec fn literal(text: Seq<char>, input: Seq<u8>) -> Option<Seq<u8>> {
    let pattern = encode_utf8(text);
    if pattern.is_prefix_of(input) {
        Some(input.skip(pattern.len() as int))
    } else {
        None
    }
}

/// How many bytes stand in front of the first `stop` in `input`; all of them
/// where it holds no `stop`.
pub open spec fn field_len(stop: u8, input: Seq<u8>) -> int {
    match input.index_of_first(stop) {
        Some(at) => at,
        None => input.len() as int,
    }
}

/// A field that ends in front of `stop`: the longest run of other bytes at
/// the front of `input`, which must not be empty.
pub open spec fn field(stop: u8, input: Seq<u8>) -> Option<(Seq<u8>, Seq<u8>)> {
    let n = field_len(stop, input);
    if n > 0 {
        Some((input.skip(n), input.take(n)))
    } else {
        None
    }
}

/// `path := 1*(byte != SP)`: the field in front of the next space.
pub open spec fn path(input: Seq<u8>) -> Option<(Seq<u8>, Seq<u8>)> {
    field(SP, input)
}

/// `method := "GET" | "POST"`
pub open spec fn method(input: Seq<u8>) -> Option<(Seq<u8>, Method)> {
    match literal("GET"@, input) {
        Some(rest) => Some((rest, Method::Get)),
        None => match literal("POST"@, input) {
            Some(rest) => Some((rest, Method::Post)),
            None => None,
        },
    }
}

/// `header := name ": " value CRLF`, with name and value as bytes.
pub open spec fn header_line(input: Seq<u8>) -> Option<(Seq<u8>, (Seq<u8>, Seq<u8>))> {
    match field(COLON, input) {
        None => None,
        Some((rest, name)) => match literal(": "@, rest) {
            None => None,
            Some(rest) => match field(CR, rest) {
                None => None,
                Some((rest, value)) => match literal("\r\n"@, rest) {
                    None => None,
                    Some(rest) => Some((rest, (name, value))),
                },
            },
        },
    }
}

/// One header at the front of `input`, if a header line stands there.  A
/// header line whose name or value is not UTF-8 is an error.
pub open spec fn header(input: Seq<u8>) -> Result<Option<(Seq<u8>, HeaderModel)>, ParseError> {
    match header_line(input) {
        None => Ok(None),
        Some((rest, (name, value))) => if valid_utf8(name) && valid_utf8(value) {
            Ok(Some((rest, HeaderModel { name: decode_utf8(name), value: decode_utf8(value) })))
        } else {
            Err(ParseError::Encoding)
        },
    }
}

/// `headers := *header`: header after header, until the input no longer
/// begins with a header line.
pub open spec fn headers(input: Seq<u8>) -> Result<(Seq<u8>, Seq<HeaderModel>), ParseError>
    decreases input.len(),
{
    match header(input) {
        Err(e) => Err(e),
        Ok(None) => Ok((input, Seq::empty())),
        Ok(Some((rest, first))) => {
            proof {
                lemma_header_line_consumes(input);
            }
            prepend(seq![first], headers(rest))
        },
    }
}

/// Puts `front` before the headers of an outcome of [`headers`].
pub open spec fn prepend(
    front: Seq<HeaderModel>,
    outcome: Result<(Seq<u8>, Seq<HeaderModel>), ParseError>,
) -> Result<(Seq<u8>, Seq<HeaderModel>), ParseError> {
    match outcome {
        Ok((rest, more)) => Ok((rest, front + more)),
        Err(e) => Err(e),
    }
}

/// `method SP path SP version CRLF`, with the path as bytes.  The path must
/// begin with a slash.
pub open spec fn request_line(input: Seq<u8>) -> Result<(Seq<u8>, (Method, Seq<u8>)), ParseError> {
    match method(input) {
        None => Err(ParseError::Method),
        Some((rest, method)) => match literal(" "@, rest) {
            None => Err(ParseError::Separator),
            Some(rest) => match path(rest) {
                None => Err(ParseError::Path),
                Some((rest, path)) => if path[0] != SLASH {
                    Err(ParseError::Path)
                } else {
                    match literal(" "@, rest) {
                        None => Err(ParseError::Separator),
                        Some(rest) => match literal("HTTP/1.1"@, rest) {
                            None => Err(ParseError::Version),
                            Some(rest) => match literal("\r\n"@, rest) {
                                None => Err(ParseError::LineEnd),
                                Some(rest) => Ok((rest, (method, path))),
                            },
                        },
                    }
                },
            },
        },
    }
}

/// `request := method SP path SP version CRLF headers CRLF body`.  The body
/// is whatever follows the blank line.  The path is decoded last.
pub open spec fn request(input: Seq<u8>) -> Result<RequestModel, ParseError> {
    match request_line(input) {
        Err(e) => Err(e),
        Ok((rest, (method, path))) => match headers(rest) {
            Err(e) => Err(e),
            Ok((rest, headers)) => match literal("\r\n"@, rest) {
                None => Err(ParseError::LineEnd),
                Some(body) => if valid_utf8(path) {
                    Ok(
                        RequestModel {
                            method,
                            path: decode_utf8(path),
                            version: Version::Http11,
                            headers,
                            body,
                        },
                    )
                } else {
                    Err(ParseError::Encoding)
                },
            },
        },
    }
}

/// The length of a field, told by what surrounds it: `n` bytes without a
/// `stop`, and then a `stop` or the end of the input.
pub proof fn lemma_field_len(stop: u8, input: Seq<u8>, n: int)
    requires
        0 <= n <= input.len(),
        forall|i: int| 0 <= i < n ==> input[i] != stop,
        n < input.len() ==> input[n] == stop,
    ensures
        field_len(stop, input) == n,
{
    input.index_of_first_ensures(stop);
}

/// A field lies within its input, holds no `stop`, and ends at a `stop` or
/// at the end of the input.
pub proof fn lemma_field_len_bounds(stop: u8, input: Seq<u8>)
    ensures
        0 <= field_len(stop, input) <= input.len(),
        forall|i: int| 0 <= i < field_len(stop, input) ==> input[i] != stop,
        field_len(stop, input) < input.len() ==> input[field_len(stop, input)] == stop,
{
    input.index_of_first_ensures(stop);
}

/// A header line takes at least one byte from its input.
pub proof fn lemma_header_line_consumes(input: Seq<u8>)
    ensures
        header_line(input) matches Some((rest, _)) ==> rest.len() < input.len(),
{
    lemma_field_len_bounds(COLON, input);
    if let Some((rest, name)) = field(COLON, input) {
        if let Some(rest1) = literal(": "@, rest) {
            lemma_field_len_bounds(CR, rest1);
        }
    }
}

/// A field is not empty and holds no `stop`.
pub proof fn lemma_field_content(stop: u8, input: Seq<u8>)
    ensures
        field(stop, input) matches Some((rest, found)) ==> found.len() > 0 && !found.contains(stop)
            && input == found + rest,
{
    lemma_field_len_bounds(stop, input);
    let n = field_len(stop, input);
    if n > 0 {
        assert(input =~= input.take(n) + input.skip(n));
    }
}

/// A header that the grammar accepts is well formed.
pub proof fn lemma_header_well_formed(input: Seq<u8>)
    ensures
        header(input) matches Ok(Some((_, found))) ==> found.well_formed(),
{
    if let Some((rest, name)) = field(COLON, input) {
        lemma_field_content(COLON, input);
        if let Some(rest) = literal(": "@, rest) {
            if let Some((_, value)) = field(CR, rest) {
                lemma_field_content(CR, rest);
                if valid_utf8(name) && valid_utf8(value) {
                    decode_utf8_encode_utf8(name);
                    decode_utf8_encode_utf8(value);
                    lemma_ascii_occurs(decode_utf8(name), COLON);
                    lemma_ascii_occurs(decode_utf8(value), CR);
                }
            }
        }
    }
}

/// The headers that the grammar accepts are well formed.
pub proof fn lemma_headers_well_formed(input: Seq<u8>)
    ensures
        headers(input) matches Ok((_, found)) ==> forall|i: int|
            0 <= i < found.len() ==> (#[trigger] found[i]).well_formed(),
    decreases input.len(),
{
    if let Ok(Some((rest, first))) = header(input) {
        lemma_header_line_consumes(input);
        lemma_header_well_formed(input);
        lemma_headers_well_formed(rest);
    }
}

/// A request that the grammar accepts is well formed.
pub proof fn lemma_request_well_formed(input: Seq<u8>)
    ensures
        request(input) matches Ok(found) ==> found.well_formed(),
{
    if let Ok((rest, (_, path))) = request_line(input) {
        lemma_headers_well_formed(rest);
        let (after_method, _) = method(input).unwrap();
        let after_space = literal(" "@, after_method).unwrap();
        lemma_field_content(SP, after_space);
        if valid_utf8(path) {
            decode_utf8_encode_utf8(path);
            lemma_ascii_occurs(decode_utf8(path), SP);
            lemma_ascii_first(decode_utf8(path), SLASH);
        }
    }
}

} // verus!
