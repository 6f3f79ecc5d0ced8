//! The parser: the grammar of [`crate::grammar`] read off a byte buffer.
//!
//! The two primitives, matching a literal and taking a field, are nom's
//! `tag` and `take_while1`, and decoding is `std::str::from_utf8`.  What is
//! claimed of the three is stated at their declarations below and is not
//! proved here; all that is built on them is.

use crate::grammar;
use crate::grammar::{COLON, CR, SLASH, SP};
use crate::request::{
    header_models, Header, HeaderModel, Method, ParseError, Request, RequestModel, Version,
};
use vstd::prelude::*;
use vstd::utf8::*;

verus! {

/// `nom::Err`, the error of a nom parser.  Nothing is read from it: the
/// parser maps it to a [`ParseError`].
#[verifier::external_type_specification]
#[verifier::external_body]
#[verifier::reject_recursive_types(E)]
pub struct ExNomErr<E>(nom::Err<E>);

/// `nom::error::Error`, what a `nom::Err` carries.  Nothing is read from
/// it.
#[verifier::external_type_specification]
#[verifier::external_body]
#[verifier::reject_recursive_types(I)]
pub struct ExNomError<I>(nom::error::Error<I>);

/// `std::str::Utf8Error`, the error of `std::str::from_utf8`.  Nothing is
/// read from it.
#[verifier::external_type_specification]
#[verifier::external_body]
pub struct ExUtf8Error(std::str::Utf8Error);

/// `std::str::from_utf8` returns the bytes as a text exactly when they are
/// valid UTF-8, and the text then has these bytes as its UTF-8 form.
pub assume_specification[ std::str::from_utf8 ](v: &[u8]) -> (r: Result<&str, std::str::Utf8Error>)
    ensures
        r is Ok <==> valid_utf8(v@),
        r matches Ok(text) ==> encode_utf8(text@) == v@,
;

/// `nom::bytes::complete::tag` on a byte slice, with a text as the pattern.
/// It succeeds exactly when the input begins with the bytes of the pattern,
/// and then returns the input behind the pattern and the part that matched.
#[verifier::external_body]
fn tag<'a>(pattern: &str, input: &'a [u8]) -> (r: Result<
    (&'a [u8], &'a [u8]),
    nom::Err<nom::error::Error<&'a [u8]>>,
>)
    ensures
        r is Ok <==> encode_utf8(pattern@).is_prefix_of(input@),
        r matches Ok((rest, found)) ==> (found@ == encode_utf8(pattern@) && rest@ == input@.skip(
            found@.len() as int,
        )),
{
    nom::bytes::complete::tag(pattern)(input)
}

/// `nom::bytes::complete::take_while1` on a byte slice, taking the bytes that
/// differ from `stop`.  It succeeds exactly when the input begins with such a
/// byte, and then splits the input in front of the first `stop`, or at its
/// end where there is none: it returns what is behind the split and what is
/// in front of it.
#[verifier::external_body]
fn take_while1<'a>(stop: u8, input: &'a [u8]) -> (r: Result<
    (&'a [u8], &'a [u8]),
    nom::Err<nom::error::Error<&'a [u8]>>,
>)
    ensures
        r is Ok <==> (input@.len() > 0 && input@[0] != stop),
        r matches Ok((rest, found)) ==> (input@ == found@ + rest@ && !found@.contains(stop)),
        r matches Ok((rest, found)) ==> (rest@.len() > 0 ==> rest@[0] == stop),
{
    nom::bytes::complete::take_while1(|byte: u8| differs(byte, stop))(input)
}

/// Whether `byte` is another byte than `stop`.
fn differs(byte: u8, stop: u8) -> (r: bool)
    ensures
        r == (byte != stop),
{
    byte != stop
}

/// Matches the literal `pattern` at the front of `input`, or fails with
/// `error`.
fn literal<'a>(pattern: &str, input: &'a [u8], error: ParseError) -> (r: Result<
    (&'a [u8], &'a [u8]),
    ParseError,
>)
    ensures
        match r {
            Ok((rest, found)) => grammar::literal(pattern@, input@) == Some(rest@) && found@
                == encode_utf8(pattern@),
            Err(e) => grammar::literal(pattern@, input@) is None && e == error,
        },
{
    match tag(pattern, input) {
        Ok(split) => Ok(split),
        Err(_) => Err(error),
    }
}

/// Takes the field in front of `stop` at the front of `input`.
fn field<'a>(stop: u8, input: &'a [u8]) -> (r: Option<(&'a [u8], &'a [u8])>)
    ensures
        match r {
            Some((rest, found)) => grammar::field(stop, input@) == Some((rest@, found@)),
            None => grammar::field(stop, input@) is None,
        },
{
    match take_while1(stop, input) {
        Ok((rest, found)) => {
            proof {
                let n = found@.len() as int;
                assert forall|i: int| 0 <= i < n implies input@[i] != stop by {
                    assert(input@[i] == found@[i]);
                }
                grammar::lemma_field_len(stop, input@, n);
                assert(input@.take(n) =~= found@);
                assert(input@.skip(n) =~= rest@);
            }
            Some((rest, found))
        },
        Err(_) => {
            proof {
                grammar::lemma_field_len(stop, input@, 0);
            }
            None
        },
    }
}

/// The single space between the elements of the request line.
pub fn space(input: &[u8]) -> (r: Result<(&[u8], &[u8]), ParseError>)
    ensures
        match r {
            Ok((rest, found)) => grammar::literal(" "@, input@) == Some(rest@) && found@
                == encode_utf8(" "@),
            Err(e) => grammar::literal(" "@, input@) is None && e == ParseError::Separator,
        },
{
    literal(" ", input, ParseError::Separator)
}

/// `method := "GET" | "POST"`
pub fn method(input: &[u8]) -> (r: Result<(&[u8], Method), ParseError>)
    ensures
        match r {
            Ok((rest, method)) => grammar::method(input@) == Some((rest@, method)),
            Err(e) => grammar::method(input@) is None && e == ParseError::Method,
        },
{
    match tag("GET", input) {
        Ok((rest, _)) => Ok((rest, Method::Get)),
        Err(_) => match tag("POST", input) {
            Ok((rest, _)) => Ok((rest, Method::Post)),
            Err(_) => Err(ParseError::Method),
        },
    }
}

/// `path := 1*(byte != SP)`
pub fn path(input: &[u8]) -> (r: Result<(&[u8], &[u8]), ParseError>)
    ensures
        match r {
            Ok((rest, found)) => grammar::field(SP, input@) == Some((rest@, found@)),
            Err(e) => grammar::field(SP, input@) is None && e == ParseError::Path,
        },
{
    match field(SP, input) {
        Some(split) => Ok(split),
        None => Err(ParseError::Path),
    }
}

/// `version := "HTTP/1.1"`
pub fn version(input: &[u8]) -> (r: Result<(&[u8], Version), ParseError>)
    ensures
        match r {
            Ok((rest, version)) => grammar::literal("HTTP/1.1"@, input@) == Some(rest@),
            Err(e) => grammar::literal("HTTP/1.1"@, input@) is None && e == ParseError::Version,
        },
{
    match literal("HTTP/1.1", input, ParseError::Version) {
        Ok((rest, _)) => Ok((rest, Version::Http11)),
        Err(e) => Err(e),
    }
}

/// The line break `CRLF`.
pub fn crlf(input: &[u8]) -> (r: Result<(&[u8], &[u8]), ParseError>)
    ensures
        match r {
            Ok((rest, found)) => grammar::literal("\r\n"@, input@) == Some(rest@) && found@
                == encode_utf8("\r\n"@),
            Err(e) => grammar::literal("\r\n"@, input@) is None && e == ParseError::LineEnd,
        },
{
    literal("\r\n", input, ParseError::LineEnd)
}

/// Decodes a field: the text that `input` is the UTF-8 form of.
pub fn from_utf8(input: &[u8]) -> (r: Result<String, ParseError>)
    ensures
        match r {
            Ok(text) => valid_utf8(input@) && text@ == decode_utf8(input@),
            Err(e) => !valid_utf8(input@) && e == ParseError::Encoding,
        },
{
    match std::str::from_utf8(input) {
        Ok(text) => {
            proof {
                encode_utf8_decode_utf8(text@);
            }
            Ok(text.to_owned())
        },
        Err(_) => Err(ParseError::Encoding),
    }
}

/// `header := name ": " value CRLF`.  `Ok(None)` says that no header line
/// stands at the front of `input`.
pub fn header(input: &[u8]) -> (r: Result<Option<(&[u8], Header)>, ParseError>)
    ensures
        match r {
            Ok(Some((rest, header))) => grammar::header(input@) == Ok::<_, ParseError>(
                Some((rest@, header@)),
            ),
            Ok(None) => grammar::header(input@) == Ok::<Option<(Seq<u8>, HeaderModel)>, ParseError>(
                None,
            ),
            Err(e) => grammar::header(input@) == Err::<Option<(Seq<u8>, HeaderModel)>, _>(e),
        },
{
    let (input, name) = match field(COLON, input) {
        Some(split) => split,
        None => return Ok(None),
    };
    let (input, _) = match tag(": ", input) {
        Ok(split) => split,
        Err(_) => return Ok(None),
    };
    let (input, value) = match field(CR, input) {
        Some(split) => split,
        None => return Ok(None),
    };
    let (input, _) = match tag("\r\n", input) {
        Ok(split) => split,
        Err(_) => return Ok(None),
    };
    let name = from_utf8(name)?;
    let value = from_utf8(value)?;
    Ok(Some((input, Header { name, value })))
}

/// `headers := *header`
pub fn headers(input: &[u8]) -> (r: Result<(&[u8], Vec<Header>), ParseError>)
    ensures
        match r {
            Ok((rest, list)) => grammar::headers(input@) == Ok::<_, ParseError>(
                (rest@, header_models(list@)),
            ),
            Err(e) => grammar::headers(input@) == Err::<(Seq<u8>, Seq<HeaderModel>), _>(e),
        },
{
    let mut list: Vec<Header> = Vec::new();
    let mut rest = input;
    proof {
        // nothing is in front of the headers yet
        assert(header_models(list@) =~= Seq::empty());
        if let Ok((_, all)) = grammar::headers(input@) {
            assert(Seq::<HeaderModel>::empty() + all =~= all);
        }
    }
    loop
        invariant
            grammar::headers(input@) == grammar::prepend(
                header_models(list@),
                grammar::headers(rest@),
            ),
        decreases rest@.len(),
    {
        let ghost front = header_models(list@);
        match header(rest) {
            Err(e) => {
                return Err(e);
            },
            Ok(None) => {
                assert(front + Seq::<HeaderModel>::empty() =~= front);
                return Ok((rest, list));
            },
            Ok(Some((next, first))) => {
                proof {
                    grammar::lemma_header_line_consumes(rest@);
                    assert(header_models(list@.push(first)) =~= front.push(first@));
                    if let Ok((_, more)) = grammar::headers(next@) {
                        assert(front + (seq![first@] + more) =~= front.push(first@) + more);
                    }
                }
                list.push(first);
                rest = next;
            },
        }
    }
}

/// Parses one request from the bytes of one read.  The path of a request
/// begins with `/`: a request line with another path is refused as
/// [`ParseError::Path`].
pub fn parse_request(input: &[u8]) -> (r: Result<Request, ParseError>)
    ensures
        match r {
            Ok(request) => grammar::request(input@) == Ok::<_, ParseError>(request@),
            Err(e) => grammar::request(input@) == Err::<RequestModel, _>(e),
        },
        r matches Ok(request) ==> request@.well_formed(),
{
    proof {
        grammar::lemma_request_well_formed(input@);
    }
    let (input, method) = method(input)?;
    let (input, _) = space(input)?;
    let ghost before_path = input;
    let (input, path) = path(input)?;
    proof {
        grammar::lemma_field_content(SP, before_path@);
    }
    if path[0] != SLASH {
        return Err(ParseError::Path);
    }
    let (input, _) = space(input)?;
    let (input, version) = version(input)?;
    let (input, _) = crlf(input)?;
    let (input, headers) = headers(input)?;
    let (input, _) = crlf(input)?;
    let path = from_utf8(path)?;
    Ok(Request { method, path, version, headers, body: vstd::slice::slice_to_vec(input) })
}

} // verus!
