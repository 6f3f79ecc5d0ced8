//! Parsing recovers what was sent: the grammar read backwards.

use crate::grammar;
use crate::grammar::{
    field, header, header_line, headers, lemma_field_len, literal, method, request,
    request_line, COLON, CR, SLASH, SP,
};
use crate::request::{HeaderModel, Method, ParseError, RequestModel};
use crate::text::{lemma_ascii_first, lemma_ascii_occurs};
use vstd::prelude::*;
use vstd::utf8::*;

verus! {

/// The name of a method as the request line gives it.
pub open spec fn method_name(method: Method) -> Seq<char> {
    match method {
        Method::Get => "GET"@,
        Method::Post => "POST"@,
    }
}

/// A header as a line on the wire.
pub open spec fn header_wire(header: HeaderModel) -> Seq<u8> {
    encode_utf8(header.name) + encode_utf8(": "@) + encode_utf8(header.value) + encode_utf8(
        "\r\n"@,
    )
}

/// Headers as lines on the wire, one after the other.
pub open spec fn headers_wire(headers: Seq<HeaderModel>) -> Seq<u8>
    decreases headers.len(),
{
    if headers.len() == 0 {
        Seq::empty()
    } else {
        header_wire(headers[0]) + headers_wire(headers.drop_first())
    }
}

/// A request on the wire: request line, headers, blank line, body.
pub open spec fn request_wire(request: RequestModel) -> Seq<u8> {
    encode_utf8(method_name(request.method)) + encode_utf8(" "@) + encode_utf8(request.path)
        + encode_utf8(" "@) + encode_utf8("HTTP/1.1"@) + encode_utf8("\r\n"@) + headers_wire(
        request.headers,
    ) + encode_utf8("\r\n"@) + request.body
}

/// A literal in front of anything is read, and leaves what follows.
pub proof fn lemma_literal_read(text: Seq<char>, rest: Seq<u8>)
    ensures
        literal(text, encode_utf8(text) + rest) == Some(rest),
{
    let input = encode_utf8(text) + rest;
    assert(input.subrange(0, encode_utf8(text).len() as int) =~= encode_utf8(text));
    assert(input.skip(encode_utf8(text).len() as int) =~= rest);
}

/// A run of bytes without `stop`, followed by `stop` or by nothing, is read
/// as a field, and leaves what follows.
pub proof fn lemma_field_read(stop: u8, found: Seq<u8>, rest: Seq<u8>)
    requires
        found.len() > 0,
        !found.contains(stop),
        rest.len() > 0 ==> rest[0] == stop,
    ensures
        field(stop, found + rest) == Some((rest, found)),
{
    let input = found + rest;
    let n = found.len() as int;
    assert forall|i: int| 0 <= i < n implies input[i] != stop by {
        assert(input[i] == found[i]);
    }
    assert(n < input.len() ==> input[n] == rest[0]);
    lemma_field_len(stop, input, n);
    assert(input.take(n) =~= found);
    assert(input.skip(n) =~= rest);
}

/// The bytes of the separators of the grammar.
pub proof fn lemma_separators()
    ensures
        encode_utf8(" "@) == seq![SP],
        encode_utf8(": "@) == seq![COLON, SP],
        encode_utf8("\r\n"@) == seq![CR, 0x0a],
        encode_utf8("GET"@) == seq![0x47u8, 0x45, 0x54],
        encode_utf8("POST"@) == seq![0x50u8, 0x4f, 0x53, 0x54],
{
    reveal_strlit(" ");
    reveal_strlit(": ");
    reveal_strlit("\r\n");
    reveal_strlit("GET");
    reveal_strlit("POST");
    is_ascii_chars_encode_utf8(" "@);
    is_ascii_chars_encode_utf8(": "@);
    is_ascii_chars_encode_utf8("\r\n"@);
    is_ascii_chars_encode_utf8("GET"@);
    is_ascii_chars_encode_utf8("POST"@);
    assert(encode_utf8(" "@) =~= seq![SP]);
    assert(encode_utf8(": "@) =~= seq![COLON, SP]);
    assert(encode_utf8("\r\n"@) =~= seq![CR, 0x0a]);
    assert(encode_utf8("GET"@) =~= seq![0x47u8, 0x45, 0x54]);
    assert(encode_utf8("POST"@) =~= seq![0x50u8, 0x4f, 0x53, 0x54]);
}

/// The name of a method in front of anything is read as that method.
pub proof fn lemma_method_read(name: Method, rest: Seq<u8>)
    ensures
        method(encode_utf8(method_name(name)) + rest) == Some((rest, name)),
{
    lemma_separators();
    lemma_literal_read(method_name(name), rest);
    if name == Method::Post {
        let input = encode_utf8("POST"@) + rest;
        assert(input[0] == 0x50);
        assert(input.subrange(0, 3)[0] == input[0]);
    }
}

/// A well-formed header in front of anything is read back as it is.
pub proof fn lemma_header_read(line: HeaderModel, rest: Seq<u8>)
    requires
        line.well_formed(),
    ensures
        header_wire(line) + rest == encode_utf8(line.name) + (encode_utf8(": "@) + (encode_utf8(
            line.value,
        ) + (encode_utf8("\r\n"@) + rest))),
        header_line(header_wire(line) + rest) == Some(
            (rest, (encode_utf8(line.name), encode_utf8(line.value))),
        ),
        header(header_wire(line) + rest) == Ok::<_, ParseError>(Some((rest, line))),
{
    lemma_separators();
    lemma_ascii_occurs(line.name, COLON);
    lemma_ascii_occurs(line.value, CR);
    let name = encode_utf8(line.name);
    let value = encode_utf8(line.value);
    let after_value = encode_utf8("\r\n"@) + rest;
    let after_colon = value + after_value;
    let after_name = encode_utf8(": "@) + after_colon;
    assert(header_wire(line) + rest =~= name + after_name);
    lemma_field_read(COLON, name, after_name);
    lemma_literal_read(": "@, after_colon);
    lemma_field_read(CR, value, after_value);
    lemma_literal_read("\r\n"@, rest);
    encode_utf8_valid_utf8(line.name);
    encode_utf8_valid_utf8(line.value);
    encode_utf8_decode_utf8(line.name);
    encode_utf8_decode_utf8(line.value);
}

/// Well-formed headers in front of something that begins with no header
/// line are read back as they are, in their order.
pub proof fn lemma_headers_read(lines: Seq<HeaderModel>, rest: Seq<u8>)
    requires
        forall|i: int| 0 <= i < lines.len() ==> (#[trigger] lines[i]).well_formed(),
        header_line(rest) is None,
    ensures
        headers(headers_wire(lines) + rest) == Ok::<_, ParseError>((rest, lines)),
    decreases lines.len(),
{
    if lines.len() == 0 {
        assert(headers_wire(lines) + rest =~= rest);
        assert(lines =~= Seq::empty());
    } else {
        let first = lines[0];
        let more = lines.drop_first();
        let tail = headers_wire(more) + rest;
        assert(headers_wire(lines) + rest =~= header_wire(first) + tail);
        lemma_header_read(first, tail);
        assert forall|i: int| 0 <= i < more.len() implies (#[trigger] more[i]).well_formed() by {
            assert(more[i] == lines[i + 1]);
        }
        lemma_headers_read(more, rest);
        assert(seq![first] + more =~= lines);
    }
}

/// A path, a space, the version and a line break in front of anything are
/// read back, and leave what follows.
proof fn lemma_path_and_version_read(path: Seq<u8>, rest: Seq<u8>)
    requires
        path.len() > 0,
        !path.contains(SP),
    ensures
        grammar::path(path + (encode_utf8(" "@) + (encode_utf8("HTTP/1.1"@) + (encode_utf8("\r\n"@)
            + rest)))) == Some(
            (encode_utf8(" "@) + (encode_utf8("HTTP/1.1"@) + (encode_utf8("\r\n"@) + rest)), path),
        ),
        literal(
            " "@,
            encode_utf8(" "@) + (encode_utf8("HTTP/1.1"@) + (encode_utf8("\r\n"@) + rest)),
        ) == Some(encode_utf8("HTTP/1.1"@) + (encode_utf8("\r\n"@) + rest)),
        literal("HTTP/1.1"@, encode_utf8("HTTP/1.1"@) + (encode_utf8("\r\n"@) + rest)) == Some(
            encode_utf8("\r\n"@) + rest,
        ),
        literal("\r\n"@, encode_utf8("\r\n"@) + rest) == Some(rest),
{
    let after_version = encode_utf8("\r\n"@) + rest;
    let after_space = encode_utf8("HTTP/1.1"@) + after_version;
    let after_path = encode_utf8(" "@) + after_space;
    assert(after_path[0] == SP) by {
        lemma_separators();
    }
    lemma_field_read(SP, path, after_path);
    lemma_literal_read(" "@, after_space);
    lemma_literal_read("HTTP/1.1"@, after_version);
    lemma_literal_read("\r\n"@, rest);
}

/// A request line in front of anything is read back as it is.
pub proof fn lemma_request_line_read(name: Method, path: Seq<u8>, rest: Seq<u8>)
    requires
        path.len() > 0,
        path[0] == SLASH,
        !path.contains(SP),
    ensures
        request_line(
            encode_utf8(method_name(name)) + encode_utf8(" "@) + path + encode_utf8(" "@)
                + encode_utf8("HTTP/1.1"@) + encode_utf8("\r\n"@) + rest,
        ) == Ok::<_, ParseError>((rest, (name, path))),
{
    let m = encode_utf8(method_name(name));
    let s = encode_utf8(" "@);
    let v = encode_utf8("HTTP/1.1"@);
    let c = encode_utf8("\r\n"@);
    let input = m + s + path + s + v + c + rest;
    let after_path = s + (v + (c + rest));
    let after_method = s + (path + after_path);
    assert(input == m + after_method) by {
        vstd::seq_lib::lemma_concat_associative(m + s + path + s + v, c, rest);
        vstd::seq_lib::lemma_concat_associative(m + s + path + s, v, c + rest);
        vstd::seq_lib::lemma_concat_associative(m + s + path, s, v + (c + rest));
        vstd::seq_lib::lemma_concat_associative(m + s, path, after_path);
        vstd::seq_lib::lemma_concat_associative(m, s, path + after_path);
    }
    lemma_method_read(name, after_method);
    lemma_literal_read(" "@, path + after_path);
    lemma_path_and_version_read(path, rest);
}

/// Parsing recovers what was sent.  A well-formed request, laid out on the
/// wire, is parsed into that same request: its method, path and version,
/// its headers in their order, and as its body the bytes behind the blank
/// line.  The one condition on the body: the blank line and the body
/// together must not themselves begin with a header line, for the grammar
/// would read that line as one more header.
pub proof fn law_parse_recovers_request(sent: RequestModel)
    requires
        sent.well_formed(),
        header_line(encode_utf8("\r\n"@) + sent.body) is None,
    ensures
        request(request_wire(sent)) == Ok::<_, ParseError>(sent),
{
    let path = encode_utf8(sent.path);
    lemma_ascii_occurs(sent.path, SP);
    lemma_ascii_first(sent.path, SLASH);
    let end = encode_utf8("\r\n"@) + sent.body;
    let lines = headers_wire(sent.headers) + end;
    let line = encode_utf8(method_name(sent.method)) + encode_utf8(" "@) + path + encode_utf8(" "@)
        + encode_utf8("HTTP/1.1"@) + encode_utf8("\r\n"@);
    assert(request_wire(sent) == line + lines) by {
        vstd::seq_lib::lemma_concat_associative(
            line + headers_wire(sent.headers),
            encode_utf8("\r\n"@),
            sent.body,
        );
        vstd::seq_lib::lemma_concat_associative(line, headers_wire(sent.headers), end);
    }
    lemma_request_line_read(sent.method, path, lines);
    lemma_headers_read(sent.headers, end);
    lemma_literal_read("\r\n"@, sent.body);
    encode_utf8_valid_utf8(sent.path);
    encode_utf8_decode_utf8(sent.path);
}

/// Blank line and nothing more: no header line begins there.
pub proof fn lemma_blank_line_is_no_header(body: Seq<u8>)
    requires
        !body.contains(COLON),
    ensures
        header_line(encode_utf8("\r\n"@) + body) is None,
{
    lemma_separators();
    let input = encode_utf8("\r\n"@) + body;
    assert forall|i: int| 0 <= i < input.len() implies input[i] != COLON by {
        if i >= 2 {
            assert(input[i] == body[i - 2]);
        }
    }
    lemma_field_len(COLON, input, input.len() as int);
    assert(input.skip(input.len() as int) =~= Seq::<u8>::empty());
}

} // verus!
