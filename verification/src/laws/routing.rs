//! What the routes answer, for every request.

use crate::connection::{finish, reply, respond, transfer};
use crate::grammar;
use crate::laws::parsing::{
    headers_wire, law_parse_recovers_request, lemma_blank_line_is_no_header, request_wire,
};
use crate::request::{HeaderModel, Method, ParseError, RequestModel, Version};
use crate::response::{declared, wire, ContentType, Status};
use crate::router::{bare, header_value, plain_text, RouteModel};
use crate::text::{decimal, lemma_encode_concat};
use vstd::prelude::*;
use vstd::utf8::*;

verus! {

/// The paths that the routes name differ from each other.
pub proof fn lemma_route_paths()
    ensures
        "/"@.len() == 1,
        "/user-agent"@.len() == 11,
        "/echo/"@.len() == 6,
        "/files/"@.len() == 7,
        "/user-agent"@[1] == 'u',
        "/echo/"@[1] == 'e',
        "/files/"@[1] == 'f',
{
    reveal_strlit("/");
    reveal_strlit("/user-agent");
    reveal_strlit("/echo/");
    reveal_strlit("/files/");
}

/// Regrouping the parts of a response with a body.
proof fn lemma_regroup(
    line: Seq<u8>,
    kind: Seq<u8>,
    name: Seq<u8>,
    length: Seq<u8>,
    digits: Seq<u8>,
    end: Seq<u8>,
    body: Seq<u8>,
)
    ensures
        line + (kind + name + length + digits + end) + end + body == (line + kind + name + length)
            + digits + (end + end) + body,
{
    assert(line + (kind + name + length + digits + end) + end + body =~= (line + kind + name
        + length) + digits + (end + end) + body);
}

/// A plain text on the wire: the status line, its type, the number of its
/// bytes as its length, a blank line, and its bytes.
pub proof fn lemma_text_wire(text: Seq<char>)
    ensures
        wire(plain_text(text)) == encode_utf8(
            "HTTP/1.1 200 OK\r\nContent-Type: text/plain\r\nContent-Length: "@,
        ) + decimal(encode_utf8(text).len()) + encode_utf8("\r\n\r\n"@) + encode_utf8(text),
{
    let line = "HTTP/1.1 200 OK\r\n"@;
    let kind = "Content-Type: "@;
    let name = "text/plain"@;
    let length = "\r\nContent-Length: "@;
    let end = "\r\n"@;
    let front = "HTTP/1.1 200 OK\r\nContent-Type: text/plain\r\nContent-Length: "@;
    assert(front == line + kind + name + length && "\r\n\r\n"@ == end + end) by {
        reveal_strlit("HTTP/1.1 200 OK\r\n");
        reveal_strlit("Content-Type: ");
        reveal_strlit("text/plain");
        reveal_strlit("\r\nContent-Length: ");
        reveal_strlit("\r\n");
        reveal_strlit("\r\n\r\n");
        reveal_strlit("HTTP/1.1 200 OK\r\nContent-Type: text/plain\r\nContent-Length: ");
        assert(front =~= line + kind + name + length);
        assert("\r\n\r\n"@ =~= end + end);
    }
    lemma_encode_concat(line + kind + name, length);
    lemma_encode_concat(line + kind, name);
    lemma_encode_concat(line, kind);
    lemma_encode_concat(end, end);
    lemma_regroup(
        encode_utf8(line),
        encode_utf8(kind),
        encode_utf8(name),
        encode_utf8(length),
        decimal(encode_utf8(text).len()),
        encode_utf8(end),
        encode_utf8(text),
    );
}

/// Echo.  For every text `text` without a space, the request
/// `GET /echo/<text> HTTP/1.1`, sent without headers and body, is
/// answered, whatever the base directory, by `200 OK` with exactly `text`
/// as plain text, declared with the number of its UTF-8 bytes as its
/// length.
pub proof fn law_echo_returns_text(text: Seq<char>, directory: Option<Seq<char>>)
    requires
        !text.contains(' '),
    ensures
        respond(encode_utf8("GET /echo/"@ + text + " HTTP/1.1\r\n\r\n"@), directory) == reply(
            plain_text(text),
        ),
        wire(plain_text(text)) == encode_utf8(
            "HTTP/1.1 200 OK\r\nContent-Type: text/plain\r\nContent-Length: "@,
        ) + decimal(encode_utf8(text).len()) + encode_utf8("\r\n\r\n"@) + encode_utf8(text),
{
    lemma_text_wire(text);
    let sent = RequestModel {
        method: Method::Get,
        path: "/echo/"@ + text,
        version: Version::Http11,
        headers: Seq::empty(),
        body: Seq::empty(),
    };
    lemma_route_paths();
    assert(encode_utf8("GET /echo/"@ + text + " HTTP/1.1\r\n\r\n"@) == request_wire(sent)) by {
        reveal_strlit("GET /echo/");
        reveal_strlit(" HTTP/1.1\r\n\r\n");
        reveal_strlit("GET");
        reveal_strlit(" ");
        reveal_strlit("/echo/");
        reveal_strlit("HTTP/1.1");
        reveal_strlit("\r\n");
        let front = "GET"@ + " "@;
        let back = " "@ + "HTTP/1.1"@ + "\r\n"@ + "\r\n"@;
        assert("GET /echo/"@ =~= front + "/echo/"@);
        assert(" HTTP/1.1\r\n\r\n"@ =~= back);
        assert("GET /echo/"@ + text + " HTTP/1.1\r\n\r\n"@ =~= front + (sent.path + back));
        lemma_encode_concat(front, sent.path + back);
        lemma_encode_concat("GET"@, " "@);
        lemma_encode_concat(sent.path, back);
        lemma_encode_concat(" "@ + "HTTP/1.1"@ + "\r\n"@, "\r\n"@);
        lemma_encode_concat(" "@ + "HTTP/1.1"@, "\r\n"@);
        lemma_encode_concat(" "@, "HTTP/1.1"@);
        assert(headers_wire(sent.headers) =~= Seq::<u8>::empty());
        assert(request_wire(sent) =~= encode_utf8("GET"@) + encode_utf8(" "@) + encode_utf8(
            sent.path,
        ) + encode_utf8(" "@) + encode_utf8("HTTP/1.1"@) + encode_utf8("\r\n"@) + encode_utf8(
            "\r\n"@,
        ));
    }
    assert(sent.well_formed()) by {
        reveal_strlit("/echo/");
        assert(sent.path[0] == '/');
        if sent.path.contains(' ') {
            let at = choose|i: int| 0 <= i < sent.path.len() && sent.path[i] == ' ';
            if at >= 6 {
                assert(text[at - 6] == ' ');
            }
        }
    }
    lemma_blank_line_is_no_header(sent.body);
    law_parse_recovers_request(sent);
    assert(sent.path.subrange(0, 6) =~= "/echo/"@);
    assert(sent.path.skip(6) =~= text);
    assert(sent.path[1] == 'e');
}

/// The value of a header is that of the first header of its name.
pub proof fn lemma_header_value_first(lines: Seq<HeaderModel>, name: Seq<char>, at: int)
    requires
        0 <= at < lines.len(),
        lines[at].name == name,
        forall|i: int| 0 <= i < at ==> (#[trigger] lines[i]).name != name,
    ensures
        header_value(lines, name) == Some(lines[at].value),
    decreases at,
{
    if at > 0 {
        let more = lines.drop_first();
        assert forall|i: int| 0 <= i < at - 1 implies (#[trigger] more[i]).name != name by {
            assert(more[i] == lines[i + 1]);
        }
        lemma_header_value_first(more, name, at - 1);
    }
}

/// Where no header has the name, there is no value.
pub proof fn lemma_header_value_absent(lines: Seq<HeaderModel>, name: Seq<char>)
    requires
        forall|i: int| 0 <= i < lines.len() ==> (#[trigger] lines[i]).name != name,
    ensures
        header_value(lines, name) is None,
    decreases lines.len(),
{
    if lines.len() > 0 {
        let more = lines.drop_first();
        assert forall|i: int| 0 <= i < more.len() implies (#[trigger] more[i]).name != name by {
            assert(more[i] == lines[i + 1]);
        }
        lemma_header_value_absent(more, name);
    }
}

/// User-Agent, first match.  A request for `/user-agent` is answered by
/// `200 OK` with the value of the first header whose name is, character for
/// character, `User-Agent`: headers in front of it with other names, and
/// headers behind it with any name, change nothing.
pub proof fn law_user_agent_first_wins(
    input: Seq<u8>,
    request: RequestModel,
    directory: Option<Seq<char>>,
    at: int,
)
    requires
        grammar::request(input) == Ok::<_, ParseError>(request),
        request.path == "/user-agent"@,
        0 <= at < request.headers.len(),
        request.headers[at].name == "User-Agent"@,
        forall|i: int| 0 <= i < at ==> (#[trigger] request.headers[i]).name != "User-Agent"@,
    ensures
        request.route(directory) == RouteModel::Reply(plain_text(request.headers[at].value)),
        respond(input, directory) == reply(plain_text(request.headers[at].value)),
{
    lemma_route_paths();
    lemma_header_value_first(request.headers, "User-Agent"@, at);
}

/// User-Agent, no match.  A request for `/user-agent` without a header
/// whose name is, character for character, `User-Agent` is answered by
/// `200 OK` with an empty text, declared with length 0.
pub proof fn law_user_agent_absent(
    input: Seq<u8>,
    request: RequestModel,
    directory: Option<Seq<char>>,
)
    requires
        grammar::request(input) == Ok::<_, ParseError>(request),
        request.path == "/user-agent"@,
        forall|i: int|
            0 <= i < request.headers.len() ==> (#[trigger] request.headers[i]).name
                != "User-Agent"@,
    ensures
        request.route(directory) == RouteModel::Reply(plain_text(Seq::empty())),
        respond(input, directory) == reply(plain_text(Seq::empty())),
        declared(plain_text(Seq::empty()).body) == Some((ContentType::TextPlain, 0nat)),
{
    lemma_route_paths();
    lemma_header_value_absent(request.headers, "User-Agent"@);
}

/// No request, no response.  Bytes that the grammar does not accept end
/// the exchange at once, with nothing sent, whatever the base directory.
pub proof fn law_no_request_no_response(input: Seq<u8>, directory: Option<Seq<char>>)
    requires
        grammar::request(input) is Err,
    ensures
        respond(input, directory) == finish(Seq::empty()),
{
}

/// Unknown paths.  A request whose path is neither `/` nor `/user-agent`
/// and begins with neither `/echo/` nor `/files/` is answered by
/// `404 NOT FOUND` without a body, whatever its method, its headers, its
/// body and the base directory.
pub proof fn law_unknown_path_not_found(
    input: Seq<u8>,
    request: RequestModel,
    directory: Option<Seq<char>>,
)
    requires
        grammar::request(input) == Ok::<_, ParseError>(request),
        request.path != "/"@,
        request.path != "/user-agent"@,
        !"/echo/"@.is_prefix_of(request.path),
        !"/files/"@.is_prefix_of(request.path),
    ensures
        request.route(directory) == RouteModel::Reply(bare(Status::NotFound)),
        respond(input, directory) == finish(encode_utf8("HTTP/1.1 404 NOT FOUND\r\n\r\n"@)),
{
    lemma_bare_wire(Status::NotFound);
}

/// Files without a base directory.  A request whose path begins with
/// `/files/` is answered by `404 NOT FOUND` without a body where no base
/// directory is configured, whatever its method.
pub proof fn law_files_need_directory(input: Seq<u8>, request: RequestModel)
    requires
        grammar::request(input) == Ok::<_, ParseError>(request),
        "/files/"@.is_prefix_of(request.path),
    ensures
        request.route(None) == RouteModel::Reply(bare(Status::NotFound)),
        respond(input, None) == finish(encode_utf8("HTTP/1.1 404 NOT FOUND\r\n\r\n"@)),
{
    lemma_route_paths();
    lemma_bare_wire(Status::NotFound);
    assert(request.path[1] == request.path.subrange(0, 7)[1]);
    assert("/echo/"@.is_prefix_of(request.path) ==> request.path[1]
        == request.path.subrange(0, 6)[1]);
}

/// A response without a body is its status line and a blank line.
pub proof fn lemma_bare_wire(status: Status)
    ensures
        wire(bare(status)) == encode_utf8(
            match status {
                Status::Success => "HTTP/1.1 200 OK\r\n\r\n"@,
                Status::Created => "HTTP/1.1 201 CREATED\r\n\r\n"@,
                Status::NotFound => "HTTP/1.1 404 NOT FOUND\r\n\r\n"@,
            },
        ),
{
    reveal_strlit("\r\n");
    reveal_strlit("HTTP/1.1 200 OK\r\n");
    reveal_strlit("HTTP/1.1 201 CREATED\r\n");
    reveal_strlit("HTTP/1.1 404 NOT FOUND\r\n");
    reveal_strlit("HTTP/1.1 200 OK\r\n\r\n");
    reveal_strlit("HTTP/1.1 201 CREATED\r\n\r\n");
    reveal_strlit("HTTP/1.1 404 NOT FOUND\r\n\r\n");
    let line = crate::response::status_line(status);
    lemma_encode_concat(line, "\r\n"@);
    assert(wire(bare(status)) =~= encode_utf8(line) + encode_utf8("\r\n"@));
    match status {
        Status::Success => {
            assert(line + "\r\n"@ =~= "HTTP/1.1 200 OK\r\n\r\n"@);
        },
        Status::Created => {
            assert(line + "\r\n"@ =~= "HTTP/1.1 201 CREATED\r\n\r\n"@);
        },
        Status::NotFound => {
            assert(line + "\r\n"@ =~= "HTTP/1.1 404 NOT FOUND\r\n\r\n"@);
        },
    }
}

/// Files with a base directory.  A request whose path begins with
/// `/files/` is about the file that the rest of the path names in the base
/// directory: the two joined by one `/`, nothing added or taken away.
pub proof fn law_files_name_target(input: Seq<u8>, request: RequestModel, directory: Seq<char>)
    requires
        grammar::request(input) == Ok::<_, ParseError>(request),
        "/files/"@.is_prefix_of(request.path),
    ensures
        request.route(Some(directory)) == (RouteModel::File {
            method: request.method,
            target: directory + "/"@ + request.path.skip(7),
        }),
        respond(input, Some(directory)) == transfer(
            request.method,
            directory + "/"@ + request.path.skip(7),
            request.body,
        ),
{
    lemma_route_paths();
    assert(request.path[1] == request.path.subrange(0, 7)[1]);
    assert("/echo/"@.is_prefix_of(request.path) ==> request.path[1]
        == request.path.subrange(0, 6)[1]);
}

} // verus!
