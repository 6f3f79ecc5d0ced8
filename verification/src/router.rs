//! Routing: which response a request gets, or which file it is about.
//!
//! The rules, first match first:
//! 1. the path `/`: `200 OK` without a body;
//! 2. the path `/user-agent`: `200 OK` with the value of the first header
//!    named `User-Agent` as plain text, or with an empty text if there is
//!    no such header;
//! 3. a path that begins with `/echo/`: `200 OK` with the rest of the path
//!    as plain text;
//! 4. a path that begins with `/files/`: without a base directory
//!    `404 NOT FOUND`; with one, the file named by the rest of the path in
//!    that directory;
//! 5. any other path: `404 NOT FOUND`.
//!
//! The method plays no part in the choice.

use crate::request::{Header, HeaderModel, Method, Request, RequestModel, header_models};
use crate::response::{BodyModel, ContentType, Response, ResponseModel, Status};
use crate::text::{equal_text, strip_prefix};
use vstd::prelude::*;
use vstd::string::*;
use vstd::utf8::*;

verus! {

/// Where a request goes.
#[derive(Clone, Debug, PartialEq, Eq)]
pub enum Route {
    /// The response is settled.
    Reply(Response),
    /// The request is about the file `target`, to be read or written as
    /// `method` says.
    File { method: Method, target: String },
}

/// A route as specifications see it.
pub enum RouteModel {
    Reply(ResponseModel),
    File { method: Method, target: Seq<char> },
}

impl View for Route {
    type V = RouteModel;

    open spec fn view(&self) -> RouteModel {
        match self {
            Route::Reply(response) => RouteModel::Reply(response@),
            Route::File { method, target } => RouteModel::File { method: *method, target: target@ },
        }
    }
}

/// The value of the first header named `name`, the name compared character by
/// character.
pub open spec fn header_value(headers: Seq<HeaderModel>, name: Seq<char>) -> Option<Seq<char>>
    decreases headers.len(),
{
    if headers.len() == 0 {
        None
    } else if headers[0].name == name {
        Some(headers[0].value)
    } else {
        header_value(headers.drop_first(), name)
    }
}

/// `200 OK` with `text` as plain text.
pub open spec fn plain_text(text: Seq<char>) -> ResponseModel {
    ResponseModel {
        status: Status::Success,
        body: Some(BodyModel { content_type: ContentType::TextPlain, bytes: encode_utf8(text) }),
    }
}

/// A response without a body.
pub open spec fn bare(status: Status) -> ResponseModel {
    ResponseModel { status, body: None }
}

/// The path of a file in a directory: the two joined by one `/`.
pub open spec fn join(directory: Seq<char>, name: Seq<char>) -> Seq<char> {
    directory + "/"@ + name
}

impl RequestModel {
    /// Where the request goes, given the base directory for files.
    pub open spec fn route(self, directory: Option<Seq<char>>) -> RouteModel {
        if self.path == "/"@ {
            RouteModel::Reply(bare(Status::Success))
        } else if self.path == "/user-agent"@ {
            RouteModel::Reply(
                plain_text(
                    match header_value(self.headers, "User-Agent"@) {
                        Some(value) => value,
                        None => Seq::empty(),
                    },
                ),
            )
        } else if "/echo/"@.is_prefix_of(self.path) {
            RouteModel::Reply(plain_text(self.path.skip("/echo/"@.len() as int)))
        } else if "/files/"@.is_prefix_of(self.path) {
            match directory {
                Some(directory) => RouteModel::File {
                    method: self.method,
                    target: join(directory, self.path.skip("/files/"@.len() as int)),
                },
                None => RouteModel::Reply(bare(Status::NotFound)),
            }
        } else {
            RouteModel::Reply(bare(Status::NotFound))
        }
    }
}

/// Finds the value of the first header named `name`.
pub fn find_header<'a>(headers: &'a Vec<Header>, name: &str) -> (value: Option<&'a str>)
    ensures
        match value {
            Some(value) => header_value(header_models(headers@), name@) == Some(value@),
            None => header_value(header_models(headers@), name@) is None,
        },
{
    let ghost all = header_models(headers@);
    let mut at: usize = 0;
    assert(all.skip(0) =~= all);
    while at < headers.len()
        invariant
            at <= headers@.len(),
            all == header_models(headers@),
            header_value(all, name@) == header_value(all.skip(at as int), name@),
        decreases headers@.len() - at,
    {
        assert(all.skip(at as int)[0] == headers@[at as int]@);
        if equal_text(headers[at].name.as_str(), name) {
            return Some(headers[at].value.as_str());
        }
        assert(all.skip(at as int).drop_first() =~= all.skip(at + 1));
        at += 1;
    }
    None
}

/// 200 with the bytes of `text` as plain text.
fn reply_text(text: &str) -> (route: Route)
    ensures
        route@ == RouteModel::Reply(plain_text(text@)),
{
    Route::Reply(Response::text(vstd::slice::slice_to_vec(text.as_bytes())))
}

/// Decides where `request` goes.  `directory` is the base directory for
/// files, if one is configured.
pub fn route(request: &Request, directory: Option<&str>) -> (route: Route)
    ensures
        route@ == request@.route(
            match directory {
                Some(directory) => Some(directory@),
                None => None,
            },
        ),
{
    let path = request.path.as_str();
    if equal_text(path, "/") {
        Route::Reply(Response::bare(Status::Success))
    } else if equal_text(path, "/user-agent") {
        match find_header(&request.headers, "User-Agent") {
            Some(value) => reply_text(value),
            None => Route::Reply(Response::text(Vec::new())),
        }
    } else if let Some(message) = strip_prefix(path, "/echo/") {
        reply_text(message)
    } else if let Some(name) = strip_prefix(path, "/files/") {
        match directory {
            Some(directory) => Route::File {
                method: request.method,
                target: directory.to_owned().concat("/").concat(name),
            },
            None => Route::Reply(Response::bare(Status::NotFound)),
        }
    } else {
        Route::Reply(Response::bare(Status::NotFound))
    }
}

} // verus!
