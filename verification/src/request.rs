//! The request as the parser hands it on, and what can go wrong in parsing.

use vstd::prelude::*;

verus! {

/// The request methods that the server knows.
#[derive(Clone, Copy, Debug, PartialEq, Eq, Structural)]
pub enum Method {
    Get,
    Post,
}

/// The protocol versions that the server speaks: only `HTTP/1.1`.
#[derive(Clone, Copy, Debug, PartialEq, Eq, Structural)]
pub enum Version {
    Http11,
}

/// Why a buffer is not a request.
#[derive(Clone, Copy, Debug, PartialEq, Eq, Structural)]
pub enum ParseError {
    /// The buffer begins with neither `GET` nor `POST`.
    Method,
    /// The single space after the method or after the path is missing.
    Separator,
    /// The path is empty or does not begin with `/`.
    Path,
    /// The version is not `HTTP/1.1`.
    Version,
    /// The line break after the request line or after the headers is missing.
    LineEnd,
    /// The path, a header name or a header value is not UTF-8.
    Encoding,
}

/// One header line: a name and a value, kept as they were sent.
#[derive(Clone, Debug, PartialEq, Eq)]
pub struct Header {
    pub name: String,
    pub value: String,
}

/// A header as specifications see it.
pub struct HeaderModel {
    pub name: Seq<char>,
    pub value: Seq<char>,
}

impl View for Header {
    type V = HeaderModel;

    open spec fn view(&self) -> HeaderModel {
        HeaderModel { name: self.name@, value: self.value@ }
    }
}

/// A parsed request.
#[derive(Clone, Debug, PartialEq, Eq)]
pub struct Request {
    pub method: Method,
    pub path: String,
    pub version: Version,
    /// The headers in the order in which they were sent; a name may repeat.
    pub headers: Vec<Header>,
    /// The bytes that followed the blank line in the same read.
    pub body: Vec<u8>,
}

/// A request as specifications see it.
pub struct RequestModel {
    pub method: Method,
    pub path: Seq<char>,
    pub version: Version,
    pub headers: Seq<HeaderModel>,
    pub body: Seq<u8>,
}

/// The models of the headers of a list, in order.
pub open spec fn header_models(headers: Seq<Header>) -> Seq<HeaderModel> {
    Seq::new(headers.len(), |i: int| headers[i]@)
}

impl View for Request {
    type V = RequestModel;

    open spec fn view(&self) -> RequestModel {
        RequestModel {
            method: self.method,
            path: self.path@,
            version: self.version,
            headers: header_models(self.headers@),
            body: self.body@,
        }
    }
}

impl HeaderModel {
    /// What the grammar guarantees of a header: a name that is not empty
    /// and holds no colon, and a value that is not empty and holds no
    /// carriage return.
    pub open spec fn well_formed(self) -> bool {
        &&& self.name.len() > 0
        &&& !self.name.contains(':')
        &&& self.value.len() > 0
        &&& !self.value.contains('\r')
    }
}

impl RequestModel {
    /// What the grammar guarantees of a request: a path that begins with
    /// `/` and holds no space, and well-formed headers.
    pub open spec fn well_formed(self) -> bool {
        &&& self.path.len() > 0
        &&& self.path[0] == '/'
        &&& !self.path.contains(' ')
        &&& forall|i: int|
            0 <= i < self.headers.len() ==> (#[trigger] self.headers[i]).well_formed()
    }
}

} // verus!
