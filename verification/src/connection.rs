//! One connection, one exchange: what to do next, given what happened last.
//!
//! The library reads no socket and opens no file.  It says what is to be
//! done as an [`Action`]; the caller does it and reports the outcome as an
//! [`Event`]; [`step`] takes the event and says what is to be done next.
//!
//! ```text
//! Reading -Received-> Closed                      (no request, or a settled response)
//!                   | Sizing -Sized-> Opening -Opened-> Streaming -Chunk-> Streaming | Closed
//!                   | Creating -Opened-> Draining -Drained-> Draining | Closed
//! ```
//!
//! Nothing is retried.  Sending is best effort: its outcome is not reported,
//! and the exchange goes on as if it had succeeded.

use crate::grammar;
use crate::parser::parse_request;
use crate::request::Method;
use crate::response::{head, encode_head, wire, ContentType, Response, ResponseModel, Status};
use crate::router::{bare, route, Route, RouteModel};
use vstd::prelude::*;

verus! {

/// How many bytes one read may bring: of the connection, and of a file.
pub const WINDOW: usize = 1024;

/// What is to be done next.  Each action but the last is answered by the
/// event that its description names.
#[derive(Clone, Debug, PartialEq, Eq)]
pub enum Action {
    /// Read once from the connection, at most `limit` bytes; report
    /// [`Event::Received`].
    Receive { limit: usize },
    /// Look up the length of the file `target`; report [`Event::Sized`].
    Size { target: String },
    /// Open the file `target` for reading; report [`Event::Opened`].
    Open { target: String },
    /// Send `bytes`, then read at most `limit` bytes from the open file;
    /// report [`Event::Chunk`].
    Stream { bytes: Vec<u8>, limit: usize },
    /// Create the file `target`, or empty it if it exists; report
    /// [`Event::Opened`].
    Create { target: String },
    /// Append `bytes` to the created file, then read at most `limit` bytes
    /// from the connection without waiting; report [`Event::Drained`].
    Store { bytes: Vec<u8>, limit: usize },
    /// Send `bytes`, which may be none, and close the connection.
    Finish { bytes: Vec<u8> },
}

/// What happened.
#[derive(Clone, Debug, PartialEq, Eq)]
pub enum Event {
    /// The bytes that the read of the connection brought; none if it failed.
    Received(Vec<u8>),
    /// The length of the file, or `None` if it could not be looked up.
    Sized(Option<u64>),
    /// Whether the file is open.
    Opened(bool),
    /// The bytes that the read of the file brought, none at its end; `None`
    /// if the read failed.
    Chunk(Option<Vec<u8>>),
    /// The bytes that the connection had ready, none if the peer is done;
    /// `None` if it had nothing ready or the read failed.
    Drained(Option<Vec<u8>>),
}

/// Where the exchange stands.
#[derive(Clone, Debug, PartialEq, Eq)]
pub enum State {
    /// Waiting for the request.  `directory` is the base directory for
    /// files, if one is configured.
    Reading { directory: Option<String> },
    /// Sending a file: waiting for its length.
    Sizing { target: String },
    /// Sending a file of `length` bytes: waiting for it to be opened.
    Opening { length: u64 },
    /// Sending a file: the header block is out, the content follows.
    Streaming,
    /// Receiving a file: waiting for it to be created.  `body` is what the
    /// request brought of its content.
    Creating { body: Vec<u8> },
    /// Receiving a file: taking what the connection still has ready.
    Draining,
    /// The exchange is over.
    Closed,
}

/// An action as specifications see it.
pub enum ActionModel {
    Receive { limit: usize },
    Size { target: Seq<char> },
    Open { target: Seq<char> },
    Stream { bytes: Seq<u8>, limit: usize },
    Create { target: Seq<char> },
    Store { bytes: Seq<u8>, limit: usize },
    Finish { bytes: Seq<u8> },
}

/// An event as specifications see it.
pub enum EventModel {
    Received(Seq<u8>),
    Sized(Option<u64>),
    Opened(bool),
    Chunk(Option<Seq<u8>>),
    Drained(Option<Seq<u8>>),
}

/// A state as specifications see it.
pub enum StateModel {
    Reading { directory: Option<Seq<char>> },
    Sizing { target: Seq<char> },
    Opening { length: u64 },
    Streaming,
    Creating { body: Seq<u8> },
    Draining,
    Closed,
}

impl View for Action {
    type V = ActionModel;

    open spec fn view(&self) -> ActionModel {
        match self {
            Action::Receive { limit } => ActionModel::Receive { limit: *limit },
            Action::Size { target } => ActionModel::Size { target: target@ },
            Action::Open { target } => ActionModel::Open { target: target@ },
            Action::Stream { bytes, limit } => ActionModel::Stream { bytes: bytes@, limit: *limit },
            Action::Create { target } => ActionModel::Create { target: target@ },
            Action::Store { bytes, limit } => ActionModel::Store { bytes: bytes@, limit: *limit },
            Action::Finish { bytes } => ActionModel::Finish { bytes: bytes@ },
        }
    }
}

impl View for Event {
    type V = EventModel;

    open spec fn view(&self) -> EventModel {
        match self {
            Event::Received(bytes) => EventModel::Received(bytes@),
            Event::Sized(length) => EventModel::Sized(*length),
            Event::Opened(open) => EventModel::Opened(*open),
            Event::Chunk(Some(bytes)) => EventModel::Chunk(Some(bytes@)),
            Event::Chunk(None) => EventModel::Chunk(None),
            Event::Drained(Some(bytes)) => EventModel::Drained(Some(bytes@)),
            Event::Drained(None) => EventModel::Drained(None),
        }
    }
}

impl View for State {
    type V = StateModel;

    open spec fn view(&self) -> StateModel {
        match self {
            State::Reading { directory: Some(directory) } => StateModel::Reading {
                directory: Some(directory@),
            },
            State::Reading { directory: None } => StateModel::Reading { directory: None },
            State::Sizing { target } => StateModel::Sizing { target: target@ },
            State::Opening { length } => StateModel::Opening { length: *length },
            State::Streaming => StateModel::Streaming,
            State::Creating { body } => StateModel::Creating { body: body@ },
            State::Draining => StateModel::Draining,
            State::Closed => StateModel::Closed,
        }
    }
}

/// The end of the exchange, with `bytes` as the last thing sent.
pub open spec fn finish(bytes: Seq<u8>) -> (StateModel, ActionModel) {
    (StateModel::Closed, ActionModel::Finish { bytes })
}

/// The end of the exchange, with `response` as the last thing sent.
pub open spec fn reply(response: ResponseModel) -> (StateModel, ActionModel) {
    finish(wire(response))
}

/// The first step of a file transfer.  `GET` sends the file and begins by
/// asking for its length; `POST` receives it and begins by creating it,
/// keeping `body` to be stored.
pub open spec fn transfer(method: Method, target: Seq<char>, body: Seq<u8>) -> (
    StateModel,
    ActionModel,
) {
    match method {
        Method::Get => (StateModel::Sizing { target }, ActionModel::Size { target }),
        Method::Post => (StateModel::Creating { body }, ActionModel::Create { target }),
    }
}

/// What follows the read of the connection.  Bytes that are no request end
/// the exchange with nothing sent; a request gets the response that its
/// route settles, or begins a file transfer.
pub open spec fn respond(input: Seq<u8>, directory: Option<Seq<char>>) -> (
    StateModel,
    ActionModel,
) {
    match grammar::request(input) {
        Err(_) => finish(Seq::empty()),
        Ok(request) => match request.route(directory) {
            RouteModel::Reply(response) => reply(response),
            RouteModel::File { method, target } => transfer(method, target, request.body),
        },
    }
}

impl StateModel {
    /// The state after `event`, and what is to be done next.  An event that
    /// the state does not wait for ends the exchange with nothing sent.
    pub open spec fn next(self, event: EventModel) -> (StateModel, ActionModel) {
        match (self, event) {
            (StateModel::Reading { directory }, EventModel::Received(input)) => respond(
                input,
                directory,
            ),
            (StateModel::Sizing { target }, EventModel::Sized(Some(length))) => (
                StateModel::Opening { length },
                ActionModel::Open { target },
            ),
            (StateModel::Sizing { .. }, EventModel::Sized(None)) => reply(bare(Status::NotFound)),
            (StateModel::Opening { length }, EventModel::Opened(true)) => (
                StateModel::Streaming,
                ActionModel::Stream {
                    bytes: head(Status::Success, Some((ContentType::OctetStream, length as nat))),
                    limit: WINDOW,
                },
            ),
            (StateModel::Opening { .. }, EventModel::Opened(false)) => reply(
                bare(Status::NotFound),
            ),
            (StateModel::Streaming, EventModel::Chunk(Some(bytes))) => if bytes.len() > 0 {
                (StateModel::Streaming, ActionModel::Stream { bytes, limit: WINDOW })
            } else {
                finish(Seq::empty())
            },
            (StateModel::Streaming, EventModel::Chunk(None)) => reply(bare(Status::NotFound)),
            (StateModel::Creating { body }, EventModel::Opened(true)) => (
                StateModel::Draining,
                ActionModel::Store { bytes: body, limit: WINDOW },
            ),
            (StateModel::Creating { .. }, EventModel::Opened(false)) => reply(
                bare(Status::NotFound),
            ),
            (StateModel::Draining, EventModel::Drained(Some(bytes))) => if bytes.len() > 0 {
                (StateModel::Draining, ActionModel::Store { bytes, limit: WINDOW })
            } else {
                reply(bare(Status::Created))
            },
            (StateModel::Draining, EventModel::Drained(None)) => reply(bare(Status::Created)),
            _ => finish(Seq::empty()),
        }
    }
}

/// The bytes that an action sends.
pub open spec fn sent_by(action: ActionModel) -> Seq<u8> {
    match action {
        ActionModel::Stream { bytes, .. } => bytes,
        ActionModel::Finish { bytes } => bytes,
        _ => Seq::empty(),
    }
}

/// The bytes that an action appends to the file.
pub open spec fn stored_by(action: ActionModel) -> Seq<u8> {
    match action {
        ActionModel::Store { bytes, .. } => bytes,
        _ => Seq::empty(),
    }
}

/// The exchange from `state` on, as the events `events` drive it: the state
/// that it ends in, all that it sends, and all that it appends to the file.
pub open spec fn run(state: StateModel, events: Seq<EventModel>) -> (
    StateModel,
    Seq<u8>,
    Seq<u8>,
)
    decreases events.len(),
{
    if events.len() == 0 {
        (state, Seq::empty(), Seq::empty())
    } else {
        let (next, action) = state.next(events[0]);
        let (end, sent, stored) = run(next, events.drop_first());
        (end, sent_by(action) + sent, stored_by(action) + stored)
    }
}

/// Ends the exchange with nothing more sent.
fn drop_connection() -> (r: (State, Action))
    ensures
        (r.0@, r.1@) == finish(Seq::empty()),
{
    (State::Closed, Action::Finish { bytes: Vec::new() })
}

/// Ends the exchange with a response without a body.
fn reply_bare(status: Status) -> (r: (State, Action))
    ensures
        (r.0@, r.1@) == reply(bare(status)),
{
    (State::Closed, Action::Finish { bytes: Response::bare(status).to_bytes() })
}

/// Opens an exchange: the connection is to be read once.
pub fn open(directory: Option<String>) -> (r: (State, Action))
    ensures
        r.0@ == (StateModel::Reading {
            directory: match directory {
                Some(directory) => Some(directory@),
                None => None,
            },
        }),
        r.1@ == (ActionModel::Receive { limit: WINDOW }),
{
    (State::Reading { directory }, Action::Receive { limit: WINDOW })
}

/// Begins the transfer of the file `target` as `method` says.
pub fn handle_files(method: Method, target: String, body: Vec<u8>) -> (r: (State, Action))
    ensures
        (r.0@, r.1@) == transfer(method, target@, body@),
{
    match method {
        Method::Get => {
            let wanted = target.clone();
            (State::Sizing { target }, Action::Size { target: wanted })
        },
        Method::Post => (State::Creating { body }, Action::Create { target }),
    }
}

/// Decides what follows the read of the connection that brought `input`.
pub fn respond_to(input: &[u8], directory: Option<&str>) -> (r: (State, Action))
    ensures
        (r.0@, r.1@) == respond(
            input@,
            match directory {
                Some(directory) => Some(directory@),
                None => None,
            },
        ),
{
    match parse_request(input) {
        Err(_) => drop_connection(),
        Ok(request) => match route(&request, directory) {
            Route::Reply(response) => (
                State::Closed,
                Action::Finish { bytes: response.to_bytes() },
            ),
            Route::File { method, target } => handle_files(method, target, request.body),
        },
    }
}

/// Takes `event` in `state`: gives the state that follows and what is to be
/// done next.
pub fn step(state: State, event: Event) -> (r: (State, Action))
    ensures
        (r.0@, r.1@) == state@.next(event@),
{
    match (state, event) {
        (State::Reading { directory }, Event::Received(input)) => {
            match &directory {
                Some(directory) => respond_to(input.as_slice(), Some(directory.as_str())),
                None => respond_to(input.as_slice(), None),
            }
        },
        (State::Sizing { target }, Event::Sized(Some(length))) => (
            State::Opening { length },
            Action::Open { target },
        ),
        (State::Sizing { .. }, Event::Sized(None)) => reply_bare(Status::NotFound),
        (State::Opening { length }, Event::Opened(true)) => (
            State::Streaming,
            Action::Stream {
                bytes: encode_head(Status::Success, Some((ContentType::OctetStream, length))),
                limit: WINDOW,
            },
        ),
        (State::Opening { .. }, Event::Opened(false)) => reply_bare(Status::NotFound),
        (State::Streaming, Event::Chunk(Some(bytes))) => if bytes.len() > 0 {
            (State::Streaming, Action::Stream { bytes, limit: WINDOW })
        } else {
            drop_connection()
        },
        (State::Streaming, Event::Chunk(None)) => reply_bare(Status::NotFound),
        (State::Creating { body }, Event::Opened(true)) => (
            State::Draining,
            Action::Store { bytes: body, limit: WINDOW },
        ),
        (State::Creating { .. }, Event::Opened(false)) => reply_bare(Status::NotFound),
        (State::Draining, Event::Drained(Some(bytes))) => if bytes.len() > 0 {
            (State::Draining, Action::Store { bytes, limit: WINDOW })
        } else {
            reply_bare(Status::Created)
        },
        (State::Draining, Event::Drained(None)) => reply_bare(Status::Created),
        _ => drop_connection(),
    }
}

} // verus!
