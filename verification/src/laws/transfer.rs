//! What an exchange about a file sends and stores, from the request to the
//! end.

use crate::connection::{run, ActionModel, EventModel, StateModel};
use crate::grammar;
use crate::laws::routing::{law_files_name_target, lemma_bare_wire};
use crate::request::{Method, ParseError, RequestModel};
use crate::response::{head, wire, BodyModel, ContentType, ResponseModel, Status};
use crate::router::bare;
use vstd::prelude::*;
use vstd::utf8::*;

verus! {

/// The events of reading a file chunk by chunk up to its end.
pub open spec fn chunk_events(chunks: Seq<Seq<u8>>) -> Seq<EventModel> {
    Seq::new(chunks.len(), |i: int| EventModel::Chunk(Some(chunks[i]))).push(
        EventModel::Chunk(Some(Seq::empty())),
    )
}

/// The events of draining a connection read by read until it has nothing
/// ready.
pub open spec fn drain_events(reads: Seq<Seq<u8>>) -> Seq<EventModel> {
    Seq::new(reads.len(), |i: int| EventModel::Drained(Some(reads[i]))).push(
        EventModel::Drained(None),
    )
}

/// While a file is streamed, each chunk is sent as it comes, and the end of
/// the file ends the exchange.
pub proof fn lemma_stream_sends_chunks(chunks: Seq<Seq<u8>>)
    requires
        forall|i: int| 0 <= i < chunks.len() ==> (#[trigger] chunks[i]).len() > 0,
    ensures
        run(StateModel::Streaming, chunk_events(chunks)) == (
            StateModel::Closed,
            chunks.flatten(),
            Seq::<u8>::empty(),
        ),
    decreases chunks.len(),
{
    let events = chunk_events(chunks);
    if chunks.len() == 0 {
        assert(run(StateModel::Closed, events.drop_first()) == (
            StateModel::Closed,
            Seq::<u8>::empty(),
            Seq::<u8>::empty(),
        ));
    } else {
        let more = chunks.drop_first();
        assert(events.drop_first() =~= chunk_events(more));
        assert forall|i: int| 0 <= i < more.len() implies (#[trigger] more[i]).len() > 0 by {}
        lemma_stream_sends_chunks(more);
    }
}

/// While a connection is drained, each read is appended to the file as it
/// comes, and the first read that brings nothing ends the exchange with
/// `201 CREATED`.
pub proof fn lemma_drain_stores_reads(reads: Seq<Seq<u8>>)
    requires
        forall|i: int| 0 <= i < reads.len() ==> (#[trigger] reads[i]).len() > 0,
    ensures
        run(StateModel::Draining, drain_events(reads)) == (
            StateModel::Closed,
            wire(bare(Status::Created)),
            reads.flatten(),
        ),
    decreases reads.len(),
{
    let events = drain_events(reads);
    if reads.len() == 0 {
        assert(run(StateModel::Closed, events.drop_first()) == (
            StateModel::Closed,
            Seq::<u8>::empty(),
            Seq::<u8>::empty(),
        ));
    } else {
        let more = reads.drop_first();
        assert(events.drop_first() =~= drain_events(more));
        assert forall|i: int| 0 <= i < more.len() implies (#[trigger] more[i]).len() > 0 by {}
        lemma_drain_stores_reads(more);
    }
}

/// From the wait for its length on, a file that can be sized and opened
/// is sent as its header block and its chunks.
proof fn lemma_sized_file_is_sent(target: Seq<char>, length: u64, chunks: Seq<Seq<u8>>)
    requires
        forall|i: int| 0 <= i < chunks.len() ==> (#[trigger] chunks[i]).len() > 0,
    ensures
        run(
            StateModel::Sizing { target },
            seq![EventModel::Sized(Some(length)), EventModel::Opened(true)] + chunk_events(chunks),
        ) == (
            StateModel::Closed,
            head(Status::Success, Some((ContentType::OctetStream, length as nat)))
                + chunks.flatten(),
            Seq::<u8>::empty(),
        ),
{
    let events = seq![EventModel::Sized(Some(length)), EventModel::Opened(true)] + chunk_events(
        chunks,
    );
    let opened = seq![EventModel::Opened(true)] + chunk_events(chunks);
    assert(events.drop_first() =~= opened);
    assert(opened.drop_first() =~= chunk_events(chunks));
    lemma_stream_sends_chunks(chunks);
    let block = head(Status::Success, Some((ContentType::OctetStream, length as nat)));
    assert(run(StateModel::Opening { length }, opened) == (
        StateModel::Closed,
        block + chunks.flatten(),
        Seq::<u8>::empty(),
    ));
}

/// From the wait for its creation on, a file that can be created is
/// stored as `body` and what the connection still brings.
proof fn lemma_created_file_is_stored(body: Seq<u8>, reads: Seq<Seq<u8>>)
    requires
        forall|i: int| 0 <= i < reads.len() ==> (#[trigger] reads[i]).len() > 0,
    ensures
        run(StateModel::Creating { body }, seq![EventModel::Opened(true)] + drain_events(reads))
            == (StateModel::Closed, wire(bare(Status::Created)), body + reads.flatten()),
{
    let events = seq![EventModel::Opened(true)] + drain_events(reads);
    assert(events.drop_first() =~= drain_events(reads));
    lemma_drain_stores_reads(reads);
}

/// Sending a file.  Take a `GET` request whose path begins with `/files/`,
/// a base directory, and a file that can be sized and opened.  The exchange
/// asks for the file that the rest of the path names in the base directory.
/// It sends the header block that declares `application/octet-stream` and
/// the length that was looked up, then the chunks of the file in the order
/// in which they are read, and nothing else; it stores nothing.  Where the
/// length that was looked up is the number of bytes read, what is sent is
/// the `200 OK` response whose body is the content of the file.
pub proof fn law_file_is_sent(
    input: Seq<u8>,
    request: RequestModel,
    directory: Seq<char>,
    length: u64,
    chunks: Seq<Seq<u8>>,
)
    requires
        grammar::request(input) == Ok::<_, ParseError>(request),
        request.method == Method::Get,
        "/files/"@.is_prefix_of(request.path),
        forall|i: int| 0 <= i < chunks.len() ==> (#[trigger] chunks[i]).len() > 0,
    ensures
        (StateModel::Reading { directory: Some(directory) }).next(EventModel::Received(input)).1
            == (ActionModel::Size { target: directory + "/"@ + request.path.skip(7) }),
        run(
            StateModel::Reading { directory: Some(directory) },
            seq![
                EventModel::Received(input),
                EventModel::Sized(Some(length)),
                EventModel::Opened(true),
            ] + chunk_events(chunks),
        ) == (
            StateModel::Closed,
            head(Status::Success, Some((ContentType::OctetStream, length as nat)))
                + chunks.flatten(),
            Seq::<u8>::empty(),
        ),
        length == chunks.flatten().len() ==> head(
            Status::Success,
            Some((ContentType::OctetStream, length as nat)),
        ) + chunks.flatten() == wire(
            ResponseModel {
                status: Status::Success,
                body: Some(
                    BodyModel { content_type: ContentType::OctetStream, bytes: chunks.flatten() },
                ),
            },
        ),
{
    let target = directory + "/"@ + request.path.skip(7);
    let later = seq![EventModel::Sized(Some(length)), EventModel::Opened(true)] + chunk_events(
        chunks,
    );
    let events = seq![
        EventModel::Received(input),
        EventModel::Sized(Some(length)),
        EventModel::Opened(true),
    ] + chunk_events(chunks);
    law_files_name_target(input, request, directory);
    lemma_sized_file_is_sent(target, length, chunks);
    assert(events.drop_first() =~= later);
}

/// Receiving a file.  Take a `POST` request whose path begins with
/// `/files/`, a base directory, and a file that can be created.  The
/// exchange creates the file that the rest of the path names in the base
/// directory.  It appends to the file the body that came with the request,
/// then what each later read of the connection brings, in that order, and
/// nothing else; it sends `201 CREATED` without a body, and nothing else.
/// Where the connection has nothing more ready, the file holds exactly the
/// body of the request.
pub proof fn law_file_is_stored(
    input: Seq<u8>,
    request: RequestModel,
    directory: Seq<char>,
    reads: Seq<Seq<u8>>,
)
    requires
        grammar::request(input) == Ok::<_, ParseError>(request),
        request.method == Method::Post,
        "/files/"@.is_prefix_of(request.path),
        forall|i: int| 0 <= i < reads.len() ==> (#[trigger] reads[i]).len() > 0,
    ensures
        (StateModel::Reading { directory: Some(directory) }).next(EventModel::Received(input)).1
            == (ActionModel::Create { target: directory + "/"@ + request.path.skip(7) }),
        run(
            StateModel::Reading { directory: Some(directory) },
            seq![EventModel::Received(input), EventModel::Opened(true)] + drain_events(reads),
        ) == (
            StateModel::Closed,
            encode_utf8("HTTP/1.1 201 CREATED\r\n\r\n"@),
            request.body + reads.flatten(),
        ),
        reads.len() == 0 ==> request.body + reads.flatten() == request.body,
{
    let later = seq![EventModel::Opened(true)] + drain_events(reads);
    let events = seq![EventModel::Received(input), EventModel::Opened(true)] + drain_events(
        reads,
    );
    law_files_name_target(input, request, directory);
    lemma_created_file_is_stored(request.body, reads);
    lemma_bare_wire(Status::Created);
    assert(events.drop_first() =~= later);
}

/// A file that cannot be sized, opened or created.  The exchange then
/// sends `404 NOT FOUND` without a body and stores nothing.
pub proof fn law_missing_file_not_found(target: Seq<char>, length: u64, body: Seq<u8>)
    ensures
        run(StateModel::Sizing { target }, seq![EventModel::Sized(None)]) == (
            StateModel::Closed,
            wire(bare(Status::NotFound)),
            Seq::<u8>::empty(),
        ),
        run(StateModel::Opening { length }, seq![EventModel::Opened(false)]) == (
            StateModel::Closed,
            wire(bare(Status::NotFound)),
            Seq::<u8>::empty(),
        ),
        run(StateModel::Creating { body }, seq![EventModel::Opened(false)]) == (
            StateModel::Closed,
            wire(bare(Status::NotFound)),
            Seq::<u8>::empty(),
        ),
{
    reveal_with_fuel(run, 2);
}

/// One exchange per connection.  An exchange that is over stays over,
/// whatever is reported to it: it sends nothing more and stores nothing
/// more.
pub proof fn law_closed_stays_closed(events: Seq<EventModel>)
    ensures
        run(StateModel::Closed, events) == (
            StateModel::Closed,
            Seq::<u8>::empty(),
            Seq::<u8>::empty(),
        ),
    decreases events.len(),
{
    if events.len() > 0 {
        law_closed_stays_closed(events.drop_first());
    }
}

} // verus!
