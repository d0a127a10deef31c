//! The dispatcher: it carries one request from its matched handler to a
//! reply. Reading the request body, suspending on an awaitable and turning
//! a Python object into a `Response` are the caller's work; what is done
//! when, and what each outcome leads to, is decided here, and the handler
//! is called here.

use crate::router::Method;
use crate::types::{
    header_entries, lemma_fields_of_listing, list_headers, pairs, DispatchError, Headers,
    HttpReply, PyFunction, Response,
};
use pyo3::{Py, PyAny, PyErr};
use vstd::prelude::*;

verus! {

/// What a call into Python failed with.
#[verifier::external_type_specification]
#[verifier::external_body]
pub struct ExPyErr(PyErr);

/// The largest request body, in bytes, that is accumulated for one request.
pub const MAX_SIZE: usize = 10_000;

/// Lays the header set over a reply: every entry of the set becomes a field
/// of the reply, replacing a field that is named alike, which the overlay
/// wins however the two names are spelled.
pub fn apply_headers(response: &mut HttpReply, headers: &Headers)
    ensures
        final(response)@.overlays(old(response)@, header_entries(*headers)),
{
    let list = list_headers(headers);
    let ghost under = response@;
    response.insert_headers(&list);
    proof {
        let set = header_entries(*headers);
        assert forall|at: int| 0 <= at < pairs(list@).len() implies set.contains_pair(
            (#[trigger] pairs(list@)[at]).0,
            pairs(list@)[at].1,
        ) by {
            assert(set.contains_pair(list@[at].0@, list@[at].1@));
        }
        assert forall|key: Seq<char>| #[trigger] set.contains_key(key) implies exists|at: int|
            0 <= at < pairs(list@).len() && (#[trigger] pairs(list@)[at]).0 == key by {
            let held = choose|held: int| 0 <= held < list@.len() && #[trigger] list@[held].0@ == key;
            assert(pairs(list@)[held].0 == key);
        }
        assert forall|name: Seq<char>| #[trigger] response@.overlays_at(under, set, name) by {
            lemma_fields_of_listing(pairs(list@), set, name);
        }
    }
}

/// Appends a chunk to the accumulated body if the whole still fits, and
/// refuses it, leaving the body as it was, if it does not.
pub fn extend_body(body: &mut Vec<u8>, chunk: &[u8]) -> (taken: Result<(), DispatchError>)
    ensures
        match taken {
            Ok(_) => old(body)@.len() + chunk@.len() <= MAX_SIZE && final(body)@ == old(body)@
                + chunk@,
            Err(error) => old(body)@.len() + chunk@.len() > MAX_SIZE && error
                == DispatchError::BodyTooLarge && final(body)@ == old(body)@,
        },
{
    if body.len() > MAX_SIZE || chunk.len() > MAX_SIZE - body.len() {
        return Err(DispatchError::BodyTooLarge);
    }
    body.extend_from_slice(chunk);
    Ok(())
}

/// `Py::call0` under the interpreter lock: calls the handler without an
/// argument. Nothing is claimed of the outcome, which is for the handler to
/// decide. The call lasts as long as the handler runs, so that it does not
/// return if the handler does not; and where the handler raises the
/// exception that stands for a panic of Rust code called from Python, the
/// call goes on with that panic in place of returning.
#[verifier::external_body]
fn call_without_body(handler: &Py<PyAny>) -> Result<Py<PyAny>, PyErr> {
    pyo3::Python::with_gil(|py| handler.call0(py))
}

/// `Py::call1` under the interpreter lock: calls the handler with the
/// request body as its one argument. Nothing is claimed of the outcome. The
/// call lasts as long as the handler runs, so that it does not return if
/// the handler does not; and where the handler raises the exception that
/// stands for a panic of Rust code called from Python, the call goes on
/// with that panic in place of returning.
#[verifier::external_body]
fn call_with_body(handler: &Py<PyAny>, data: Vec<u8>) -> Result<Py<PyAny>, PyErr> {
    pyo3::Python::with_gil(|py| handler.call1(py, (data,)))
}

/// Where the dispatch of one request stands.
pub enum Dispatch {
    /// A handler is matched; nothing else was done yet.
    Matched { function: PyFunction, method: Method },
    /// The request body is being read; `body` is what was read so far.
    Reading { function: PyFunction, body: Vec<u8> },
    /// The handler is being called; its `Response` is awaited.
    Invoked,
    /// The dispatch is over.
    Done,
}

impl Dispatch {
    /// Whether the dispatch is reading the body of a request for
    /// `function` and has read `body` so far.
    pub open spec fn reads(self, function: PyFunction, body: Seq<u8>) -> bool {
        &&& self matches Dispatch::Reading { function: kept, body: read }
        &&& kept == function
        &&& read@ == body
    }

    /// Whether the dispatch is that of a request of `method` matched to
    /// `function`, with nothing done yet.
    pub open spec fn matches_to(self, function: PyFunction, method: Method) -> bool {
        &&& self matches Dispatch::Matched { function: kept, method: asked }
        &&& kept == function
        &&& asked == method
    }
}

/// What the caller reports to the dispatcher.
pub enum Event {
    /// The request is ready to be dispatched.
    Start,
    /// The next chunk of the request body.
    Chunk(Vec<u8>),
    /// The request body has ended.
    EndOfBody,
    /// The request body could not be read to its end.
    ReadFailed,
    /// The handler's return value, as a `Response`.
    Returned(Response),
    /// The handler raised, its awaitable failed, or its return value is no
    /// `Response`.
    Failed,
}

/// What the dispatcher asks the caller to do next.
pub enum Action {
    /// Read the next chunk of the request body and report it, or report
    /// that the body has ended or cannot be read.
    ReadBody,
    /// Call the handler with `data` (see `invoke`), suspend on what it
    /// returns if it is an awaitable, and report the return value as a
    /// `Response`, or report the failure.
    Call { function: PyFunction, data: Option<Vec<u8>> },
    /// The dispatch is over, with a reply or with a failure.
    Finish(Result<HttpReply, DispatchError>),
}

impl Action {
    /// Whether the action ends the dispatch with the failure `error`.
    pub open spec fn fails_with(self, error: DispatchError) -> bool {
        self matches Action::Finish(Err(reported)) && reported == error
    }

    /// Whether the action is the call of `function` with the body `body`,
    /// or without a body if there is none.
    pub open spec fn calls(self, function: PyFunction, body: Option<Seq<u8>>) -> bool {
        &&& self matches Action::Call { function: called, data }
        &&& called == function
        &&& match body {
            Some(bytes) => data matches Some(handed) && handed@ == bytes,
            None => data is None,
        }
    }

    /// Whether the action ends the dispatch with what `response` renders as.
    pub open spec fn answers(self, response: Response) -> bool {
        self matches Action::Finish(Ok(reply)) && reply@ == response.rendered()
    }
}

/// The steps of a dispatch. A request whose method bears a body has it
/// read first, chunk by chunk, and the dispatch ends the moment the
/// accumulated body goes over `MAX_SIZE`; then, or at once for any other
/// method, the handler is to be called, with the body if one was read. The
/// handler's `Response` is rendered, which ends the dispatch with a reply.
/// An event that the state does not wait for ends the dispatch.
pub open spec fn step(before: Dispatch, event: Event, after: Dispatch, action: Action) -> bool {
    match (before, event) {
        (Dispatch::Matched { function, method }, Event::Start) => if method.bears_body() {
            after.reads(function, Seq::empty()) && action is ReadBody
        } else {
            after is Invoked && action.calls(function, None)
        },
        (Dispatch::Reading { function, body }, Event::Chunk(chunk)) => if body@.len()
            + chunk@.len() <= MAX_SIZE {
            after.reads(function, body@ + chunk@) && action is ReadBody
        } else {
            after is Done && action.fails_with(DispatchError::BodyTooLarge)
        },
        (Dispatch::Reading { function, body }, Event::EndOfBody) => after is Invoked
            && action.calls(function, Some(body@)),
        (Dispatch::Reading { function, body }, Event::ReadFailed) => after is Done
            && action.fails_with(DispatchError::ReadFailed),
        (Dispatch::Invoked, Event::Returned(response)) => after is Done && action.answers(
            response,
        ),
        _ => after is Done && action.fails_with(DispatchError::InvocationError),
    }
}

/// Takes the dispatch one step further: from where it stands and what the
/// caller reports to where it stands then and what the caller is to do next.
pub fn handle_request(state: Dispatch, event: Event) -> (next: (Dispatch, Action))
    ensures
        step(state, event, next.0, next.1),
{
    match state {
        Dispatch::Matched { function, method } => match event {
            Event::Start => {
                if method.bears_body() {
                    (Dispatch::Reading { function, body: Vec::new() }, Action::ReadBody)
                } else {
                    (Dispatch::Invoked, Action::Call { function, data: None })
                }
            },
            _ => (Dispatch::Done, Action::Finish(Err(DispatchError::InvocationError))),
        },
        Dispatch::Reading { function, body } => match event {
            Event::Chunk(chunk) => {
                let mut body = body;
                match extend_body(&mut body, chunk.as_slice()) {
                    Ok(()) => (Dispatch::Reading { function, body }, Action::ReadBody),
                    Err(error) => (Dispatch::Done, Action::Finish(Err(error))),
                }
            },
            Event::EndOfBody => (Dispatch::Invoked, Action::Call { function, data: Some(body) }),
            Event::ReadFailed => (
                Dispatch::Done,
                Action::Finish(Err(DispatchError::ReadFailed)),
            ),
            _ => (Dispatch::Done, Action::Finish(Err(DispatchError::InvocationError))),
        },
        Dispatch::Invoked => match event {
            Event::Returned(response) => (Dispatch::Done, Action::Finish(response.make_response())),
            _ => (Dispatch::Done, Action::Finish(Err(DispatchError::InvocationError))),
        },
        Dispatch::Done => (Dispatch::Done, Action::Finish(Err(DispatchError::InvocationError))),
    }
}

/// What a call of a handler came back with.
pub enum Invoked {
    /// The return value of a blocking handler.
    Returned(Py<PyAny>),
    /// The awaitable of a suspending handler, to suspend on.
    Pending(Py<PyAny>),
}

/// What the outcome of calling `function` amounts to: the object that the
/// call returned is the return value of a blocking handler and the
/// awaitable of a suspending one; a call that raised is an invocation error.
pub fn invoked(function: &PyFunction, outcome: Result<Py<PyAny>, PyErr>) -> (made: Result<
    Invoked,
    DispatchError,
>)
    ensures
        match outcome {
            Ok(object) => made matches Ok(held) && held == (if *function is CoRoutine {
                Invoked::Pending(object)
            } else {
                Invoked::Returned(object)
            }),
            Err(_) => made matches Err(error) && error == DispatchError::InvocationError,
        },
{
    match outcome {
        Ok(object) => match function {
            PyFunction::CoRoutine(_) => Ok(Invoked::Pending(object)),
            PyFunction::SyncFunction(_) => Ok(Invoked::Returned(object)),
        },
        Err(_) => Err(DispatchError::InvocationError),
    }
}

/// Calls the handler, with the request body as its one argument if there
/// is one and without an argument if there is none, holding the interpreter
/// lock for the length of the call. Whether the call succeeds, and what it
/// returns, is for the handler to decide; a blocking handler's call hands
/// back its return value, a suspending handler's call its awaitable. A
/// handler that does not return keeps the call from returning, and one that
/// raises the exception that stands for a Rust panic makes the call panic.
pub fn invoke(function: &PyFunction, data: Option<Vec<u8>>) -> (made: Result<Invoked, DispatchError>)
    ensures
        match made {
            Ok(Invoked::Returned(_)) => *function is SyncFunction,
            Ok(Invoked::Pending(_)) => *function is CoRoutine,
            Err(error) => error == DispatchError::InvocationError,
        },
{
    let handler = match function {
        PyFunction::CoRoutine(handler) => handler,
        PyFunction::SyncFunction(handler) => handler,
    };
    let outcome = match data {
        Some(body) => call_with_body(handler, body),
        None => call_without_body(handler),
    };
    invoked(function, outcome)
}

/// The bound on the request body: a chunk is taken exactly if the body
/// with it is no longer than `MAX_SIZE`. A longer one ends the dispatch with
/// `BodyTooLarge`, and the handler is not to be called.
pub proof fn lemma_body_bound(
    function: PyFunction,
    body: Seq<u8>,
    before: Dispatch,
    chunk: Vec<u8>,
    after: Dispatch,
    action: Action,
)
    requires
        before.reads(function, body),
        step(before, Event::Chunk(chunk), after, action),
    ensures
        body.len() + chunk@.len() <= MAX_SIZE <==> action is ReadBody,
        body.len() + chunk@.len() <= MAX_SIZE <==> after.reads(function, body + chunk@),
        body.len() + chunk@.len() > MAX_SIZE <==> action.fails_with(DispatchError::BodyTooLarge),
        body.len() + chunk@.len() > MAX_SIZE <==> after is Done,
        !(action is Call),
{
}

/// Once a dispatch is over, no event leads to a call of the handler.
pub proof fn lemma_done_stays_done(event: Event, after: Dispatch, action: Action)
    requires
        step(Dispatch::Done, event, after, action),
    ensures
        after is Done,
        action.fails_with(DispatchError::InvocationError),
{
}

/// The bytes of a list of chunks, one chunk after the other.
pub open spec fn joined(chunks: Seq<Vec<u8>>) -> Seq<u8>
    decreases chunks.len(),
{
    if chunks.len() == 0 {
        Seq::empty()
    } else {
        joined(chunks.drop_last()) + chunks.last()@
    }
}

/// Whether `after` is where a dispatch to `function` stands when the
/// chunks of `chunks` were reported to it one by one, the first of them to
/// a dispatch that had read nothing yet.
pub open spec fn read_all(function: PyFunction, chunks: Seq<Vec<u8>>, after: Dispatch) -> bool
    decreases chunks.len(),
{
    if chunks.len() == 0 {
        after.reads(function, Seq::empty())
    } else {
        exists|middle: Dispatch, asked: Action|
            read_all(function, chunks.drop_last(), middle) && #[trigger] step(
                middle,
                Event::Chunk(chunks.last()),
                after,
                asked,
            )
    }
}

/// A request body is read whole or not at all: however it is cut into
/// chunks, the dispatch holds all of it while it is no longer than
/// `MAX_SIZE`, and is over as soon as it is longer.
pub proof fn lemma_body_is_read_whole(function: PyFunction, chunks: Seq<Vec<u8>>, after: Dispatch)
    requires
        read_all(function, chunks, after),
    ensures
        joined(chunks).len() <= MAX_SIZE ==> after.reads(function, joined(chunks)),
        joined(chunks).len() > MAX_SIZE ==> after is Done,
    decreases chunks.len(),
{
    if chunks.len() > 0 {
        let (middle, asked) = choose|middle: Dispatch, asked: Action|
            read_all(function, chunks.drop_last(), middle) && #[trigger] step(
                middle,
                Event::Chunk(chunks.last()),
                after,
                asked,
            );
        lemma_body_is_read_whole(function, chunks.drop_last(), middle);
    }
}

} // verus!
