//! The server: the route table and the header set that the host registers
//! into, the guard that lets it be started once, and what is decided for a
//! request before and after its dispatch.

use crate::processor::{apply_headers, Dispatch};
use crate::router::{no_routes, Method, Router, Routing};
use crate::types::{
    all_folded, covers, fold_name, folded, header_entries, lemma_folded_twice, new_headers,
    no_fields, set_header, unset_header, Body, BodyView, DispatchError, Headers, HttpReply,
    PyFunction, ReplyView,
};
use pyo3::{Py, PyAny};
use socket2::Socket;
use vstd::prelude::*;

verus! {

/// A socket of the operating system.
#[verifier::external_type_specification]
#[verifier::external_body]
pub struct ExSocket(Socket);

/// Where a server listens.
pub enum ListenerSource {
    /// On a port that the server opens itself.
    Port(u16),
    /// On a socket that is bound and listening already, and that other
    /// servers may listen on too. The server accepts on it and neither
    /// creates nor closes it.
    Shared(Socket),
}

/// What a call of `start` leads to.
pub enum Started {
    /// The server was not running: a worker is to serve on `listener` with
    /// the matcher `routing`.
    Serve { listener: ListenerSource, routing: Routing },
    /// The server is running already: nothing is to be done.
    AlreadyRunning,
}

/// One server: its route table, its header set, and whether it was started.
pub struct Server {
    router: Router,
    headers: Headers,
    running: bool,
}

impl Server {
    /// The route table.
    pub closed spec fn table(&self) -> &Router {
        &self.router
    }

    /// The header set: the value of each header that is added to every
    /// reply, by the folded name of the header.
    pub closed spec fn header_set(&self) -> Map<Seq<char>, Seq<char>> {
        header_entries(self.headers)
    }

    /// Whether the header set is as the server keeps it: every name in it
    /// is folded, so that no two of them name the same field. A new server
    /// is so, and every method keeps it so.
    pub open spec fn is_tidy(&self) -> bool {
        all_folded(self.header_set())
    }

    /// Whether the server was started.
    pub closed spec fn is_running(&self) -> bool {
        self.running
    }

    /// What a call of `start` with `listener` does to the server and hands
    /// back. Only the call on a server that is not running makes it serve;
    /// the matcher it is to serve with is built from the route table as it
    /// stands. Either way the table and the header set stay as they are,
    /// and the server is running afterwards.
    pub open spec fn starts(&self, before: &Server, listener: ListenerSource, outcome: Started) -> bool {
        &&& self.is_running()
        &&& self.table().same_routes(before.table())
        &&& self.header_set() == before.header_set()
        &&& match outcome {
            Started::Serve { listener: given, routing } => !before.is_running() && given
                == listener && routing.built_from(before.table()) && routing.drawn_from(
                before.table(),
            ),
            Started::AlreadyRunning => before.is_running(),
        }
    }

    /// A server that is not running, without routes and without headers.
    pub fn new() -> (server: Server)
        ensures
            !server.is_running(),
            server.header_set() == no_fields(),
            server.is_tidy(),
            forall|method: Method| #[trigger] server.table().routes(method) == no_routes(),
    {
        Server { router: Router::new(), headers: new_headers(), running: false }
    }

    /// Starts the server if it is not running, and does nothing if it is.
    pub fn start(&mut self, listener: ListenerSource) -> (outcome: Started)
        ensures
            final(self).starts(old(self), listener, outcome),
    {
        if self.running {
            return Started::AlreadyRunning;
        }
        self.running = true;
        let routing = Routing::new(&self.router);
        Started::Serve { listener, routing }
    }

    /// Sets the header that `key` names to `value` for every reply from now
    /// on, replacing the value it had under whatever spelling of the name.
    pub fn add_header(&mut self, key: &str, value: &str)
        ensures
            final(self).header_set() == old(self).header_set().insert(folded(key@), value@),
            old(self).is_tidy() ==> final(self).is_tidy(),
            final(self).table().same_routes(old(self).table()),
            final(self).is_running() == old(self).is_running(),
    {
        proof {
            lemma_folded_twice(key@);
        }
        set_header(&mut self.headers, fold_name(key), value.to_owned());
    }

    /// Takes the header that `key` names out of the set, for every reply
    /// from now on, under whatever spelling of the name it was added.
    pub fn remove_header(&mut self, key: &str)
        ensures
            final(self).header_set() == old(self).header_set().remove(folded(key@)),
            old(self).is_tidy() ==> final(self).is_tidy(),
            final(self).table().same_routes(old(self).table()),
            final(self).is_running() == old(self).is_running(),
    {
        let name = fold_name(key);
        unset_header(&mut self.headers, name.as_str());
    }

    /// Registers a handler in the route table. A matcher that was built
    /// before does not learn of it.
    pub fn add_route(&mut self, route_type: &str, route: &str, handler: Py<PyAny>, is_async: bool)
        ensures
            match Method::named(route_type@) {
                Some(method) => final(self).table().registers(
                    old(self).table(),
                    method,
                    route@,
                    PyFunction::classified(handler, is_async),
                ),
                None => final(self).table().same_routes(old(self).table()),
            },
            final(self).header_set() == old(self).header_set(),
            final(self).is_running() == old(self).is_running(),
    {
        self.router.add_route(route_type, route, handler, is_async);
    }

    /// The route table, for lookups.
    pub fn router(&self) -> (router: &Router)
        ensures
            router == self.table(),
    {
        &self.router
    }

    /// The header set, to read and to lay over replies. Headers are added
    /// and removed through the server, which keeps their names folded.
    pub fn headers(&self) -> (headers: &Headers)
        ensures
            header_entries(*headers) == self.header_set(),
    {
        &self.headers
    }
}

/// A server is made to serve at most once, however often it is started:
/// after the first call of `start` every further call finds it running.
pub proof fn lemma_started_once(
    fresh: Server,
    once: Server,
    twice: Server,
    first_listener: ListenerSource,
    second_listener: ListenerSource,
    first: Started,
    second: Started,
)
    requires
        once.starts(&fresh, first_listener, first),
        twice.starts(&once, second_listener, second),
    ensures
        second is AlreadyRunning,
        first is Serve <==> !fresh.is_running(),
        twice.is_running(),
        twice.header_set() == once.header_set(),
        twice.table().same_routes(once.table()),
{
}

/// The reply that reports a failure, before the header set is laid over it:
/// the failure's status and an empty body.
pub open spec fn failure_reply(error: DispatchError) -> ReplyView {
    ReplyView { status: error.status(), headers: Seq::empty(), body: BodyView::Bytes(Seq::empty()) }
}

/// What a lookup that found `found` leads to: a request for which a
/// handler was found is ready to be dispatched to it; one for which none
/// was found fails with `RouteNotFound`.
pub fn resolved(found: Option<&PyFunction>, method: &Method) -> (made: Result<
    Dispatch,
    DispatchError,
>)
    ensures
        match found {
            Some(handler) => made matches Ok(state) && state.matches_to(*handler, *method),
            None => made matches Err(error) && error == DispatchError::RouteNotFound,
        },
{
    match found {
        Some(function) => Ok(Dispatch::Matched { function: function.clone(), method: *method }),
        None => Err(DispatchError::RouteNotFound),
    }
}

/// Looks the request up in the matcher. A request that the matcher resolves
/// is ready to be dispatched to the handler it resolves to, which is one of
/// the handlers that the matcher holds for the method; any other request
/// fails with `RouteNotFound`.
pub fn index(router: &Routing, method: &Method, path: &str) -> (found: Result<
    Dispatch,
    DispatchError,
>)
    ensures
        match router.matched(*method, path@) {
            Some(handler) => found matches Ok(state) && state.matches_to(handler, *method)
                && router.handlers(*method).contains(handler),
            None => found matches Err(error) && error == DispatchError::RouteNotFound,
        },
        *method == Method::Other ==> found is Err,
{
    resolved(router.get_route(method, path), method)
}

/// What goes out for a request that ended with `outcome`, before the
/// header set is laid over it: the reply that the dispatch produced, or the
/// report of its failure.
pub open spec fn outcome_reply(outcome: Result<HttpReply, DispatchError>) -> ReplyView {
    match outcome {
        Ok(made) => made@,
        Err(error) => failure_reply(error),
    }
}

/// The reply that ends a request: the reply that the dispatch produced, or
/// for a failure its status, not found for a missing route and a server
/// error for everything else, with an empty body. The header set is laid
/// over the one as over the other.
pub fn conclude(outcome: Result<HttpReply, DispatchError>, headers: &Headers) -> (reply: HttpReply)
    ensures
        reply@.overlays(outcome_reply(outcome), header_entries(*headers)),
{
    let mut reply = match outcome {
        Ok(made) => made,
        Err(error) => HttpReply::new(error.status(), Body::Bytes(Vec::new())),
    };
    apply_headers(&mut reply, headers);
    reply
}

/// The reply for a response that names a file which cannot be opened:
/// that is a failure to render, reported like every other.
pub fn missing_file(headers: &Headers) -> (reply: HttpReply)
    ensures
        reply@.overlays(failure_reply(DispatchError::RenderError), header_entries(*headers)),
{
    conclude(Err(DispatchError::RenderError), headers)
}

/// A header that was added goes out with every reply that the header set
/// is laid over afterwards, whatever the reply is laid over and however the
/// name is spelled there.
pub proof fn lemma_added_header_is_sent(
    before: Server,
    after: Server,
    name: Seq<char>,
    value: Seq<char>,
    under: ReplyView,
    reply: ReplyView,
)
    requires
        before.is_tidy(),
        after.header_set() == before.header_set().insert(folded(name), value),
        reply.overlays(under, after.header_set()),
    ensures
        reply.header_map().contains_pair(folded(name), value),
{
    lemma_folded_twice(name);
    assert(after.header_set().contains_key(folded(name)));
    assert(reply.overlays_at(under, after.header_set(), folded(name)));
    let key = choose|key: Seq<char>| #[trigger]
        after.header_set().contains_key(key) && folded(key) == folded(name)
            && after.header_set()[key] == reply.header_map()[folded(name)];
    assert(key == folded(name)) by {
        if key != folded(name) {
            assert(before.header_set().contains_key(key));
        }
    }
}

/// A header that was removed goes out with no reply that the header set is
/// laid over afterwards, unless what it is laid over has that field itself.
pub proof fn lemma_removed_header_is_not_sent(
    before: Server,
    after: Server,
    name: Seq<char>,
    under: ReplyView,
    reply: ReplyView,
)
    requires
        before.is_tidy(),
        after.header_set() == before.header_set().remove(folded(name)),
        reply.overlays(under, after.header_set()),
        !under.header_map().contains_key(folded(name)),
    ensures
        !reply.header_map().contains_key(folded(name)),
{
    assert(reply.overlays_at(under, after.header_set(), folded(name)));
    if covers(after.header_set(), folded(name)) {
        let key = choose|key: Seq<char>| #[trigger]
            after.header_set().contains_key(key) && folded(key) == folded(name);
        assert(before.header_set().contains_key(key));
    }
}

} // verus!
