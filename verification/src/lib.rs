//! The core of a request-serving layer for handlers written in Python: a
//! registry of routes, the matcher built from it, the dispatcher that carries
//! one request to its handler, the response model, and the server's lifecycle.

pub mod processor;
pub mod router;
pub mod server;
pub mod types;

pub use types::{
    Body, BodyView, DispatchError, Headers, HttpReply, PyFunction, ReplyView, Response,
    ResponseError, ResponseKind, STATIC_FILE, TEXT,
};
pub use router::{Method, Router, Routing};
pub use processor::{
    apply_headers, extend_body, handle_request, invoke, invoked, Action, Dispatch, Event, Invoked,
    MAX_SIZE,
};
pub use server::{
    conclude, index, missing_file, resolved, ListenerSource, Server, Started,
};
