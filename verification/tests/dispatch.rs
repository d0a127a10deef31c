use pyo3::types::PyDict;
use pyo3::{IntoPy, Py, PyAny, PyErr, Python};
use robyn::{
    apply_headers, conclude, extend_body, handle_request, invoke, invoked, Action, Body, Dispatch,
    DispatchError, Event, HttpReply, Invoked, Method, PyFunction, Response, Server, MAX_SIZE, TEXT,
};

/// Runs `code` and hands out what it binds to `name`, with the dictionary it ran in.
fn define(code: &str, name: &str) -> (Py<PyAny>, Py<PyDict>) {
    Python::with_gil(|py| {
        let scope = PyDict::new(py);
        py.run(code, Some(scope), None).unwrap();
        let made: Py<PyAny> = scope.get_item(name).unwrap().unwrap().into_py(py);
        (made, scope.into_py(py))
    })
}

fn count(scope: &Py<PyDict>, name: &str) -> usize {
    Python::with_gil(|py| scope.as_ref(py).get_item(name).unwrap().unwrap().len().unwrap())
}

fn counting_handler() -> (Py<PyAny>, Py<PyDict>) {
    define("calls = []\ndef handler(*args):\n    calls.append(args)\n    return 'seen'\n", "handler")
}

fn echo_handler() -> Py<PyAny> {
    define("def handler(*args):\n    return list(args)\n", "handler").0
}

/// Performs the call that `action` asks for and hands out what a blocking
/// handler returned, read as a list of byte strings.
fn perform(action: Action) -> Vec<Vec<u8>> {
    match action {
        Action::Call { function, data } => match invoke(&function, data) {
            Ok(Invoked::Returned(object)) => Python::with_gil(|py| object.extract(py).unwrap()),
            _ => panic!("the handler's return value was expected"),
        },
        _ => panic!("the call of the handler was expected"),
    }
}

#[test]
fn bound_is_ten_thousand_bytes() {
    assert_eq!(MAX_SIZE, 10_000);
}

#[test]
fn body_of_exactly_the_bound_is_taken() {
    let mut body = vec![1u8; 4_000];
    assert_eq!(extend_body(&mut body, &vec![2u8; 6_000]), Ok(()));
    assert_eq!(body.len(), 10_000);
    assert_eq!(body[3_999], 1);
    assert_eq!(body[4_000], 2);
    assert_eq!(extend_body(&mut body, &[]), Ok(()));
    assert_eq!(body.len(), 10_000);
}

#[test]
fn body_over_the_bound_is_refused_and_kept() {
    let mut body = vec![1u8; 4_000];
    assert_eq!(extend_body(&mut body, &vec![2u8; 6_001]), Err(DispatchError::BodyTooLarge));
    assert_eq!(body, vec![1u8; 4_000]);
    let mut full = vec![0u8; 10_000];
    assert_eq!(extend_body(&mut full, &[7]), Err(DispatchError::BodyTooLarge));
    assert_eq!(full.len(), 10_000);
    let mut empty = Vec::new();
    assert_eq!(extend_body(&mut empty, &vec![0u8; 10_001]), Err(DispatchError::BodyTooLarge));
    assert!(empty.is_empty());
}

#[test]
fn post_body_of_the_bound_reaches_the_handler() {
    let function = PyFunction::new(echo_handler(), false);
    let state = Dispatch::Matched { function, method: Method::Post };
    let (state, action) = handle_request(state, Event::Start);
    assert!(matches!(action, Action::ReadBody));
    let (state, action) = handle_request(state, Event::Chunk(vec![1u8; 9_999]));
    assert!(matches!(action, Action::ReadBody));
    let (state, action) = handle_request(state, Event::Chunk(vec![2u8]));
    assert!(matches!(action, Action::ReadBody));
    match &state {
        Dispatch::Reading { body, .. } => assert_eq!(body.len(), 10_000),
        _ => panic!("the body is still being read"),
    }
    let (state, action) = handle_request(state, Event::EndOfBody);
    assert!(matches!(state, Dispatch::Invoked));
    let arguments = perform(action);
    assert_eq!(arguments.len(), 1);
    assert_eq!(arguments[0].len(), 10_000);
    assert_eq!(arguments[0][9_998], 1);
    assert_eq!(arguments[0][9_999], 2);
}

#[test]
fn post_body_over_the_bound_never_reaches_the_handler() {
    let (handler, scope) = counting_handler();
    let function = PyFunction::new(handler, false);
    let state = Dispatch::Matched { function, method: Method::Post };
    let (state, _) = handle_request(state, Event::Start);
    let (state, action) = handle_request(state, Event::Chunk(vec![0u8; 10_000]));
    assert!(matches!(action, Action::ReadBody));
    let (state, action) = handle_request(state, Event::Chunk(vec![0u8; 1]));
    assert!(matches!(action, Action::Finish(Err(DispatchError::BodyTooLarge))));
    assert!(matches!(state, Dispatch::Done));
    let (state, action) = handle_request(state, Event::EndOfBody);
    assert!(matches!(action, Action::Finish(Err(DispatchError::InvocationError))));
    assert!(matches!(state, Dispatch::Done));
    assert_eq!(count(&scope, "calls"), 0);
}

#[test]
fn single_chunk_over_the_bound_fails_at_once() {
    let (handler, scope) = counting_handler();
    let state = Dispatch::Reading { function: PyFunction::new(handler, true), body: Vec::new() };
    let (state, action) = handle_request(state, Event::Chunk(vec![0u8; 20_000]));
    assert!(matches!(action, Action::Finish(Err(DispatchError::BodyTooLarge))));
    assert!(matches!(state, Dispatch::Done));
    assert_eq!(count(&scope, "calls"), 0);
}

#[test]
fn empty_post_body_is_still_an_argument() {
    let function = PyFunction::new(echo_handler(), false);
    let state = Dispatch::Matched { function, method: Method::Post };
    let (state, _) = handle_request(state, Event::Start);
    let (_, action) = handle_request(state, Event::EndOfBody);
    assert!(matches!(&action, Action::Call { data: Some(body), .. } if body.is_empty()));
    assert_eq!(perform(action), vec![Vec::<u8>::new()]);
}

#[test]
fn other_methods_call_the_handler_without_argument() {
    for method in [Method::Get, Method::Put, Method::Delete, Method::Patch] {
        let (handler, scope) = counting_handler();
        let state = Dispatch::Matched { function: PyFunction::new(handler.clone(), false), method };
        let (state, action) = handle_request(state, Event::Start);
        assert!(matches!(state, Dispatch::Invoked));
        let (function, data) = match action {
            Action::Call { function, data } => (function, data),
            _ => panic!("the handler is to be called"),
        };
        assert!(data.is_none());
        assert!(matches!(&function, PyFunction::SyncFunction(held) if held.is(&handler)));
        assert_eq!(count(&scope, "calls"), 0);
        match invoke(&function, data) {
            Ok(Invoked::Returned(object)) => {
                let text: String = Python::with_gil(|py| object.extract(py).unwrap());
                assert_eq!(text, "seen");
            }
            _ => panic!("a blocking handler returns its value"),
        }
        assert_eq!(count(&scope, "calls"), 1);
        let empty: bool = Python::with_gil(|py| {
            let calls = scope.as_ref(py).get_item("calls").unwrap().unwrap();
            calls.get_item(0).unwrap().len().unwrap() == 0
        });
        assert!(empty);
    }
}

#[test]
fn blocking_handler_returns_its_value() {
    let function = PyFunction::new(echo_handler(), false);
    match invoke(&function, Some(vec![104, 105])) {
        Ok(Invoked::Returned(object)) => {
            let seen: Vec<Vec<u8>> = Python::with_gil(|py| object.extract(py).unwrap());
            assert_eq!(seen, vec![vec![104u8, 105]]);
        }
        _ => panic!("a blocking handler returns its value"),
    }
    match invoke(&function, None) {
        Ok(Invoked::Returned(object)) => {
            let seen: Vec<Vec<u8>> = Python::with_gil(|py| object.extract(py).unwrap());
            assert!(seen.is_empty());
        }
        _ => panic!("a blocking handler returns its value"),
    }
}

#[test]
fn suspending_handler_returns_an_awaitable() {
    let (handler, scope) = define(
        "import inspect\nasync def handler(*args):\n    return args\n",
        "handler",
    );
    let function = PyFunction::new(handler, true);
    for data in [None, Some(vec![1u8, 2, 3])] {
        match invoke(&function, data) {
            Ok(Invoked::Pending(object)) => Python::with_gil(|py| {
                let inspect = scope.as_ref(py).get_item("inspect").unwrap().unwrap();
                let awaitable = inspect.call_method1("iscoroutine", (object.as_ref(py),)).unwrap();
                assert!(awaitable.extract::<bool>().unwrap());
                object.call_method0(py, "close").unwrap();
            }),
            _ => panic!("a suspending handler returns an awaitable"),
        }
    }
}

#[test]
fn raising_handler_is_an_invocation_error() {
    let handler = define("def handler(*args):\n    raise ValueError('no')\n", "handler").0;
    for is_async in [false, true] {
        let function = PyFunction::new(handler.clone(), is_async);
        assert!(matches!(invoke(&function, None), Err(DispatchError::InvocationError)));
        assert!(matches!(invoke(&function, Some(vec![1])), Err(DispatchError::InvocationError)));
    }
}

#[test]
fn handler_that_takes_no_body_fails_on_post() {
    let handler = define("def handler():\n    return 'x'\n", "handler").0;
    let state = Dispatch::Reading { function: PyFunction::new(handler, false), body: vec![1] };
    let (state, action) = handle_request(state, Event::EndOfBody);
    assert!(matches!(state, Dispatch::Invoked));
    match action {
        Action::Call { function, data } => {
            assert_eq!(data, Some(vec![1]));
            assert!(matches!(invoke(&function, data), Err(DispatchError::InvocationError)));
        }
        _ => panic!("the handler is to be called"),
    }
    let (state, action) = handle_request(state, Event::Failed);
    assert!(matches!(state, Dispatch::Done));
    assert!(matches!(action, Action::Finish(Err(DispatchError::InvocationError))));
}

#[test]
fn not_callable_is_an_invocation_error() {
    let handler: Py<PyAny> = Python::with_gil(|py| 5u32.into_py(py));
    let function = PyFunction::new(handler, false);
    assert!(matches!(invoke(&function, None), Err(DispatchError::InvocationError)));
}

#[test]
fn outcome_of_a_call_decides_what_came_back() {
    let object: Py<PyAny> = Python::with_gil(|py| 7u32.into_py(py));
    let blocking = PyFunction::new(echo_handler(), false);
    let suspending = PyFunction::new(echo_handler(), true);
    match invoked(&blocking, Ok(object.clone())) {
        Ok(Invoked::Returned(held)) => assert!(held.is(&object)),
        _ => panic!("a blocking handler's value is its return value"),
    }
    match invoked(&suspending, Ok(object.clone())) {
        Ok(Invoked::Pending(held)) => assert!(held.is(&object)),
        _ => panic!("a suspending handler's value is its awaitable"),
    }
    for function in [&blocking, &suspending] {
        let error: PyErr = pyo3::exceptions::PyValueError::new_err("no");
        assert!(matches!(invoked(function, Err(error)), Err(DispatchError::InvocationError)));
    }
}

#[test]
fn returned_response_is_rendered() {
    let response = Response::new(TEXT, "hi".to_string());
    let (state, action) = handle_request(Dispatch::Invoked, Event::Returned(response));
    assert!(matches!(state, Dispatch::Done));
    match action {
        Action::Finish(Ok(reply)) => {
            assert_eq!(reply.status, 200);
            assert_eq!(reply.header("content-type"), Some("text/plain; charset=utf-8".to_string()));
            assert!(matches!(&reply.body, Body::Bytes(bytes) if bytes.as_slice() == b"hi"));
        }
        _ => panic!("the response renders"),
    }
}

#[test]
fn header_set_wins_over_the_response() {
    let mut server = Server::new();
    server.add_header("content-type", "text/html");
    server.add_header("server", "robyn");
    let response = Response::new(TEXT, "<p>hi</p>".to_string());
    let (_, action) = handle_request(Dispatch::Invoked, Event::Returned(response));
    match action {
        Action::Finish(outcome) => {
            let reply = conclude(outcome, server.headers());
            assert_eq!(reply.status, 200);
            assert_eq!(reply.header("content-type"), Some("text/html".to_string()));
            assert_eq!(reply.header("server"), Some("robyn".to_string()));
            assert_eq!(reply.header("Server"), Some("robyn".to_string()));
            assert_eq!(reply.header("Content-Type"), Some("text/html".to_string()));
            assert_eq!(reply.header("servers"), None);
            assert!(matches!(&reply.body, Body::Bytes(bytes) if bytes.as_slice() == b"<p>hi</p>"));
        }
        _ => panic!("the response renders"),
    }
}

#[test]
fn failed_conversion_is_an_invocation_error() {
    let (state, action) = handle_request(Dispatch::Invoked, Event::Failed);
    assert!(matches!(state, Dispatch::Done));
    assert!(matches!(action, Action::Finish(Err(DispatchError::InvocationError))));
}

#[test]
fn unreadable_body_ends_the_dispatch_before_the_call() {
    let (handler, scope) = counting_handler();
    let state = Dispatch::Reading { function: PyFunction::new(handler, false), body: vec![1, 2] };
    let (state, action) = handle_request(state, Event::ReadFailed);
    assert!(matches!(state, Dispatch::Done));
    assert!(matches!(action, Action::Finish(Err(DispatchError::ReadFailed))));
    assert_eq!(count(&scope, "calls"), 0);
}

#[test]
fn event_out_of_turn_ends_the_dispatch() {
    let (handler, scope) = counting_handler();
    let states = [
        (Dispatch::Matched { function: PyFunction::new(handler.clone(), false), method: Method::Get }, Event::EndOfBody),
        (Dispatch::Matched { function: PyFunction::new(handler.clone(), false), method: Method::Post }, Event::Chunk(vec![1])),
        (Dispatch::Reading { function: PyFunction::new(handler.clone(), false), body: Vec::new() }, Event::Start),
        (Dispatch::Reading { function: PyFunction::new(handler.clone(), false), body: Vec::new() }, Event::Failed),
        (Dispatch::Invoked, Event::Start),
        (Dispatch::Invoked, Event::Chunk(vec![1])),
        (Dispatch::Invoked, Event::ReadFailed),
        (Dispatch::Done, Event::Start),
        (Dispatch::Done, Event::Returned(Response::new(TEXT, "late".to_string()))),
    ];
    for (state, event) in states {
        let (state, action) = handle_request(state, event);
        assert!(matches!(state, Dispatch::Done));
        assert!(matches!(action, Action::Finish(Err(DispatchError::InvocationError))));
    }
    assert_eq!(count(&scope, "calls"), 0);
}

#[test]
fn headers_are_laid_over_a_reply() {
    let mut server = Server::new();
    server.add_header("a", "1");
    server.add_header("b", "2");
    server.add_header("a", "3");
    let mut reply = HttpReply::new(201, Body::Bytes(vec![9]));
    reply.insert_header("b".to_string(), "own".to_string());
    reply.insert_header("c".to_string(), "kept".to_string());
    apply_headers(&mut reply, server.headers());
    assert_eq!(reply.status, 201);
    assert!(matches!(&reply.body, Body::Bytes(bytes) if bytes.as_slice() == [9]));
    assert_eq!(reply.header("a"), Some("3".to_string()));
    assert_eq!(reply.header("b"), Some("2".to_string()));
    assert_eq!(reply.header("c"), Some("kept".to_string()));
    assert_eq!(reply.header("d"), None);
    assert_eq!(reply.headers.len(), 4);
}

#[test]
fn empty_header_set_changes_nothing() {
    let server = Server::new();
    let mut reply = HttpReply::new(200, Body::File("a.txt".to_string()));
    reply.insert_header("x".to_string(), "y".to_string());
    apply_headers(&mut reply, server.headers());
    assert_eq!(reply.headers, vec![("x".to_string(), "y".to_string())]);
    assert!(matches!(&reply.body, Body::File(path) if path == "a.txt"));
}

#[test]
fn header_set_wins_however_its_names_are_spelled() {
    let set: dashmap::DashMap<String, String> = dashmap::DashMap::new();
    set.insert("Content-Type".to_string(), "text/html".to_string());
    set.insert("X-Powered-By".to_string(), "core".to_string());
    let mut reply = Response::new(TEXT, "hi".to_string()).make_response().unwrap();
    reply.insert_header("x-powered-BY".to_string(), "own".to_string());
    reply.insert_header("kept".to_string(), "as it is".to_string());
    apply_headers(&mut reply, &set);
    assert_eq!(reply.status, 200);
    assert_eq!(reply.header("content-type"), Some("text/html".to_string()));
    assert_eq!(reply.header("CONTENT-TYPE"), Some("text/html".to_string()));
    assert_eq!(reply.header("x-powered-by"), Some("core".to_string()));
    assert_eq!(reply.header("Kept"), Some("as it is".to_string()));
    assert_eq!(reply.headers.len(), 5);
    assert_eq!(reply.headers[0].0, "content-type");
    assert_eq!(reply.headers[1].0, "x-powered-BY");
}
