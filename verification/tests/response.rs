use pyo3::types::PyDict;
use pyo3::{IntoPy, Py, PyAny, Python};
use robyn::{
    Body, DispatchError, HttpReply, Response, ResponseError, STATIC_FILE, TEXT,
};
use serde_json::Value;

fn evaluate(expression: &str) -> Py<PyAny> {
    Python::with_gil(|py| py.eval(expression, None, None).unwrap().into_py(py))
}

fn body_bytes(reply: &HttpReply) -> Vec<u8> {
    match &reply.body {
        Body::Bytes(bytes) => bytes.clone(),
        Body::File(_) => panic!("the reply carries bytes"),
    }
}

#[test]
fn tags_are_distinct() {
    assert_eq!(TEXT, 1);
    assert_eq!(STATIC_FILE, 2);
    assert_ne!(TEXT, STATIC_FILE);
}

#[test]
fn new_response_has_no_payload() {
    let response = Response::new(TEXT, "hello".to_string());
    assert_eq!(response.response_type, TEXT);
    assert_eq!(response.meta, "hello");
    assert!(response.json.is_none());
}

#[test]
fn plain_text_renders_its_metadata() {
    let reply = Response::new(TEXT, "h\u{e9}llo".to_string()).make_response().unwrap();
    assert_eq!(reply.status, 200);
    assert_eq!(body_bytes(&reply), vec![b'h', 0xc3, 0xa9, b'l', b'l', b'o']);
    assert_eq!(
        reply.headers,
        vec![("content-type".to_string(), "text/plain; charset=utf-8".to_string())]
    );
}

#[test]
fn unknown_tag_renders_as_plain_text() {
    for tag in [0u16, 3, 404, u16::MAX] {
        let reply = Response::new(tag, "x".to_string()).make_response().unwrap();
        assert_eq!(reply.status, 200);
        assert_eq!(body_bytes(&reply), b"x".to_vec());
    }
}

#[test]
fn empty_text_renders_an_empty_body() {
    let reply = Response::new(TEXT, String::new()).make_response().unwrap();
    assert_eq!(reply.status, 200);
    assert!(body_bytes(&reply).is_empty());
}

#[test]
fn static_file_names_its_path() {
    let reply = Response::new(STATIC_FILE, "./index.html".to_string()).make_response().unwrap();
    assert_eq!(reply.status, 200);
    assert!(reply.headers.is_empty());
    assert!(matches!(&reply.body, Body::File(path) if path == "./index.html"));
}

#[test]
fn python_value_becomes_the_payload() {
    let response = Response::newjson(TEXT, 0, evaluate("{'a': 1, 'b': [True, None, 'x']}")).unwrap();
    assert_eq!(response.response_type, TEXT);
    assert_eq!(response.meta, "JSON");
    let expected: Value = serde_json::from_str("{\"a\":1,\"b\":[true,null,\"x\"]}").unwrap();
    assert_eq!(response.json, Some(expected));
}

#[test]
fn payload_renders_as_json() {
    let response = Response::newjson(TEXT, 0, evaluate("{'b': 'two', 'a': 1}")).unwrap();
    let reply = response.make_response().unwrap();
    assert_eq!(reply.status, 200);
    assert_eq!(body_bytes(&reply), b"{\"a\":1,\"b\":\"two\"}".to_vec());
    assert_eq!(
        reply.headers,
        vec![("content-type".to_string(), "application/json".to_string())]
    );
}

#[test]
fn payload_wins_over_static_file() {
    let response = Response::newjson(STATIC_FILE, 0, evaluate("[1, 2]")).unwrap();
    assert_eq!(response.response_type, STATIC_FILE);
    let reply = response.make_response().unwrap();
    assert_eq!(body_bytes(&reply), b"[1,2]".to_vec());
    assert_eq!(reply.header("content-type"), Some("application/json".to_string()));
    let by_hand = Response {
        response_type: STATIC_FILE,
        meta: "./index.html".to_string(),
        json: Some(Value::Bool(true)),
    };
    let reply = by_hand.make_response().unwrap();
    assert_eq!(body_bytes(&reply), b"true".to_vec());
    assert_eq!(reply.header("content-type"), Some("application/json".to_string()));
}

#[test]
fn value_without_json_form_is_refused() {
    let made = Response::newjson(TEXT, 0, evaluate("object()"));
    assert!(matches!(made, Err(ResponseError::CannotParseJson)));
    let made = Response::newjson(TEXT, 0, evaluate("{1, 2}"));
    assert!(matches!(made, Err(ResponseError::CannotParseJson)));
}

#[test]
fn conversion_outcome_decides_the_response() {
    let made = Response::from_json(7, Ok(Value::Null)).unwrap();
    assert_eq!(made.response_type, 7);
    assert_eq!(made.meta, "JSON");
    assert_eq!(made.json, Some(Value::Null));
    let failure = Python::with_gil(|py| {
        let scope = PyDict::new(py);
        pythonize::depythonize::<Value>(scope.get_item("k").unwrap().unwrap_or(py.eval("object()", None, None).unwrap()))
            .unwrap_err()
    });
    assert!(matches!(Response::from_json(7, Err(failure)), Err(ResponseError::CannotParseJson)));
}

#[test]
fn conversion_failure_has_a_message() {
    assert_eq!(ResponseError::CannotParseJson.message(), "Cannot parse json");
}

#[test]
fn written_payload_decides_the_reply() {
    let reply = Response::render_json(Ok(b"{}".to_vec())).unwrap();
    assert_eq!(reply.status, 200);
    assert_eq!(body_bytes(&reply), b"{}".to_vec());
    assert_eq!(reply.header("content-type"), Some("application/json".to_string()));
    let failure = serde_json::from_str::<Value>("{").unwrap_err();
    assert!(matches!(Response::render_json(Err(failure)), Err(DispatchError::RenderError)));
}

#[test]
fn failures_have_their_status() {
    assert_eq!(DispatchError::RouteNotFound.status(), 404);
    assert_eq!(DispatchError::BodyTooLarge.status(), 500);
    assert_eq!(DispatchError::InvocationError.status(), 500);
    assert_eq!(DispatchError::RenderError.status(), 500);
    assert_eq!(DispatchError::ReadFailed.status(), 500);
}

#[test]
fn later_header_replaces_earlier() {
    let mut reply = HttpReply::new(204, Body::Bytes(Vec::new()));
    assert_eq!(reply.status, 204);
    assert!(reply.headers.is_empty());
    assert_eq!(reply.header("a"), None);
    reply.insert_header("a".to_string(), "1".to_string());
    reply.insert_header("b".to_string(), "2".to_string());
    reply.insert_header("a".to_string(), "3".to_string());
    assert_eq!(reply.header("a"), Some("3".to_string()));
    assert_eq!(reply.header("b"), Some("2".to_string()));
    assert_eq!(reply.header("A"), Some("3".to_string()));
    assert_eq!(reply.header(""), None);
    assert_eq!(reply.headers.len(), 3);
    reply.insert_header("B".to_string(), "4".to_string());
    assert_eq!(reply.header("b"), Some("4".to_string()));
    assert_eq!(reply.header("B"), Some("4".to_string()));
    reply.insert_header("\u{c9}".to_string(), "5".to_string());
    assert_eq!(reply.header("\u{c9}"), Some("5".to_string()));
    assert_eq!(reply.header("\u{e9}"), None);
    assert_eq!(reply.headers.len(), 5);
}

#[test]
fn listed_headers_are_set_in_order() {
    let mut reply = HttpReply::new(200, Body::Bytes(Vec::new()));
    reply.insert_header("a".to_string(), "0".to_string());
    let list = vec![
        ("b".to_string(), "1".to_string()),
        ("a".to_string(), "2".to_string()),
        ("b".to_string(), "3".to_string()),
    ];
    reply.insert_headers(&list);
    assert_eq!(reply.headers.len(), 4);
    assert_eq!(reply.headers[0], ("a".to_string(), "0".to_string()));
    assert_eq!(reply.headers[1..], list[..]);
    assert_eq!(reply.header("a"), Some("2".to_string()));
    assert_eq!(reply.header("b"), Some("3".to_string()));
    reply.insert_headers(&Vec::new());
    assert_eq!(reply.headers.len(), 4);
}

#[test]
fn every_payload_renders() {
    for source in ["null", "1.5", "-3", "\"text\"", "[]", "{}", "[[[]]]", "{\"k\":{\"k\":[1,\"2\",null]}}"] {
        let document: Value = serde_json::from_str(source).unwrap();
        let response = Response { response_type: TEXT, meta: String::new(), json: Some(document) };
        let reply = response.make_response().unwrap();
        assert_eq!(body_bytes(&reply), source.as_bytes().to_vec());
    }
}
