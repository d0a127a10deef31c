use pyo3::{IntoPy, Py, PyAny, Python};
use robyn::{Method, Router, Routing};

fn object(value: u32) -> Py<PyAny> {
    Python::with_gil(|py| value.into_py(py))
}

#[test]
fn odd_patterns_do_not_break_the_matcher() {
    let patterns = [
        "", "/", "//", ":", "*", "/:", "/*", "/a/*b/c", "/:a:b", "/:a/*", "/x/:a/*", "a", "a/b",
        "/a", "/a/", "/a/b", "/a/:id", "/a/:name", "/a/:id/c", "/a/*rest", "/*all", "/:x", "/:x/",
        "/:x/:y", "/:x/:y/:z", "/é", "/é/:ü", "/a:b", "/a*b", "/ab/:c", "/abc", "/ab", "/a/b/c/d",
        "/a/b/*c", "/src/*filepath", "/src/", "/src", "/user_:name", "/user_:name/about",
        "/:", "/:/", "/::", "/**", "/*/", ":a", "*a", ":a/b", "/a//b", "/a/:id/", "/a/:idx",
        "/cmd/:tool/", "/cmd/:tool/:sub", "/cmd/whoami", "/cmd/whoami/root", "/cmd/whoami/root/",
    ];
    let paths = [
        "", "/", "//", "/a", "/a/", "/a/b", "/a/x", "/a/x/c", "/a/b/c", "/a/b/c/d", "/zzz", "a",
        "/é", "/é/ö", "/src/x/y", "/src", "/src/", "/user_bob", "/user_bob/about", ":", "*", "/:",
        "/*", "/a:b", "/ab/q", "/cmd/whoami", "/cmd/x/", "/cmd/x/y", "/cmd/whoami/root/", "/x/y/z",
        "/a//b", "/a/b/", "///", "/a/:id", "/%", "/\u{1F600}/x",
    ];
    for round in 0..40usize {
        let mut router = Router::new();
        let mut count = 0u32;
        for (at, pattern) in patterns.iter().enumerate() {
            if (at * 7 + round * 13 + at * round) % 5 < 3 {
                router.add_route("GET", pattern, object(count), false);
                count += 1;
            }
        }
        for _ in 0..3 {
            let routing = Routing::new(&router);
            for path in paths.iter() {
                let found = routing.get_route(&Method::Get, path);
                if let Some(function) = found {
                    let handler = match function {
                        robyn::PyFunction::CoRoutine(handler) => handler,
                        robyn::PyFunction::SyncFunction(handler) => handler,
                    };
                    let number: u32 = Python::with_gil(|py| handler.extract(py).unwrap());
                    assert!(number < count);
                }
            }
        }
    }
}
