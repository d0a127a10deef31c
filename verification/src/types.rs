//! The values that travel between the route registry, the dispatcher and the
//! transport: handlers, handler responses, rendered replies and the header set.

use dashmap::DashMap;
use pyo3::{Py, PyAny};
use pythonize::PythonizeError;
use serde_json::Value;
use vstd::prelude::*;
use vstd::string::*;

verus! {

/// A reference-counted pointer to an object of the embedded Python runtime.
/// Two pointers are equal when they denote the same object.
#[verifier::external_type_specification]
#[verifier::external_body]
#[verifier::reject_recursive_types(T)]
pub struct ExPy<T>(Py<T>);

/// The Python type of objects of which nothing more is known.
#[verifier::external_type_specification]
#[verifier::external_body]
pub struct ExPyAny(PyAny);

/// A JSON document.
#[verifier::external_type_specification]
#[verifier::external_body]
pub struct ExValue(Value);

/// Why a Python object could not be read as a JSON document.
#[verifier::external_type_specification]
#[verifier::external_body]
pub struct ExPythonizeError(PythonizeError);

/// Why a JSON document could not be written out.
#[verifier::external_type_specification]
#[verifier::external_body]
pub struct ExJsonError(serde_json::Error);

/// A map that several threads may use at once.
#[verifier::external_type_specification]
#[verifier::external_body]
#[verifier::reject_recursive_types(K)]
#[verifier::reject_recursive_types(V)]
#[verifier::reject_recursive_types(S)]
pub struct ExDashMap<K, V, S>(DashMap<K, V, S>);

/// A registered handler: a Python callable together with the discipline under
/// which it is invoked.
pub enum PyFunction {
    /// Calling it yields an awaitable; the connection's task suspends on it.
    CoRoutine(Py<PyAny>),
    /// Calling it runs to completion on the serving thread.
    SyncFunction(Py<PyAny>),
}

impl PyFunction {
    /// `handler` as a suspending handler if `is_async`, as a blocking one otherwise.
    pub open spec fn classified(handler: Py<PyAny>, is_async: bool) -> PyFunction {
        if is_async {
            PyFunction::CoRoutine(handler)
        } else {
            PyFunction::SyncFunction(handler)
        }
    }

    /// Wraps `handler` as a suspending handler if `is_async`, as a blocking one otherwise.
    pub fn new(handler: Py<PyAny>, is_async: bool) -> (function: PyFunction)
        ensures
            function == PyFunction::classified(handler, is_async),
    {
        if is_async {
            PyFunction::CoRoutine(handler)
        } else {
            PyFunction::SyncFunction(handler)
        }
    }
}

impl Clone for PyFunction {
    /// A second handle on the same callable, under the same discipline.
    fn clone(&self) -> (copy: PyFunction)
        ensures
            copy == *self,
    {
        match self {
            PyFunction::CoRoutine(handler) => PyFunction::CoRoutine(share(handler)),
            PyFunction::SyncFunction(handler) => PyFunction::SyncFunction(share(handler)),
        }
    }
}

/// `Py::clone`: takes one more reference to the object that `handler` points
/// to. The contract claims that the new pointer denotes that same object.
#[verifier::external_body]
pub(crate) fn share(handler: &Py<PyAny>) -> (copy: Py<PyAny>)
    ensures
        copy == *handler,
{
    handler.clone()
}

/// The failures of serving one request.
#[derive(Clone, Copy, Debug, PartialEq, Eq, Structural)]
pub enum DispatchError {
    /// The accumulated request body went over `MAX_SIZE`.
    BodyTooLarge,
    /// The handler raised, or what it returned is no `Response`.
    InvocationError,
    /// The request body could not be read to its end.
    ReadFailed,
    /// The response could not be rendered.
    RenderError,
    /// No handler is registered for the request's method and path.
    RouteNotFound,
}

/// The status of a rendered response.
pub const OK: u16 = 200;

/// The status of the reply to a request that no route matches.
pub const NOT_FOUND: u16 = 404;

/// The status of the reply to a request whose dispatch failed.
pub const INTERNAL_SERVER_ERROR: u16 = 500;

impl DispatchError {
    /// The status that a failure is reported with: not found for a missing
    /// route, a server error for everything else.
    pub open spec fn spec_status(self) -> u16 {
        if self == DispatchError::RouteNotFound {
            NOT_FOUND
        } else {
            INTERNAL_SERVER_ERROR
        }
    }

    #[verifier::when_used_as_spec(spec_status)]
    pub fn status(self) -> (code: u16)
        ensures
            code == self.spec_status(),
    {
        match self {
            DispatchError::RouteNotFound => NOT_FOUND,
            DispatchError::BodyTooLarge => INTERNAL_SERVER_ERROR,
            DispatchError::InvocationError => INTERNAL_SERVER_ERROR,
            DispatchError::ReadFailed => INTERNAL_SERVER_ERROR,
            DispatchError::RenderError => INTERNAL_SERVER_ERROR,
        }
    }
}

/// What a reply carries as its body.
pub enum Body {
    /// These bytes.
    Bytes(Vec<u8>),
    /// The contents of the file at this path, which the transport opens and streams.
    File(String),
}

/// A `Body` as mathematics.
pub enum BodyView {
    Bytes(Seq<u8>),
    File(Seq<char>),
}

impl View for Body {
    type V = BodyView;

    open spec fn view(&self) -> BodyView {
        match self {
            Body::Bytes(bytes) => BodyView::Bytes(bytes@),
            Body::File(path) => BodyView::File(path@),
        }
    }
}

/// A header field of a reply: its name and its value.
pub type Field = (Seq<char>, Seq<char>);

/// A list of header pairs as mathematics.
pub open spec fn pairs(list: Seq<(String, String)>) -> Seq<Field> {
    list.map_values(|pair: (String, String)| (pair.0@, pair.1@))
}

/// The lower-case letter of an ASCII capital, and any other character as
/// it is.
pub open spec fn lower(letter: char) -> char {
    if 'A' <= letter && letter <= 'Z' {
        ((letter as u8 + 32) as u8) as char
    } else {
        letter
    }
}

/// A header name as it is compared with other names: with its ASCII
/// capitals in lower case. Two names that differ in nothing else name the
/// same field.
pub open spec fn folded(name: Seq<char>) -> Seq<char> {
    name.map_values(|letter: char| lower(letter))
}

/// A name that is folded stays as it is when it is folded again.
pub proof fn lemma_folded_twice(name: Seq<char>)
    ensures
        folded(folded(name)) == folded(name),
{
    assert(folded(folded(name)) =~= folded(name));
}

/// `str::to_ascii_lowercase`: a copy of the text in which each ASCII capital
/// is replaced by its lower-case letter and every other character is kept.
#[verifier::external_body]
pub(crate) fn fold_name(name: &str) -> (lowered: String)
    ensures
        lowered@ == folded(name@),
{
    name.to_ascii_lowercase()
}

/// The header fields that a list of pairs amounts to, by folded name. A
/// later pair replaces an earlier one that names the same field.
pub open spec fn fields(list: Seq<Field>) -> Map<Seq<char>, Seq<char>>
    decreases list.len(),
{
    if list.len() == 0 {
        Map::empty()
    } else {
        fields(list.drop_last()).insert(folded(list.last().0), list.last().1)
    }
}

/// The fields of a reply, or of a header set, that has none.
pub open spec fn no_fields() -> Map<Seq<char>, Seq<char>> {
    Map::empty()
}

/// The pair at `at` decides its field if no later pair names that field.
pub proof fn lemma_fields_last_wins(list: Seq<Field>, at: int)
    requires
        0 <= at < list.len(),
        forall|later: int|
            at < later < list.len() ==> folded((#[trigger] list[later]).0) != folded(list[at].0),
    ensures
        fields(list).contains_key(folded(list[at].0)),
        fields(list)[folded(list[at].0)] == list[at].1,
    decreases list.len(),
{
    if at < list.len() - 1 {
        assert(list.drop_last()[at] == list[at]);
        assert forall|later: int| at < later < list.drop_last().len() implies folded(
            (#[trigger] list.drop_last()[later]).0,
        ) != folded(list.drop_last()[at].0) by {
            assert(list.drop_last()[later] == list[later]);
        }
        lemma_fields_last_wins(list.drop_last(), at);
        assert(folded(list[list.len() - 1].0) != folded(list[at].0));
    }
}

/// Whether some pair of the list names the field `name`.
pub open spec fn names(list: Seq<Field>, name: Seq<char>) -> bool {
    exists|at: int| 0 <= at < list.len() && folded((#[trigger] list[at]).0) == name
}

/// Whether some pair of the list names the field `name` and gives it `value`.
pub open spec fn gives(list: Seq<Field>, name: Seq<char>, value: Seq<char>) -> bool {
    exists|at: int|
        0 <= at < list.len() && folded((#[trigger] list[at]).0) == name && list[at].1 == value
}

/// A name is a field exactly if some pair names it, and then the field's
/// value is that of some pair that names it.
pub proof fn lemma_fields_named(list: Seq<Field>, name: Seq<char>)
    ensures
        fields(list).contains_key(name) <==> names(list, name),
        fields(list).contains_key(name) ==> gives(list, name, fields(list)[name]),
    decreases list.len(),
{
    if list.len() > 0 {
        let rest = list.drop_last();
        let end = list.len() - 1;
        lemma_fields_named(rest, name);
        if folded(list.last().0) == name {
            assert(folded(list[end].0) == name && list[end].1 == fields(list)[name]);
        } else if fields(rest).contains_key(name) {
            let at = choose|at: int|
                0 <= at < rest.len() && folded((#[trigger] rest[at]).0) == name && rest[at].1
                    == fields(rest)[name];
            assert(list[at] == rest[at]);
        } else {
            assert forall|at: int| 0 <= at < list.len() implies folded((#[trigger] list[at]).0)
                != name by {
                if at < rest.len() {
                    assert(rest[at] == list[at]);
                }
            }
        }
        if names(rest, name) {
            let at = choose|at: int| 0 <= at < rest.len() && folded((#[trigger] rest[at]).0) == name;
            assert(list[at] == rest[at]);
        }
    }
}

/// A name that no pair names is no field.
pub proof fn lemma_fields_absent(list: Seq<Field>, name: Seq<char>)
    requires
        forall|at: int| 0 <= at < list.len() ==> folded((#[trigger] list[at]).0) != name,
    ensures
        !fields(list).contains_key(name),
{
    lemma_fields_named(list, name);
}

/// Whether a header set names the field `name`: whether one of its names
/// folds to it.
pub open spec fn covers(set: Map<Seq<char>, Seq<char>>, name: Seq<char>) -> bool {
    exists|key: Seq<char>| #[trigger] set.contains_key(key) && folded(key) == name
}

/// Whether a header set names the field `name` and gives it `value`.
pub open spec fn sets(set: Map<Seq<char>, Seq<char>>, name: Seq<char>, value: Seq<char>) -> bool {
    exists|key: Seq<char>| #[trigger] set.contains_key(key) && folded(key) == name && set[key] == value
}

/// Whether every name of a header set is folded, so that no two of them
/// name the same field.
pub open spec fn all_folded(set: Map<Seq<char>, Seq<char>>) -> bool {
    forall|key: Seq<char>| #[trigger] set.contains_key(key) ==> folded(key) == key
}

/// A list that holds every entry of a header set, and nothing else, names
/// the fields that the set names, and gives each of them a value that the
/// set gives it, in whatever order it holds the entries.
pub proof fn lemma_fields_of_listing(
    list: Seq<Field>,
    set: Map<Seq<char>, Seq<char>>,
    name: Seq<char>,
)
    requires
        forall|at: int|
            0 <= at < list.len() ==> set.contains_pair((#[trigger] list[at]).0, list[at].1),
        forall|key: Seq<char>| #[trigger]
            set.contains_key(key) ==> exists|at: int|
                0 <= at < list.len() && (#[trigger] list[at]).0 == key,
    ensures
        fields(list).contains_key(name) <==> covers(set, name),
        fields(list).contains_key(name) ==> sets(set, name, fields(list)[name]),
{
    lemma_fields_named(list, name);
    if fields(list).contains_key(name) {
        let at = choose|at: int|
            0 <= at < list.len() && folded((#[trigger] list[at]).0) == name && list[at].1
                == fields(list)[name];
        assert(set.contains_pair(list[at].0, list[at].1));
        assert(set.contains_key(list[at].0));
    }
    if covers(set, name) {
        let key = choose|key: Seq<char>| #[trigger] set.contains_key(key) && folded(key) == name;
        let at = choose|at: int| 0 <= at < list.len() && (#[trigger] list[at]).0 == key;
        assert(folded(list[at].0) == name);
    }
}

/// Laying `over` behind `under` gives the fields of `under`, replaced and
/// extended by those of `over`.
pub proof fn lemma_fields_concat(under: Seq<Field>, over: Seq<Field>)
    ensures
        fields(under + over) == fields(under).union_prefer_right(fields(over)),
    decreases over.len(),
{
    if over.len() == 0 {
        assert(under + over =~= under);
        assert(fields(under).union_prefer_right(fields(over)) =~= fields(under));
    } else {
        lemma_fields_concat(under, over.drop_last());
        assert((under + over).drop_last() =~= under + over.drop_last());
        assert((under + over).last() == over.last());
        assert(fields(under + over) =~= fields(under).union_prefer_right(fields(over)));
    }
}

/// A reply as mathematics.
pub struct ReplyView {
    pub status: u16,
    pub headers: Seq<Field>,
    pub body: BodyView,
}

impl ReplyView {
    /// The header fields of the reply, by folded name.
    pub open spec fn header_map(self) -> Map<Seq<char>, Seq<char>> {
        fields(self.headers)
    }

    /// Whether the field `name` of the reply is what laying the header set
    /// `set` over `under` makes it: a field that the set names has a value
    /// that the set gives it, and any other field is as it is in `under`.
    pub open spec fn overlays_at(
        self,
        under: ReplyView,
        set: Map<Seq<char>, Seq<char>>,
        name: Seq<char>,
    ) -> bool {
        if covers(set, name) {
            self.header_map().contains_key(name) && sets(set, name, self.header_map()[name])
        } else {
            &&& self.header_map().contains_key(name) == under.header_map().contains_key(name)
            &&& self.header_map().contains_key(name) ==> self.header_map()[name]
                == under.header_map()[name]
        }
    }

    /// Whether the reply is `under` with the header set `set` laid over it:
    /// status and body are those of `under`, and so is every field that the
    /// set does not name; every field that the set names has the set's
    /// value, whatever `under` has for it. Names are compared folded. Where
    /// two names of the set name one field, either may give it its value.
    pub open spec fn overlays(self, under: ReplyView, set: Map<Seq<char>, Seq<char>>) -> bool {
        &&& self.status == under.status
        &&& self.body == under.body
        &&& forall|name: Seq<char>| #[trigger] self.overlays_at(under, set, name)
    }
}

/// Over a header set whose names are all folded, the overlay is exact: the
/// fields of the reply are those of what it is laid over, replaced and
/// extended by the entries of the set.
pub proof fn lemma_overlay_of_folded_set(
    reply: ReplyView,
    under: ReplyView,
    set: Map<Seq<char>, Seq<char>>,
)
    requires
        reply.overlays(under, set),
        all_folded(set),
    ensures
        reply.header_map() == under.header_map().union_prefer_right(set),
{
    let laid = under.header_map().union_prefer_right(set);
    assert forall|name: Seq<char>|
        reply.header_map().contains_key(name) == #[trigger] laid.contains_key(name) && (
        laid.contains_key(name) ==> reply.header_map()[name] == laid[name]) by {
        assert(reply.overlays_at(under, set, name));
        if set.contains_key(name) {
            assert(covers(set, name));
            let key = choose|key: Seq<char>| #[trigger]
                set.contains_key(key) && folded(key) == name && set[key]
                    == reply.header_map()[name];
            assert(key == name);
        } else if covers(set, name) {
            let key = choose|key: Seq<char>| #[trigger] set.contains_key(key) && folded(key) == name;
            assert(key == name);
        }
    }
    assert(reply.header_map() =~= laid);
}

/// A response as it goes onto the wire: the transport writes the status, the
/// header pairs in order (a later pair replacing an earlier one that names
/// the same field), and the body.
pub struct HttpReply {
    pub status: u16,
    pub headers: Vec<(String, String)>,
    pub body: Body,
}

impl View for HttpReply {
    type V = ReplyView;

    open spec fn view(&self) -> ReplyView {
        ReplyView { status: self.status, headers: pairs(self.headers@), body: self.body@ }
    }
}

impl HttpReply {
    /// The header fields of the reply.
    pub open spec fn header_map(&self) -> Map<Seq<char>, Seq<char>> {
        self@.header_map()
    }

    /// A reply with the given status and body and no header field.
    pub fn new(status: u16, body: Body) -> (reply: HttpReply)
        ensures
            reply@ == (ReplyView { status, headers: Seq::empty(), body: body@ }),
    {
        let reply = HttpReply { status, headers: Vec::new(), body };
        assert(reply@.headers =~= Seq::empty());
        reply
    }

    /// Sets the field that `name` names to `value`, replacing the value it
    /// had under whatever spelling of the name.
    pub fn insert_header(&mut self, name: String, value: String)
        ensures
            final(self)@ == (ReplyView {
                headers: old(self)@.headers.push((name@, value@)),
                ..old(self)@
            }),
            final(self).header_map() == old(self).header_map().insert(folded(name@), value@),
    {
        let ghost before = self@.headers;
        self.headers.push((name, value));
        assert(self@.headers =~= before.push((name@, value@)));
        assert(self@.headers.drop_last() =~= before);
    }

    /// Sets each field of `list`, in the order of the list.
    pub fn insert_headers(&mut self, list: &Vec<(String, String)>)
        ensures
            final(self)@ == (ReplyView {
                headers: old(self)@.headers + pairs(list@),
                ..old(self)@
            }),
            final(self).header_map() == old(self).header_map().union_prefer_right(
                fields(pairs(list@)),
            ),
    {
        let ghost under = self@;
        let mut at: usize = 0;
        while at < list.len()
            invariant
                at <= list@.len(),
                self@ == (ReplyView {
                    headers: under.headers + pairs(list@).take(at as int),
                    ..under
                }),
            decreases list@.len() - at,
        {
            let name = list[at].0.clone();
            let value = list[at].1.clone();
            self.insert_header(name, value);
            assert(pairs(list@).take(at + 1) =~= pairs(list@).take(at as int).push(
                (name@, value@),
            ));
            assert(under.headers + pairs(list@).take(at + 1) =~= (under.headers + pairs(
                list@,
            ).take(at as int)).push((name@, value@)));
            at = at + 1;
        }
        proof {
            assert(pairs(list@).take(at as int) =~= pairs(list@));
            lemma_fields_concat(under.headers, pairs(list@));
        }
    }

    /// The value of the field that `name` names, if the reply has that
    /// field. Names are compared folded.
    pub fn header(&self, name: &str) -> (value: Option<String>)
        ensures
            match value {
                Some(text) => self.header_map().contains_key(folded(name@))
                    && self.header_map()[folded(name@)] == text@,
                None => !self.header_map().contains_key(folded(name@)),
            },
    {
        let wanted = fold_name(name);
        let mut at: usize = self.headers.len();
        while at > 0
            invariant
                at <= self@.headers.len(),
                self@.headers.len() == self.headers@.len(),
                wanted@ == folded(name@),
                forall|later: int|
                    at <= later < self@.headers.len() ==> folded(
                        (#[trigger] self@.headers[later]).0,
                    ) != folded(name@),
            decreases at,
        {
            at = at - 1;
            assert(self@.headers[at as int] == (
                self.headers@[at as int].0@,
                self.headers@[at as int].1@,
            ));
            if fold_name(self.headers[at].0.as_str()) == wanted {
                proof {
                    lemma_fields_last_wins(self@.headers, at as int);
                }
                return Some(self.headers[at].1.clone());
            }
        }
        proof {
            lemma_fields_absent(self@.headers, folded(name@));
        }
        None
    }
}

/// The response headers that the server adds to every reply, by name. The
/// contracts on a header set hold of a set that is changed through an
/// exclusive borrow only.
pub type Headers = DashMap<String, String>;

/// The entries of a header set: the value that each name has.
pub uninterp spec fn header_entries(headers: DashMap<String, String>) -> Map<Seq<char>, Seq<char>>;

/// `DashMap::new`: a header set without entries.
#[verifier::external_body]
pub(crate) fn new_headers() -> (set: Headers)
    ensures
        header_entries(set) == no_fields(),
{
    DashMap::new()
}

/// `DashMap::insert`: afterwards `name` has the value `value`, whether or not
/// it had one, and every other name has what it had. The exclusive borrow
/// keeps every other user of the set away for the length of the call.
#[verifier::external_body]
pub(crate) fn set_header(headers: &mut Headers, name: String, value: String)
    ensures
        header_entries(*final(headers)) == header_entries(*old(headers)).insert(name@, value@),
{
    headers.insert(name, value);
}

/// `DashMap::remove`: afterwards `name` has no value, and every other name
/// has what it had.
#[verifier::external_body]
pub(crate) fn unset_header(headers: &mut Headers, name: &str)
    ensures
        header_entries(*final(headers)) == header_entries(*old(headers)).remove(name@),
{
    headers.remove(name);
}

/// `DashMap::iter`: the entries of the set, copied out in the order in which
/// the map yields them, of which nothing is claimed. Every pair of the list
/// is an entry, and every entry's name heads some pair.
#[verifier::external_body]
pub(crate) fn list_headers(headers: &Headers) -> (list: Vec<(String, String)>)
    ensures
        forall|at: int|
            0 <= at < list@.len() ==> header_entries(*headers).contains_pair(
                #[trigger] list@[at].0@,
                list@[at].1@,
            ),
        forall|name: Seq<char>| #[trigger]
            header_entries(*headers).contains_key(name) ==> exists|at: int|
                0 <= at < list@.len() && #[trigger] list@[at].0@ == name,
{
    headers.iter().map(|entry| (entry.key().clone(), entry.value().clone())).collect()
}

/// The tag of a response whose metadata string is its body.
pub const TEXT: u16 = 1;

/// The tag of a response whose metadata string is the path of a file to send.
pub const STATIC_FILE: u16 = 2;

/// The three forms of a response.
pub enum ResponseKind {
    PlainText,
    Structured,
    StaticFile,
}

/// Why a response could not be built.
#[derive(Clone, Copy, Debug, PartialEq, Eq, Structural)]
pub enum ResponseError {
    /// The Python value has no JSON form.
    CannotParseJson,
}

impl ResponseError {
    /// The failure in words.
    pub fn message(&self) -> (text: String)
        ensures
            text@ == "Cannot parse json"@,
    {
        "Cannot parse json".to_owned()
    }
}

/// What a handler returns: a type tag, a metadata string, and a JSON payload
/// if it is a structured response.
#[derive(Debug)]
pub struct Response {
    pub response_type: u16,
    pub meta: String,
    pub json: Option<Value>,
}

/// The bytes that `serde_json::to_vec` writes a JSON document out as.
pub uninterp spec fn json_text(value: Value) -> Seq<u8>;

/// `serde_json::to_vec`: writes a JSON document out. Writing a document
/// into memory cannot fail: every part of a document has a written form, the
/// keys of its objects are strings, and the bytes go into a vector. The bytes
/// are the document's written form, which depends on the document alone.
#[verifier::external_body]
pub(crate) fn write_json(value: &Value) -> (written: Result<Vec<u8>, serde_json::Error>)
    ensures
        written is Ok,
        written matches Ok(bytes) ==> bytes@ == json_text(*value),
{
    serde_json::to_vec(value)
}

/// `pythonize::depythonize`, under the interpreter lock: reads the Python
/// object as a JSON document. Nothing is claimed of the outcome, which
/// depends on what the object holds at the time of the call. The reader
/// goes into lists and dictionaries without looking for cycles: on a
/// container that holds itself the call does not return.
#[verifier::external_body]
pub(crate) fn conv_py_to_json_string(v: &Py<PyAny>) -> Result<Value, PythonizeError> {
    pyo3::Python::with_gil(|py| pythonize::depythonize(v.as_ref(py)))
}

/// The name of the header field that says what form the body has.
pub open spec fn content_type() -> Seq<char> {
    "content-type"@
}

/// The content type of a structured response.
pub open spec fn json_type() -> Seq<char> {
    "application/json"@
}

/// The content type of a plain-text response.
pub open spec fn text_type() -> Seq<char> {
    "text/plain; charset=utf-8"@
}

/// The metadata string of every structured response.
pub open spec fn json_meta() -> Seq<char> {
    "JSON"@
}

/// The reply that carries a JSON payload written out as `written`.
pub open spec fn structured_reply(written: Seq<u8>) -> ReplyView {
    ReplyView {
        status: OK,
        headers: seq![(content_type(), json_type())],
        body: BodyView::Bytes(written),
    }
}

impl Response {
    /// Which form the response has. A JSON payload makes it structured
    /// whatever its tag says; without one, the tag `STATIC_FILE` makes it a
    /// file, and any other tag plain text.
    pub open spec fn kind(&self) -> ResponseKind {
        if self.json is Some {
            ResponseKind::Structured
        } else if self.response_type == STATIC_FILE {
            ResponseKind::StaticFile
        } else {
            ResponseKind::PlainText
        }
    }

    /// What the response renders as, before the header set is laid over it.
    pub open spec fn rendered(&self) -> ReplyView {
        match self.kind() {
            ResponseKind::Structured => structured_reply(json_text(self.json->0)),
            ResponseKind::StaticFile => ReplyView {
                status: OK,
                headers: Seq::empty(),
                body: BodyView::File(self.meta@),
            },
            ResponseKind::PlainText => ReplyView {
                status: OK,
                headers: seq![(content_type(), text_type())],
                body: BodyView::Bytes(vstd::utf8::encode_utf8(self.meta@)),
            },
        }
    }

    /// A response without a JSON payload.
    pub fn new(response_type: u16, meta: String) -> (response: Response)
        ensures
            response.response_type == response_type,
            response.meta@ == meta@,
            response.json is None,
    {
        Response { response_type, meta, json: None }
    }

    /// The structured response for a Python value that was read as `data`,
    /// or the failure if it could not be read.
    pub fn from_json(response_type: u16, data: Result<Value, PythonizeError>) -> (made: Result<
        Response,
        ResponseError,
    >)
        ensures
            match data {
                Ok(document) => made matches Ok(response) && response.response_type
                    == response_type && response.meta@ == json_meta() && response.json == Some(
                    document,
                ),
                Err(_) => made matches Err(error) && error == ResponseError::CannotParseJson,
            },
    {
        match data {
            Ok(document) => Ok(
                Response { response_type, meta: "JSON".to_owned(), json: Some(document) },
            ),
            Err(_) => Err(ResponseError::CannotParseJson),
        }
    }

    /// A structured response whose payload is the Python value `meta`, read
    /// as a JSON document now. Whether the value can be read is for the
    /// Python runtime to say; if it cannot, the call fails. On a list or a
    /// dictionary that holds itself the call does not return.
    pub fn newjson(response_type: u16, _padding: u8, meta: Py<PyAny>) -> (made: Result<
        Response,
        ResponseError,
    >)
        ensures
            match made {
                Ok(response) => response.response_type == response_type && response.meta@
                    == json_meta() && response.json is Some && response.kind()
                    == ResponseKind::Structured,
                Err(error) => error == ResponseError::CannotParseJson,
            },
    {
        Response::from_json(response_type, conv_py_to_json_string(&meta))
    }

    /// The reply for a JSON payload that the serialiser wrote out as
    /// `written`, or the failure if it could not write it.
    pub fn render_json(written: Result<Vec<u8>, serde_json::Error>) -> (made: Result<
        HttpReply,
        DispatchError,
    >)
        ensures
            match written {
                Ok(bytes) => made matches Ok(reply) && reply@ == structured_reply(bytes@),
                Err(_) => made matches Err(error) && error == DispatchError::RenderError,
            },
    {
        match written {
            Ok(bytes) => {
                let mut reply = HttpReply::new(OK, Body::Bytes(bytes));
                reply.insert_header("content-type".to_owned(), "application/json".to_owned());
                assert(reply@.headers =~= seq![(content_type(), json_type())]);
                Ok(reply)
            },
            Err(_) => Err(DispatchError::RenderError),
        }
    }

    /// Renders the response, which always succeeds. A JSON payload is
    /// rendered whatever else the response holds; a file response names the
    /// file and leaves opening it to the transport.
    pub fn make_response(&self) -> (made: Result<HttpReply, DispatchError>)
        ensures
            made matches Ok(reply) && reply@ == self.rendered(),
    {
        if let Some(json) = &self.json {
            return Response::render_json(write_json(json));
        }
        if self.response_type == STATIC_FILE {
            let reply = HttpReply::new(OK, Body::File(self.meta.clone()));
            return Ok(reply);
        }
        let mut reply = HttpReply::new(OK, Body::Bytes(self.meta.as_str().as_bytes_vec()));
        reply.insert_header("content-type".to_owned(), "text/plain; charset=utf-8".to_owned());
        assert(reply@.headers =~= seq![(content_type(), text_type())]);
        Ok(reply)
    }
}

/// A JSON payload wins: a response that holds one renders as that payload,
/// whatever its tag and its metadata string are.
pub proof fn lemma_payload_wins(response: Response)
    requires
        response.json is Some,
    ensures
        response.kind() == ResponseKind::Structured,
        response.rendered() == structured_reply(json_text(response.json->0)),
{
}

} // verus!
