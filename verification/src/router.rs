//! The route table, which takes registrations at any time, and the matcher,
//! which is built from the table once and answers the lookups of a worker.

use crate::types::PyFunction;
use dashmap::DashMap;
use matchit::Node;
use pyo3::{Py, PyAny};
use vstd::prelude::*;

verus! {

/// A tree of route patterns, each with a value, that resolves request paths.
#[verifier::external_type_specification]
#[verifier::external_body]
#[verifier::reject_recursive_types(T)]
pub struct ExNode<T>(Node<T>);

/// The request methods that routes can be registered for, and `Other` for
/// every method that has no table.
#[derive(Clone, Copy, Debug, PartialEq, Eq, Structural)]
pub enum Method {
    Get,
    Post,
    Put,
    Delete,
    Patch,
    Other,
}

impl Method {
    /// The method that a name stands for, if it has a table. Names are case
    /// sensitive.
    pub open spec fn named(name: Seq<char>) -> Option<Method> {
        if name == "GET"@ {
            Some(Method::Get)
        } else if name == "POST"@ {
            Some(Method::Post)
        } else if name == "PUT"@ {
            Some(Method::Put)
        } else if name == "DELETE"@ {
            Some(Method::Delete)
        } else if name == "PATCH"@ {
            Some(Method::Patch)
        } else {
            None
        }
    }

    /// The method of a request, by its name: `Other` unless the name has a table.
    pub fn from_name(name: &str) -> (method: Method)
        ensures
            method == match Method::named(name@) {
                Some(known) => known,
                None => Method::Other,
            },
    {
        match parse_method(name) {
            Some(method) => method,
            None => Method::Other,
        }
    }

    /// Whether requests of this method carry a body that is read before the
    /// handler is called.
    pub open spec fn spec_bears_body(self) -> bool {
        self == Method::Post
    }

    #[verifier::when_used_as_spec(spec_bears_body)]
    pub fn bears_body(self) -> (bears: bool)
        ensures
            bears == self.spec_bears_body(),
    {
        match self {
            Method::Post => true,
            _ => false,
        }
    }
}

/// `Method::from_bytes` of actix-web's `http` module: parses the name of a
/// request method. The five names that have a table are each parsed as
/// their own method; every other name is refused or parsed as a method
/// without a table.
#[verifier::external_body]
fn parse_method(name: &str) -> (method: Option<Method>)
    ensures
        Method::named(name@) is Some ==> method == Method::named(name@),
        Method::named(name@) is None ==> method is None || method == Some(Method::Other),
{
    match actix_web::http::Method::from_bytes(name.as_bytes()) {
        Ok(actix_web::http::Method::GET) => Some(Method::Get),
        Ok(actix_web::http::Method::POST) => Some(Method::Post),
        Ok(actix_web::http::Method::PUT) => Some(Method::Put),
        Ok(actix_web::http::Method::DELETE) => Some(Method::Delete),
        Ok(actix_web::http::Method::PATCH) => Some(Method::Patch),
        Ok(_) => Some(Method::Other),
        Err(_) => None,
    }
}

/// The entries of a route table: the handler registered under each pattern.
pub uninterp spec fn route_entries(table: DashMap<String, PyFunction>) -> Map<Seq<char>, PyFunction>;

/// The registrations of a table that holds none.
pub open spec fn no_routes() -> Map<Seq<char>, PyFunction> {
    Map::empty()
}

/// `DashMap::new`: a table without entries.
#[verifier::external_body]
fn new_table() -> (table: DashMap<String, PyFunction>)
    ensures
        route_entries(table) == no_routes(),
{
    DashMap::new()
}

/// `DashMap::insert`: afterwards `route` has the handler `function`, whether
/// or not it had one, and every other pattern has what it had. The exclusive
/// borrow keeps every other user of the table away for the length of the call.
#[verifier::external_body]
fn table_insert(table: &mut DashMap<String, PyFunction>, route: String, function: PyFunction)
    ensures
        route_entries(*final(table)) == route_entries(*old(table)).insert(route@, function),
{
    table.insert(route, function);
}

/// `DashMap::get`: a second handle on the handler registered under `route`,
/// if there is one.
#[verifier::external_body]
fn table_get(table: &DashMap<String, PyFunction>, route: &str) -> (found: Option<PyFunction>)
    ensures
        found == route_entries(*table).get(route@),
{
    table.get(route).map(|entry| entry.value().clone())
}

/// A list of registrations as mathematics.
pub open spec fn offers(list: Seq<(String, PyFunction)>) -> Seq<(Seq<char>, PyFunction)> {
    list.map_values(|pair: (String, PyFunction)| (pair.0@, pair.1))
}

/// Whether a list holds the entries of a table, each of them once, in
/// whatever order.
pub open spec fn lists(
    list: Seq<(Seq<char>, PyFunction)>,
    table: Map<Seq<char>, PyFunction>,
) -> bool {
    &&& forall|at: int|
        0 <= at < list.len() ==> table.contains_pair((#[trigger] list[at]).0, list[at].1)
    &&& forall|route: Seq<char>| #[trigger]
        table.contains_key(route) ==> exists|at: int|
            0 <= at < list.len() && (#[trigger] list[at]).0 == route
    &&& forall|one: int, other: int|
        0 <= one < other < list.len() ==> (#[trigger] list[one]).0 != (#[trigger] list[other]).0
}

/// `DashMap::iter`: the entries of the table, copied out in the order in
/// which the map yields them, of which nothing is claimed. The list holds
/// every entry once.
#[verifier::external_body]
fn table_list(table: &DashMap<String, PyFunction>) -> (list: Vec<(String, PyFunction)>)
    ensures
        lists(offers(list@), route_entries(*table)),
{
    table.iter().map(|entry| (entry.key().clone(), entry.value().clone())).collect()
}

/// The handlers that a matching tree holds: the values of the routes that
/// it took.
pub uninterp spec fn tree_handlers(tree: Node<PyFunction>) -> Set<PyFunction>;

/// The handler that `Node::at` resolves a path to in a matching tree, if it
/// resolves it.
pub uninterp spec fn tree_match(tree: Node<PyFunction>, path: Seq<char>) -> Option<PyFunction>;

/// Whether a matching tree is as `Node::new` makes it.
pub uninterp spec fn tree_is_new(tree: Node<PyFunction>) -> bool;

/// The matching tree that `Node::insert` leaves when `route` is offered to
/// `tree` with `function`, whether it takes the route or refuses it.
pub uninterp spec fn tree_with(
    tree: Node<PyFunction>,
    route: Seq<char>,
    function: PyFunction,
) -> Node<PyFunction>;

/// Whether every byte that a matching tree holds of the routes that were
/// offered to it is ASCII. The tree keeps pieces of those routes, cut at
/// any byte, and nothing else.
pub uninterp spec fn tree_is_plain(tree: Node<PyFunction>) -> bool;

/// Whether a route pattern can be offered to a matching tree: whether it is
/// ASCII.
pub open spec fn plain(route: Seq<char>) -> bool {
    vstd::utf8::is_ascii_chars(route)
}

/// `Node::new`: a new tree, which holds nothing.
#[verifier::external_body]
fn new_tree() -> (tree: Node<PyFunction>)
    ensures
        tree_is_new(tree),
        tree_is_plain(tree),
        tree_handlers(tree) == Set::<PyFunction>::empty(),
{
    Node::new()
}

/// `Node::insert`, its verdict dropped: the tree takes the route or refuses
/// it. What it is afterwards depends on what it was, on the route and on
/// the handler alone. Either way it holds no handler afterwards that it did
/// not hold before, except `function`, and no byte but of its routes.
///
/// When it refuses a route for a conflict, the insert puts pieces of routes
/// together and takes the result for text; with a piece that ends inside a
/// character it does not return. Pieces of ASCII routes are text wherever
/// they are cut, so only ASCII routes are offered.
#[verifier::external_body]
fn tree_insert(tree: &mut Node<PyFunction>, route: String, function: PyFunction)
    requires
        tree_is_plain(*old(tree)),
        plain(route@),
    ensures
        *final(tree) == tree_with(*old(tree), route@, function),
        tree_is_plain(*final(tree)),
        tree_handlers(*final(tree)).subset_of(tree_handlers(*old(tree)).insert(function)),
{
    let _ = tree.insert(route, function);
}

/// The tree that is left when the registrations of `list` are offered to
/// `tree` one after the other. A registration whose pattern is not ASCII
/// is passed over.
pub open spec fn planted(
    tree: Node<PyFunction>,
    list: Seq<(Seq<char>, PyFunction)>,
) -> Node<PyFunction>
    decreases list.len(),
{
    if list.len() == 0 {
        tree
    } else if plain(list.last().0) {
        tree_with(planted(tree, list.drop_last()), list.last().0, list.last().1)
    } else {
        planted(tree, list.drop_last())
    }
}

/// Whether `tree` is what offering every entry of `table` that has an
/// ASCII pattern once to a new tree leaves, in some order.
pub open spec fn grown_from(tree: Node<PyFunction>, table: Map<Seq<char>, PyFunction>) -> bool {
    exists|seed: Node<PyFunction>, list: Seq<(Seq<char>, PyFunction)>|
        tree_is_new(seed) && lists(list, table) && tree == #[trigger] planted(seed, list)
}

/// `Node::at`: resolves a path. What a path resolves to depends on the tree
/// and the path alone, and it is one of the handlers that the tree holds.
#[verifier::external_body]
fn tree_at<'a>(tree: &'a Node<PyFunction>, path: &str) -> (found: Option<&'a PyFunction>)
    ensures
        match found {
            Some(function) => tree_match(*tree, path@) == Some(*function) && tree_handlers(
                *tree,
            ).contains(*function),
            None => tree_match(*tree, path@) is None,
        },
{
    match tree.at(path) {
        Ok(matched) => Some(matched.value),
        Err(_) => None,
    }
}

/// The route table: for each method that has one, the handler registered
/// under each pattern. It is the source of truth for registrations.
pub struct Router {
    get_routes: DashMap<String, PyFunction>,
    post_routes: DashMap<String, PyFunction>,
    put_routes: DashMap<String, PyFunction>,
    delete_routes: DashMap<String, PyFunction>,
    patch_routes: DashMap<String, PyFunction>,
}

impl Router {
    /// The handler registered under each pattern for `method`. A method
    /// without a table has no registrations.
    pub closed spec fn routes(&self, method: Method) -> Map<Seq<char>, PyFunction> {
        match method {
            Method::Get => route_entries(self.get_routes),
            Method::Post => route_entries(self.post_routes),
            Method::Put => route_entries(self.put_routes),
            Method::Delete => route_entries(self.delete_routes),
            Method::Patch => route_entries(self.patch_routes),
            Method::Other => no_routes(),
        }
    }

    /// The handler registered for `method` under `route`, if there is one.
    pub open spec fn registered(&self, method: Method, route: Seq<char>) -> Option<PyFunction> {
        self.routes(method).get(route)
    }

    /// The table after `function` was registered for `method` under `route`:
    /// that one registration is new or replaced, all others are as before.
    pub open spec fn registers(
        &self,
        before: &Router,
        method: Method,
        route: Seq<char>,
        function: PyFunction,
    ) -> bool {
        forall|other: Method| #[trigger]
            self.routes(other) == if other == method {
                before.routes(other).insert(route, function)
            } else {
                before.routes(other)
            }
    }

    /// Whether `function` is registered for `method` under some pattern.
    pub open spec fn serves(&self, method: Method, function: PyFunction) -> bool {
        exists|route: Seq<char>| #[trigger] self.routes(method).contains_pair(route, function)
    }

    /// Whether two tables hold the same registrations.
    pub open spec fn same_routes(&self, other: &Router) -> bool {
        forall|method: Method| #[trigger] self.routes(method) == other.routes(method)
    }

    /// A table without registrations.
    pub fn new() -> (router: Router)
        ensures
            forall|method: Method| #[trigger] router.routes(method) == no_routes(),
    {
        Router {
            get_routes: new_table(),
            post_routes: new_table(),
            put_routes: new_table(),
            delete_routes: new_table(),
            patch_routes: new_table(),
        }
    }

    /// The table of a method, if it has one.
    fn get_relevant_map(&self, route: &Method) -> (table: Option<&DashMap<String, PyFunction>>)
        ensures
            table is None <==> *route == Method::Other,
            table matches Some(entries) ==> route_entries(*entries) == self.routes(*route),
    {
        match route {
            Method::Get => Some(&self.get_routes),
            Method::Post => Some(&self.post_routes),
            Method::Put => Some(&self.put_routes),
            Method::Delete => Some(&self.delete_routes),
            Method::Patch => Some(&self.patch_routes),
            Method::Other => None,
        }
    }

    /// The table of the method that a name stands for, to register into,
    /// if the name stands for a method that has one.
    fn get_relevant_map_str(&mut self, route: &str) -> (table: Option<
        &mut DashMap<String, PyFunction>,
    >)
        ensures
            match Method::named(route@) {
                Some(method) => table matches Some(entries) && route_entries(*entries) == old(
                    self,
                ).routes(method) && (forall|other: Method| #[trigger]
                    final(self).routes(other) == if other == method {
                        route_entries(*final(entries))
                    } else {
                        old(self).routes(other)
                    }),
                None => table is None && final(self).same_routes(old(self)),
            },
    {
        match Method::from_name(route) {
            Method::Get => Some(&mut self.get_routes),
            Method::Post => Some(&mut self.post_routes),
            Method::Put => Some(&mut self.put_routes),
            Method::Delete => Some(&mut self.delete_routes),
            Method::Patch => Some(&mut self.patch_routes),
            Method::Other => None,
        }
    }

    /// Registers `handler` for the method named `route_type` under the
    /// pattern `route`, as a suspending handler if `is_async` and as a
    /// blocking one otherwise. A registration under the same method and
    /// pattern is replaced. The pattern is taken as it is. A name that
    /// stands for no method with a table leaves the table as it was.
    pub fn add_route(&mut self, route_type: &str, route: &str, handler: Py<PyAny>, is_async: bool)
        ensures
            match Method::named(route_type@) {
                Some(method) => final(self).registers(
                    old(self),
                    method,
                    route@,
                    PyFunction::classified(handler, is_async),
                ),
                None => final(self).same_routes(old(self)),
            },
    {
        let table = match self.get_relevant_map_str(route_type) {
            Some(table) => table,
            None => return ,
        };
        let function = PyFunction::new(handler, is_async);
        table_insert(table, route.to_owned(), function);
    }

    /// A second handle on the handler registered for `route_method` under
    /// exactly the pattern `route`, if there is one.
    pub fn get_route(&self, route_method: &Method, route: &str) -> (found: Option<PyFunction>)
        ensures
            found == self.registered(*route_method, route@),
    {
        match self.get_relevant_map(route_method) {
            Some(table) => table_get(table, route),
            None => None,
        }
    }

    /// The matching tree for a list of registrations: each of them is
    /// offered to a new tree, in the order of the list, and the tree takes
    /// it or refuses it. A registration whose pattern is not ASCII is not
    /// offered, so that no request is resolved to it. Every handler that
    /// the tree holds is in the list, under an ASCII pattern.
    pub fn tree_of(entries: &Vec<(String, PyFunction)>) -> (tree: Node<PyFunction>)
        ensures
            exists|seed: Node<PyFunction>|
                tree_is_new(seed) && tree == #[trigger] planted(seed, offers(entries@)),
            tree_is_plain(tree),
            forall|function: PyFunction| #[trigger]
                tree_handlers(tree).contains(function) ==> exists|at: int|
                    0 <= at < entries@.len() && (#[trigger] entries@[at]).1 == function
                        && plain(entries@[at].0@),
    {
        let mut tree = new_tree();
        let ghost seed = tree;
        let mut at: usize = 0;
        while at < entries.len()
            invariant
                at <= entries@.len(),
                tree == planted(seed, offers(entries@).take(at as int)),
                tree_is_plain(tree),
                forall|function: PyFunction| #[trigger]
                    tree_handlers(tree).contains(function) ==> exists|at: int|
                        0 <= at < entries@.len() && (#[trigger] entries@[at]).1 == function
                            && plain(entries@[at].0@),
            decreases entries@.len() - at,
        {
            assert(offers(entries@)[at as int] == (entries@[at as int].0@, entries@[at as int].1));
            assert(offers(entries@).take(at + 1).drop_last() =~= offers(entries@).take(at as int));
            assert(offers(entries@).take(at + 1).last() == offers(entries@)[at as int]);
            if entries[at].0.as_str().is_ascii() {
                let route = entries[at].0.clone();
                let function = entries[at].1.clone();
                assert(entries@[at as int].1 == function && plain(entries@[at as int].0@));
                tree_insert(&mut tree, route, function);
            }
            at = at + 1;
        }
        assert(offers(entries@).take(at as int) =~= offers(entries@));
        tree
    }

    /// The matching tree for one table: each entry of the table is offered
    /// once to a new tree, in no particular order, and the tree takes it or
    /// refuses it. An entry whose pattern is not ASCII is not offered.
    /// Every handler that the tree holds is registered in the table.
    pub fn protocol_to_tree(incoming: &DashMap<String, PyFunction>) -> (tree: Node<PyFunction>)
        ensures
            grown_from(tree, route_entries(*incoming)),
            forall|function: PyFunction| #[trigger]
                tree_handlers(tree).contains(function) ==> exists|route: Seq<char>| #[trigger]
                    route_entries(*incoming).contains_pair(route, function),
    {
        let entries = table_list(incoming);
        let tree = Router::tree_of(&entries);
        assert forall|function: PyFunction| #[trigger]
            tree_handlers(tree).contains(function) implies exists|route: Seq<char>| #[trigger]
            route_entries(*incoming).contains_pair(route, function) by {
            let at = choose|at: int|
                0 <= at < entries@.len() && (#[trigger] entries@[at]).1 == function;
            assert(offers(entries@)[at] == (entries@[at].0@, function));
            assert(route_entries(*incoming).contains_pair(entries@[at].0@, function));
        }
        tree
    }
}

/// The matcher of one worker: for each method that has a table, the tree
/// built from that table when the matcher was made. It never changes.
pub struct Routing {
    get_routes: Node<PyFunction>,
    post_routes: Node<PyFunction>,
    put_routes: Node<PyFunction>,
    delete_routes: Node<PyFunction>,
    patch_routes: Node<PyFunction>,
}

impl Routing {
    /// The matching tree of a method that has one.
    pub closed spec fn tree(&self, method: Method) -> Node<PyFunction> {
        match method {
            Method::Get => self.get_routes,
            Method::Post => self.post_routes,
            Method::Put => self.put_routes,
            Method::Delete => self.delete_routes,
            _ => self.patch_routes,
        }
    }

    /// The handlers that the matcher holds for `method`.
    pub open spec fn handlers(&self, method: Method) -> Set<PyFunction> {
        if method == Method::Other {
            Set::empty()
        } else {
            tree_handlers(self.tree(method))
        }
    }

    /// The handler that the matcher resolves a request to, if it resolves it.
    /// A method without a table resolves to nothing.
    pub open spec fn matched(&self, method: Method, path: Seq<char>) -> Option<PyFunction> {
        if method == Method::Other {
            None
        } else {
            tree_match(self.tree(method), path)
        }
    }

    /// Whether the matcher is built from the registrations of `router`: the
    /// tree of each method is what offering every route registered for the
    /// method under an ASCII pattern once to a new tree leaves, in some
    /// order.
    pub open spec fn built_from(&self, router: &Router) -> bool {
        forall|method: Method|
            method != Method::Other ==> grown_from(#[trigger] self.tree(method), router.routes(method))
    }

    /// Whether every handler of the matcher is registered in `router` for
    /// the same method.
    pub open spec fn drawn_from(&self, router: &Router) -> bool {
        forall|method: Method, function: PyFunction| #[trigger]
            self.handlers(method).contains(function) ==> router.serves(method, function)
    }

    /// The matcher for the registrations that `router` holds now. Later
    /// registrations do not reach it.
    pub fn new(router: &Router) -> (routing: Routing)
        ensures
            routing.built_from(router),
            routing.drawn_from(router),
    {
        let get_routes = Router::protocol_to_tree(&router.get_routes);
        let post_routes = Router::protocol_to_tree(&router.post_routes);
        let put_routes = Router::protocol_to_tree(&router.put_routes);
        let delete_routes = Router::protocol_to_tree(&router.delete_routes);
        let patch_routes = Router::protocol_to_tree(&router.patch_routes);
        let routing = Routing { get_routes, post_routes, put_routes, delete_routes, patch_routes };
        assert forall|method: Method, function: PyFunction| #[trigger]
            routing.handlers(method).contains(function) implies router.serves(
            method,
            function,
        ) by {
            let route = choose|route: Seq<char>| #[trigger]
                router.routes(method).contains_pair(route, function);
            assert(router.routes(method).contains_pair(route, function));
        }
        routing
    }

    /// The tree of a method, if it has one.
    fn get_relevant_map(&self, route: &Method) -> (tree: Option<&Node<PyFunction>>)
        ensures
            tree is None <==> *route == Method::Other,
            tree matches Some(node) ==> *node == self.tree(*route),
    {
        match route {
            Method::Get => Some(&self.get_routes),
            Method::Post => Some(&self.post_routes),
            Method::Put => Some(&self.put_routes),
            Method::Delete => Some(&self.delete_routes),
            Method::Patch => Some(&self.patch_routes),
            Method::Other => None,
        }
    }

    /// The handler for a request of method `route_method` to the path
    /// `route`: what the matcher resolves the request to, which is one of
    /// the handlers it holds for that method.
    pub fn get_route(&self, route_method: &Method, route: &str) -> (found: Option<&PyFunction>)
        ensures
            match found {
                Some(function) => self.matched(*route_method, route@) == Some(*function)
                    && self.handlers(*route_method).contains(*function),
                None => self.matched(*route_method, route@) is None,
            },
            *route_method == Method::Other ==> found is None,
    {
        let table = self.get_relevant_map(route_method)?;
        tree_at(table, route)
    }
}

/// A registration is found again: a lookup with exactly the method and the
/// pattern of a registration gives the handler that was registered.
pub proof fn lemma_registered_route_is_found(
    before: Router,
    after: Router,
    method: Method,
    route: Seq<char>,
    function: PyFunction,
)
    requires
        after.registers(&before, method, route, function),
    ensures
        after.registered(method, route) == Some(function),
{
    assert(after.routes(method) == before.routes(method).insert(route, function));
}

/// A registration touches nothing but its own method and pattern: every
/// lookup with another method or another pattern gives what it gave before.
pub proof fn lemma_other_routes_stay(
    before: Router,
    after: Router,
    method: Method,
    route: Seq<char>,
    function: PyFunction,
    other_method: Method,
    other_route: Seq<char>,
)
    requires
        after.registers(&before, method, route, function),
        other_method != method || other_route != route,
    ensures
        after.registered(other_method, other_route) == before.registered(
            other_method,
            other_route,
        ),
{
    assert(after.routes(other_method) == if other_method == method {
        before.routes(other_method).insert(route, function)
    } else {
        before.routes(other_method)
    });
}

/// The order of two registrations under different methods or patterns does
/// not matter: either order leaves the same table, so that a lookup finds,
/// or fails to find, the same handler.
pub proof fn lemma_registration_order(
    start: Router,
    first_then: Router,
    first_then_second: Router,
    second_then: Router,
    second_then_first: Router,
    first: (Method, Seq<char>, PyFunction),
    second: (Method, Seq<char>, PyFunction),
)
    requires
        first.0 != second.0 || first.1 != second.1,
        first_then.registers(&start, first.0, first.1, first.2),
        first_then_second.registers(&first_then, second.0, second.1, second.2),
        second_then.registers(&start, second.0, second.1, second.2),
        second_then_first.registers(&second_then, first.0, first.1, first.2),
    ensures
        first_then_second.same_routes(&second_then_first),
{
    assert forall|method: Method| #[trigger]
        first_then_second.routes(method) == second_then_first.routes(method) by {
        assert(first_then.routes(method) == if method == first.0 {
            start.routes(method).insert(first.1, first.2)
        } else {
            start.routes(method)
        });
        assert(second_then.routes(method) == if method == second.0 {
            start.routes(method).insert(second.1, second.2)
        } else {
            start.routes(method)
        });
        assert(first_then_second.routes(method) =~= second_then_first.routes(method));
    }
}

} // verus!
