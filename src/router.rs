use vstd::prelude::*;

use crate::response::HttpResponse;

verus! {

/// The key under which a handler is registered: method token and exact path.
pub type RouteKey = (Seq<char>, Seq<char>);

/// The table that a sequence of registrations builds: each (method, path)
/// is bound to the handler of its last registration.
pub open spec fn route_map<H>(regs: Seq<(Seq<char>, Seq<char>, H)>) -> Map<RouteKey, H>
    decreases regs.len(),
{
    if regs.len() == 0 {
        Map::empty()
    } else {
        let last = regs.last();
        route_map(regs.drop_last()).insert((last.0, last.1), last.2)
    }
}

/// A binding of a handler to a method and an exact path.
pub struct Route<H> {
    pub method: String,
    pub route: String,
    pub handler: H,
}

impl<H> Route<H> {
    /// Creates a route with method, path and handler.
    pub fn new(method: &str, route: &str, handler: H) -> (r: Route<H>)
        ensures
            r.method@ == method@,
            r.route@ == route@,
            r.handler == handler,
    {
        Route { method: method.to_owned(), route: route.to_owned(), handler }
    }
}

/// What dispatching a request leads to: the handler of its route, or the
/// not-found response when no route matches. Both are successful outcomes.
pub enum Dispatch<'a, H> {
    Handle(&'a H),
    NotFound(HttpResponse),
}

/// An exact-match table from (method, path) to handler. It is built by
/// `route` and then shared read-only (for instance behind an `Arc`), which
/// leaves no way to register a route once it is shared.
pub struct Router<H> {
    routes: Vec<Route<H>>,
}

impl<H> Default for Router<H> {
    /// An empty table.
    fn default() -> (r: Router<H>)
        ensures
            r.spec_registrations() == Seq::<(Seq<char>, Seq<char>, H)>::empty(),
            r.spec_table() == Map::<RouteKey, H>::empty(),
    {
        Router::new()
    }
}

impl<H> Router<H> {
    /// The registrations made so far, in order.
    pub closed spec fn spec_registrations(&self) -> Seq<(Seq<char>, Seq<char>, H)> {
        self.routes@.map_values(|r: Route<H>| (r.method@, r.route@, r.handler))
    }

    /// The table: what each registered (method, path) is bound to.
    pub open spec fn spec_table(&self) -> Map<RouteKey, H> {
        route_map(self.spec_registrations())
    }

    /// An empty table.
    pub fn new() -> (r: Router<H>)
        ensures
            r.spec_registrations() == Seq::<(Seq<char>, Seq<char>, H)>::empty(),
            r.spec_table() == Map::<RouteKey, H>::empty(),
    {
        let r = Router { routes: Vec::new() };
        assert(r.spec_registrations() =~= Seq::<(Seq<char>, Seq<char>, H)>::empty());
        r
    }

    /// Registers a route; a later registration of the same method and path
    /// replaces the earlier one.
    pub fn route(&mut self, route: Route<H>)
        ensures
            final(self).spec_registrations() == old(self).spec_registrations().push(
                (route.method@, route.route@, route.handler),
            ),
            final(self).spec_table() == old(self).spec_table().insert(
                (route.method@, route.route@),
                route.handler,
            ),
    {
        let ghost entry = (route.method@, route.route@, route.handler);
        self.routes.push(route);
        assert(self.spec_registrations() =~= old(self).spec_registrations().push(entry));
        assert(self.spec_registrations().drop_last() =~= old(self).spec_registrations());
    }

    /// The handler bound to exactly this method and path, if any.
    pub fn lookup(&self, method: &str, path: &str) -> (r: Option<&H>)
        ensures
            r is Some <==> self.spec_table().contains_key((method@, path@)),
            r is Some ==> *r->0 == self.spec_table()[(method@, path@)],
    {
        let m = method.to_owned();
        let p = path.to_owned();
        let ghost regs = self.spec_registrations();
        let ghost key = (method@, path@);
        let mut i: usize = self.routes.len();
        while i > 0
            invariant
                i <= self.routes@.len(),
                regs == self.spec_registrations(),
                key == (method@, path@),
                m@ == method@,
                p@ == path@,
                forall|j: int| i <= j < regs.len() ==> (#[trigger] regs[j]).0 != key.0 || regs[j].1 != key.1,
            decreases i,
        {
            i = i - 1;
            let r = &self.routes[i];
            assert(regs[i as int] == (r.method@, r.route@, r.handler));
            let same_method = r.method.eq(&m);
            let same_path = r.route.eq(&p);
            if same_method && same_path {
                proof {
                    lemma_route_map_last(regs, key, i as int);
                }
                return Some(&r.handler);
            }
        }
        proof {
            lemma_route_map_absent(regs, key);
        }
        None
    }

    /// Dispatches a request by its method and path: the handler of the
    /// matching route, or a 404 response with an empty body.
    pub fn make_service(&self, method: &str, path: &str) -> (r: Dispatch<'_, H>)
        ensures
            r is Handle <==> self.spec_table().contains_key((method@, path@)),
            r matches Dispatch::Handle(h) ==> *h == self.spec_table()[(method@, path@)],
            r matches Dispatch::NotFound(resp) ==> {
                &&& resp.status == 404
                &&& resp.spec_headers() == Seq::<(Seq<u8>, Seq<u8>)>::empty()
                &&& resp.body is Empty
            },
    {
        match self.lookup(method, path) {
            Some(h) => Dispatch::Handle(h),
            None => Dispatch::NotFound(HttpResponse::not_found()),
        }
    }
}

/// A key that no registration names is not in the table.
pub proof fn lemma_route_map_absent<H>(regs: Seq<(Seq<char>, Seq<char>, H)>, key: RouteKey)
    requires
        forall|j: int| 0 <= j < regs.len() ==> (#[trigger] regs[j]).0 != key.0 || regs[j].1 != key.1,
    ensures
        !route_map(regs).contains_key(key),
    decreases regs.len(),
{
    if regs.len() > 0 {
        let rest = regs.drop_last();
        assert forall|j: int| 0 <= j < rest.len() implies (#[trigger] rest[j]).0 != key.0 || rest[j].1 != key.1 by {
            assert(rest[j] == regs[j]);
        }
        lemma_route_map_absent(rest, key);
        assert(regs[regs.len() - 1] == regs.last());
    }
}

/// The table binds a key to the handler of the last registration that names it.
pub proof fn lemma_route_map_last<H>(regs: Seq<(Seq<char>, Seq<char>, H)>, key: RouteKey, i: int)
    requires
        0 <= i < regs.len(),
        regs[i].0 == key.0 && regs[i].1 == key.1,
        forall|j: int| i < j < regs.len() ==> (#[trigger] regs[j]).0 != key.0 || regs[j].1 != key.1,
    ensures
        route_map(regs).contains_key(key),
        route_map(regs)[key] == regs[i].2,
    decreases regs.len(),
{
    if i < regs.len() - 1 {
        let rest = regs.drop_last();
        assert forall|j: int| i < j < rest.len() implies (#[trigger] rest[j]).0 != key.0 || rest[j].1 != key.1 by {
            assert(rest[j] == regs[j]);
        }
        assert(rest[i] == regs[i]);
        lemma_route_map_last(rest, key, i);
        assert(regs[regs.len() - 1] == regs.last());
    }
}

/// Exact-match routing: a (method, path) is in the table exactly when some
/// registration names it, and then it is bound to the handler of the last
/// such registration.
pub proof fn lemma_exact_match_routing<H>(regs: Seq<(Seq<char>, Seq<char>, H)>, key: RouteKey)
    ensures
        route_map(regs).contains_key(key) <==> exists|i: int|
            0 <= i < regs.len() && (#[trigger] regs[i]).0 == key.0 && regs[i].1 == key.1,
        forall|i: int|
            0 <= i < regs.len() && (#[trigger] regs[i]).0 == key.0 && regs[i].1 == key.1 && (forall|j: int|
                i < j < regs.len() ==> (#[trigger] regs[j]).0 != key.0 || regs[j].1 != key.1)
                ==> route_map(regs)[key] == regs[i].2,
{
    assert forall|i: int|
        0 <= i < regs.len() && (#[trigger] regs[i]).0 == key.0 && regs[i].1 == key.1 && (forall|j: int|
            i < j < regs.len() ==> (#[trigger] regs[j]).0 != key.0 || regs[j].1 != key.1)
        implies route_map(regs).contains_key(key) && route_map(regs)[key] == regs[i].2 by {
        lemma_route_map_last(regs, key, i);
    }
    if route_map(regs).contains_key(key) {
        if !(exists|i: int| 0 <= i < regs.len() && (#[trigger] regs[i]).0 == key.0 && regs[i].1 == key.1) {
            lemma_route_map_absent(regs, key);
        }
    } else {
        if exists|i: int| 0 <= i < regs.len() && (#[trigger] regs[i]).0 == key.0 && regs[i].1 == key.1 {
            let i = choose|i: int| 0 <= i < regs.len() && (#[trigger] regs[i]).0 == key.0 && regs[i].1 == key.1;
            lemma_last_naming(regs, key, i);
        }
    }
}

/// If some registration names a key, a last one does.
proof fn lemma_last_naming<H>(regs: Seq<(Seq<char>, Seq<char>, H)>, key: RouteKey, i: int)
    requires
        0 <= i < regs.len(),
        regs[i].0 == key.0 && regs[i].1 == key.1,
    ensures
        route_map(regs).contains_key(key),
    decreases regs.len() - i,
{
    if forall|j: int| i < j < regs.len() ==> (#[trigger] regs[j]).0 != key.0 || regs[j].1 != key.1 {
        lemma_route_map_last(regs, key, i);
    } else {
        let j = choose|j: int| i < j < regs.len() && !((#[trigger] regs[j]).0 != key.0 || regs[j].1 != key.1);
        lemma_last_naming(regs, key, j);
    }
}

} // verus!
