//! The HTTP capability: the routing table that a guest builds route by
//! route, and the request, response and error values exchanged with a
//! guest's handler.

use vstd::prelude::*;
use vstd::string::*;

verus! {

/// Errors of the HTTP capability.
#[derive(Debug)]
pub enum Error {
    ErrorWithDescription(String),
}

/// The HTTP methods a route can be registered for.
#[derive(Debug, Clone, Copy, PartialEq, Eq, Structural)]
pub enum Methods {
    GET,
    PUT,
    POST,
    DELETE,
}

impl Default for Methods {
    fn default() -> (r: Methods)
        ensures
            r == Methods::GET,
    {
        Methods::GET
    }
}

/// One route: the method, the path it is served under, and the name of the
/// guest function that handles it.
#[derive(Debug)]
pub struct Route {
    pub method: Methods,
    pub route: String,
    pub handler: String,
}

impl Route {
    /// An identical copy of this route.
    pub fn duplicate(&self) -> (r: Route)
        ensures
            r == *self,
    {
        Route { method: self.method, route: self.route.clone(), handler: self.handler.clone() }
    }
}

/// A copy of a list of routes.
fn duplicate_routes(routes: &Vec<Route>) -> (r: Vec<Route>)
    ensures
        r@ == routes@,
{
    let mut r: Vec<Route> = Vec::new();
    let mut i: usize = 0;
    while i < routes.len()
        invariant
            i <= routes.len(),
            r@ == routes@.take(i as int),
        decreases routes.len() - i,
    {
        r.push(routes[i].duplicate());
        i = i + 1;
        assert(r@ =~= routes@.take(i as int));
    }
    assert(r@ =~= routes@);
    r
}

/// The route that registering `handler` for `method` at `route` adds.
pub open spec fn route_of(method: Methods, route: String, handler: String) -> Route {
    Route { method, route, handler }
}

/// A router: its base URI and its routes, in the order they were added.
#[derive(Debug)]
pub struct RouterInner {
    base_uri: String,
    routes: Vec<Route>,
}

impl Default for RouterInner {
    fn default() -> (r: RouterInner)
        ensures
            r.base()@ == Seq::<char>::empty(),
            r.routes_view() == Seq::<Route>::empty(),
    {
        RouterInner { base_uri: String::new(), routes: Vec::new() }
    }
}

impl RouterInner {
    /// The base URI.
    pub closed spec fn base(&self) -> String {
        self.base_uri
    }

    /// The routes, in the order they were added.
    pub closed spec fn routes_view(&self) -> Seq<Route> {
        self.routes@
    }

    /// Whether two routers hold the same base URI and the same routes.
    pub open spec fn same_as(&self, other: &RouterInner) -> bool {
        &&& self.base() == other.base()
        &&& self.routes_view() == other.routes_view()
    }

    /// A router with the given base URI and no routes.
    pub fn new(uri: &str) -> (r: RouterInner)
        ensures
            r.base()@ == uri@,
            r.routes_view() == Seq::<Route>::empty(),
    {
        RouterInner { base_uri: String::from_str(uri), routes: Vec::new() }
    }

    /// The base URI.
    pub fn base_uri(&self) -> (r: &String)
        ensures
            *r == self.base(),
    {
        &self.base_uri
    }

    /// The routes, in the order they were added.
    pub fn routes(&self) -> (r: &Vec<Route>)
        ensures
            r@ == self.routes_view(),
    {
        &self.routes
    }

    /// A router identical to this one.
    pub fn duplicate(&self) -> (r: RouterInner)
        ensures
            r.same_as(self),
    {
        RouterInner { base_uri: self.base_uri.clone(), routes: duplicate_routes(&self.routes) }
    }

    /// Adds a route for `method` with the handler's name, and returns a copy
    /// of the router that now holds it.
    pub fn add(&mut self, route: String, handler: String, method: Methods) -> (r: Result<
        RouterInner,
        Error,
    >)
        ensures
            final(self).base() == old(self).base(),
            final(self).routes_view() == old(self).routes_view().push(
                route_of(method, route, handler),
            ),
            r matches Ok(copy) && copy.same_as(&*final(self)),
    {
        let route = Route { method, route, handler };
        self.routes.push(route);
        Ok(self.duplicate())
    }

    /// Adds a route with the `GET` method and the handler's name.
    pub fn get(&mut self, route: String, handler: String) -> (r: Result<RouterInner, Error>)
        ensures
            final(self).base() == old(self).base(),
            final(self).routes_view() == old(self).routes_view().push(
                route_of(Methods::GET, route, handler),
            ),
            r matches Ok(copy) && copy.same_as(&*final(self)),
    {
        self.add(route, handler, Methods::GET)
    }

    /// Adds a route with the `PUT` method and the handler's name.
    pub fn put(&mut self, route: String, handler: String) -> (r: Result<RouterInner, Error>)
        ensures
            final(self).base() == old(self).base(),
            final(self).routes_view() == old(self).routes_view().push(
                route_of(Methods::PUT, route, handler),
            ),
            r matches Ok(copy) && copy.same_as(&*final(self)),
    {
        self.add(route, handler, Methods::PUT)
    }

    /// Adds a route with the `POST` method and the handler's name.
    pub fn post(&mut self, route: String, handler: String) -> (r: Result<RouterInner, Error>)
        ensures
            final(self).base() == old(self).base(),
            final(self).routes_view() == old(self).routes_view().push(
                route_of(Methods::POST, route, handler),
            ),
            r matches Ok(copy) && copy.same_as(&*final(self)),
    {
        self.add(route, handler, Methods::POST)
    }

    /// Adds a route with the `DELETE` method and the handler's name.
    pub fn delete(&mut self, route: String, handler: String) -> (r: Result<RouterInner, Error>)
        ensures
            final(self).base() == old(self).base(),
            final(self).routes_view() == old(self).routes_view().push(
                route_of(Methods::DELETE, route, handler),
            ),
            r matches Ok(copy) && copy.same_as(&*final(self)),
    {
        self.add(route, handler, Methods::DELETE)
    }
}

/// A new router with no base URI set and no routes.
pub fn router_new() -> (r: Result<RouterInner, Error>)
    ensures
        r matches Ok(router) && router.base()@ == Seq::<char>::empty() && router.routes_view()
            == Seq::<Route>::empty(),
{
    Ok(RouterInner::default())
}

/// A new router with the given base URI and no routes.
pub fn router_new_with_base(base: &str) -> (r: Result<RouterInner, Error>)
    ensures
        r matches Ok(router) && router.base()@ == base@ && router.routes_view() == Seq::<
            Route,
        >::empty(),
{
    Ok(RouterInner::new(base))
}

/// The router that `router` becomes when `method` is routed at `route` to
/// `handler`; `router` itself is left as it is.
pub open spec fn extended(
    router: &RouterInner,
    method: Methods,
    route: Seq<char>,
    handler: Seq<char>,
    r: Result<RouterInner, Error>,
) -> bool {
    r matches Ok(next) && next.base() == router.base() && next.routes_view().len()
        == router.routes_view().len() + 1 && next.routes_view().drop_last()
        == router.routes_view() && next.routes_view().last().method == method
        && next.routes_view().last().route@ == route && next.routes_view().last().handler@
        == handler
}

/// Registers a `GET` route on a copy of `router`.
pub fn router_get(router: &RouterInner, route: &str, handler: &str) -> (r: Result<
    RouterInner,
    Error,
>)
    ensures
        extended(router, Methods::GET, route@, handler@, r),
{
    let mut rclone = router.duplicate();
    let r = rclone.get(String::from_str(route), String::from_str(handler));
    assert(rclone.routes_view().drop_last() =~= router.routes_view());
    r
}

/// Registers a `PUT` route on a copy of `router`.
pub fn router_put(router: &RouterInner, route: &str, handler: &str) -> (r: Result<
    RouterInner,
    Error,
>)
    ensures
        extended(router, Methods::PUT, route@, handler@, r),
{
    let mut rclone = router.duplicate();
    let r = rclone.put(String::from_str(route), String::from_str(handler));
    assert(rclone.routes_view().drop_last() =~= router.routes_view());
    r
}

/// Registers a `POST` route on a copy of `router`.
pub fn router_post(router: &RouterInner, route: &str, handler: &str) -> (r: Result<
    RouterInner,
    Error,
>)
    ensures
        extended(router, Methods::POST, route@, handler@, r),
{
    let mut rclone = router.duplicate();
    let r = rclone.post(String::from_str(route), String::from_str(handler));
    assert(rclone.routes_view().drop_last() =~= router.routes_view());
    r
}

/// Registers a `DELETE` route on a copy of `router`.
pub fn router_delete(router: &RouterInner, route: &str, handler: &str) -> (r: Result<
    RouterInner,
    Error,
>)
    ensures
        extended(router, Methods::DELETE, route@, handler@, r),
{
    let mut rclone = router.duplicate();
    let r = rclone.delete(String::from_str(route), String::from_str(handler));
    assert(rclone.routes_view().drop_last() =~= router.routes_view());
    r
}

/// A router as the first version of the interface kept it: an optional
/// base URI and `GET` routes.
#[derive(Debug)]
pub struct RouterProxy {
    base_uri: Option<String>,
    routes: Vec<Route>,
}

impl Default for RouterProxy {
    fn default() -> (r: RouterProxy)
        ensures
            r.base() is None,
            r.routes_view() == Seq::<Route>::empty(),
    {
        RouterProxy { base_uri: None, routes: Vec::new() }
    }
}

impl RouterProxy {
    /// The base URI, if one was given.
    pub closed spec fn base(&self) -> Option<String> {
        self.base_uri
    }

    /// The routes, in the order they were added.
    pub closed spec fn routes_view(&self) -> Seq<Route> {
        self.routes@
    }

    /// A router without a base URI and without routes.
    pub fn new() -> (r: RouterProxy)
        ensures
            r.base() is None,
            r.routes_view() == Seq::<Route>::empty(),
    {
        Self::new_with_base(None)
    }

    /// A router with the given base URI and no routes.
    pub fn new_with_base(uri: Option<String>) -> (r: RouterProxy)
        ensures
            r.base() == uri,
            r.routes_view() == Seq::<Route>::empty(),
    {
        RouterProxy { base_uri: uri, routes: Vec::new() }
    }

    /// The routes, in the order they were added.
    pub fn routes(&self) -> (r: &Vec<Route>)
        ensures
            r@ == self.routes_view(),
    {
        &self.routes
    }

    /// Adds a `GET` route with the handler's name, and returns a copy of the
    /// router that now holds it.
    pub fn get(&mut self, route: String, handler: String) -> (r: Result<RouterProxy, Error>)
        ensures
            final(self).base() == old(self).base(),
            final(self).routes_view() == old(self).routes_view().push(
                route_of(Methods::GET, route, handler),
            ),
            r matches Ok(copy) && copy.base() == final(self).base() && copy.routes_view()
                == final(self).routes_view(),
    {
        let route = Route { method: Methods::GET, route, handler };
        self.routes.push(route);
        let base_uri = match &self.base_uri {
            Some(b) => Some(b.clone()),
            None => None,
        };
        Ok(RouterProxy { base_uri, routes: duplicate_routes(&self.routes) })
    }
}

} // verus!
