//! The route table: routes kept in the order in which they were added, and
//! the dispatch that picks the first one that fits a request.
use vstd::prelude::*;
use std::sync::Arc;
use crate::context::{pairs_view, RequestContext};
use crate::matcher::{
    captures, compile_outcome, group_of, opt_view, path_pattern_to_regex, regex_captures, Matcher,
    PatternError,
};
use crate::pattern::{extract_param_names, param_names, regex_source, string_views};
use crate::registry::SharedGlobal;

verus! {

/// The request methods that a route can be registered for.
#[derive(PartialEq, Eq, Structural, Clone, Copy, Debug)]
pub enum HttpMethod {
    Get,
    Post,
    Put,
    Delete,
    Head,
    Options,
    Patch,
    Connect,
    Trace,
}

/// One registered route.
pub struct RouteDefinition<H> {
    /// The method the route answers.
    pub method: HttpMethod,
    /// The compiled pattern.
    pub matcher: Matcher,
    /// The placeholder names of the pattern, in pattern order.
    pub param_names: Vec<String>,
    /// What handles a request that the route takes.
    pub handler: H,
}

/// What dispatch looks at in a route: its method, the source of its matcher
/// and its placeholder names.
pub type RouteView = (HttpMethod, Seq<char>, Seq<Seq<char>>);

/// The answer that a request that no route takes is given.
pub struct Fallback {
    pub status: u16,
    pub body: String,
}

/// The body of the answer to a request that no route takes.
pub open spec fn not_found_body() -> Seq<char> {
    seq!['N', 'o', 't', ' ', 'F', 'o', 'u', 'n', 'd']
}

/// The answer to a request that no route takes: status 404, body "Not Found".
pub fn not_found() -> (r: Fallback)
    ensures
        r.status == 404,
        r.body@ == not_found_body(),
{
    let body = "Not Found".to_owned();
    proof {
        reveal_strlit("Not Found");
        assert(body@ =~= not_found_body());
    }
    Fallback { status: 404, body }
}

/// The outcome of dispatching one request.
pub enum Outcome {
    /// Route number `route` takes the request; its handler is to be called
    /// with `ctx`.
    Found { route: usize, ctx: RequestContext },
    /// No route takes the request.
    NotFound(Fallback),
}

/// Whether route `r` takes a request for `method` and `path`.
pub open spec fn route_takes(r: RouteView, method: HttpMethod, path: Seq<char>) -> bool {
    r.0 == method && regex_captures(r.1, path) is Some
}

/// Whether route number `i` is the first of `routes` that takes the request.
pub open spec fn first_taker(
    routes: Seq<RouteView>,
    method: HttpMethod,
    path: Seq<char>,
    i: int,
) -> bool {
    &&& 0 <= i < routes.len()
    &&& route_takes(routes[i], method, path)
    &&& forall|j: int| 0 <= j < i ==> !route_takes(#[trigger] routes[j], method, path)
}

/// Whether some route of `routes` takes the request.
pub open spec fn any_taker(routes: Seq<RouteView>, method: HttpMethod, path: Seq<char>) -> bool {
    exists|i: int| 0 <= i < routes.len() && route_takes(#[trigger] routes[i], method, path)
}

/// Of two routes that both take a request, the one added first is picked,
/// whatever either pattern looks like: the route dispatch picks never comes
/// after one that takes the request.
pub proof fn lemma_first_added_wins(
    routes: Seq<RouteView>,
    method: HttpMethod,
    path: Seq<char>,
    i: int,
    j: int,
    picked: int,
)
    requires
        0 <= i < j < routes.len(),
        route_takes(routes[i], method, path),
        route_takes(routes[j], method, path),
        first_taker(routes, method, path, picked),
    ensures
        picked <= i,
        picked != j,
{
}

/// The parameters of a match: each name of `names` whose group took part in
/// the match, with the text it captured, in the order of `names`.
pub open spec fn captured_params(names: Seq<Seq<char>>, groups: Map<Seq<char>, Seq<char>>) -> Seq<
    (Seq<char>, Seq<char>),
>
    decreases names.len(),
{
    if names.len() == 0 {
        Seq::empty()
    } else {
        let rest = captured_params(names.drop_last(), groups);
        match group_of(groups, names.last()) {
            Some(v) => rest.push((names.last(), v)),
            None => rest,
        }
    }
}

/// The routes of an application, in the order in which they were added, and
/// the registry of shared services that their handlers are given.
pub struct RouteTable<H> {
    global: Arc<SharedGlobal>,
    routes: Vec<RouteDefinition<H>>,
}

impl<H> View for RouteTable<H> {
    type V = Seq<RouteView>;

    closed spec fn view(&self) -> Seq<RouteView> {
        self.routes@.map_values(
            |r: RouteDefinition<H>| (r.method, r.matcher@, string_views(r.param_names@)),
        )
    }
}

impl<H> RouteTable<H> {
    /// The shared registry that every request context refers to.
    pub closed spec fn shared(&self) -> Arc<SharedGlobal> {
        self.global
    }

    /// The handler of route number `i`.
    pub closed spec fn handler_of(&self, i: int) -> H {
        self.routes@[i].handler
    }

    /// A table with no routes, over the registry `global`.
    pub fn new(global: SharedGlobal) -> (r: RouteTable<H>)
        ensures
            r@.len() == 0,
            *r.shared() == global,
    {
        RouteTable { global: Arc::new(global), routes: Vec::new() }
    }

    /// The number of routes.
    pub fn len(&self) -> (r: usize)
        ensures
            r == self@.len(),
    {
        self.routes.len()
    }

    /// Compiles `pattern` and adds a route for `method` after all the others.
    /// Where the pattern does not compile, the table stays as it was and the
    /// error says why.
    pub fn add_route(&mut self, method: HttpMethod, pattern: &str, handler: H) -> (r: Result<
        (),
        PatternError,
    >)
        ensures
            final(self).shared() == old(self).shared(),
            compile_outcome(pattern@, r),
            r is Ok ==> final(self)@ == old(self)@.push(
                (method, regex_source(pattern@), param_names(pattern@)),
            ) && final(self).handler_of(old(self)@.len() as int) == handler,
            r is Ok ==> forall|i: int|
                0 <= i < old(self)@.len() ==> #[trigger] final(self).handler_of(i) == old(
                    self,
                ).handler_of(i),
            r is Err ==> *final(self) == *old(self),
    {
        match path_pattern_to_regex(pattern) {
            Ok(matcher) => {
                let names = extract_param_names(pattern);
                let ghost before = self@;
                self.routes.push(RouteDefinition { method, matcher, param_names: names, handler });
                assert(self@ =~= before.push(
                    (method, regex_source(pattern@), param_names(pattern@)),
                ));
                Ok(())
            },
            Err(e) => Err(e),
        }
    }

    /// Adds a route for GET requests.
    pub fn get(&mut self, pattern: &str, handler: H) -> (r: Result<(), PatternError>)
        ensures
            final(self).shared() == old(self).shared(),
            compile_outcome(pattern@, r),
            r is Ok ==> final(self)@ == old(self)@.push(
                (HttpMethod::Get, regex_source(pattern@), param_names(pattern@)),
            ) && final(self).handler_of(old(self)@.len() as int) == handler,
            r is Ok ==> forall|i: int|
                0 <= i < old(self)@.len() ==> #[trigger] final(self).handler_of(i) == old(
                    self,
                ).handler_of(i),
            r is Err ==> *final(self) == *old(self),
    {
        self.add_route(HttpMethod::Get, pattern, handler)
    }

    /// Adds a route for POST requests.
    pub fn post(&mut self, pattern: &str, handler: H) -> (r: Result<(), PatternError>)
        ensures
            final(self).shared() == old(self).shared(),
            compile_outcome(pattern@, r),
            r is Ok ==> final(self)@ == old(self)@.push(
                (HttpMethod::Post, regex_source(pattern@), param_names(pattern@)),
            ) && final(self).handler_of(old(self)@.len() as int) == handler,
            r is Ok ==> forall|i: int|
                0 <= i < old(self)@.len() ==> #[trigger] final(self).handler_of(i) == old(
                    self,
                ).handler_of(i),
            r is Err ==> *final(self) == *old(self),
    {
        self.add_route(HttpMethod::Post, pattern, handler)
    }

    /// The handler of route number `i`.
    pub fn handler(&self, i: usize) -> (r: &H)
        requires
            i < self@.len(),
        ensures
            *r == self.handler_of(i as int),
    {
        &self.routes[i].handler
    }

    /// Picks the first route, in the order of registration, whose method is
    /// `method` and whose pattern matches the whole of `path`, and gives the
    /// context for its handler: the parameters it captured and the shared
    /// registry. Where no route takes the request, the answer is 404 with the
    /// body "Not Found".
    pub fn dispatch(&self, method: HttpMethod, path: &str) -> (r: Outcome)
        ensures
            match r {
                Outcome::Found { route, ctx } => {
                    &&& first_taker(self@, method, path@, route as int)
                    &&& pairs_view(ctx.params@) == captured_params(
                        self@[route as int].2,
                        regex_captures(self@[route as int].1, path@)->0,
                    )
                    &&& ctx.global == self.shared()
                },
                Outcome::NotFound(f) => {
                    &&& !any_taker(self@, method, path@)
                    &&& f.status == 404
                    &&& f.body@ == not_found_body()
                },
            },
            any_taker(self@, method, path@) <==> r is Found,
    {
        let ghost routes = self@;
        let mut i: usize = 0;
        while i < self.routes.len()
            invariant
                routes == self@,
                i <= routes.len(),
                forall|j: int| 0 <= j < i ==> !route_takes(#[trigger] routes[j], method, path@),
            decreases routes.len() - i,
        {
            let route = &self.routes[i];
            if route.method == method {
                if let Some(groups) = captures(&route.matcher, path, &route.param_names) {
                    let ghost names = routes[i as int].2;
                    let ghost caught = regex_captures(routes[i as int].1, path@)->0;
                    let mut params: Vec<(String, String)> = Vec::new();
                    let mut j: usize = 0;
                    while j < route.param_names.len()
                        invariant
                            names == string_views(route.param_names@),
                            groups@.len() == names.len(),
                            forall|k: int|
                                0 <= k < names.len() ==> #[trigger] opt_view(
                                    groups@[k],
                                ) == group_of(caught, names[k]),
                            j <= names.len(),
                            pairs_view(params@) == captured_params(names.take(j as int), caught),
                        decreases names.len() - j,
                    {
                        proof {
                            assert(names.take(j + 1).drop_last() =~= names.take(j as int));
                            assert(opt_view(groups@[j as int]) == group_of(
                                caught,
                                names[j as int],
                            ));
                        }
                        match &groups[j] {
                            Some(v) => {
                                let ghost before = pairs_view(params@);
                                params.push((route.param_names[j].clone(), v.clone()));
                                assert(pairs_view(params@) =~= before.push(
                                    (names[j as int], group_of(caught, names[j as int])->0),
                                ));
                            },
                            None => {},
                        }
                        j = j + 1;
                    }
                    assert(names.take(j as int) =~= names);
                    let ctx = RequestContext { global: self.global.clone(), params };
                    return Outcome::Found { route: i, ctx };
                }
            }
            i = i + 1;
        }
        Outcome::NotFound(not_found())
    }
}

} // verus!
