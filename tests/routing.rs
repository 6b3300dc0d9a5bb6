use route_core::context::RequestContext;
use route_core::matcher::PatternError;
use route_core::registry::SharedGlobal;
use route_core::router::{HttpMethod, Outcome, RouteTable};

type Handler = fn(&RequestContext) -> String;

fn echo_id(ctx: &RequestContext) -> String {
    ctx.param("id").unwrap_or("").to_string()
}

fn first(_: &RequestContext) -> String {
    "first".to_string()
}

fn second(_: &RequestContext) -> String {
    "second".to_string()
}

fn run(table: &RouteTable<Handler>, method: HttpMethod, path: &str) -> (u16, String) {
    match table.dispatch(method, path) {
        Outcome::Found { route, ctx } => (200, (table.handler(route))(&ctx)),
        Outcome::NotFound(f) => (f.status, f.body),
    }
}

#[test]
fn placeholder_is_captured() {
    let mut t: RouteTable<Handler> = RouteTable::new(SharedGlobal::new());
    t.get("/users/{id}", echo_id).unwrap();
    match t.dispatch(HttpMethod::Get, "/users/42") {
        Outcome::Found { route, ctx } => {
            assert_eq!(route, 0);
            assert_eq!(ctx.param("id"), Some("42"));
            assert_eq!(ctx.param("name"), None);
        }
        Outcome::NotFound(_) => panic!("expected a match"),
    }
}

#[test]
fn placeholder_rejects_extra_segment_and_empty() {
    let mut t: RouteTable<Handler> = RouteTable::new(SharedGlobal::new());
    t.get("/users/{id}", echo_id).unwrap();
    assert!(matches!(t.dispatch(HttpMethod::Get, "/users/42/extra"), Outcome::NotFound(_)));
    assert!(matches!(t.dispatch(HttpMethod::Get, "/users/"), Outcome::NotFound(_)));
}

#[test]
fn two_placeholders_are_captured() {
    let mut t: RouteTable<Handler> = RouteTable::new(SharedGlobal::new());
    t.get("/users/{user}/posts/{post}", echo_id).unwrap();
    match t.dispatch(HttpMethod::Get, "/users/ann/posts/9") {
        Outcome::Found { ctx, .. } => {
            assert_eq!(ctx.param("user"), Some("ann"));
            assert_eq!(ctx.param("post"), Some("9"));
            assert_eq!(ctx.params.len(), 2);
        }
        Outcome::NotFound(_) => panic!("expected a match"),
    }
}

#[test]
fn escaped_dot_in_route() {
    let mut t: RouteTable<Handler> = RouteTable::new(SharedGlobal::new());
    t.get("/a.b", first).unwrap();
    assert_eq!(run(&t, HttpMethod::Get, "/a.b"), (200, "first".to_string()));
    assert_eq!(run(&t, HttpMethod::Get, "/axb"), (404, "Not Found".to_string()));
}

#[test]
fn first_added_route_wins() {
    let mut t: RouteTable<Handler> = RouteTable::new(SharedGlobal::new());
    t.get("/items/{id}", first).unwrap();
    t.get("/items/special", second).unwrap();
    assert_eq!(run(&t, HttpMethod::Get, "/items/special"), (200, "first".to_string()));
}

#[test]
fn first_added_route_wins_reversed() {
    let mut t: RouteTable<Handler> = RouteTable::new(SharedGlobal::new());
    t.get("/items/special", second).unwrap();
    t.get("/items/{id}", first).unwrap();
    assert_eq!(run(&t, HttpMethod::Get, "/items/special"), (200, "second".to_string()));
    assert_eq!(run(&t, HttpMethod::Get, "/items/other"), (200, "first".to_string()));
}

#[test]
fn duplicate_route_is_unreachable() {
    let mut t: RouteTable<Handler> = RouteTable::new(SharedGlobal::new());
    t.get("/x", first).unwrap();
    t.get("/x", second).unwrap();
    assert_eq!(t.len(), 2);
    assert_eq!(run(&t, HttpMethod::Get, "/x"), (200, "first".to_string()));
}

#[test]
fn empty_table_gives_not_found() {
    let t: RouteTable<Handler> = RouteTable::new(SharedGlobal::new());
    match t.dispatch(HttpMethod::Get, "/") {
        Outcome::NotFound(f) => {
            assert_eq!(f.status, 404);
            assert_eq!(f.body, "Not Found");
        }
        Outcome::Found { .. } => panic!("expected no match"),
    }
}

#[test]
fn unknown_path_gives_not_found() {
    let mut t: RouteTable<Handler> = RouteTable::new(SharedGlobal::new());
    t.get("/a", first).unwrap();
    t.post("/b", second).unwrap();
    assert_eq!(run(&t, HttpMethod::Get, "/c"), (404, "Not Found".to_string()));
    assert_eq!(run(&t, HttpMethod::Get, "/b"), (404, "Not Found".to_string()));
    assert_eq!(run(&t, HttpMethod::Put, "/a"), (404, "Not Found".to_string()));
}

#[test]
fn method_selects_route() {
    let mut t: RouteTable<Handler> = RouteTable::new(SharedGlobal::new());
    t.get("/x", first).unwrap();
    t.post("/x", second).unwrap();
    assert_eq!(run(&t, HttpMethod::Get, "/x"), (200, "first".to_string()));
    assert_eq!(run(&t, HttpMethod::Post, "/x"), (200, "second".to_string()));
}

#[test]
fn add_route_with_any_method() {
    let mut t: RouteTable<Handler> = RouteTable::new(SharedGlobal::new());
    t.add_route(HttpMethod::Delete, "/x/{id}", echo_id).unwrap();
    assert_eq!(run(&t, HttpMethod::Delete, "/x/5"), (200, "5".to_string()));
}

#[test]
fn bad_pattern_leaves_table_unchanged() {
    let mut t: RouteTable<Handler> = RouteTable::new(SharedGlobal::new());
    assert_eq!(t.get("/x/{id", first), Err(PatternError::UnclosedPlaceholder));
    assert_eq!(t.post("/x/{}", first), Err(PatternError::MissingName));
    assert_eq!(t.add_route(HttpMethod::Put, "/{a}/{a}", first), Err(PatternError::RepeatedName));
    assert_eq!(t.len(), 0);
}

#[test]
fn items_end_to_end() {
    let mut t: RouteTable<Handler> = RouteTable::new(SharedGlobal::new());
    t.get("/items/{id}", echo_id).unwrap();
    let (status, body) = run(&t, HttpMethod::Get, "/items/7");
    assert_eq!(status, 200);
    assert!(body.contains('7'));
    assert_eq!(run(&t, HttpMethod::Post, "/items/7"), (404, "Not Found".to_string()));
    assert_eq!(run(&t, HttpMethod::Get, "/items/"), (404, "Not Found".to_string()));
}

#[test]
fn context_reaches_shared_registry() {
    let mut g = SharedGlobal::new();
    g.register("greeting", "hello".to_string());
    let mut t: RouteTable<Handler> = RouteTable::new(g);
    t.get("/", first).unwrap();
    match t.dispatch(HttpMethod::Get, "/") {
        Outcome::Found { ctx, .. } => {
            assert_eq!(ctx.global::<String>("greeting"), Some(&"hello".to_string()));
            assert_eq!(ctx.global::<u32>("greeting"), None);
            assert_eq!(ctx.global::<String>("missing"), None);
        }
        Outcome::NotFound(_) => panic!("expected a match"),
    }
}

#[test]
fn fallback_is_fixed() {
    let f = route_core::router::not_found();
    assert_eq!(f.status, 404);
    assert_eq!(f.body, "Not Found");
}

#[test]
fn param_takes_first_pair_with_name() {
    let ctx = RequestContext {
        global: std::sync::Arc::new(SharedGlobal::new()),
        params: vec![
            ("a".to_string(), "1".to_string()),
            ("b".to_string(), "".to_string()),
            ("a".to_string(), "3".to_string()),
        ],
    };
    assert_eq!(ctx.param("a"), Some("1"));
    assert_eq!(ctx.param("b"), Some(""));
    assert_eq!(ctx.param("c"), None);
}
