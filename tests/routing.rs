use static_route::{
    dispatch_get, dispatch_post, handle_get, handle_post, ConflictingRoute, Handler, MethodRouter, PathMatcher,
    RouteError, RouterStatic,
};

fn status_of(router: &RouterStatic, req: &http::Request<()>) -> u16 {
    match router.route(req.method().as_str(), req.uri().path()) {
        Ok((handler, _)) => handler.status(),
        Err(e) => e.status(),
    }
}

#[test]
fn test() {
    let router = RouterStatic::new();
    let req = http::Request::get("/").body(()).unwrap();
    assert_eq!(status_of(&router, &req), http::StatusCode::OK.as_u16());

    let req = http::Request::get("/abcd").body(()).unwrap();
    assert_eq!(status_of(&router, &req), http::StatusCode::NOT_FOUND.as_u16());

    let req = http::Request::get("/abcd").body(()).unwrap();
    assert_eq!(status_of(&router, &req), http::StatusCode::NOT_FOUND.as_u16());

    let req = http::Request::get("/api/v1/user").body(()).unwrap();
    assert_eq!(status_of(&router, &req), http::StatusCode::NOT_FOUND.as_u16());

    let req = http::Request::post("/api/v1/user").body(()).unwrap();
    assert_eq!(status_of(&router, &req), http::StatusCode::OK.as_u16());
}

#[test]
fn static_table_handlers() {
    let router = RouterStatic::new();
    assert_eq!(router.route("GET", "/"), Ok((Handler::Index, vec![])));
    assert_eq!(router.route("POST", "/api/v1/user"), Ok((Handler::CreateUser, vec![])));
    assert_eq!(router.route("POST", "/"), Err(RouteError::NotFound));
    assert_eq!(router.route("GET", "/abcd"), Err(RouteError::NotFound));
    assert_eq!(router.route("PUT", "/"), Err(RouteError::MethodNotAllowed));
    assert_eq!(router.route("get", "/"), Err(RouteError::MethodNotAllowed));
}

#[test]
fn static_table_unknown_method_status() {
    let router = RouterStatic::new();
    let req = http::Request::put("/").body(()).unwrap();
    assert_eq!(status_of(&router, &req), http::StatusCode::METHOD_NOT_ALLOWED.as_u16());
}

#[test]
fn handler_status_codes() {
    assert_eq!(Handler::Index.status(), 200);
    assert_eq!(Handler::CreateUser.status(), 200);
    assert_eq!(RouteError::NotFound.status(), 404);
    assert_eq!(RouteError::MethodNotAllowed.status(), 405);
}

#[test]
fn route_ids_map_to_handlers() {
    assert_eq!(dispatch_get(0), Handler::Index);
    assert_eq!(dispatch_post(0), Handler::CreateUser);
}

fn pattern_with_params(n: usize) -> String {
    let mut p = String::new();
    for i in 0..n {
        p.push_str(&format!("/:p{}", i));
    }
    p
}

#[test]
fn twenty_five_parameters_are_accepted() {
    let mut m = PathMatcher::new();
    let pattern = pattern_with_params(25);
    assert_eq!(m.insert(&pattern, 1), Ok(()));
    let path = "/v".repeat(25);
    let found = m.lookup(&path).unwrap();
    assert_eq!(found.0, 1);
    assert_eq!(found.1.len(), 25);
    assert_eq!(found.1[24], ("p24", "v"));
}

#[test]
fn twenty_six_parameters_are_refused() {
    let mut m = MethodRouter::new();
    let pattern = pattern_with_params(26);
    assert_eq!(m.register("GET", &pattern, 1), Err(ConflictingRoute));
    assert_eq!(m.resolve("GET", "/x"), Err(RouteError::MethodNotAllowed));
}

#[test]
fn round_trip_captures_in_order() {
    let mut m = MethodRouter::new();
    assert_eq!(m.register("GET", "/users/:id/posts/:post", 5), Ok(()));
    assert_eq!(
        m.resolve("GET", "/users/7/posts/abc"),
        Ok((5, vec![("id", "7"), ("post", "abc")]))
    );
    assert_eq!(m.resolve("GET", "/users/7/posts"), Err(RouteError::NotFound));
}

#[test]
fn round_trip_literal_route() {
    let mut m = PathMatcher::new();
    assert_eq!(m.insert("/api/v1/user", 3), Ok(()));
    assert_eq!(m.lookup("/api/v1/user"), Some((3, vec![])));
}

#[test]
fn literal_beats_parameter() {
    let mut m = MethodRouter::new();
    assert_eq!(m.register("GET", "/users/:id", 1), Ok(()));
    assert_eq!(m.register("GET", "/users/active", 2), Ok(()));
    assert_eq!(m.resolve("GET", "/users/active"), Ok((2, vec![])));
    assert_eq!(m.resolve("GET", "/users/42"), Ok((1, vec![("id", "42")])));
}

#[test]
fn wildcard_takes_the_rest_of_the_path() {
    let mut m = PathMatcher::new();
    assert_eq!(m.insert("/files/*rest", 2), Ok(()));
    assert_eq!(m.lookup("/files/a/b"), Some((2, vec![("rest", "a/b")])));
    assert_eq!(m.lookup("/files/a"), Some((2, vec![("rest", "a")])));
}

#[test]
fn parameter_takes_one_segment() {
    let mut m = PathMatcher::new();
    assert_eq!(m.insert("/files/:name", 1), Ok(()));
    assert_eq!(m.lookup("/files/a"), Some((1, vec![("name", "a")])));
    assert_eq!(m.lookup("/files/a/b"), None);
}

#[test]
fn parameter_and_wildcard_at_one_position_conflict() {
    let mut m = PathMatcher::new();
    assert_eq!(m.insert("/files/:name", 1), Ok(()));
    assert_eq!(m.insert("/files/*rest", 2), Err(ConflictingRoute));
    assert_eq!(m.lookup("/files/a"), Some((1, vec![("name", "a")])));
}

#[test]
fn renamed_parameter_conflicts() {
    let mut m = MethodRouter::new();
    assert_eq!(m.register("GET", "/a/:x", 1), Ok(()));
    assert_eq!(m.register("GET", "/a/:y", 2), Err(ConflictingRoute));
    assert_eq!(m.resolve("GET", "/a/q"), Ok((1, vec![("x", "q")])));
}

#[test]
fn duplicate_pattern_conflicts() {
    let mut m = MethodRouter::new();
    assert_eq!(m.register("GET", "/x", 1), Ok(()));
    assert_eq!(m.register("GET", "/x", 1), Err(ConflictingRoute));
    assert_eq!(m.register("POST", "/x", 1), Ok(()));
}

#[test]
fn malformed_patterns_are_refused() {
    let mut m = MethodRouter::new();
    assert_eq!(m.register("GET", "/a/*rest/b", 1), Err(ConflictingRoute));
    assert_eq!(m.register("GET", "/a/:", 1), Err(ConflictingRoute));
    assert_eq!(m.resolve("GET", "/a/x"), Err(RouteError::MethodNotAllowed));
}

#[test]
fn refused_registration_keeps_routes() {
    let mut m = PathMatcher::new();
    assert_eq!(m.insert("/a/:x", 1), Ok(()));
    assert_eq!(m.insert("/a/:x/*w/z", 2), Err(ConflictingRoute));
    assert_eq!(m.lookup("/a/q"), Some((1, vec![("x", "q")])));
    assert_eq!(m.lookup("/a/q/w/z"), None);
}

#[test]
fn method_isolation() {
    let mut m = MethodRouter::new();
    assert_eq!(m.register("GET", "/x", 1), Ok(()));
    assert_eq!(m.resolve("POST", "/x"), Err(RouteError::MethodNotAllowed));
    assert_eq!(m.resolve("GET", "/y"), Err(RouteError::NotFound));
    assert_eq!(m.resolve("GET", "/x"), Ok((1, vec![])));
}

#[test]
fn repeated_lookups_agree() {
    let mut m = MethodRouter::new();
    assert_eq!(m.register("GET", "/users/:id", 1), Ok(()));
    let first = m.resolve("GET", "/users/9");
    let second = m.resolve("GET", "/users/9");
    assert_eq!(first, second);
    assert_eq!(m.resolve("GET", "/nope"), m.resolve("GET", "/nope"));
}

#[test]
fn ids_reused_across_methods() {
    let mut m = MethodRouter::new();
    assert_eq!(m.register("GET", "/", 0), Ok(()));
    assert_eq!(m.register("POST", "/api/v1/user", 0), Ok(()));
    assert_eq!(m.resolve("GET", "/"), Ok((0, vec![])));
    assert_eq!(m.resolve("GET", "/abcd"), Err(RouteError::NotFound));
    assert_eq!(m.resolve("GET", "/api/v1/user"), Err(RouteError::NotFound));
    assert_eq!(m.resolve("POST", "/api/v1/user"), Ok((0, vec![])));
}

#[test]
fn empty_segments_and_trailing_slashes_are_literal() {
    let mut m = PathMatcher::new();
    assert_eq!(m.insert("/a//b", 1), Ok(()));
    assert_eq!(m.insert("/foo", 2), Ok(()));
    assert_eq!(m.lookup("/a//b"), Some((1, vec![])));
    assert_eq!(m.lookup("/a/b"), None);
    assert_eq!(m.lookup("/foo/"), None);
    assert_eq!(m.lookup("/foo"), Some((2, vec![])));
}

#[test]
fn empty_router_finds_nothing() {
    let m = MethodRouter::new();
    assert_eq!(m.resolve("GET", "/"), Err(RouteError::MethodNotAllowed));
    let p = PathMatcher::new();
    assert_eq!(p.lookup("/"), None);
}

#[test]
fn lookup_results_map_to_handlers() {
    assert_eq!(handle_get(None), Err(RouteError::NotFound));
    assert_eq!(handle_get(Some((0, vec![("id", "7")]))), Ok((Handler::Index, vec![("id", "7")])));
    assert_eq!(handle_post(None), Err(RouteError::NotFound));
    assert_eq!(handle_post(Some((0, vec![]))), Ok((Handler::CreateUser, vec![])));
}

#[test]
fn empty_pattern_is_refused() {
    let mut m = PathMatcher::new();
    assert_eq!(m.insert("", 1), Err(ConflictingRoute));
    assert_eq!(m.insert("", 2), Err(ConflictingRoute));
    assert_eq!(m.lookup(""), None);
}

#[test]
fn non_ascii_patterns_are_refused() {
    let mut m = MethodRouter::new();
    assert_eq!(m.register("GET", "/\u{1F618}", 1), Err(ConflictingRoute));
    assert_eq!(m.register("GET", "/\u{1F619}", 2), Err(ConflictingRoute));
    assert_eq!(m.register("GET", "/\u{1F618}", 3), Err(ConflictingRoute));
    assert_eq!(m.register("GET", "/%F0%9F%98%98", 4), Ok(()));
    assert_eq!(m.resolve("GET", "/%F0%9F%98%98"), Ok((4, vec![])));
}
