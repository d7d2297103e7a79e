use vstd::prelude::*;
use crate::matcher::{
    found_view, holds_pattern, is_literal, lookup_of, params_view, Params, PathMatcher,
};
use crate::router::{same_token, RouteError};

verus! {

/// The closed set of handlers that the static route table reaches.
#[derive(Debug, Clone, Copy, PartialEq, Eq, Structural)]
pub enum Handler {
    /// `GET /`.
    Index,
    /// `POST /api/v1/user`.
    CreateUser,
}

impl Handler {
    /// The HTTP status code of the handler's response.
    pub fn status(&self) -> (r: u16)
        ensures
            r == 200,
    {
        match self {
            Handler::Index => 200,
            Handler::CreateUser => 200,
        }
    }
}

impl RouteError {
    /// The HTTP status code that answers a request that found no route.
    pub fn status(&self) -> (r: u16)
        ensures
            r == (if *self == RouteError::NotFound { 404u16 } else { 405u16 }),
    {
        match self {
            RouteError::NotFound => 404,
            RouteError::MethodNotAllowed => 405,
        }
    }
}

/// The GET routes of the static table.
pub open spec fn get_routes() -> Seq<(Seq<char>, u32)> {
    seq![("/"@, 0u32)]
}

/// The POST routes of the static table.
pub open spec fn post_routes() -> Seq<(Seq<char>, u32)> {
    seq![("/api/v1/user"@, 0u32)]
}

/// The handler and captures for a lookup result of one method's routes, all
/// of whose ids lead to `handler`.
pub open spec fn found_route(
    found: Option<(u32, Seq<(Seq<char>, Seq<char>)>)>,
    handler: Handler,
) -> Result<(Handler, Seq<(Seq<char>, Seq<char>)>), RouteError> {
    match found {
        Some((_, captures)) => Ok((handler, captures)),
        None => Err(RouteError::NotFound),
    }
}

/// What the static table gives to a request: GET and POST have routes, any
/// other method has none.
pub open spec fn table_route(method: Seq<char>, path: Seq<char>) -> Result<
    (Handler, Seq<(Seq<char>, Seq<char>)>),
    RouteError,
> {
    if method == "GET"@ {
        found_route(lookup_of(get_routes(), path), Handler::Index)
    } else if method == "POST"@ {
        found_route(lookup_of(post_routes(), path), Handler::CreateUser)
    } else {
        Err(RouteError::MethodNotAllowed)
    }
}

/// What a route result says, as character sequences.
pub open spec fn routed_view(r: Result<(Handler, Params), RouteError>) -> Result<
    (Handler, Seq<(Seq<char>, Seq<char>)>),
    RouteError,
> {
    match r {
        Ok((h, p)) => Ok((h, params_view(p@))),
        Err(e) => Err(e),
    }
}

/// Maps a GET route id of the table to its handler; the table's GET ids
/// are {0}.
pub fn dispatch_get(id: u32) -> (h: Handler)
    requires
        id == 0,
    ensures
        h == Handler::Index,
{
    Handler::Index
}

/// Maps a POST route id of the table to its handler; the table's POST ids
/// are {0}.
pub fn dispatch_post(id: u32) -> (h: Handler)
    requires
        id == 0,
    ensures
        h == Handler::CreateUser,
{
    Handler::CreateUser
}

/// Turns the lookup result of the GET routes into the handler and its
/// captures: a found route goes to its handler, a miss is `NotFound`.
pub fn handle_get<'a>(found: Option<(u32, Params<'a>)>) -> (r: Result<(Handler, Params<'a>), RouteError>)
    requires
        found matches Some((id, _)) ==> id == 0,
    ensures
        routed_view(r) == found_route(found_view(found), Handler::Index),
{
    match found {
        Some((id, params)) => Ok((dispatch_get(id), params)),
        None => Err(RouteError::NotFound),
    }
}

/// Turns the lookup result of the POST routes into the handler and its
/// captures: a found route goes to its handler, a miss is `NotFound`.
pub fn handle_post<'a>(found: Option<(u32, Params<'a>)>) -> (r: Result<(Handler, Params<'a>), RouteError>)
    requires
        found matches Some((id, _)) ==> id == 0,
    ensures
        routed_view(r) == found_route(found_view(found), Handler::CreateUser),
{
    match found {
        Some((id, params)) => Ok((dispatch_post(id), params)),
        None => Err(RouteError::NotFound),
    }
}

/// A fixed route table, `GET /` and `POST /api/v1/user`, dispatched by
/// exhaustive matching on the route id.
pub struct RouterStatic {
    get: PathMatcher,
    post: PathMatcher,
}

impl RouterStatic {
    /// Holds the routes of the table, and no other.
    pub closed spec fn wf(&self) -> bool {
        self.get@ == get_routes() && self.post@ == post_routes()
    }

    /// Builds the table.
    pub fn new() -> (r: RouterStatic)
        ensures
            r.wf(),
    {
        let mut get = PathMatcher::new();
        proof {
            reveal_strlit("/");
            assert(is_literal("/"@));
        }
        let _ = get.insert("/", 0);
        let mut post = PathMatcher::new();
        proof {
            reveal_strlit("/api/v1/user");
            assert(is_literal("/api/v1/user"@));
        }
        let _ = post.insert("/api/v1/user", 0);
        assert(get@ =~= get_routes());
        assert(post@ =~= post_routes());
        RouterStatic { get, post }
    }

    /// Picks the handler for a request, with the parameters it captured: by
    /// method, then by path. A method other than GET and POST has no route
    /// and gets `MethodNotAllowed`; a path that no route of the method takes
    /// gets `NotFound`.
    pub fn route<'a>(&'a self, method: &str, path: &'a str) -> (r: Result<(Handler, Params<'a>), RouteError>)
        requires
            self.wf(),
        ensures
            routed_view(r) == table_route(method@, path@),
            method@ == "GET"@ && path@ == "/"@ ==> routed_view(r) == Ok::<
                (Handler, Seq<(Seq<char>, Seq<char>)>),
                RouteError,
            >((Handler::Index, Seq::empty())),
            method@ == "POST"@ && path@ == "/api/v1/user"@ ==> routed_view(r) == Ok::<
                (Handler, Seq<(Seq<char>, Seq<char>)>),
                RouteError,
            >((Handler::CreateUser, Seq::empty())),
    {
        proof {
            reveal_strlit("GET");
            reveal_strlit("POST");
            assert("GET"@.len() != "POST"@.len());
        }
        if same_token(method, "GET") {
            self.route_get(path)
        } else if same_token(method, "POST") {
            self.route_post(path)
        } else {
            Err(RouteError::MethodNotAllowed)
        }
    }

    /// Picks the handler for a GET request.
    fn route_get<'a>(&'a self, path: &'a str) -> (r: Result<(Handler, Params<'a>), RouteError>)
        requires
            self.wf(),
        ensures
            routed_view(r) == found_route(lookup_of(get_routes(), path@), Handler::Index),
            path@ == "/"@ ==> routed_view(r) == Ok::<
                (Handler, Seq<(Seq<char>, Seq<char>)>),
                RouteError,
            >((Handler::Index, Seq::empty())),
    {
        proof {
            reveal_strlit("/");
            assert(is_literal("/"@));
            assert(get_routes()[0].0 == "/"@);
            assert(holds_pattern(get_routes(), "/"@));
        }
        let found = self.get.lookup(path);
        handle_get(found)
    }

    /// Picks the handler for a POST request.
    fn route_post<'a>(&'a self, path: &'a str) -> (r: Result<(Handler, Params<'a>), RouteError>)
        requires
            self.wf(),
        ensures
            routed_view(r) == found_route(lookup_of(post_routes(), path@), Handler::CreateUser),
            path@ == "/api/v1/user"@ ==> routed_view(r) == Ok::<
                (Handler, Seq<(Seq<char>, Seq<char>)>),
                RouteError,
            >((Handler::CreateUser, Seq::empty())),
    {
        proof {
            reveal_strlit("/api/v1/user");
            assert(is_literal("/api/v1/user"@));
            assert(post_routes()[0].0 == "/api/v1/user"@);
            assert(holds_pattern(post_routes(), "/api/v1/user"@));
        }
        let found = self.post.lookup(path);
        handle_post(found)
    }
}

} // verus!
