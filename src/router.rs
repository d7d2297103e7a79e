use vstd::prelude::*;
use crate::matcher::{
    admissible, holds_id, holds_pattern, insert_accepts, is_ascii_text, is_literal, literal_hit, lookup_of, params_view,
    ConflictingRoute, Params, PathMatcher,
};

verus! {

/// Why a request found no route.
#[derive(Debug, Clone, Copy, PartialEq, Eq, Structural)]
pub enum RouteError {
    /// The method has routes, but none of them takes the path.
    NotFound,
    /// No route is registered for the method.
    MethodNotAllowed,
}

/// The routes registered under `method`: none where the method is unknown.
pub open spec fn routes_for(
    table: Map<Seq<char>, Seq<(Seq<char>, u32)>>,
    method: Seq<char>,
) -> Seq<(Seq<char>, u32)> {
    if table.contains_key(method) {
        table[method]
    } else {
        Seq::empty()
    }
}

/// What resolving `path` under `method` gives on a router whose table is
/// `table`.
pub open spec fn resolution(
    table: Map<Seq<char>, Seq<(Seq<char>, u32)>>,
    method: Seq<char>,
    path: Seq<char>,
) -> Result<(u32, Seq<(Seq<char>, Seq<char>)>), RouteError> {
    if !table.contains_key(method) {
        Err(RouteError::MethodNotAllowed)
    } else {
        match lookup_of(table[method], path) {
            Some(found) => Ok(found),
            None => Err(RouteError::NotFound),
        }
    }
}

/// What a resolve result says, as character sequences.
pub open spec fn resolved_view(r: Result<(u32, Params), RouteError>) -> Result<
    (u32, Seq<(Seq<char>, Seq<char>)>),
    RouteError,
> {
    match r {
        Ok((id, p)) => Ok((id, params_view(p@))),
        Err(e) => Err(e),
    }
}

/// The route found by a resolve result, if any.
pub open spec fn found_of(r: Result<(u32, Seq<(Seq<char>, Seq<char>)>), RouteError>) -> Option<
    (u32, Seq<(Seq<char>, Seq<char>)>),
> {
    match r {
        Ok(found) => Some(found),
        Err(_) => None,
    }
}

/// One path matcher per HTTP method that has at least one route.
pub struct MethodRouter {
    methods: Vec<String>,
    matchers: Vec<PathMatcher>,
    table: Ghost<Map<Seq<char>, Seq<(Seq<char>, u32)>>>,
}

impl View for MethodRouter {
    type V = Map<Seq<char>, Seq<(Seq<char>, u32)>>;

    closed spec fn view(&self) -> Map<Seq<char>, Seq<(Seq<char>, u32)>> {
        self.table@
    }
}

/// Whether two tokens are the same character sequence.
pub(crate) fn same_token(a: &str, b: &str) -> (r: bool)
    ensures
        r == (a@ == b@),
{
    let n = a.unicode_len();
    if n != b.unicode_len() {
        return false;
    }
    let mut i: usize = 0;
    while i < n
        invariant
            n == a@.len(),
            n == b@.len(),
            i <= n,
            a@.subrange(0, i as int) == b@.subrange(0, i as int),
        decreases n - i,
    {
        if a.get_char(i) != b.get_char(i) {
            assert(a@[i as int] != b@[i as int]);
            return false;
        }
        assert(a@.subrange(0, i + 1) == a@.subrange(0, i as int).push(a@[i as int]));
        assert(b@.subrange(0, i + 1) == b@.subrange(0, i as int).push(b@[i as int]));
        i = i + 1;
    }
    assert(a@ == a@.subrange(0, n as int));
    assert(b@ == b@.subrange(0, n as int));
    true
}

impl MethodRouter {
    /// The router's internal invariant: one matcher per listed method, no
    /// method listed twice, and the table lists exactly these methods.
    pub closed spec fn wf(&self) -> bool {
        &&& self.methods.len() == self.matchers.len()
        &&& forall|i: int, j: int|
            0 <= i < j < self.methods.len() ==> self.methods[i]@ != self.methods[j]@
        &&& forall|i: int|
            0 <= i < self.methods.len() ==> #[trigger] self.table@.contains_key(self.methods[i]@)
                && self.table@[self.methods[i]@] == self.matchers[i]@
        &&& forall|m: Seq<char>|
            #[trigger] self.table@.contains_key(m) ==> exists|i: int|
                0 <= i < self.methods.len() && self.methods[i]@ == m
    }

    /// A router with no route.
    pub fn new() -> (r: MethodRouter)
        ensures
            r.wf(),
            r@ == Map::<Seq<char>, Seq<(Seq<char>, u32)>>::empty(),
    {
        MethodRouter { methods: Vec::new(), matchers: Vec::new(), table: Ghost(Map::empty()) }
    }

    /// The position of `method` among the listed methods.
    fn position(&self, method: &str) -> (r: Option<usize>)
        requires
            self.wf(),
        ensures
            match r {
                Some(i) => i < self.methods.len() && self.methods[i as int]@ == method@,
                None => !self@.contains_key(method@),
            },
    {
        let mut i: usize = 0;
        while i < self.methods.len()
            invariant
                self.wf(),
                i <= self.methods.len(),
                forall|k: int| 0 <= k < i ==> self.methods[k]@ != method@,
            decreases self.methods.len() - i,
        {
            if same_token(self.methods[i].as_str(), method) {
                return Some(i);
            }
            i = i + 1;
        }
        None
    }

    /// Registers `pattern` under `method` with route id `id`. A refused
    /// pattern leaves the router as it was; what is refused is said at
    /// `PathMatcher::insert`.
    pub fn register(&mut self, method: &str, pattern: &str, id: u32) -> (r: Result<(), ConflictingRoute>)
        requires
            old(self).wf(),
        ensures
            final(self).wf(),
            r is Ok == (admissible(pattern@) && insert_accepts(
                routes_for(old(self)@, method@),
                pattern@,
            )),
            r is Ok ==> final(self)@ == old(self)@.insert(
                method@,
                routes_for(old(self)@, method@).push((pattern@, id)),
            ),
            r is Err ==> final(self)@ == old(self)@,
            !old(self)@.contains_key(method@) && is_literal(pattern@) && pattern@.len() > 0
                && is_ascii_text(pattern@) ==> r is Ok,
            r is Ok && is_literal(pattern@) && pattern@.len() > 0 ==> !holds_pattern(
                routes_for(old(self)@, method@),
                pattern@,
            ),
    {
        match self.position(method) {
            Some(i) => {
                let mut m = self.matchers.remove(i);
                let res = m.insert(pattern, id);
                self.matchers.insert(i, m);
                if res.is_ok() {
                    self.table = Ghost(self.table@.insert(method@, self.matchers[i as int]@));
                }
                proof {
                    assert(self.matchers@ =~= old(self).matchers@.update(i as int, self.matchers[i as int]));
                    assert forall|k: int| 0 <= k < self.methods.len() implies
                        #[trigger] self.table@.contains_key(self.methods[k]@)
                        && self.table@[self.methods[k]@] == self.matchers[k]@ by {
                        assert(old(self).table@.contains_key(self.methods[k]@));
                        if k == i {
                            assert(self.methods[k]@ == method@);
                        } else {
                            assert(self.methods[k]@ != method@);
                        }
                    }
                    assert forall|m: Seq<char>| #[trigger] self.table@.contains_key(m) implies exists|k: int|
                        0 <= k < self.methods.len() && self.methods[k]@ == m by {
                        if m != method@ {
                            assert(old(self).table@.contains_key(m));
                        }
                    }
                }
                res
            },
            None => {
                let mut m = PathMatcher::new();
                let res = m.insert(pattern, id);
                if res.is_ok() {
                    let ghost before = self.methods@;
                    self.methods.push(method.to_owned());
                    self.matchers.push(m);
                    self.table = Ghost(self.table@.insert(method@, self.matchers[self.matchers.len() - 1]@));
                    proof {
                        assert(self.methods[self.methods.len() - 1]@ == method@);
                        assert forall|k: int| 0 <= k < self.methods.len() - 1 implies
                            self.methods[k] == before[k] by {}
                        assert forall|k: int| 0 <= k < before.len() implies before[k]@ != method@ by {
                            assert(old(self).table@.contains_key(before[k]@));
                        }
                        assert forall|k: int| 0 <= k < self.methods.len() implies
                            #[trigger] self.table@.contains_key(self.methods[k]@)
                            && self.table@[self.methods[k]@] == self.matchers[k]@ by {
                            if k < before.len() {
                                assert(old(self).table@.contains_key(before[k]@));
                            }
                        }
                        assert forall|m: Seq<char>| #[trigger] self.table@.contains_key(m) implies exists|k: int|
                            0 <= k < self.methods.len() && self.methods[k]@ == m by {
                            if m != method@ {
                                assert(old(self).table@.contains_key(m));
                                let k = choose|k: int| 0 <= k < before.len() && before[k]@ == m;
                                assert(self.methods[k]@ == m);
                            } else {
                                assert(self.methods[self.methods.len() - 1]@ == m);
                            }
                        }
                    }
                }
                res
            },
        }
    }

    /// Resolves `path` under `method`: the route id and the captured
    /// parameters, `MethodNotAllowed` where the method has no route, and
    /// `NotFound` where its routes do not take the path.
    pub fn resolve<'a>(&'a self, method: &str, path: &'a str) -> (r: Result<(u32, Params<'a>), RouteError>)
        requires
            self.wf(),
        ensures
            resolved_view(r) == resolution(self@, method@, path@),
            literal_hit(routes_for(self@, method@), path@, found_of(resolved_view(r))),
            r matches Ok((id, _)) ==> holds_id(routes_for(self@, method@), id),
    {
        match self.position(method) {
            None => Err(RouteError::MethodNotAllowed),
            Some(i) => match self.matchers[i].lookup(path) {
                Some(found) => Ok(found),
                None => Err(RouteError::NotFound),
            },
        }
    }
}

/// Round trip for literal patterns: once a nonempty pattern without
/// parameters or wildcards has been registered under `method` with id `id`,
/// resolving that very path under `method` gives `id` and no capture,
/// whatever other routes the method holds.
pub proof fn lemma_literal_round_trip(
    before: Map<Seq<char>, Seq<(Seq<char>, u32)>>,
    method: Seq<char>,
    pattern: Seq<char>,
    id: u32,
    result: Result<(u32, Params), RouteError>,
)
    requires
        is_literal(pattern),
        pattern.len() > 0,
        !holds_pattern(routes_for(before, method), pattern),
        literal_hit(
            routes_for(before.insert(method, routes_for(before, method).push((pattern, id))), method),
            pattern,
            found_of(resolved_view(result)),
        ),
    ensures
        resolved_view(result) == Ok::<(u32, Seq<(Seq<char>, Seq<char>)>), RouteError>(
            (id, Seq::empty()),
        ),
{
    let old_routes = routes_for(before, method);
    let routes = old_routes.push((pattern, id));
    let after = before.insert(method, routes);
    assert(routes_for(after, method) == routes);
    assert(routes[old_routes.len() as int].0 == pattern);
    assert(holds_pattern(routes, pattern));
    let j = choose|j: int|
        0 <= j < routes.len() && #[trigger] routes[j].0 == pattern && found_of(resolved_view(result))
            == Some((routes[j].1, Seq::<(Seq<char>, Seq<char>)>::empty()));
    if j < old_routes.len() {
        assert(old_routes[j].0 == pattern);
        assert(holds_pattern(old_routes, pattern));
    }
}

/// Resolution has no hidden state: two resolutions of the same method and
/// path on the same router give the same route id and the same captures.
pub proof fn lemma_resolve_repeatable(
    router: MethodRouter,
    method: Seq<char>,
    path: Seq<char>,
    first: Result<(u32, Params), RouteError>,
    second: Result<(u32, Params), RouteError>,
)
    requires
        resolved_view(first) == resolution(router@, method, path),
        resolved_view(second) == resolution(router@, method, path),
    ensures
        resolved_view(first) == resolved_view(second),
{
}

/// Methods are kept apart: where routes are registered under one method
/// only, every request with another method is refused as
/// `MethodNotAllowed`, whatever its path.
pub proof fn lemma_method_isolation(
    registered: Seq<char>,
    routes: Seq<(Seq<char>, u32)>,
    method: Seq<char>,
    path: Seq<char>,
)
    requires
        method != registered,
    ensures
        resolution(
            Map::<Seq<char>, Seq<(Seq<char>, u32)>>::empty().insert(registered, routes),
            method,
            path,
        ) == Err::<(u32, Seq<(Seq<char>, Seq<char>)>), RouteError>(RouteError::MethodNotAllowed),
{
}

} // verus!
