use vstd::prelude::*;

verus! {

#[verifier::external_type_specification]
#[verifier::external_body]
#[verifier::reject_recursive_types(T)]
pub struct ExRouter<T>(matchit::Router<T>);

#[verifier::external_type_specification]
#[verifier::external_body]
pub struct ExInsertError(matchit::InsertError);

/// The routes that a matchit router holds: each pattern with its route id, in
/// the order in which they were inserted successfully.
pub uninterp spec fn routes_of(r: matchit::Router<u32>) -> Seq<(Seq<char>, u32)>;

/// Whether a matchit router was built by nothing but `new`, clones and
/// successful inserts: a refused insert may leave its tree reshaped.
pub uninterp spec fn intact(r: matchit::Router<u32>) -> bool;

/// Whether matchit accepts `pattern` into a router that holds `routes`.
pub uninterp spec fn insert_accepts(routes: Seq<(Seq<char>, u32)>, pattern: Seq<char>) -> bool;

/// What matchit finds for `path` in a router that holds `routes`: the route id
/// and the captured (name, value) pairs, or nothing.
pub uninterp spec fn lookup_of(routes: Seq<(Seq<char>, u32)>, path: Seq<char>) -> Option<
    (u32, Seq<(Seq<char>, Seq<char>)>),
>;

/// A pattern made of literal characters only: no parameter (`:`) and no
/// wildcard (`*`).
pub open spec fn is_literal(pattern: Seq<char>) -> bool {
    forall|i: int| 0 <= i < pattern.len() ==> pattern[i] != ':' && pattern[i] != '*'
}

/// Whether every character of `s` is ASCII, as an encoded path is.
pub open spec fn is_ascii_text(s: Seq<char>) -> bool {
    forall|i: int| 0 <= i < s.len() ==> (s[i] as u32) < 128
}

/// How many `:` characters `s` holds; each starts at most one named
/// parameter.
pub open spec fn colon_count(s: Seq<char>) -> nat
    decreases s.len(),
{
    if s.len() == 0 {
        0
    } else {
        colon_count(s.drop_last()) + if s.last() == ':' { 1nat } else { 0nat }
    }
}

/// The most named parameters that a pattern may hold.
pub const MAX_PARAMS: usize = 25;

/// Whether `routes` holds a route with this id.
pub open spec fn holds_id(routes: Seq<(Seq<char>, u32)>, id: u32) -> bool {
    exists|i: int| 0 <= i < routes.len() && #[trigger] routes[i].1 == id
}

/// Whether `routes` holds a route with exactly this pattern.
pub open spec fn holds_pattern(routes: Seq<(Seq<char>, u32)>, pattern: Seq<char>) -> bool {
    exists|i: int| 0 <= i < routes.len() && #[trigger] routes[i].0 == pattern
}

/// A nonempty literal path that a held route spells out exactly is found,
/// with no capture, under the id of such a route: literal routes win over
/// parameters and wildcards.
pub open spec fn literal_hit(
    routes: Seq<(Seq<char>, u32)>,
    path: Seq<char>,
    found: Option<(u32, Seq<(Seq<char>, Seq<char>)>)>,
) -> bool {
    is_literal(path) && path.len() > 0 && holds_pattern(routes, path) ==> exists|j: int|
        0 <= j < routes.len() && #[trigger] routes[j].0 == path && found == Some(
            (routes[j].1, Seq::<(Seq<char>, Seq<char>)>::empty()),
        )
}

/// Captured parameters, in the order of the pattern: names borrowed from the
/// matcher, values borrowed from the path.
pub type Params<'a> = Vec<(&'a str, &'a str)>;

/// What the captured pairs say, as character sequences.
pub open spec fn params_view(p: Seq<(&str, &str)>) -> Seq<(Seq<char>, Seq<char>)> {
    p.map_values(|c: (&str, &str)| (c.0@, c.1@))
}

/// What a lookup result says, as character sequences.
pub open spec fn found_view(r: Option<(u32, Params)>) -> Option<(u32, Seq<(Seq<char>, Seq<char>)>)> {
    match r {
        Some((id, p)) => Some((id, params_view(p@))),
        None => None,
    }
}

/// Relies on matchit::Router::new: a new router holds no route.
#[verifier::external_body]
fn new_router() -> (r: matchit::Router<u32>)
    ensures
        routes_of(r) == Seq::<(Seq<char>, u32)>::empty(),
        intact(r),
{
    matchit::Router::new()
}

/// Relies on matchit's Clone for Router: the copy is a deep copy of the
/// tree, so it holds the same routes and is intact where the original is.
#[verifier::external_body]
fn copy_router(r: &matchit::Router<u32>) -> (c: matchit::Router<u32>)
    ensures
        routes_of(c) == routes_of(*r),
        intact(c) == intact(*r),
{
    r.clone()
}

/// Relies on matchit::Router::insert. On an intact router: whether it
/// succeeds depends on the held routes and the pattern; a router with no
/// route accepts a pattern that holds no `:` or `*`; a nonempty such pattern
/// that is already held is refused, its node having a value. Success adds
/// the route and keeps the router intact. matchit renames named parameters
/// to the letters `a` to `z` and panics past the 25th, so the pattern holds
/// at most 25 `:`; it cuts the pattern at byte offsets to word a conflict,
/// which is safe on ASCII text only.
#[verifier::external_body]
fn router_insert(r: &mut matchit::Router<u32>, pattern: &str, id: u32) -> (res: Result<
    (),
    matchit::InsertError,
>)
    requires
        colon_count(pattern@) <= MAX_PARAMS,
        is_ascii_text(pattern@),
    ensures
        intact(*old(r)) ==> (res is Ok == insert_accepts(routes_of(*old(r)), pattern@)),
        res is Ok ==> routes_of(*final(r)) == routes_of(*old(r)).push((pattern@, id)),
        res is Ok && intact(*old(r)) ==> intact(*final(r)),
        intact(*old(r)) && routes_of(*old(r)).len() == 0 && is_literal(pattern@) ==> res is Ok,
        intact(*old(r)) && is_literal(pattern@) && pattern@.len() > 0 && holds_pattern(
            routes_of(*old(r)),
            pattern@,
        ) ==> res is Err,
{
    r.insert(pattern, id)
}

/// Relies on matchit::Router::at. On an intact router: the match depends on
/// the held routes and the path alone; static children are tried first, so a path that equals a
/// held static route ends on that route's node, with no parameter pushed;
/// the value found is one that an insert stored.
#[verifier::external_body]
fn router_at<'a>(r: &'a matchit::Router<u32>, path: &'a str) -> (res: Option<(u32, Params<'a>)>)
    requires
        intact(*r),
    ensures
        found_view(res) == lookup_of(routes_of(*r), path@),
        literal_hit(routes_of(*r), path@, found_view(res)),
        res matches Some((id, _)) ==> holds_id(routes_of(*r), id),
{
    match r.at(path) {
        Ok(m) => Some((*m.value, m.params.iter().collect())),
        Err(_) => None,
    }
}

/// A registration refused: the pattern duplicates or clashes with a held
/// route, or its parameter or wildcard is malformed.
#[derive(Debug, Clone, Copy, PartialEq, Eq, Structural)]
pub struct ConflictingRoute;

/// A pattern without `:` holds no named parameter.
proof fn lemma_literal_has_no_colon(s: Seq<char>)
    requires
        is_literal(s),
    ensures
        colon_count(s) == 0,
    decreases s.len(),
{
    if s.len() > 0 {
        assert(is_literal(s.drop_last()));
        lemma_literal_has_no_colon(s.drop_last());
    }
}

/// The patterns that a matcher takes to matchit: nonempty, ASCII, with at
/// most 25 named parameters.
pub open spec fn admissible(pattern: Seq<char>) -> bool {
    pattern.len() > 0 && is_ascii_text(pattern) && colon_count(pattern) <= MAX_PARAMS
}

/// Whether `s` is an admissible pattern.
fn check_pattern(s: &str) -> (ok: bool)
    ensures
        ok == admissible(s@),
{
    let len = s.unicode_len();
    let mut n: usize = 0;
    let mut i: usize = 0;
    while i < len
        invariant
            len == s@.len(),
            i <= len,
            n <= i,
            n == colon_count(s@.subrange(0, i as int)),
            is_ascii_text(s@.subrange(0, i as int)),
        decreases len - i,
    {
        assert(s@.subrange(0, i + 1).drop_last() == s@.subrange(0, i as int));
        let c = s.get_char(i);
        if (c as u32) >= 128 {
            assert(!is_ascii_text(s@));
            return false;
        }
        if c == ':' {
            n = n + 1;
        }
        assert(is_ascii_text(s@.subrange(0, i + 1)));
        i = i + 1;
    }
    assert(s@.subrange(0, len as int) == s@);
    len > 0 && n <= MAX_PARAMS
}

/// The route table of one HTTP method: patterns with their route ids.
pub struct PathMatcher {
    tree: matchit::Router<u32>,
}

impl PathMatcher {
    /// The tree was built by successful inserts only.
    #[verifier::type_invariant]
    spec fn inv(&self) -> bool {
        intact(self.tree)
    }
}

impl View for PathMatcher {
    type V = Seq<(Seq<char>, u32)>;

    closed spec fn view(&self) -> Seq<(Seq<char>, u32)> {
        routes_of(self.tree)
    }
}

impl PathMatcher {
    /// A matcher with no route.
    pub fn new() -> (m: PathMatcher)
        ensures
            m@ == Seq::<(Seq<char>, u32)>::empty(),
    {
        PathMatcher { tree: new_router() }
    }

    /// Registers `pattern` under `id`. A refused pattern leaves the matcher
    /// as it was. Refused are: the empty pattern; a pattern with a non-ASCII
    /// character (patterns are percent-encoded, as paths are); a pattern
    /// with more than 25 named parameters;
    /// a conflict with a held route, such as a pattern of the same shape
    /// under other parameter names, or a parameter and a wildcard at one
    /// position (so a wildcard can never serve as the fallback of a
    /// parameter at the same position); a malformed parameter or wildcard.
    pub fn insert(&mut self, pattern: &str, id: u32) -> (r: Result<(), ConflictingRoute>)
        ensures
            r is Ok == (admissible(pattern@) && insert_accepts(old(self)@, pattern@)),
            r is Ok ==> final(self)@ == old(self)@.push((pattern@, id)),
            r is Err ==> final(self)@ == old(self)@,
            old(self)@.len() == 0 && is_literal(pattern@) && pattern@.len() > 0 && is_ascii_text(
                pattern@,
            ) ==> r is Ok,
            is_literal(pattern@) && pattern@.len() > 0 && holds_pattern(old(self)@, pattern@)
                ==> r is Err,
    {
        proof {
            use_type_invariant(&*self);
            if is_literal(pattern@) {
                lemma_literal_has_no_colon(pattern@);
            }
        }
        if !check_pattern(pattern) {
            return Err(ConflictingRoute);
        }
        // matchit may reshape its tree before it refuses a pattern: insert
        // into a copy and keep it only on success.
        let mut trial = copy_router(&self.tree);
        match router_insert(&mut trial, pattern, id) {
            Ok(()) => {
                self.tree = trial;
                Ok(())
            },
            Err(_) => Err(ConflictingRoute),
        }
    }

    /// Finds the route that `path` selects, with its captured parameters.
    pub fn lookup<'a>(&'a self, path: &'a str) -> (r: Option<(u32, Params<'a>)>)
        ensures
            found_view(r) == lookup_of(self@, path@),
            literal_hit(self@, path@, found_view(r)),
            r matches Some((id, _)) ==> holds_id(self@, id),
    {
        proof {
            use_type_invariant(self);
        }
        router_at(&self.tree, path)
    }
}

} // verus!
