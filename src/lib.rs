//! Request routing: per-method path matchers over matchit's radix tree, a
//! method router on top of them, and a closed, statically dispatched route
//! table.
pub mod dispatch;
pub mod matcher;
pub mod router;

pub use dispatch::{dispatch_get, dispatch_post, handle_get, handle_post, Handler, RouterStatic};
pub use matcher::{ConflictingRoute, Params, PathMatcher};
pub use router::{MethodRouter, RouteError};
