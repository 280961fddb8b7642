//! Routing of scrape requests: which reply a method and a path are owed.

use vstd::prelude::*;
use crate::bytes::bytes_eq;

verus! {

/// What the endpoint does with one request.
#[derive(Clone, Copy, Debug, PartialEq, Eq, Structural)]
pub enum Route {
    /// Serialize the registry and answer 200 with the exposition text.
    Metrics,
    /// Answer 200 with an empty body.
    Liveness,
    /// Answer 404 with an empty body.
    NotFound,
}

/// The bytes of the method name `GET`.
pub open spec fn get_bytes() -> Seq<u8> {
    seq![71u8, 69u8, 84u8]
}

/// The bytes of the path `/metrics`.
pub open spec fn metrics_path() -> Seq<u8> {
    seq![47u8, 109u8, 101u8, 116u8, 114u8, 105u8, 99u8, 115u8]
}

/// The bytes of the path `/`.
pub open spec fn root_path() -> Seq<u8> {
    seq![47u8]
}

/// The route owed to a request, by method and path.
pub open spec fn route_of(method: Seq<u8>, path: Seq<u8>) -> Route {
    if method == get_bytes() && path == metrics_path() {
        Route::Metrics
    } else if method == get_bytes() && path == root_path() {
        Route::Liveness
    } else {
        Route::NotFound
    }
}

/// Selects the route of a request from its method and path, both as the
/// bytes that came over the wire. Only `GET /metrics` and `GET /` are known;
/// every other combination is `NotFound`.
pub fn route(method: &[u8], path: &[u8]) -> (r: Route)
    ensures
        r == route_of(method@, path@),
{
    let get: [u8; 3] = [71, 69, 84];
    let metrics: [u8; 8] = [47, 109, 101, 116, 114, 105, 99, 115];
    let root: [u8; 1] = [47];
    assert(get@ =~= get_bytes());
    assert(metrics@ =~= metrics_path());
    assert(root@ =~= root_path());
    if !bytes_eq(method, get.as_slice()) {
        Route::NotFound
    } else if bytes_eq(path, metrics.as_slice()) {
        Route::Metrics
    } else if bytes_eq(path, root.as_slice()) {
        Route::Liveness
    } else {
        Route::NotFound
    }
}

} // verus!
