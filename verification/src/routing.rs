//! Verified routing of a request to one of the three operations: `GET
//! /health` lists the entries, `PUT /health/{timestamp}` creates one,
//! `DELETE /health/{timestamp}` deletes one; the timestamp segment must read
//! as a `u32`. Everything else is unmatched.

use vstd::prelude::*;
use vstd::slice::slice_subrange;

use crate::parse::{parse_u32, spec_parse_u32};

verus! {

/// Which handler a request reaches, with its path-carried timestamp.
#[derive(Clone, Copy, PartialEq, Eq, Structural, Debug)]
pub enum Route {
    /// List every stored entry.
    ListEntries,
    /// Create an entry at the timestamp.
    CreateEntry(u32),
    /// Delete the entry at the timestamp.
    DeleteEntry(u32),
    /// No operation matches the request.
    Unmatched,
}

/// The bytes of the method `GET`.
pub open spec fn method_get() -> Seq<u8> {
    seq![71u8, 69u8, 84u8]
}

/// The bytes of the method `PUT`.
pub open spec fn method_put() -> Seq<u8> {
    seq![80u8, 85u8, 84u8]
}

/// The bytes of the method `DELETE`.
pub open spec fn method_delete() -> Seq<u8> {
    seq![68u8, 69u8, 76u8, 69u8, 84u8, 69u8]
}

/// The bytes of the list path, `/health`.
pub open spec fn health_path() -> Seq<u8> {
    seq![47u8, 104u8, 101u8, 97u8, 108u8, 116u8, 104u8]
}

/// The bytes of the prefix `/health/` that carries a timestamp segment.
pub open spec fn health_prefix() -> Seq<u8> {
    seq![47u8, 104u8, 101u8, 97u8, 108u8, 116u8, 104u8, 47u8]
}

/// Which operation a request's method and path reach: the list path under
/// `GET`, or a timestamp-carrying path under `PUT` or `DELETE` whose segment
/// reads as a `u32`.
pub open spec fn spec_route(method: Seq<u8>, path: Seq<u8>) -> Route {
    if method == method_get() && path == health_path() {
        Route::ListEntries
    } else if (method == method_put() || method == method_delete()) && path.len() >= 8
        && path.take(8) == health_prefix() && spec_parse_u32(path.skip(8)) is Some {
        if method == method_put() {
            Route::CreateEntry(spec_parse_u32(path.skip(8)).unwrap())
        } else {
            Route::DeleteEntry(spec_parse_u32(path.skip(8)).unwrap())
        }
    } else {
        Route::Unmatched
    }
}

/// Route a request, as [`spec_route`] describes.
pub fn route_request(method: &[u8], path: &[u8]) -> (r: Route)
    ensures
        r == spec_route(method@, path@),
{
    let is_get = method.len() == 3 && method[0] == 71 && method[1] == 69 && method[2] == 84;
    let is_put = method.len() == 3 && method[0] == 80 && method[1] == 85 && method[2] == 84;
    let is_delete = method.len() == 6 && method[0] == 68 && method[1] == 69 && method[2] == 76
        && method[3] == 69 && method[4] == 84 && method[5] == 69;
    proof {
        if is_get {
            assert(method@ =~= method_get());
        } else if method@ == method_get() {
            assert(method@.len() == 3 && method@[0] == 71 && method@[1] == 69 && method@[2]
                == 84);
        }
        if is_put {
            assert(method@ =~= method_put());
        } else if method@ == method_put() {
            assert(method@.len() == 3 && method@[0] == 80 && method@[1] == 85 && method@[2]
                == 84);
        }
        if is_delete {
            assert(method@ =~= method_delete());
        } else if method@ == method_delete() {
            assert(method@.len() == 6 && method@[0] == 68 && method@[1] == 69 && method@[2] == 76
                && method@[3] == 69 && method@[4] == 84 && method@[5] == 69);
        }
    }
    let is_health = path.len() == 7 && path[0] == 47 && path[1] == 104 && path[2] == 101
        && path[3] == 97 && path[4] == 108 && path[5] == 116 && path[6] == 104;
    proof {
        if is_health {
            assert(path@ =~= health_path());
        } else if path@ == health_path() {
            assert(path@.len() == 7 && path@[0] == 47 && path@[1] == 104 && path@[2] == 101
                && path@[3] == 97 && path@[4] == 108 && path@[5] == 116 && path@[6] == 104);
        }
    }
    if is_get && is_health {
        return Route::ListEntries;
    }
    let has_prefix = path.len() >= 8 && path[0] == 47 && path[1] == 104 && path[2] == 101
        && path[3] == 97 && path[4] == 108 && path[5] == 116 && path[6] == 104 && path[7] == 47;
    proof {
        if has_prefix {
            assert(path@.take(8) =~= health_prefix());
        } else if path@.len() >= 8 && path@.take(8) == health_prefix() {
            assert(path@.take(8)[0] == path@[0] && health_prefix()[0] == 47);
            assert(path@.take(8)[1] == path@[1] && health_prefix()[1] == 104);
            assert(path@.take(8)[2] == path@[2] && health_prefix()[2] == 101);
            assert(path@.take(8)[3] == path@[3] && health_prefix()[3] == 97);
            assert(path@.take(8)[4] == path@[4] && health_prefix()[4] == 108);
            assert(path@.take(8)[5] == path@[5] && health_prefix()[5] == 116);
            assert(path@.take(8)[6] == path@[6] && health_prefix()[6] == 104);
            assert(path@.take(8)[7] == path@[7] && health_prefix()[7] == 47);
        }
    }
    if (is_put || is_delete) && has_prefix {
        let rest = slice_subrange(path, 8, path.len());
        proof {
            assert(rest@ =~= path@.skip(8));
        }
        match parse_u32(rest) {
            Some(t) => {
                if is_put {
                    return Route::CreateEntry(t);
                } else {
                    return Route::DeleteEntry(t);
                }
            },
            None => {
                return Route::Unmatched;
            },
        }
    }
    Route::Unmatched
}

} // verus!
