//! Laws that span several of the engine's functions.

use vstd::prelude::*;
use crate::cors_cache::{cache_has_header, cache_has_method, CORSCacheEntry};
use crate::methods::{preflight_details, preflight_not_needed, simple_header, simple_method};
use crate::request::{method_tok, Request};

verus! {

/// A preflight hit keeps working until it expires: once a passing
/// preflight has recorded the request's method — `cors_preflight_fetch`
/// promises that for every listed method, and for the triggering method
/// whenever it is not simple — and every non-simple header under the
/// request's key, an identical request looked up strictly before `exp`
/// finds everything in the cache, and `http_fetch` sends no second probe.
pub proof fn lemma_preflight_approval_lasts(
    req: Request,
    c: Seq<CORSCacheEntry>,
    exp: u64,
    now2: u64,
)
    requires
        now2 < exp,
        (simple_method(req.method) && !req.use_cors_preflight) || (forall|n2: u64|
            n2 < exp ==> cache_has_method(
                c,
                preflight_details(req),
                method_tok(req.method),
                n2,
            )),
        forall|q: int, n2: u64|
            (0 <= q < req.headers.model().len() && n2 < exp && !simple_header(
                req.headers.model()[q].0,
                req.headers.model()[q].1,
            )) ==> #[trigger] cache_has_header(
                c,
                preflight_details(req),
                req.headers.model()[q].0,
                n2,
            ),
    ensures
        preflight_not_needed(req, c, now2),
{
    assert forall|j: int|
        0 <= j < req.headers.model().len() implies (cache_has_header(
        c,
        preflight_details(req),
        (#[trigger] req.headers.model()[j]).0,
        now2,
    ) || simple_header(req.headers.model()[j].0, req.headers.model()[j].1)) by {
        if !simple_header(req.headers.model()[j].0, req.headers.model()[j].1) {
            assert(cache_has_header(c, preflight_details(req), req.headers.model()[j].0, now2));
        }
    }
}

} // verus!
