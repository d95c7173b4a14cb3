use vstd::prelude::*;
use vstd::utf8::*;
use crate::cache::{Cache, after_hit, after_insert, bump};
use crate::request::{is_get, served_path};
use crate::response::{hit_body, hit_response, miss_body, miss_response, ok_response};

verus! {

/// The lookup step of a request for `path`, made under the cache's lock: a
/// counted path is counted again and answered at once; for any other path
/// nothing changes and `None` says that the simulated work must be done.
pub fn serve_from_cache(cache: &mut Cache, path: &String) -> (r: Option<Vec<u8>>)
    requires
        old(cache).wf(),
    ensures
        final(cache).wf(),
        final(cache)@ == after_hit(old(cache)@, path@),
        old(cache)@.contains_key(path@) <==> r is Some,
        r matches Some(resp) ==> resp@ == ok_response(hit_body(path@)),
{
    if cache.record_hit(path) {
        Some(hit_response(path))
    } else {
        None
    }
}

/// The step after the simulated work for `path`, made under the cache's
/// lock: records the path and answers with the path itself.
pub fn serve_after_work(cache: &mut Cache, path: &String) -> (r: Vec<u8>)
    requires
        old(cache).wf(),
    ensures
        final(cache).wf(),
        final(cache)@ == after_insert(old(cache)@, path@),
        r@ == ok_response(miss_body(path@)),
{
    cache.record_miss_then_insert(path);
    miss_response(path)
}

/// A path that has not been counted misses the cache, which the lookup
/// leaves as it was; once served it is counted once, and its body is the
/// path's own bytes.
pub proof fn first_request_does_the_work(m: Map<Seq<char>, nat>, p: Seq<char>)
    requires
        !m.contains_key(p),
    ensures
        after_hit(m, p) == m,
        after_insert(after_hit(m, p), p).contains_key(p),
        after_insert(after_hit(m, p), p)[p] == 1,
        miss_body(p) == encode_utf8(p),
{
}

/// After a path's first request has been served, a second one hits the
/// cache, needs no work, and leaves the count at 2.
pub proof fn second_request_hits(m: Map<Seq<char>, nat>, p: Seq<char>)
    requires
        !m.contains_key(p),
    ensures
        after_insert(after_hit(m, p), p).contains_key(p),
        after_hit(after_insert(after_hit(m, p), p), p).contains_key(p),
        after_hit(after_insert(after_hit(m, p), p), p)[p] == 2,
{
    assert(bump(1) == 2);
}

/// Any method other than `GET` is served as the root path, whatever path
/// the line names.
pub proof fn other_methods_serve_root(line: Seq<u8>)
    requires
        !is_get(line),
    ensures
        served_path(line) == seq!['/'],
{
}

} // verus!
