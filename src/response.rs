use vstd::prelude::*;
use vstd::string::*;
use vstd::utf8::*;

verus! {

/// Decimal digits (ASCII) of `n`, without leading zeros.
pub open spec fn decimal(n: nat) -> Seq<u8>
    decreases n,
{
    if n < 10 {
        seq![(48 + n) as u8]
    } else {
        decimal(n / 10).push((48 + n % 10) as u8)
    }
}

/// Status line and headers of a 200 response, up to the length value.
pub open spec fn ok_head() -> Seq<u8> {
    "HTTP/1.1 200 OK\r\nContent-Type: text/plain; charset=utf-8\r\nContent-Length: ".spec_bytes()
}

/// What follows the length value of a 200 response, up to the body.
pub open spec fn ok_tail() -> Seq<u8> {
    "\r\nConnection: close\r\n\r\n".spec_bytes()
}

/// A complete 200 response carrying `body`, with its exact byte length.
pub open spec fn ok_response(body: Seq<u8>) -> Seq<u8> {
    ok_head() + decimal(body.len()) + ok_tail() + body
}

/// The 400 response: no body.
pub open spec fn bad_request() -> Seq<u8> {
    "HTTP/1.1 400 Bad Request\r\nConnection: close\r\nContent-Length: 0\r\n\r\n".spec_bytes()
}

/// Marker appended to the path when it is served from the cache.
pub open spec fn hit_marker() -> Seq<u8> {
    " \u{1F642}".spec_bytes()
}

/// Body for a path served from the cache: the path, a space, the marker.
pub open spec fn hit_body(path: Seq<char>) -> Seq<u8> {
    encode_utf8(path) + hit_marker()
}

/// Body for a path served after the simulated work: the path itself.
pub open spec fn miss_body(path: Seq<char>) -> Seq<u8> {
    encode_utf8(path)
}

fn append_bytes(out: &mut Vec<u8>, b: &[u8])
    ensures
        final(out)@ == old(out)@ + b@,
{
    let n = b.len();
    let mut i: usize = 0;
    while i < n
        invariant
            n == b@.len(),
            i <= n,
            out@ == old(out)@ + b@.subrange(0, i as int),
        decreases n - i,
    {
        out.push(b[i]);
        i = i + 1;
        assert(b@.subrange(0, i as int) =~= b@.subrange(0, i - 1).push(b@[i - 1]));
    }
    assert(b@.subrange(0, n as int) =~= b@);
}

fn append_decimal(out: &mut Vec<u8>, n: usize)
    ensures
        final(out)@ == old(out)@ + decimal(n as nat),
    decreases n,
{
    if n >= 10 {
        append_decimal(out, n / 10);
    }
    out.push((48 + n % 10) as u8);
    proof {
        if n >= 10 {
            assert(old(out)@ + decimal(n as nat) =~= old(out)@ + decimal((n / 10) as nat)
                + seq![(48 + n % 10) as u8]);
        }
    }
}

/// Frames `body` as a 200 response.
pub fn frame_ok(body: &[u8]) -> (r: Vec<u8>)
    ensures
        r@ == ok_response(body@),
{
    let mut out: Vec<u8> = Vec::new();
    append_bytes(&mut out, "HTTP/1.1 200 OK\r\nContent-Type: text/plain; charset=utf-8\r\nContent-Length: ".as_bytes());
    append_decimal(&mut out, body.len());
    append_bytes(&mut out, "\r\nConnection: close\r\n\r\n".as_bytes());
    append_bytes(&mut out, body);
    out
}

/// The response to a request line that did not end within the buffer.
pub fn bad_request_response() -> (r: Vec<u8>)
    ensures
        r@ == bad_request(),
{
    let mut out: Vec<u8> = Vec::new();
    append_bytes(&mut out, "HTTP/1.1 400 Bad Request\r\nConnection: close\r\nContent-Length: 0\r\n\r\n".as_bytes());
    out
}

/// The response for `path` served from the cache.
pub fn hit_response(path: &String) -> (r: Vec<u8>)
    ensures
        r@ == ok_response(hit_body(path@)),
{
    let mut body: Vec<u8> = Vec::new();
    append_bytes(&mut body, path.as_str().as_bytes());
    append_bytes(&mut body, " \u{1F642}".as_bytes());
    frame_ok(body.as_slice())
}

/// The response for `path` served after the simulated work.
pub fn miss_response(path: &String) -> (r: Vec<u8>)
    ensures
        r@ == ok_response(miss_body(path@)),
{
    frame_ok(path.as_str().as_bytes())
}

} // verus!
