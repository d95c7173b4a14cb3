use vstd::prelude::*;
use vstd::utf8::*;

verus! {

/// Size of the buffer into which a request line must fit.
pub const REQUEST_BUF_CAP: usize = 8192;

/// True when `b` holds `\r\n` starting at index `i`.
pub open spec fn is_crlf_at(b: Seq<u8>, i: int) -> bool {
    0 <= i && i + 1 < b.len() && b[i] == 13u8 && b[i + 1] == 10u8
}

/// The index of the first `\r\n` in `b`, if any.
pub fn find_crlf(buf: &[u8]) -> (r: Option<usize>)
    ensures
        match r {
            Some(i) => is_crlf_at(buf@, i as int) && forall|j: int|
                0 <= j < i ==> !is_crlf_at(buf@, j),
            None => forall|j: int| !is_crlf_at(buf@, j),
        },
{
    let n = buf.len();
    let mut i: usize = 0;
    while i < n
        invariant
            n == buf@.len(),
            i <= n,
            forall|j: int| 0 <= j < i ==> !is_crlf_at(buf@, j),
        decreases n - i,
    {
        if i + 1 < n && buf[i] == 13u8 && buf[i + 1] == 10u8 {
            return Some(i);
        }
        i = i + 1;
    }
    None
}


/// End (exclusive) of the run of non-space bytes of `b` that begins at `start`.
pub open spec fn token_end(b: Seq<u8>, start: int) -> int
    decreases b.len() - start,
{
    if start < 0 || start >= b.len() {
        b.len() as int
    } else if b[start] == 32u8 {
        start
    } else {
        token_end(b, start + 1)
    }
}

/// The method token: the bytes before the first space.
pub open spec fn method_of(line: Seq<u8>) -> Seq<u8> {
    line.subrange(0, token_end(line, 0))
}

/// True when the method token is exactly `GET`.
pub open spec fn is_get(line: Seq<u8>) -> bool {
    method_of(line) =~= seq![71u8, 69u8, 84u8]
}

/// The second space-separated token, if the line has a space at all.
pub open spec fn path_token(line: Seq<u8>) -> Option<Seq<u8>> {
    let e = token_end(line, 0);
    if e < line.len() {
        Some(line.subrange(e + 1, token_end(line, e + 1)))
    } else {
        None
    }
}

/// Characters of the text that `String::from_utf8_lossy` makes of `b`.
pub uninterp spec fn lossy_utf8_of(b: Seq<u8>) -> Seq<char>;

/// The path that a request line is served under: `/` for any method but
/// `GET` or when the line has no second token, else the second token
/// decoded with invalid sequences replaced.
pub open spec fn served_path(line: Seq<u8>) -> Seq<char> {
    if !is_get(line) {
        seq!['/']
    } else {
        match path_token(line) {
            Some(t) => lossy_utf8_of(t),
            None => seq!['/'],
        }
    }
}

/// Relies on `String::from_utf8_lossy`: its text depends on the bytes alone,
/// and is the bytes' own text when they are valid UTF-8.
#[verifier::external_body]
fn decode_lossy(b: &[u8]) -> (r: String)
    ensures
        r@ == lossy_utf8_of(b@),
        valid_utf8(b@) ==> r@ == decode_utf8(b@),
{
    String::from_utf8_lossy(b).into_owned()
}

/// Index of the first space at or after `start`, or the length of `b`.
fn find_token_end(b: &[u8], start: usize) -> (r: usize)
    requires
        start <= b@.len(),
    ensures
        r as int == token_end(b@, start as int),
        start <= r <= b@.len(),
{
    let n = b.len();
    let mut i: usize = start;
    while i < n && b[i] != 32u8
        invariant
            n == b@.len(),
            start <= i <= n,
            token_end(b@, i as int) == token_end(b@, start as int),
        decreases n - i,
    {
        i = i + 1;
    }
    i
}

/// The root path `/`.
fn root_path() -> (r: String)
    ensures
        r@ == seq!['/'],
{
    let r = "/".to_owned();
    proof {
        reveal_strlit("/");
    }
    r
}

/// The path that a request line asks for (see `served_path`); a path token
/// that is valid UTF-8 is served as its own text. Never `None`.
pub fn parse_path_from_request_line(line: &[u8]) -> (r: Option<String>)
    ensures
        r is Some,
        r->Some_0@ == served_path(line@),
        is_get(line@) && path_token(line@) is Some && valid_utf8(path_token(line@)->Some_0)
            ==> r->Some_0@ == decode_utf8(path_token(line@)->Some_0),
{
    let e = find_token_end(line, 0);
    let get = e == 3 && line[0] == 71u8 && line[1] == 69u8 && line[2] == 84u8;
    proof {
        if e == 3 {
            assert(method_of(line@) =~= seq![line@[0], line@[1], line@[2]]);
        }
    }
    if !get {
        return Some(root_path());
    }
    if e == line.len() {
        return Some(root_path());
    }
    let e2 = find_token_end(line, e + 1);
    Some(decode_lossy(&line[e + 1..e2]))
}


/// What the connection handler does after a read of `readn` bytes, with
/// `filled` the bytes received so far.
pub enum ReadStep {
    /// The peer closed the connection: stop without answering.
    PeerClosed,
    /// No line end yet and room left: read again.
    NeedMore,
    /// The request line ends at this index (a `\r\n` starts there).
    Line(usize),
    /// The buffer is full and holds no line end: answer 400.
    TooLong,
}

/// Decides the next step of the read loop.
pub fn scan_after_read(filled: &[u8], readn: usize) -> (r: ReadStep)
    ensures
        match r {
            ReadStep::PeerClosed => readn == 0,
            ReadStep::Line(i) => readn > 0 && is_crlf_at(filled@, i as int) && forall|j: int|
                0 <= j < i ==> !is_crlf_at(filled@, j),
            ReadStep::TooLong => readn > 0 && filled@.len() >= REQUEST_BUF_CAP && forall|j: int|
                !is_crlf_at(filled@, j),
            ReadStep::NeedMore => readn > 0 && filled@.len() < REQUEST_BUF_CAP && forall|j: int|
                !is_crlf_at(filled@, j),
        },
{
    if readn == 0 {
        return ReadStep::PeerClosed;
    }
    match find_crlf(filled) {
        Some(i) => ReadStep::Line(i),
        None => {
            if filled.len() >= REQUEST_BUF_CAP {
                ReadStep::TooLong
            } else {
                ReadStep::NeedMore
            }
        },
    }
}

} // verus!
