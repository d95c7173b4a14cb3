use hw01::cache::Cache;
use hw01::control::{
    after_accept, pool_size, worker_step, AcceptAction, AcceptOutcome, Acceptor, WorkerEvent, WorkerState,
    ERROR_BACKOFF_MS, IDLE_BACKOFF_MS,
};
use hw01::handler::{serve_after_work, serve_from_cache};
use hw01::request::{find_crlf, parse_path_from_request_line, scan_after_read, ReadStep, REQUEST_BUF_CAP};
use hw01::response::{bad_request_response, hit_response, miss_response};

fn ok(body: &str) -> Vec<u8> {
    format!(
        "HTTP/1.1 200 OK\r\nContent-Type: text/plain; charset=utf-8\r\nContent-Length: {}\r\nConnection: close\r\n\r\n{}",
        body.len(),
        body
    )
    .into_bytes()
}

fn s(x: &str) -> String {
    x.to_string()
}

#[test]
fn crlf_found_at_first_line_end() {
    assert_eq!(find_crlf(b"GET / HTTP/1.1\r\nHost: x\r\n"), Some(14));
    assert_eq!(find_crlf(b"\r\n"), Some(0));
    assert_eq!(find_crlf(b"a\rb\r\n"), Some(3));
}

#[test]
fn crlf_absent() {
    assert_eq!(find_crlf(b""), None);
    assert_eq!(find_crlf(b"\r"), None);
    assert_eq!(find_crlf(b"\n\r"), None);
    assert_eq!(find_crlf(b"GET /a"), None);
}

#[test]
fn get_path_is_second_token() {
    assert_eq!(parse_path_from_request_line(b"GET /a HTTP/1.1"), Some(s("/a")));
    assert_eq!(parse_path_from_request_line(b"GET /x/y"), Some(s("/x/y")));
}

#[test]
fn non_get_is_root() {
    assert_eq!(parse_path_from_request_line(b"POST /secret HTTP/1.1"), Some(s("/")));
    assert_eq!(parse_path_from_request_line(b"get /a HTTP/1.1"), Some(s("/")));
    assert_eq!(parse_path_from_request_line(b"GETX /a HTTP/1.1"), Some(s("/")));
    assert_eq!(parse_path_from_request_line(b""), Some(s("/")));
}

#[test]
fn get_without_path_is_root() {
    assert_eq!(parse_path_from_request_line(b"GET"), Some(s("/")));
}

#[test]
fn empty_second_token_is_empty_path() {
    assert_eq!(parse_path_from_request_line(b"GET  /a"), Some(s("")));
}

#[test]
fn invalid_utf8_is_replaced() {
    assert_eq!(parse_path_from_request_line(b"GET /a\xffb HTTP/1.1"), Some(s("/a\u{FFFD}b")));
}

#[test]
fn read_steps() {
    assert!(matches!(scan_after_read(b"", 0), ReadStep::PeerClosed));
    assert!(matches!(scan_after_read(b"GET /a", 6), ReadStep::NeedMore));
    assert!(matches!(scan_after_read(b"GET /a\r\n", 2), ReadStep::Line(6)));
}

#[test]
fn full_buffer_without_line_end_is_too_long() {
    let buf = vec![b'a'; REQUEST_BUF_CAP];
    assert!(matches!(scan_after_read(&buf, 100), ReadStep::TooLong));
    let mut with_end = buf.clone();
    with_end[10] = b'\r';
    with_end[11] = b'\n';
    assert!(matches!(scan_after_read(&with_end, 100), ReadStep::Line(10)));
}

#[test]
fn bad_request_has_empty_body() {
    assert_eq!(
        bad_request_response(),
        b"HTTP/1.1 400 Bad Request\r\nConnection: close\r\nContent-Length: 0\r\n\r\n".to_vec()
    );
}

#[test]
fn responses_are_framed_with_exact_length() {
    assert_eq!(miss_response(&s("/a")), ok("/a"));
    assert_eq!(hit_response(&s("/a")), ok("/a \u{1F642}"));
    assert_eq!(miss_response(&s("")), ok(""));
    let long = "/".repeat(1234);
    assert_eq!(miss_response(&long), ok(&long));
    let text = String::from_utf8(miss_response(&long)).unwrap();
    assert!(text.contains("Content-Length: 1234\r\n"));
    let hit = String::from_utf8(hit_response(&s("/é"))).unwrap();
    assert!(hit.contains("Content-Length: 8\r\n"));
}

#[test]
fn first_request_misses_then_counts_one() {
    let mut c = Cache::new();
    let p = s("/new");
    assert_eq!(serve_from_cache(&mut c, &p), None);
    assert_eq!(c.count_of(&p), None);
    assert_eq!(serve_after_work(&mut c, &p), ok("/new"));
    assert_eq!(c.count_of(&p), Some(1));
}

#[test]
fn second_request_hits_and_counts_two() {
    let mut c = Cache::new();
    let p = s("/p");
    assert_eq!(serve_from_cache(&mut c, &p), None);
    serve_after_work(&mut c, &p);
    assert_eq!(serve_from_cache(&mut c, &p), Some(ok("/p \u{1F642}")));
    assert_eq!(c.count_of(&p), Some(2));
}

#[test]
fn three_sequential_requests_for_one_path() {
    let mut c = Cache::new();
    let p = s("/a");
    let first = match serve_from_cache(&mut c, &p) {
        Some(r) => r,
        None => serve_after_work(&mut c, &p),
    };
    assert_eq!(first, ok("/a"));
    assert_eq!(serve_from_cache(&mut c, &p), Some(ok("/a \u{1F642}")));
    assert_eq!(c.count_of(&p), Some(2));
    assert_eq!(serve_from_cache(&mut c, &p), Some(ok("/a \u{1F642}")));
    assert_eq!(c.count_of(&p), Some(3));
    assert_eq!(c.snapshot(), vec![(s("/a"), 3)]);
}

#[test]
fn racing_misses_both_count() {
    let mut c = Cache::new();
    let p = s("/r");
    assert_eq!(serve_from_cache(&mut c, &p), None);
    assert_eq!(serve_from_cache(&mut c, &p), None);
    serve_after_work(&mut c, &p);
    serve_after_work(&mut c, &p);
    assert_eq!(c.count_of(&p), Some(2));
}

#[test]
fn snapshot_sorted_by_falling_count() {
    let mut c = Cache::new();
    assert_eq!(c.snapshot(), vec![]);
    for (p, n) in [("/x", 1), ("/y", 3), ("/z", 2), ("/w", 3)] {
        let p = s(p);
        c.record_miss_then_insert(&p);
        for _ in 1..n {
            assert!(c.record_hit(&p));
        }
    }
    let snap = c.snapshot();
    let counts: Vec<usize> = snap.iter().map(|e| e.1).collect();
    assert_eq!(counts, vec![3, 3, 2, 1]);
    let mut paths: Vec<String> = snap.iter().map(|e| e.0.clone()).collect();
    assert_eq!(paths[2], "/z");
    assert_eq!(paths[3], "/x");
    paths.sort();
    assert_eq!(paths, vec![s("/w"), s("/x"), s("/y"), s("/z")]);
}

#[test]
fn hit_on_absent_path_changes_nothing() {
    let mut c = Cache::new();
    assert!(!c.record_hit(&s("/none")));
    assert_eq!(c.snapshot(), vec![]);
}

#[test]
fn accept_outcomes() {
    assert!(after_accept(AcceptOutcome::Connection) == AcceptAction::Dispatch);
    assert!(after_accept(AcceptOutcome::NotReady) == AcceptAction::Backoff(IDLE_BACKOFF_MS));
    assert!(after_accept(AcceptOutcome::Failed) == AcceptAction::Backoff(ERROR_BACKOFF_MS));
    assert_eq!(IDLE_BACKOFF_MS, 50);
    assert_eq!(ERROR_BACKOFF_MS, 100);
}

#[test]
fn no_accept_once_shutdown_seen() {
    let mut a = Acceptor::new();
    assert!(a.may_accept(false));
    assert!(a.may_accept(false));
    assert!(!a.may_accept(true));
    assert!(!a.may_accept(false));
    assert!(!a.may_accept(false));
}

#[test]
fn worker_transitions() {
    assert!(worker_step(WorkerState::Idle, WorkerEvent::JobTaken) == WorkerState::Running);
    assert!(worker_step(WorkerState::Running, WorkerEvent::JobDone) == WorkerState::Idle);
    assert!(worker_step(WorkerState::Idle, WorkerEvent::Terminate) == WorkerState::Stopped);
    assert!(worker_step(WorkerState::Idle, WorkerEvent::QueueClosed) == WorkerState::Stopped);
    assert!(worker_step(WorkerState::Stopped, WorkerEvent::JobTaken) == WorkerState::Stopped);
}

#[test]
fn pool_size_rule() {
    assert_eq!(pool_size(None), 4);
    assert_eq!(pool_size(Some(1)), 2);
    assert_eq!(pool_size(Some(2)), 2);
    assert_eq!(pool_size(Some(16)), 16);
}
