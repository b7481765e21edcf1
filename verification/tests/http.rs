//! Requests and responses.

use coven_cli::http::{
    fleet_remote_route_allowed, handle_http_stream, host_in_allowlist, http_reason_phrase,
    is_loopback_host, origin_in_allowlist, parse_request_line, read_http_body, read_http_headers,
    render_response, strip_port, write_internal_server_error, HostGuard, RequestAuthority, RequestPlan,
    MAX_TCP_BODY_BYTES,
};
use coven_cli::response::{
    find_http_header_end, read_http_response_with_deadline, response_content_length,
    response_status, ReadEvent, ReadStep, ResponseReader,
};
use coven_cli::serve::IoFaultKind;
use std::time::{Duration, Instant};

/// Reads the head of a request that holds no body.
fn handle(
    request: &str,
    guard: &HostGuard,
    max_body_bytes: Option<usize>,
) -> RequestPlan {
    let mut lines = request.split_inclusive("\r\n").map(str::to_string);
    let request_line = lines.next().expect("a request line");
    let headers: Vec<String> = lines.collect();
    handle_http_stream(&request_line, &headers, guard, max_body_bytes).expect("handle ok")
}

fn loopback(allowed: &[&str]) -> HostGuard {
    HostGuard::Loopback {
        allowed_hosts: allowed.iter().map(|host| host.to_string()).collect(),
        fleet_remote_only: false,
    }
}

fn assert_refused(plan: RequestPlan, head: &str) -> String {
    match plan {
        RequestPlan::Refuse(response) => {
            assert!(response.starts_with(head), "got: {response}");
            response
        }
        plan => panic!("got: {plan:?}"),
    }
}

fn assert_served(plan: RequestPlan, expected: RequestAuthority) {
    match plan {
        RequestPlan::Serve { method, path, content_length, authority } => {
            assert_eq!(method, "GET");
            assert_eq!(path, "/api/v1/health");
            assert_eq!(content_length, 0);
            assert_eq!(authority, expected);
        }
        plan => panic!("got: {plan:?}"),
    }
}

#[test]
fn http_reason_phrase_names_bad_requests() {
    assert_eq!(http_reason_phrase(400), "Bad Request");
}

#[test]
fn http_reason_phrase_names_memory_detail_failures() {
    let phrases = [
        (413, http_reason_phrase(413)),
        (422, http_reason_phrase(422)),
        (503, http_reason_phrase(503)),
    ];
    assert_eq!(
        phrases,
        [
            (413, "Payload Too Large"),
            (422, "Unprocessable Content"),
            (503, "Service Unavailable"),
        ]
    );
    assert!(phrases.iter().all(|(_, phrase)| *phrase != "OK"));
}

#[test]
fn handle_http_stream_converts_api_handler_error_to_json_500() {
    let request = "GET /api/v1/familiars HTTP/1.1\r\nHost: x\r\nContent-Length: 0\r\n\r\n";
    match handle(request, &HostGuard::Disabled, None) {
        RequestPlan::Serve { method, path, content_length, .. } => {
            assert_eq!((method.as_str(), path.as_str(), content_length), ("GET", "/api/v1/familiars", 0));
        }
        RequestPlan::Refuse(response) => panic!("got: {response}"),
    }
    let response = write_internal_server_error("failed to parse /h/familiars.toml");
    assert!(response.starts_with("HTTP/1.1 500 Internal Server Error"), "got: {response}");
    assert!(response.contains(r#""code":"internal_error""#), "got: {response}");
}

#[test]
fn responses_announce_the_length_of_their_body() {
    assert_eq!(
        render_response(201, "text/plain", "h\u{e9}"),
        "HTTP/1.1 201 Created\r\nContent-Type: text/plain\r\nContent-Length: 3\r\nConnection: close\r\n\r\nh\u{e9}"
    );
}

#[test]
fn handle_http_stream_rejects_oversize_body() {
    let request = format!(
        "POST /api/v1/cast HTTP/1.1\r\nHost: x\r\nContent-Length: {}\r\n\r\n",
        MAX_TCP_BODY_BYTES + 1
    );
    let plan = handle(&request, &HostGuard::Disabled, Some(MAX_TCP_BODY_BYTES));
    let response = assert_refused(plan, "HTTP/1.1 413 Payload Too Large");
    assert!(response.contains("payload_too_large"), "got: {response}");
}

#[test]
fn handle_http_stream_guard_blocks_cross_origin() {
    let request = "GET /api/v1/health HTTP/1.1\r\nHost: 127.0.0.1:3000\r\nOrigin: http://evil.example\r\n\r\n";
    let plan = handle(request, &loopback(&[]), Some(MAX_TCP_BODY_BYTES));
    assert_refused(plan, "HTTP/1.1 403 Forbidden");
}

#[test]
fn handle_http_stream_guard_blocks_foreign_host() {
    let request = "GET /api/v1/health HTTP/1.1\r\nHost: evil.example\r\n\r\n";
    let plan = handle(request, &loopback(&[]), Some(MAX_TCP_BODY_BYTES));
    assert_refused(plan, "HTTP/1.1 403 Forbidden");
}

#[test]
fn handle_http_stream_allow_host_permits_listed_host_and_origin() {
    let request = "GET /api/v1/health HTTP/1.1\r\nHost: coven-host.taile46e90.ts.net\r\nOrigin: https://coven-host.taile46e90.ts.net\r\n\r\n";
    let guard = loopback(&["coven-host.taile46e90.ts.net"]);
    let plan = handle(request, &guard, Some(MAX_TCP_BODY_BYTES));
    assert_served(plan, RequestAuthority::Tcp);
}

#[test]
fn handle_http_stream_allow_host_still_blocks_unlisted_host() {
    let request = "GET /api/v1/health HTTP/1.1\r\nHost: evil.example\r\n\r\n";
    let guard = loopback(&["coven-host.taile46e90.ts.net"]);
    let plan = handle(request, &guard, Some(MAX_TCP_BODY_BYTES));
    assert_refused(plan, "HTTP/1.1 403 Forbidden");
}

#[test]
fn host_and_origin_allowlist_match_is_case_and_port_insensitive() {
    let allowed = vec!["Coven-Host.Taile46E90.TS.net".to_string()];
    assert!(host_in_allowlist(Some("coven-host.taile46e90.ts.net:3000"), &allowed));
    assert!(host_in_allowlist(Some("COVEN-HOST.TAILE46E90.TS.NET"), &allowed));
    assert!(origin_in_allowlist("https://coven-host.taile46e90.ts.net", &allowed));
    assert!(!host_in_allowlist(Some("evil.example"), &allowed));
    assert!(!host_in_allowlist(Some("coven-host.taile46e90.ts.net"), &[]));
    assert!(!host_in_allowlist(None, &allowed));
    assert!(!origin_in_allowlist("https://evil.example", &allowed));
}

#[test]
fn is_loopback_host_accepts_only_real_loopback_addresses() {
    // Whether the text is a loopback address is a question for the address parser.
    assert!(is_loopback_host("127.0.0.1"));
    assert!(is_loopback_host("127.0.0.2"));
    assert!(is_loopback_host("::1"));
    assert!(is_loopback_host("localhost"));
    assert!(!is_loopback_host("127.evil.com"));
    assert!(!is_loopback_host("127001.example.com"));
    assert!(!is_loopback_host("evil.example"));
    assert!(!is_loopback_host(""));
    assert!(is_loopback_host("0:0:0:0:0:0:0:1"));
    assert!(!is_loopback_host("::ffff:127.0.0.1"));
    assert!(!is_loopback_host("10.0.0.1"));
}

#[test]
fn handle_http_stream_guard_allows_loopback_origin() {
    let request = "GET /api/v1/health HTTP/1.1\r\nHost: localhost:3000\r\nOrigin: http://localhost:3000\r\n\r\n";
    let plan = handle(request, &loopback(&[]), Some(MAX_TCP_BODY_BYTES));
    assert_served(plan, RequestAuthority::Tcp);
}

#[test]
fn handle_http_stream_unix_path_ignores_origin() {
    let request = "GET /api/v1/health HTTP/1.1\r\nHost: evil.example\r\nOrigin: http://evil.example\r\n\r\n";
    let plan = handle(request, &HostGuard::Disabled, None);
    assert_served(plan, RequestAuthority::OwnerLocalIpc);
}

#[test]
fn fleet_remote_listener_exposes_only_minimal_trust_routes() {
    for (method, path) in [
        ("GET", "/api/v1/discovery/advertisement"),
        ("POST", "/api/v1/fleet/enroll"),
        ("POST", "/api/v1/fleet/pairing-requests"),
        ("POST", "/api/v1/fleet/pairing-requests/request-1/claim"),
        ("POST", "/api/v1/fleet/challenges"),
        ("POST", "/api/v1/fleet/reconnect"),
        ("POST", "/api/v1/fleet/jobs/claim"),
        ("POST", "/api/v1/fleet/jobs/complete"),
    ] {
        assert!(fleet_remote_route_allowed(method, path), "{method} {path}");
    }
    for (method, path) in [
        ("GET", "/api/v1/health"),
        ("GET", "/api/v1/fleet/trusted-nodes"),
        ("GET", "/api/v1/fleet/local-jobs"),
        ("POST", "/api/v1/fleet/local-jobs/run"),
        ("POST", "/api/v1/fleet/enrollment-credentials"),
        ("POST", "/api/v1/fleet/pairing-requests/request-1/approve"),
        ("POST", "/api/v1/fleet/trusted-nodes/node-1/revoke"),
        ("GET", "/api/v1/memory/overview"),
    ] {
        assert!(!fleet_remote_route_allowed(method, path), "{method} {path}");
    }
}

#[test]
fn a_fleet_listener_refuses_other_routes() {
    let guard = HostGuard::Loopback { allowed_hosts: Vec::new(), fleet_remote_only: true };
    let request = "GET /api/v1/health HTTP/1.1\r\nHost: localhost\r\n\r\n";
    let response = assert_refused(handle(request, &guard, None), "HTTP/1.1 403 Forbidden");
    assert!(response.contains("This Fleet listener exposes only"), "got: {response}");
    let request = "POST /api/v1/fleet/enroll HTTP/1.1\r\nHost: localhost\r\n\r\n";
    assert!(matches!(handle(request, &guard, None), RequestPlan::Serve { .. }));
}

#[test]
fn broken_request_heads_are_refused() {
    let failed = |line: &str, headers: &[String]| {
        handle_http_stream(line, headers, &HostGuard::Disabled, None)
            .expect_err("a broken head")
            .message
    };
    assert_eq!(failed("", &[]), "empty API request");
    assert_eq!(failed("GET\r\n", &[]), "missing HTTP path");
    assert_eq!(parse_request_line("  \r\n").expect_err("no method").message, "missing HTTP method");
    assert_eq!(
        failed("GET / HTTP/1.1\r\n", &["Content-Length: many\r\n".to_string()]),
        "invalid Content-Length header"
    );
}

#[test]
fn headers_are_read_without_regard_to_case() {
    let lines: Vec<String> = [
        "host: a\r\n",
        "HOST: b\r\n",
        "content-LENGTH: 12\r\n",
        "Origin:  http://c \r\n",
        "\r\n",
        "Host: after the end\r\n",
    ]
    .iter()
    .map(|line| line.to_string())
    .collect();
    let headers = read_http_headers(&lines).expect("well formed");
    assert_eq!(headers.content_length, 12);
    assert_eq!(headers.host.as_deref(), Some("b"));
    assert_eq!(headers.origin.as_deref(), Some("http://c"));
}

#[test]
fn bodies_are_text() {
    assert_eq!(read_http_body(Vec::new()).expect("empty"), None);
    assert_eq!(read_http_body(b"{}".to_vec()).expect("text").as_deref(), Some("{}"));
    let error = read_http_body(vec![0xff]).expect_err("not text");
    assert_eq!(error.message, "API request body was not valid UTF-8");
    assert_eq!(error.cause, String::from_utf8(vec![0xff]).err().map(|error| error.to_string()));
}

#[test]
fn a_number_that_is_none_is_told_with_its_cause() {
    for value in ["many", "", "-1", "99999999999999999999999"] {
        let lines = vec![format!("Content-Length: {value}\r\n")];
        let error = read_http_headers(&lines).expect_err("no length");
        assert_eq!(error.message, "invalid Content-Length header");
        assert_eq!(error.cause, value.parse::<usize>().err().map(|error| error.to_string()));
    }
    for status in ["abc", "70000", "-1"] {
        let error = response_status(&format!("HTTP/1.1 {status}")).expect_err("no status");
        assert_eq!(error.message, "daemon HTTP response had an invalid status");
        assert_eq!(error.cause, status.parse::<u16>().err().map(|error| error.to_string()));
    }
    let error = response_content_length("HTTP/1.1 200\r\nContent-Length: x").expect_err("no length");
    assert_eq!(error.cause, "x".parse::<usize>().err().map(|error| error.to_string()));
}

#[test]
fn ports_are_stripped() {
    assert_eq!(strip_port("a.example:80"), "a.example");
    assert_eq!(strip_port("a.example"), "a.example");
    assert_eq!(strip_port("[::1]:80"), "::1");
}

#[test]
fn failures_are_answered_as_json() {
    let response = write_internal_server_error("boom \"x\"");
    assert!(response.starts_with("HTTP/1.1 500 Internal Server Error\r\n"), "got: {response}");
    let (head, body) = response.split_once("\r\n\r\n").expect("a head and a body");
    assert!(head.contains(&format!("Content-Length: {}", body.len())), "got: {head}");
    let parsed: serde_json::Value = serde_json::from_str(body).expect("json");
    assert!(parsed.to_string().contains("boom"), "got: {body}");
}

#[test]
fn http_response_reader_stops_at_content_length_without_eof() {
    let response = b"HTTP/1.1 200 OK\r\nContent-Type: application/json\r\nContent-Length: 11\r\nConnection: keep-alive\r\n\r\n{\"ok\":true}";
    let mut reader = ResponseReader::new(1024);
    reader.receive(&response[..]).expect("well formed");
    let (status, body) = reader.finished().expect("complete");
    assert_eq!(status, 200);
    assert_eq!(body, br#"{"ok":true}"#);
}

#[test]
fn http_response_reader_times_out_when_peer_never_responds() {
    let started = Instant::now();
    let deadline = started + Duration::from_millis(30);
    let mut reader = ResponseReader::new(1024);
    let mut event = ReadEvent::Nothing;
    let error = loop {
        match read_http_response_with_deadline(&mut reader, event, Instant::now() >= deadline) {
            ReadStep::Read => event = ReadEvent::Failed(IoFaultKind::WouldBlock, "later".to_string()),
            ReadStep::Pause(millis) => {
                assert_eq!(millis, 10);
                event = ReadEvent::Nothing;
            }
            ReadStep::GiveUp(fault) => break fault,
            ReadStep::Finish(..) => panic!("nobody answered"),
        }
    };
    assert!(error.message.contains("timed out"), "got: {}", error.chain());
    assert!(started.elapsed() < Duration::from_secs(1));
}

#[test]
fn a_whole_response_outlives_its_deadline() {
    let response = b"HTTP/1.1 200 OK\r\nContent-Length: 2\r\n\r\nok";
    let mut reader = ResponseReader::new(16);
    let bytes = ReadEvent::Bytes(response[..30].to_vec());
    assert!(matches!(
        read_http_response_with_deadline(&mut reader, bytes, false),
        ReadStep::Read
    ));
    let interrupted = ReadEvent::Failed(IoFaultKind::Interrupted, "signal".to_string());
    assert!(matches!(
        read_http_response_with_deadline(&mut reader, interrupted, false),
        ReadStep::Read
    ));
    let rest = ReadEvent::Bytes(response[30..].to_vec());
    match read_http_response_with_deadline(&mut reader, rest, true) {
        ReadStep::Finish(status, body) => {
            assert_eq!((status, body.as_slice()), (200, &b"ok"[..]));
        }
        step => panic!("got {step:?}"),
    }
}

#[test]
fn a_response_that_breaks_off_is_given_up() {
    let told = |event: ReadEvent| {
        let mut reader = ResponseReader::new(16);
        match read_http_response_with_deadline(&mut reader, event, false) {
            ReadStep::GiveUp(fault) => fault.chain(),
            step => panic!("got {step:?}"),
        }
    };
    assert_eq!(
        told(ReadEvent::Bytes(Vec::new())),
        "Coven daemon closed the connection before its HTTP response completed"
    );
    assert_eq!(
        told(ReadEvent::Failed(IoFaultKind::BrokenPipe, "pipe broke".to_string())),
        "failed to read Windows health response: pipe broke"
    );
}

#[test]
fn a_response_may_come_in_any_pieces() {
    let response = b"HTTP/1.1 404 Not Found\r\ncontent-length: 3\r\n\r\nabcdef";
    for size in 1..response.len() {
        let mut reader = ResponseReader::new(16);
        for chunk in response.chunks(size) {
            if reader.finished().is_none() {
                reader.receive(chunk).expect("well formed");
            }
        }
        assert_eq!(reader.finished(), Some((404, b"abc".to_vec())), "pieces of {size}");
    }
    let mut reader = ResponseReader::new(16);
    reader.receive(&response[..20]).expect("so far");
    assert_eq!(reader.finished(), None);
}

#[test]
fn broken_responses_are_refused() {
    let failed = |response: &[u8]| {
        let mut reader = ResponseReader::new(8);
        reader.receive(response).expect_err("a broken response").message
    };
    assert_eq!(
        failed(b"HTTP/1.1\r\nContent-Length: 1\r\n\r\n"),
        "daemon HTTP response omitted its status"
    );
    assert_eq!(
        failed(b"HTTP/1.1 abc\r\nContent-Length: 1\r\n\r\n"),
        "daemon HTTP response had an invalid status"
    );
    assert_eq!(failed(b"HTTP/1.1 200 OK\r\n\r\n"), "daemon HTTP response omitted Content-Length");
    assert_eq!(
        failed(b"HTTP/1.1 200 OK\r\nContent-Length: x\r\n\r\n"),
        "daemon HTTP response had an invalid Content-Length"
    );
    assert_eq!(
        failed(b"HTTP/1.1 200 \xff\r\n\r\n"),
        "daemon HTTP response headers were not UTF-8"
    );
    let long = failed(b"HTTP/1.1 200 OK\r\nContent-Length: 9\r\n\r\n");
    assert!(long.contains('8'), "{long}");
    let endless = vec![b'x'; 65_537];
    let mut reader = ResponseReader::new(8);
    let error = reader.receive(&endless).expect_err("endless headers");
    assert_eq!(error.message, "Coven daemon HTTP response headers exceeded 65536 bytes");
}

#[test]
fn response_heads_are_read() {
    assert_eq!(find_http_header_end(b"a\r\n\r\nb"), Some(1));
    assert_eq!(find_http_header_end(b"a\r\n"), None);
    assert_eq!(response_status("HTTP/1.1 503 Service Unavailable\r\n").expect("a status"), 503);
    assert_eq!(response_content_length("HTTP/1.1 200 OK\r\nCONTENT-length: 7").expect("one"), 7);
}
