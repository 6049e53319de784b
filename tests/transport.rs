use miniprobe::{
    assemble_http_request, basic_request_builder, connect_target, ingress_uri, order_candidates,
    parse_http_response, postcard_content_type, session_reply, session_request, session_uri, HttpVersion, RaceAction,
    RaceEvent, Racer, Resolved, SessionError, WireError,
};

fn header_pairs(req: &miniprobe::HttpRequest) -> Vec<(String, String)> {
    req.headers
        .iter()
        .map(|h| {
            (
                String::from_utf8(h.name.clone()).unwrap(),
                String::from_utf8(h.value.clone()).unwrap(),
            )
        })
        .collect()
}

#[test]
fn candidates_interleave_preferred_family_first() {
    let resolved = vec![
        Resolved { addr: 1u32, ipv4: true },
        Resolved { addr: 2u32, ipv4: true },
        Resolved { addr: 3u32, ipv4: true },
        Resolved { addr: 10u32, ipv4: false },
        Resolved { addr: 11u32, ipv4: false },
    ];
    assert_eq!(order_candidates(&resolved, false), vec![1, 10, 2, 11, 3]);
    assert_eq!(order_candidates(&resolved, true), vec![10, 1, 11, 2, 3]);
    assert_eq!(order_candidates(&Vec::<Resolved<u32>>::new(), true), Vec::<u32>::new());
}

#[test]
fn racer_picks_first_success_without_launching_later_candidates() {
    let (mut racer, first) = Racer::start(5);
    assert_eq!(first, RaceAction::Launch(0));
    assert_eq!(racer.step(RaceEvent::DelayElapsed), RaceAction::Launch(1));
    assert_eq!(racer.step(RaceEvent::DelayElapsed), RaceAction::Launch(2));
    assert_eq!(racer.step(RaceEvent::Connected(2)), RaceAction::Won(2));
    assert!(racer.is_finished());
}

#[test]
fn racer_moves_on_after_a_failure_and_reports_total_failure() {
    let (mut racer, first) = Racer::start(2);
    assert_eq!(first, RaceAction::Launch(0));
    assert_eq!(racer.step(RaceEvent::Failed(0)), RaceAction::Launch(1));
    assert_eq!(racer.step(RaceEvent::DelayElapsed), RaceAction::Wait { stagger: false });
    assert_eq!(racer.step(RaceEvent::Failed(1)), RaceAction::AllFailed);
    assert!(racer.is_finished());
    let (empty, action) = Racer::start(0);
    assert_eq!(action, RaceAction::AllFailed);
    assert!(empty.is_finished());
}

#[test]
fn racer_keeps_waiting_while_attempts_are_pending() {
    let (mut racer, _) = Racer::start(3);
    assert_eq!(racer.step(RaceEvent::DelayElapsed), RaceAction::Launch(1));
    assert_eq!(racer.step(RaceEvent::Failed(0)), RaceAction::Wait { stagger: true });
    assert_eq!(racer.step(RaceEvent::Connected(1)), RaceAction::Won(1));
}

#[test]
fn request_builder_sets_base_headers_and_strips_user_info() {
    let req = basic_request_builder("http://user:pw@example.com:8080/api/v1?x=1", "POST").unwrap();
    assert_eq!(req.method, b"POST".to_vec());
    assert_eq!(
        header_pairs(&req),
        vec![
            ("host".to_string(), "example.com:8080".to_string()),
            ("connection".to_string(), "close".to_string()),
            ("accept-encoding".to_string(), "identity".to_string()),
        ]
    );
    assert_eq!(req.uri.path_and_query, Some(b"/api/v1?x=1".to_vec()));
    assert_eq!(connect_target(&req.uri, false), Ok((b"example.com".to_vec(), 8080)));
}

#[test]
fn request_builder_errors() {
    assert!(matches!(basic_request_builder("/only/a/path", "GET"), Err(WireError::NoHost)));
    assert!(matches!(basic_request_builder("http://exa mple.com/", "GET"), Err(WireError::InvalidUri)));
    assert!(matches!(basic_request_builder("http://user@/x", "GET"), Err(WireError::InvalidUri)));
}

#[test]
fn default_ports_follow_tls() {
    let req = basic_request_builder("http://example.com/", "GET").unwrap();
    assert_eq!(connect_target(&req.uri, true), Ok((b"example.com".to_vec(), 443)));
    assert_eq!(connect_target(&req.uri, false), Ok((b"example.com".to_vec(), 80)));
}

#[test]
fn assembled_request_has_exact_bytes() {
    let mut req = basic_request_builder("http://example.com", "GET").unwrap();
    req.body = b"xyz".to_vec();
    let bytes = assemble_http_request(&req);
    assert_eq!(
        bytes,
        b"GET / HTTP/1.1\r\nhost: example.com\r\nconnection: close\r\naccept-encoding: identity\r\n\r\nxyz"
            .to_vec()
    );
}

#[test]
fn assembled_request_parses_back() {
    let body = vec![0u8, 1, 2, 255, 13, 10];
    let req = session_request("127.0.0.1:8000", false, body.clone()).unwrap();
    let bytes = assemble_http_request(&req);
    let mut headers = [httparse::EMPTY_HEADER; 16];
    let mut parsed = httparse::Request::new(&mut headers);
    let status = parsed.parse(&bytes).unwrap();
    let head_len = match status {
        httparse::Status::Complete(n) => n,
        httparse::Status::Partial => panic!("request head is incomplete"),
    };
    assert_eq!(parsed.method, Some("POST"));
    assert_eq!(parsed.path, Some("/api/v1/sessions"));
    assert_eq!(parsed.version, Some(1));
    let got: Vec<(String, String)> = parsed
        .headers
        .iter()
        .map(|h| (h.name.to_string(), String::from_utf8(h.value.to_vec()).unwrap()))
        .collect();
    assert_eq!(got, header_pairs(&req));
    assert_eq!(&bytes[head_len..], &body[..]);
}

#[test]
fn session_request_is_typed_and_sized() {
    let req = session_request("localhost:8000", true, vec![7u8; 123]).unwrap();
    assert_eq!(
        header_pairs(&req)[3..].to_vec(),
        vec![
            ("content-type".to_string(), "application/postcard".to_string()),
            ("content-length".to_string(), "123".to_string()),
        ]
    );
    assert_eq!(session_uri("localhost:8000", true), b"https://localhost:8000/api/v1/sessions".to_vec());
    assert_eq!(session_uri("h:1", false), b"http://h:1/api/v1/sessions".to_vec());
    assert_eq!(ingress_uri("h:1", true), b"wss://h:1/ws/v1/metrics/ingress".to_vec());
    assert_eq!(ingress_uri("h:1", false), b"ws://h:1/ws/v1/metrics/ingress".to_vec());
}

#[test]
fn decimal_digits() {
    assert_eq!(miniprobe::decimal_bytes(0), b"0".to_vec());
    assert_eq!(miniprobe::decimal_bytes(9), b"9".to_vec());
    assert_eq!(miniprobe::decimal_bytes(10), b"10".to_vec());
    assert_eq!(miniprobe::decimal_bytes(40321), b"40321".to_vec());
}

#[test]
fn response_parses_status_headers_and_body() {
    let resp = parse_http_response(b"HTTP/1.1 201 Created\r\nContent-Type: text/plain\r\n\r\nhello\r\nworld").unwrap();
    assert_eq!(resp.status, 201);
    assert_eq!(resp.version, HttpVersion::Http11);
    assert_eq!(resp.headers.len(), 1);
    assert_eq!(resp.headers[0].name, b"Content-Type".to_vec());
    assert_eq!(resp.headers[0].value, b"text/plain".to_vec());
    assert_eq!(resp.body, b"hello\r\nworld".to_vec());
    let old = parse_http_response(b"HTTP/1.0 200 OK\r\n\r\n").unwrap();
    assert_eq!(old.version, HttpVersion::Http10);
    assert!(old.body.is_empty());
}

#[test]
fn truncated_status_line_is_incomplete() {
    assert!(matches!(parse_http_response(b"HTTP/1.1 20"), Err(WireError::Incomplete)));
    assert!(matches!(parse_http_response(b"HTTP/1.1 200 OK\r\nHost: x"), Err(WireError::Incomplete)));
    assert!(matches!(parse_http_response(b""), Err(WireError::Incomplete)));
}

#[test]
fn malformed_and_invalid_status_responses() {
    assert!(matches!(parse_http_response(b"garbage\r\n\r\n"), Err(WireError::Malformed)));
    assert!(matches!(parse_http_response(b"HTTP/1.1 099 Low\r\n\r\n"), Err(WireError::InvalidStatus)));
}

#[test]
fn session_reply_requires_success() {
    let ok = parse_http_response(b"HTTP/1.1 200 OK\r\n\r\nabc").unwrap();
    assert_eq!(session_reply(ok).ok(), Some(b"abc".to_vec()));
    let denied = parse_http_response(b"HTTP/1.1 401 Unauthorized\r\n\r\nInvalid token").unwrap();
    match session_reply(denied) {
        Err(SessionError::Rejected { status, body }) => {
            assert_eq!(status, 401);
            assert_eq!(body, b"Invalid token".to_vec());
        }
        _ => panic!("a refused session must be reported"),
    }
}

#[test]
fn postcard_content_types() {
    assert!(postcard_content_type("application/postcard"));
    assert!(postcard_content_type("application/postcard; charset=utf-8"));
    assert!(postcard_content_type("application/postcard;charset=utf-8"));
    assert!(postcard_content_type("application/cloudevents+postcard"));
    assert!(postcard_content_type("Application/Postcard"));
    assert!(!postcard_content_type("text/postcard"));
    assert!(!postcard_content_type("application/json"));
    assert!(!postcard_content_type("not a media type"));
}

#[test]
fn request_framing_reads_back_headers_with_colons_in_values() {
    let mut req = basic_request_builder("http://h/p", "PUT").unwrap();
    req.headers.push(miniprobe::Header { name: b"x-time".to_vec(), value: b"12:30:00".to_vec() });
    req.body = b"\r\n\r\nbody".to_vec();
    let bytes = assemble_http_request(&req);
    let mut headers = [httparse::EMPTY_HEADER; 8];
    let mut parsed = httparse::Request::new(&mut headers);
    let n = match parsed.parse(&bytes).unwrap() {
        httparse::Status::Complete(n) => n,
        httparse::Status::Partial => panic!("request head is incomplete"),
    };
    assert_eq!(parsed.method, Some("PUT"));
    assert_eq!(parsed.path, Some("/p"));
    assert_eq!(parsed.headers[3].name, "x-time");
    assert_eq!(parsed.headers[3].value, b"12:30:00");
    assert_eq!(&bytes[n..], b"\r\n\r\nbody");
}

#[test]
fn racer_refuses_reports_on_unlaunched_candidates() {
    let (racer, _) = Racer::start(3);
    assert!(racer.accepts(&RaceEvent::Failed(0)));
    assert!(!racer.accepts(&RaceEvent::Connected(1)));
    assert!(racer.accepts(&RaceEvent::DelayElapsed));
    let (mut won, _) = Racer::start(1);
    won.step(RaceEvent::Connected(0));
    assert!(!won.accepts(&RaceEvent::DelayElapsed));
}
