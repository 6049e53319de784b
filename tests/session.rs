use miniprobe::{
    credential_lookup_index, find_client, index_client_token, issue_session, memory_row,
    network_counters, to_stored, ClientAction, ClientEvent, ClientRecord, ClientState,
    CreateSessionError, IngressAction, IngressController, IngressEvent, IngressState,
    IngressWsError, MemoryMetrics, NetworkMetrics, ReconnectTimer, Session, SessionClient,
    SessionManager, SessionMutexRejection, SessionToken, SharedOwnable, CLOSE_AWAY, CLOSE_CONFLICT, CLOSE_ERROR, CLOSE_UNSUPPORTED,
    TOKEN_LENGTH,
};
use sha2::Digest;

#[test]
fn backoff_doubles_up_to_the_maximum_and_resets() {
    let mut timer = ReconnectTimer::new(1, 300);
    let mut seen = vec![timer.interval()];
    for _ in 0..11 {
        timer.advance();
        seen.push(timer.interval());
    }
    assert_eq!(seen, vec![1, 2, 4, 8, 16, 32, 64, 128, 256, 300, 300, 300]);
    timer.reset();
    assert_eq!(timer.interval(), 1);
    let mut big = ReconnectTimer::new(u64::MAX / 2 + 1, u64::MAX);
    big.advance();
    assert_eq!(big.interval(), u64::MAX);
}

#[test]
fn token_parse_requires_exact_length() {
    let text = "abcdefghijklmnopqrstuvwxyz012345";
    let token = SessionToken::parse(text).unwrap();
    assert_eq!(token.as_bytes(), text.as_bytes());
    let again: SessionToken = text.parse().unwrap();
    assert!(token == again);
    assert!(SessionToken::parse("short").is_err());
    assert!(SessionToken::parse("abcdefghijklmnopqrstuvwxyz0123456").is_err());
    let mut header = b"Bearer ".to_vec();
    header.extend_from_slice(text.as_bytes());
    assert_eq!(token.bearer_header(), header);
}

#[test]
fn random_tokens_are_alphanumeric() {
    let a = SessionToken::random();
    let b = SessionToken::random();
    assert_eq!(a.as_bytes().len(), TOKEN_LENGTH);
    assert!(a.as_bytes().iter().all(|c| c.is_ascii_alphanumeric()));
    assert!(a != b);
}

#[test]
fn ten_thousand_sessions_get_distinct_tokens() {
    let mut manager = SessionManager::new();
    let mut tokens = std::collections::HashSet::new();
    for id in 0..10_000i64 {
        let token = manager.add_session(Session { id });
        assert!(tokens.insert(token.as_bytes().to_vec()));
    }
    assert_eq!(manager.len(), 10_000);
}

#[test]
fn sessions_are_found_by_token() {
    let mut manager = SessionManager::new();
    let token = manager.add_session(Session { id: 7 });
    let other = SessionToken::parse("0123456789abcdef0123456789abcdef").unwrap();
    assert!(manager.contains(&token));
    assert!(manager.get_session(&other).is_none());
    let shared = manager.get_session(&token).unwrap();
    assert_eq!(shared.data().try_read().unwrap().id, 7);
    assert_eq!(manager.len(), 1);
}

#[test]
fn ownership_is_exclusive_and_handed_back_on_drop() {
    let shared = SharedOwnable::new(Session { id: 1 });
    assert!(!shared.is_owned());
    let first = SharedOwnable::try_own(&shared).expect("free lock");
    assert!(shared.is_owned());
    assert!(SharedOwnable::try_own(&shared).is_none());
    assert!(SharedOwnable::try_own(&shared).is_none());
    assert_eq!(first.shared().data().try_read().unwrap().id, 1);
    drop(first);
    assert!(!shared.is_owned());
    let second = SharedOwnable::try_own(&shared);
    assert!(second.is_some());
    assert!(SharedOwnable::try_own(&shared).is_none());
}

#[test]
fn readers_are_not_blocked_by_ownership() {
    let shared = SharedOwnable::new(Session { id: 3 });
    let _owner = SharedOwnable::try_own(&shared).unwrap();
    let a = shared.data().try_read().unwrap();
    let b = shared.data().try_read().unwrap();
    assert_eq!(a.id + b.id, 6);
}

#[test]
fn credential_index_uses_digest_of_first_four_bytes() {
    let token = "abc123defg456hij";
    let d = sha2::Sha256::digest(b"abc1");
    let expected = u32::from_be_bytes([d[0], d[1], d[2], d[3]]);
    assert_eq!(index_client_token(token), expected);
    assert_eq!(credential_lookup_index(token), Ok(expected));
    assert_eq!(credential_lookup_index("abc123"), Err(CreateSessionError::InvalidToken));
}

#[test]
fn credentials_are_matched_against_stored_hashes() {
    let token = "abc123defg456hij";
    let records = vec![
        ClientRecord { id: 1, token_hash: password_auth::generate_hash("another-secret12") },
        ClientRecord { id: 2, token_hash: "not a hash".to_string() },
        ClientRecord { id: 3, token_hash: password_auth::generate_hash(token) },
    ];
    assert_eq!(find_client(token, &records), Ok(3));
    assert_eq!(find_client("zzz123defg456hij", &records), Err(CreateSessionError::InvalidToken));
    assert_eq!(find_client(token, &Vec::new()), Err(CreateSessionError::InvalidToken));
}

#[test]
fn client_reconnects_with_growing_backoff_and_resets_on_success() {
    let (mut client, first) = SessionClient::new(1, 4);
    assert_eq!(first, ClientAction::Authenticate);
    assert_eq!(client.on_event(ClientEvent::Failed), ClientAction::WaitBackoff(1));
    assert_eq!(client.on_event(ClientEvent::BackoffElapsed), ClientAction::Authenticate);
    assert_eq!(client.on_event(ClientEvent::Failed), ClientAction::WaitBackoff(2));
    assert_eq!(client.on_event(ClientEvent::BackoffElapsed), ClientAction::Authenticate);
    assert_eq!(client.on_event(ClientEvent::Failed), ClientAction::WaitBackoff(4));
    assert_eq!(client.on_event(ClientEvent::BackoffElapsed), ClientAction::Authenticate);
    assert_eq!(client.on_event(ClientEvent::Failed), ClientAction::WaitBackoff(4));
    assert_eq!(client.on_event(ClientEvent::BackoffElapsed), ClientAction::Authenticate);
    assert_eq!(client.on_event(ClientEvent::SessionOpened { interval: 5 }), ClientAction::SendSample);
    assert_eq!(client.current_state(), ClientState::Sending { interval: 5 });
    assert!(!client.accepts(ClientEvent::TickElapsed));
    assert_eq!(client.on_event(ClientEvent::SampleSent), ClientAction::WaitTick(5));
    assert_eq!(client.current_state(), ClientState::Streaming { interval: 5 });
    assert_eq!(client.on_event(ClientEvent::TickElapsed), ClientAction::SendSample);
    assert_eq!(client.on_event(ClientEvent::Failed), ClientAction::WaitBackoff(1));
    assert!(!client.accepts(ClientEvent::SampleSent));
    assert_eq!(client.on_event(ClientEvent::ShutdownRequested), ClientAction::Stop);
    assert_eq!(client.current_state(), ClientState::Stopped);
    assert!(!client.accepts(ClientEvent::BackoffElapsed));
}

fn frame_of(action: IngressAction) -> Option<(u16, String)> {
    match action {
        IngressAction::Finish(Some(f)) => Some((f.code, f.reason)),
        _ => None,
    }
}

#[test]
fn authenticated_client_streams_three_samples() {
    let credential = "abc123defg456hij";
    assert_eq!(credential.len(), 16);
    let records = vec![ClientRecord { id: 42, token_hash: password_auth::generate_hash(credential) }];
    credential_lookup_index(credential).unwrap();
    let client_id = find_client(credential, &records).unwrap();
    assert_eq!(client_id, 42);
    let mut manager = SessionManager::new();
    let resp = issue_session(&mut manager, Session { id: 1 });
    assert_eq!(resp.scrape_interval, 5);
    assert_eq!(resp.session_token.as_bytes().len(), TOKEN_LENGTH);
    let lock = manager.get_session(&resp.session_token).unwrap();
    let guard = SharedOwnable::try_own(&lock).unwrap();
    let (mut controller, first) = IngressController::connect(true);
    assert!(matches!(first, IngressAction::AwaitFrame));
    let mut stored = 0;
    for _ in 0..3 {
        assert!(matches!(controller.next(IngressEvent::Binary), IngressAction::DecodeAndStore));
        stored += 1;
        assert!(matches!(controller.next(IngressEvent::Stored), IngressAction::AwaitFrame));
    }
    assert_eq!(stored, 3);
    assert_eq!(guard.shared().data().try_read().unwrap().id, 1);
}

#[test]
fn second_connection_for_owned_session_gets_conflict() {
    let mut manager = SessionManager::new();
    let token = manager.add_session(Session { id: 5 });
    let lock = manager.get_session(&token).unwrap();
    let first_owner = SharedOwnable::try_own(&lock);
    let (first, _) = IngressController::connect(first_owner.is_some());
    let second_owner = SharedOwnable::try_own(&lock);
    let (second, action) = IngressController::connect(second_owner.is_some());
    assert_eq!(second.current_state(), IngressState::Closed);
    assert_eq!(frame_of(action), Some((CLOSE_CONFLICT, "session already owned by another connection".to_string())));
    assert_ne!(CLOSE_CONFLICT, CLOSE_ERROR);
    assert_eq!(first.current_state(), IngressState::Streaming);
    assert!(lock.is_owned());
}

#[test]
fn shutdown_closes_waiting_connection_with_shutdown_reason() {
    let (mut controller, _) = IngressController::connect(true);
    let action = controller.next(IngressEvent::Cancelled);
    assert_eq!(frame_of(action), Some((CLOSE_AWAY, "server shutting down".to_string())));
    assert_eq!(controller.current_state(), IngressState::Closed);
}

#[test]
fn protocol_violations_and_failures_close_the_connection() {
    let (mut c, _) = IngressController::connect(true);
    assert_eq!(frame_of(c.next(IngressEvent::Text)), Some((CLOSE_UNSUPPORTED, "unexpected message from client".to_string())));
    let (mut c, _) = IngressController::connect(true);
    c.next(IngressEvent::Binary);
    assert!(!c.accepts(&IngressEvent::Binary));
    assert_eq!(
        frame_of(c.next(IngressEvent::StoreFailed("bad frame".to_string()))),
        Some((CLOSE_ERROR, "internal error: bad frame".to_string()))
    );
    let (mut c, _) = IngressController::connect(true);
    assert!(matches!(c.next(IngressEvent::Control), IngressAction::AwaitFrame));
    assert!(matches!(c.next(IngressEvent::Close), IngressAction::Finish(None)));
    let (mut c, _) = IngressController::connect(true);
    assert!(matches!(c.next(IngressEvent::Ended), IngressAction::Finish(None)));
    let frame = IngressWsError::Internal("x".to_string()).into_close_frame();
    assert_eq!((frame.code, frame.reason), (CLOSE_ERROR, "internal error: x".to_string()));
}

#[test]
fn postcard_wraps_a_value() {
    let wrapped = miniprobe::Postcard::new(vec![1u8, 2]);
    assert_eq!(wrapped.0, vec![1u8, 2]);
    assert_eq!(wrapped.into_inner(), vec![1u8, 2]);
}

#[test]
fn counters_are_stored_as_signed_bits() {
    assert_eq!(to_stored(5), 5);
    assert_eq!(to_stored(u64::MAX), -1);
    assert_eq!(to_stored(1u64 << 63), i64::MIN);
    let m = MemoryMetrics { total: 16, used: 8, swap_total: u64::MAX, swap_used: 0 };
    assert_eq!(memory_row(&m), (16, 8, -1, 0));
    let n = NetworkMetrics { ifname: "eth0".to_string(), rx_bytes: Some(10), tx_bytes: None };
    assert_eq!(network_counters(&n), (Some(10), None));
}

#[test]
fn streaming_connections_are_authorized_by_issued_tokens() {
    let mut manager = SessionManager::new();
    let token = manager.add_session(Session { id: 11 });
    let text = String::from_utf8(token.as_bytes().to_vec()).unwrap();
    let lock = manager.authorize(&text).ok().unwrap();
    assert_eq!(lock.data().try_read().unwrap().id, 11);
    assert_eq!(
        manager.authorize("0123456789abcdef0123456789abcdef").err(),
        Some(SessionMutexRejection::InvalidToken)
    );
    assert_eq!(manager.authorize("short").err(), Some(SessionMutexRejection::InvalidToken));
}

#[test]
fn token_parse_reports_its_error() {
    assert_eq!(SessionToken::parse("short").err(), Some("SessionToken must be 32 bytes long"));
}

#[test]
fn issued_tokens_are_bound_to_their_session() {
    let mut manager = SessionManager::new();
    let resp = issue_session(&mut manager, Session { id: 77 });
    assert_eq!(resp.session_token.as_bytes().len(), TOKEN_LENGTH);
    let lock = manager.get_session(&resp.session_token).unwrap();
    assert_eq!(lock.data().try_read().unwrap().id, 77);
}

#[test]
fn conflict_code_differs_from_every_other_close_code() {
    let codes = [
        IngressWsError::Conflict.into_close_frame().code,
        IngressWsError::Shutdown.into_close_frame().code,
        IngressWsError::UnexpectedMessage.into_close_frame().code,
        IngressWsError::Internal("e".to_string()).into_close_frame().code,
    ];
    assert_eq!(codes, [CLOSE_CONFLICT, CLOSE_AWAY, CLOSE_UNSUPPORTED, CLOSE_ERROR]);
    assert!(codes[0] != codes[1] && codes[0] != codes[2] && codes[0] != codes[3]);
}
