use axum::http::{HeaderMap, HeaderValue};
use beam::headers::{
    header_text, headers_to_pairs, is_hop_by_hop_header, pairs_to_headers,
    relay_request_header_allowed, relay_response_header_allowed, valid_header_value, HeaderRule,
};
use beam::relay::session::{
    admit_client, admit_request, public_head, Delivery, HeadOutcome, RelayRefusal,
    RelayResponseHead, RelaySession, SocketEvent, SocketStep,
};
use beam::relay::RelayState;
use beam::relay_protocol::{
    decode_body_chunk, encode_body_chunk, ClientToRelayMessage, HeaderPair,
    RelaySessionCreateRequest, RelayToClientMessage, DEFAULT_RELAY_URL,
};
use beam::weburl::{has_query_room, has_scheme_room};

fn pair(name: &str, value: &str) -> HeaderPair {
    HeaderPair { name: name.to_string(), value: value.to_string() }
}

fn connected() -> RelaySession {
    let mut session = RelaySession::new("s3cret".to_string(), 1_000);
    session.connect();
    session
}

fn begin(session: &mut RelaySession, id: u64) {
    session.begin_request(id, "/".to_string(), None, &HeaderMap::new());
}

fn start(id: u64) -> ClientToRelayMessage {
    ClientToRelayMessage::ResponseStart {
        request_id: id,
        status: 200,
        headers: vec![pair("a", "b")],
    }
}

#[test]
fn creates_public_and_websocket_urls() {
    let mut state: RelayState<RelaySession> =
        RelayState::new("http://127.0.0.1:8787/".to_string());
    let response = state
        .create_session(
            RelaySessionCreateRequest {
                download_name: "file.txt".to_string(),
                expires_at_unix: 123,
            },
            |session| session,
        )
        .unwrap();

    assert!(response.public_url.starts_with("http://127.0.0.1:8787/s/"));
    assert!(response.websocket_url.starts_with("ws://127.0.0.1:8787/v1/client/ws/"));
    assert!(response.public_url.ends_with(&response.public_id));
    assert!(response.websocket_url.ends_with(&format!("?secret={}", response.secret)));
    let session = state.find(&response.public_id).unwrap();
    assert_eq!(session.secret, response.secret);
    assert_eq!(session.expires_at_unix, 123);
    assert!(!session.connected);
    assert!(state.find("other").is_none());
}

#[test]
fn secure_relays_get_secure_sockets() {
    let state: RelayState<u8> = RelayState::new("https://relay.example/base/x".to_string());
    assert_eq!(
        state.public_url("id").as_deref(),
        Some("https://relay.example/base/s/id")
    );
    assert_eq!(
        state.websocket_url("id", "sec").as_deref(),
        Some("wss://relay.example/base/v1/client/ws/id?secret=sec")
    );
    assert!(state.websocket_url("id#f", "sec").unwrap().ends_with("/id?secret=sec#f"));
    assert!(has_scheme_room("http://relay.example/"));
    assert!(has_query_room("http://relay.example/", "a=b"));
    let odd: RelayState<u8> = RelayState::new("mailto:x".to_string());
    assert_eq!(odd.public_url("id"), None);
    assert_eq!(odd.websocket_url("id", "sec"), None);
    assert_eq!(DEFAULT_RELAY_URL, "http://127.0.0.1:8787");
}

#[test]
fn sessions_are_found_until_they_are_closed() {
    let mut state: RelayState<u8> = RelayState::new("http://r/".to_string());
    state.sessions.insert("a".to_string(), 1);
    state.sessions.insert("b".to_string(), 2);
    state.sessions.insert("a".to_string(), 3);
    assert_eq!(state.find("a"), Some(&3));
    assert_eq!(state.find("b"), Some(&2));
    state.note_refusal("a", RelayRefusal::SenderMissing);
    assert_eq!(state.find("a"), Some(&3));
    state.note_refusal("a", RelayRefusal::Expired);
    assert_eq!(state.find("a"), None);
    state.close_session("b");
    assert_eq!(state.find("b"), None);
}

#[test]
fn request_ids_count_from_one() {
    let mut state: RelayState<u8> = RelayState::new("http://r/".to_string());
    assert_eq!(state.take_request_id(), 1);
    assert_eq!(state.take_request_id(), 2);
    state.next_request_id = u64::MAX;
    assert_eq!(state.take_request_id(), u64::MAX);
    assert_eq!(state.take_request_id(), 0);
}

#[test]
fn only_the_secret_opens_a_session() {
    let session = RelaySession::new("s3cret".to_string(), 1_000);
    assert_eq!(admit_client(Some(&session), "s3cret"), Ok(()));
    assert_eq!(admit_client(Some(&session), "guess"), Err(RelayRefusal::InvalidSecret));
    assert_eq!(admit_client(None, "s3cret"), Err(RelayRefusal::SessionNotFound));
}

#[test]
fn requests_need_a_live_session_with_a_sender() {
    let mut session = RelaySession::new("s".to_string(), 1_000);
    assert_eq!(admit_request(None, 0), Err(RelayRefusal::SessionNotFound));
    assert_eq!(admit_request(Some(&session), 1_000), Err(RelayRefusal::Expired));
    assert_eq!(admit_request(Some(&session), 999), Err(RelayRefusal::SenderMissing));
    session.connect();
    assert_eq!(admit_request(Some(&session), 999), Ok(()));
}

#[test]
fn relay_refusals_are_answered() {
    let answers = [
        (RelayRefusal::SessionNotFound, 404, "Beam relay session not found"),
        (RelayRefusal::InvalidSecret, 401, "Invalid relay session secret"),
        (RelayRefusal::Expired, 410, "Beam relay session expired"),
        (RelayRefusal::SenderMissing, 503, "Beam sender is not connected to the relay"),
        (RelayRefusal::SenderUnreachable, 502, "Beam relay could not reach the sender"),
        (RelayRefusal::SenderClosed, 502, "Beam sender closed the relay request"),
        (RelayRefusal::TimedOut, 504, "Beam sender timed out"),
    ];
    for (refusal, status, message) in answers {
        assert_eq!(refusal.status(), status);
        assert_eq!(refusal.message(), message);
    }
}

#[test]
fn requests_are_passed_on_without_hop_headers() {
    let mut session = connected();
    let mut headers = HeaderMap::new();
    headers.insert("host", HeaderValue::from_static("relay"));
    headers.insert("range", HeaderValue::from_static("bytes=0-"));
    let message =
        session.begin_request(4, "/download/x".to_string(), Some("pin=1".to_string()), &headers);
    match message {
        RelayToClientMessage::RequestStart { request_id, method, path, query, headers } => {
            assert_eq!(request_id, 4);
            assert_eq!(method, "GET");
            assert_eq!(path, "/download/x");
            assert_eq!(query.as_deref(), Some("pin=1"));
            assert_eq!(headers.len(), 1);
            assert_eq!(headers[0].name, "range");
        }
        RelayToClientMessage::SessionClose { .. } => panic!("expected a request"),
    }
}

#[test]
fn heads_are_delivered_once() {
    let mut session = connected();
    begin(&mut session, 1);
    match session.handle_control(start(1)) {
        Delivery::Head { request_id, head } => {
            assert_eq!(request_id, 1);
            assert_eq!(head.status, 200);
            assert_eq!(head.headers.len(), 1);
        }
        _ => panic!("expected a head"),
    }
    assert!(matches!(session.handle_control(start(1)), Delivery::Nothing));
    assert!(matches!(session.handle_control(start(2)), Delivery::Nothing));
}

#[test]
fn answers_end_once() {
    let mut session = connected();
    begin(&mut session, 1);
    begin(&mut session, 2);
    let end = ClientToRelayMessage::ResponseEnd { request_id: 1 };
    assert!(matches!(session.handle_control(end.clone()), Delivery::End { request_id: 1 }));
    assert!(matches!(session.handle_control(end), Delivery::Nothing));
    assert_eq!(session.pending.get(1), None);
    assert_eq!(session.pending.get(2), Some(false));
    let closing = ClientToRelayMessage::SessionClose { reason: "x".to_string() };
    assert!(matches!(session.handle_control(closing), Delivery::Nothing));
}

#[test]
fn errors_bring_a_head_where_none_has_come() {
    let error = |id: u64| ClientToRelayMessage::ResponseError {
        request_id: id,
        status: 502,
        message: "no".to_string(),
    };
    let mut session = connected();
    begin(&mut session, 1);
    begin(&mut session, 2);
    session.handle_control(start(2));
    match session.handle_control(error(1)) {
        Delivery::Failure { response } => {
            let head = response.head.unwrap();
            assert_eq!(head.status, 502);
            assert_eq!(head.headers[0].name, "content-type");
            assert_eq!(head.headers[0].value, "text/plain; charset=utf-8");
            assert_eq!(response.body, "no");
        }
        _ => panic!("expected a failure"),
    }
    match session.handle_control(error(2)) {
        Delivery::Failure { response } => assert!(response.head.is_none()),
        _ => panic!("expected a failure"),
    }
    assert!(matches!(session.handle_control(error(3)), Delivery::Nothing));
}

#[test]
fn frames_reach_the_request_that_waits() {
    let mut session = connected();
    begin(&mut session, 258);
    let frame = encode_body_chunk(258, b"abc");
    assert_eq!(session.handle_frame(&frame), Ok(Some((258, b"abc".to_vec()))));
    assert_eq!(session.handle_frame(&encode_body_chunk(1, b"abc")), Ok(None));
    let error = session.handle_frame(&[0; 7]).unwrap_err();
    assert_eq!(error.message(), "relay body frame is too short");
}

#[test]
fn a_lost_sender_ends_everything() {
    let mut session = connected();
    begin(&mut session, 1);
    begin(&mut session, 2);
    session.handle_control(start(1));
    let failed = session.disconnect();
    assert_eq!(failed.len(), 2);
    assert!(failed[0].head.is_none());
    assert_eq!(failed[1].head.as_ref().unwrap().status, 502);
    assert!(failed.iter().all(|response| response.body == "Beam sender disconnected from relay"));
    assert!(!session.connected);
    assert_eq!(session.pending.get(1), None);
    assert!(session.disconnect().is_empty());
}

#[test]
fn waiting_for_a_head_comes_to_an_end() {
    let mut session = connected();
    for (outcome, refusal) in [
        (HeadOutcome::Undelivered, RelayRefusal::SenderUnreachable),
        (HeadOutcome::Closed, RelayRefusal::SenderClosed),
        (HeadOutcome::TimedOut, RelayRefusal::TimedOut),
    ] {
        begin(&mut session, 1);
        assert_eq!(session.conclude(1, outcome).unwrap_err(), refusal);
        assert_eq!(session.pending.get(1), None);
    }
    begin(&mut session, 1);
    let head = RelayResponseHead { status: 200, headers: vec![] };
    assert_eq!(session.conclude(1, HeadOutcome::Head { head }).unwrap().status, 200);
    assert_eq!(session.pending.get(1), Some(false));
}

#[test]
fn odd_statuses_become_bad_gateways() {
    let shown = |status: u16| {
        public_head(&RelayResponseHead { status, headers: vec![pair("x-a", "1")] })
            .map(|(status, headers)| (status, headers.len()))
    };
    assert_eq!(shown(206), Some((206, 1)));
    assert_eq!(shown(99), Some((502, 1)));
    assert_eq!(shown(999), Some((999, 1)));
    assert_eq!(shown(1000), Some((502, 1)));
}

#[test]
fn frames_carry_the_id_first() {
    assert_eq!(encode_body_chunk(258, b"hi"), vec![0, 0, 0, 0, 0, 0, 1, 2, b'h', b'i']);
    assert_eq!(decode_body_chunk(&[0, 0, 0, 0, 0, 0, 1, 2, 9]), Ok((258, vec![9])));
    let largest = encode_body_chunk(u64::MAX, b"");
    assert_eq!(decode_body_chunk(&largest), Ok((u64::MAX, vec![])));
    assert!(decode_body_chunk(&[]).is_err());
}

#[test]
fn hop_by_hop_headers_stay() {
    for name in ["connection", "host", "te", "upgrade", "sec-websocket-key", "transfer-encoding"] {
        assert!(is_hop_by_hop_header(name));
        assert!(!relay_request_header_allowed(name));
        assert!(!relay_response_header_allowed(name));
    }
    assert!(relay_response_header_allowed("content-type"));
    assert!(HeaderRule::Request.allows("range"));
}

#[test]
fn headers_come_through() {
    let pairs = vec![pair("X-One", "1"), pair("x-two", "2"), pair("x-one", "3")];
    let map = pairs_to_headers(&pairs).unwrap();
    let back: Vec<(String, String)> = headers_to_pairs(&map, HeaderRule::Response)
        .into_iter()
        .map(|pair| (pair.name, pair.value))
        .collect();
    assert_eq!(back.len(), 3);
    assert!(back.contains(&("x-one".to_string(), "1".to_string())));
    assert!(back.contains(&("x-one".to_string(), "3".to_string())));
    assert!(back.contains(&("x-two".to_string(), "2".to_string())));
    assert_eq!(header_text(&map, "x-one").as_deref(), Some("1"));
    assert_eq!(header_text(&map, "x-three"), None);
    assert!(valid_header_value("plain \t text"));
    assert!(!valid_header_value("a\u{7f}"));
}

#[test]
fn socket_events_are_handled() {
    let mut session = connected();
    begin(&mut session, 7);
    assert!(matches!(
        session.handle_event(SocketEvent::Control { message: start(7) }),
        SocketStep::Deliver { delivery: Delivery::Head { request_id: 7, .. } }
    ));
    let frame = SocketEvent::Frame { payload: encode_body_chunk(7, b"xy") };
    match session.handle_event(frame) {
        SocketStep::Chunk { request_id, bytes } => {
            assert_eq!(request_id, 7);
            assert_eq!(bytes, b"xy");
        }
        _ => panic!("expected a chunk"),
    }
    let unknown = SocketEvent::Frame { payload: encode_body_chunk(8, b"xy") };
    assert!(matches!(session.handle_event(unknown), SocketStep::Continue));
    let short = SocketEvent::Frame { payload: vec![1, 2, 3] };
    assert!(matches!(session.handle_event(short), SocketStep::Stop));
    assert!(matches!(session.handle_event(SocketEvent::Other), SocketStep::Continue));
    for event in [SocketEvent::Unreadable, SocketEvent::Closed, SocketEvent::Failed] {
        assert!(matches!(session.handle_event(event), SocketStep::Stop));
    }
}
