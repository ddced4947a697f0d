use factorio_rcon::{
    auth_outcome, command_outcome, parse_packet_buffer, read_failure, read_failure_of,
    send_failure, Packet, RconError, Session, DEFAULT_TIMEOUT_SECS,
};
use std::io;

/// What a server would send back: the frame body of a response.
fn response(id: i32, packet_type: i32, payload: &str) -> Packet {
    let encoded = Packet {
        id,
        packet_type,
        payload: payload.to_string(),
    }
    .encode()
    .unwrap();
    parse_packet_buffer(&encoded[4..]).unwrap()
}

#[test]
fn session_first_request_is_auth_with_id_one() {
    let mut s = Session::new();
    let req = s.auth_request("secret");
    assert_eq!(req.id, 1);
    assert_eq!(req.packet_type, 3);
    assert_eq!(req.payload, "secret");
    assert!(auth_outcome(&response(req.id, 2, "")).is_ok());
}

#[test]
fn session_auth_failure_on_sentinel_id() {
    let mut s = Session::new();
    let _req = s.auth_request("wrong");
    let r = auth_outcome(&response(-1, 2, ""));
    assert!(matches!(r, Err(RconError::AuthFailed)));
}

#[test]
fn session_command_returns_payload() {
    let mut s = Session::new();
    let _ = s.auth_request("pass");
    let req = s.command_request("/version");
    assert_eq!(req.packet_type, 2);
    assert_eq!(req.payload, "/version");
    let out = command_outcome(req.id, response(req.id, 0, "Factorio 2.0.28")).unwrap();
    assert_eq!(out, "Factorio 2.0.28");
    let req = s.command_request("/noop");
    assert_eq!(command_outcome(req.id, response(req.id, 0, "")).unwrap(), "");
}

#[test]
fn session_ids_increment_then_wrap() {
    let mut s = Session::new();
    let auth_id = s.auth_request("pass").id;
    assert_eq!(s.command_request("/a").id, auth_id + 1);
    assert_eq!(s.command_request("/b").id, auth_id + 2);

    let mut s = Session::new();
    s.next_id = i32::MAX;
    assert_eq!(s.next_request_id(), i32::MAX);
    assert_eq!(s.next_request_id(), 1);
    assert_eq!(s.next_id, 2);
}

#[test]
fn session_response_id_mismatch() {
    let mut s = Session::new();
    let _ = s.auth_request("pass");
    let req = s.command_request("/test");
    match command_outcome(req.id, response(req.id + 999, 0, "wrong")) {
        Err(RconError::ProtocolError(m)) => {
            assert_eq!(m, "Response ID mismatch: expected 2, got 1001")
        }
        other => panic!("unexpected {:?}", other),
    }
    match command_outcome(5, response(-1, 0, "")) {
        Err(RconError::ProtocolError(m)) => {
            assert_eq!(m, "Response ID mismatch: expected 5, got -1")
        }
        other => panic!("unexpected {:?}", other),
    }
}

#[test]
fn send_failure_reports_lost_connection() {
    let e = send_failure(RconError::Io(io::Error::new(io::ErrorKind::BrokenPipe, "pipe")));
    assert!(matches!(e, RconError::ConnectionLost(_)));
    let e = send_failure(RconError::InvalidPacket("x".into()));
    assert!(matches!(e, RconError::InvalidPacket(m) if m == "x"));
    let e = send_failure(RconError::Timeout(7));
    assert!(matches!(e, RconError::Timeout(7)));
}

#[test]
fn read_failure_by_kind() {
    let e = read_failure(io::Error::new(io::ErrorKind::UnexpectedEof, "eof"));
    assert!(matches!(e, RconError::ConnectionLost(_)));
    let e = read_failure(io::Error::new(io::ErrorKind::ConnectionReset, "reset"));
    assert!(matches!(e, RconError::Io(_)));
    let e = read_failure_of(io::Error::new(io::ErrorKind::Other, "x"), true);
    assert!(matches!(e, RconError::ConnectionLost(_)));
    let e = read_failure_of(io::Error::new(io::ErrorKind::Other, "x"), false);
    assert!(matches!(e, RconError::Io(_)));
}

#[test]
fn default_timeout_is_five_seconds() {
    assert_eq!(DEFAULT_TIMEOUT_SECS, 5);
}
