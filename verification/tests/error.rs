use factorio_rcon::RconError;
use std::io;

#[test]
fn test_error_display() {
    let err = RconError::AuthFailed;
    assert_eq!(err.to_string(), "Authentication failed: incorrect password");

    let err = RconError::Timeout(5000);
    assert_eq!(err.to_string(), "Operation timed out after 5000ms");

    let err = RconError::ProtocolError("unexpected response".into());
    assert_eq!(err.to_string(), "Protocol error: unexpected response");
}

#[test]
fn test_from_io_error() {
    let io_err = io::Error::new(io::ErrorKind::ConnectionRefused, "refused");
    let rcon_err: RconError = io_err.into();
    assert!(matches!(rcon_err, RconError::Io(_)));
}

// ---- further cases ----

#[test]
fn display_of_remaining_variants() {
    assert_eq!(
        RconError::Timeout(0).to_string(),
        "Operation timed out after 0ms"
    );
    assert_eq!(
        RconError::Timeout(u64::MAX).to_string(),
        "Operation timed out after 18446744073709551615ms"
    );
    assert_eq!(
        RconError::InvalidPacket("Buffer too small: 8 bytes".into()).to_string(),
        "Invalid packet: Buffer too small: 8 bytes"
    );
    let e = RconError::ConnectionFailed(io::Error::new(io::ErrorKind::Other, "refused"));
    assert_eq!(e.to_string(), "Failed to connect to RCON server: refused");
    let e = RconError::ConnectionLost(io::Error::new(io::ErrorKind::Other, "reset"));
    assert_eq!(e.to_string(), "Connection lost: reset");
    let e = RconError::Io(io::Error::new(io::ErrorKind::Other, "broken"));
    assert_eq!(e.to_string(), "IO error: broken");
}
