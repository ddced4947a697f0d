//! The error type of the client.

use vstd::prelude::*;
use vstd::string::to_string_from_display_ensures;

verus! {

#[verifier::external_type_specification]
#[verifier::external_body]
pub struct ExIoError(std::io::Error);

/// RCON client errors
#[derive(Debug)]
pub enum RconError {
    /// Initial TCP connection failed
    ConnectionFailed(std::io::Error),
    /// Authentication failed (wrong password)
    AuthFailed,
    /// Operation timed out (milliseconds)
    Timeout(u64),
    /// Connection lost during operation
    ConnectionLost(std::io::Error),
    /// Invalid server response
    ProtocolError(String),
    /// Malformed packet structure
    InvalidPacket(String),
    /// Generic IO error
    Io(std::io::Error),
}

/// Result type alias for RCON operations
pub type Result<T> = std::result::Result<T, RconError>;

/// The text of an error, given the text `io_text` of the I/O error that the
/// variants carrying one hold.
pub open spec fn error_message(e: RconError, io_text: Seq<char>) -> Seq<char> {
    match e {
        RconError::ConnectionFailed(_) => "Failed to connect to RCON server: "@ + io_text,
        RconError::AuthFailed => "Authentication failed: incorrect password"@,
        RconError::Timeout(ms) => "Operation timed out after "@ + crate::text::decimal(
            ms as nat,
        ) + "ms"@,
        RconError::ConnectionLost(_) => "Connection lost: "@ + io_text,
        RconError::ProtocolError(m) => "Protocol error: "@ + m@,
        RconError::InvalidPacket(m) => "Invalid packet: "@ + m@,
        RconError::Io(_) => "IO error: "@ + io_text,
    }
}

/// Whether the variant carries an I/O error.
pub open spec fn carries_io_error(e: RconError) -> bool {
    ||| e is ConnectionFailed
    ||| e is ConnectionLost
    ||| e is Io
}

/// The I/O error that a variant carries (unspecified for the others).
pub open spec fn carried_io_error(e: RconError) -> std::io::Error
    recommends
        carries_io_error(e),
{
    match e {
        RconError::ConnectionFailed(x) => x,
        RconError::ConnectionLost(x) => x,
        RconError::Io(x) => x,
        _ => arbitrary(),
    }
}

impl RconError {
    /// The human-readable text of the error.
    pub fn to_string(&self) -> (s: String)
        ensures
            !carries_io_error(*self) ==> s@ == error_message(*self, Seq::empty()),
            carries_io_error(*self) ==> exists|t: String|
                to_string_from_display_ensures::<std::io::Error>(&carried_io_error(*self), t)
                    && s@ == error_message(*self, t@),
    {
        let mut s = String::new();
        match self {
            RconError::ConnectionFailed(e) => {
                s.append("Failed to connect to RCON server: ");
                let t = e.to_string();
                s.append(t.as_str());
                assert(s@ =~= error_message(*self, t@));
                assert(to_string_from_display_ensures::<std::io::Error>(&carried_io_error(*self), t));
            },
            RconError::AuthFailed => {
                s.append("Authentication failed: incorrect password");
                assert(s@ =~= error_message(*self, Seq::empty()));
            },
            RconError::Timeout(ms) => {
                s.append("Operation timed out after ");
                crate::text::push_decimal(&mut s, *ms);
                s.append("ms");
                assert(s@ =~= error_message(*self, Seq::empty()));
            },
            RconError::ConnectionLost(e) => {
                s.append("Connection lost: ");
                let t = e.to_string();
                s.append(t.as_str());
                assert(s@ =~= error_message(*self, t@));
                assert(to_string_from_display_ensures::<std::io::Error>(&carried_io_error(*self), t));
            },
            RconError::ProtocolError(m) => {
                s.append("Protocol error: ");
                s.append(m.as_str());
                assert(s@ =~= error_message(*self, Seq::empty()));
            },
            RconError::InvalidPacket(m) => {
                s.append("Invalid packet: ");
                s.append(m.as_str());
                assert(s@ =~= error_message(*self, Seq::empty()));
            },
            RconError::Io(e) => {
                s.append("IO error: ");
                let t = e.to_string();
                s.append(t.as_str());
                assert(s@ =~= error_message(*self, t@));
                assert(to_string_from_display_ensures::<std::io::Error>(&carried_io_error(*self), t));
            },
        }
        s
    }
}

impl From<std::io::Error> for RconError {
    fn from(e: std::io::Error) -> (r: Self) {
        RconError::Io(e)
    }
}

impl vstd::std_specs::convert::FromSpecImpl<std::io::Error> for RconError {
    open spec fn obeys_from_spec() -> bool {
        true
    }

    open spec fn from_spec(e: std::io::Error) -> Self {
        RconError::Io(e)
    }
}

} // verus!
