//! The decisions of the client around each request: which id a request
//! gets, what the server's answer means, and how I/O failures are reported.
//! The connection itself, the timeouts and the reading and writing of frames
//! are driven by the caller, which hands each outcome back here.

use vstd::prelude::*;

use crate::error::{RconError, Result};
use crate::protocol::{Packet, PACKET_TYPE_AUTH, PACKET_TYPE_COMMAND};
use crate::text::{push_signed_decimal, signed_decimal};

verus! {

/// Default timeout for connect and command operations, in seconds.
pub const DEFAULT_TIMEOUT_SECS: u64 = 5;

/// The id handed out after `id`: the next integer, wrapping from `i32::MAX`
/// to 1 so that ids never overflow and never reach the failure sentinel -1.
pub open spec fn next_id_after(id: i32) -> i32 {
    if id == i32::MAX {
        1
    } else {
        (id + 1) as i32
    }
}

/// The request-id state of a client connection.
#[derive(Debug)]
pub struct Session {
    /// The id the next request will carry.
    pub next_id: i32,
}

impl Session {
    /// A fresh session: the first request (the authentication) gets id 1.
    pub fn new() -> (s: Self)
        ensures
            s.next_id == 1,
    {
        Session { next_id: 1 }
    }

    /// Get next request ID, wrapping to stay positive and avoid -1
    pub fn next_request_id(&mut self) -> (id: i32)
        ensures
            id == old(self).next_id,
            final(self).next_id == next_id_after(old(self).next_id),
            final(self).next_id == (if old(self).next_id == i32::MAX {
                1
            } else {
                old(self).next_id + 1
            }),
            old(self).next_id >= 1 ==> final(self).next_id >= 1,
    {
        let id = self.next_id;
        // Wrap to 1 instead of overflowing or hitting -1 (auth failure sentinel)
        self.next_id = if id == i32::MAX {
            1
        } else {
            id + 1
        };
        id
    }

    /// The authentication request to send next, carrying the next request id.
    pub fn auth_request(&mut self, password: &str) -> (p: Packet)
        ensures
            p.id == old(self).next_id,
            p.packet_type == PACKET_TYPE_AUTH,
            p.packet_type == 3,
            p.payload@ == password@,
            final(self).next_id == next_id_after(old(self).next_id),
    {
        let id = self.next_request_id();
        Packet::auth(id, password)
    }

    /// The command request to send next, carrying the next request id.
    pub fn command_request(&mut self, command: &str) -> (p: Packet)
        ensures
            p.id == old(self).next_id,
            p.packet_type == PACKET_TYPE_COMMAND,
            p.packet_type == 2,
            p.payload@ == command@,
            final(self).next_id == next_id_after(old(self).next_id),
    {
        let id = self.next_request_id();
        Packet::command(id, command)
    }
}

/// What the server's answer to an authentication request means: the server
/// returns id -1 when the password is wrong.
pub fn auth_outcome(response: &Packet) -> (r: Result<()>)
    ensures
        r is Err <==> response.id == -1,
        r matches Err(e) ==> e is AuthFailed,
{
    // Server returns ID=-1 on auth failure
    if response.id == -1 {
        return Err(RconError::AuthFailed);
    }
    Ok(())
}

/// What the server's answer to a command request with id `expected_id`
/// means: its payload when the ids agree, a protocol error when they differ.
pub fn command_outcome(expected_id: i32, response: Packet) -> (r: Result<String>)
    ensures
        r is Ok <==> response.id == expected_id,
        r matches Ok(s) ==> s@ == response.payload@,
        r matches Err(e) ==> e matches RconError::ProtocolError(m) && m@
            == "Response ID mismatch: expected "@ + signed_decimal(expected_id as int) + ", got "@
            + signed_decimal(response.id as int),
{
    if response.id != expected_id {
        let mut m = String::new();
        m.append("Response ID mismatch: expected ");
        push_signed_decimal(&mut m, expected_id as i64);
        m.append(", got ");
        push_signed_decimal(&mut m, response.id as i64);
        return Err(RconError::ProtocolError(m));
    }
    Ok(response.payload)
}

/// How a failure while sending is reported: a plain I/O error means the
/// connection was lost; any other error stays as it is.
pub fn send_failure(e: RconError) -> (r: RconError)
    ensures
        e matches RconError::Io(x) ==> r == RconError::ConnectionLost(x),
        !(e is Io) ==> r == e,
{
    match e {
        RconError::Io(io_err) => RconError::ConnectionLost(io_err),
        other => other,
    }
}

/// How a failure while reading is reported, given whether the stream ended
/// before the expected bytes came: then the connection was lost, otherwise it
/// is a plain I/O error.
pub fn read_failure_of(e: std::io::Error, unexpected_eof: bool) -> (r: RconError)
    ensures
        r == (if unexpected_eof {
            RconError::ConnectionLost(e)
        } else {
            RconError::Io(e)
        }),
{
    if unexpected_eof {
        RconError::ConnectionLost(e)
    } else {
        RconError::Io(e)
    }
}

/// Whether `std::io::Error::kind` of `e` is `ErrorKind::UnexpectedEof`.
pub uninterp spec fn io_unexpected_eof(e: std::io::Error) -> bool;

/// Calls `std::io::Error::kind` and compares the kind with
/// `ErrorKind::UnexpectedEof`. Its contract claims only that the answer is a
/// function of the error alone (the error's kind), named `io_unexpected_eof`.
#[verifier::external_body]
fn is_unexpected_eof(e: &std::io::Error) -> (b: bool)
    ensures
        b == io_unexpected_eof(*e),
{
    e.kind() == std::io::ErrorKind::UnexpectedEof
}

/// How a failure while reading is reported: the connection was lost when the
/// stream ended early, otherwise it is a plain I/O error carrying `e`.
pub fn read_failure(e: std::io::Error) -> (r: RconError)
    ensures
        r == (if io_unexpected_eof(e) {
            RconError::ConnectionLost(e)
        } else {
            RconError::Io(e)
        }),
{
    let eof = is_unexpected_eof(&e);
    read_failure_of(e, eof)
}

/// Request ids stay positive: a session that starts at a positive id never
/// hands out -1 (the server's failure sentinel) nor a non-positive id, and
/// each id is followed by the next integer except `i32::MAX`, followed by 1.
pub proof fn lemma_next_id_positive(id: i32)
    requires
        id >= 1,
    ensures
        next_id_after(id) >= 1,
        next_id_after(id) != -1,
        id < i32::MAX ==> next_id_after(id) == id + 1,
        id == i32::MAX ==> next_id_after(id) == 1,
{
}

/// The id a session hands out after `n` earlier requests, starting from
/// `first`.
pub open spec fn id_after_requests(first: i32, n: nat) -> i32
    decreases n,
{
    if n == 0 {
        first
    } else {
        next_id_after(id_after_requests(first, (n - 1) as nat))
    }
}

/// In a fresh session (first id 1), the k-th request id handed out (k >= 1,
/// the authentication included) is ((k - 1) mod i32::MAX) + 1: every id lies
/// in 1..=i32::MAX, never 0 and never the failure sentinel -1.
pub proof fn lemma_kth_request_id(k: nat)
    requires
        k >= 1,
    ensures
        id_after_requests(1, (k - 1) as nat) == ((k - 1) as int % (i32::MAX as int)) + 1,
        1 <= id_after_requests(1, (k - 1) as nat) <= i32::MAX,
    decreases k,
{
    let m = i32::MAX as int;
    let n = (k - 1) as int;
    if k == 1 {
        vstd::arithmetic::div_mod::lemma_fundamental_div_mod_converse(0, m, 0, 0);
    } else {
        lemma_kth_request_id((k - 1) as nat);
        let prev = id_after_requests(1, (n - 1) as nat);
        let q = (n - 1) / m;
        let r = (n - 1) % m;
        vstd::arithmetic::div_mod::lemma_fundamental_div_mod(n - 1, m);
        assert(prev == r + 1);
        if r + 1 == m {
            assert(n == (q + 1) * m + 0) by (nonlinear_arith)
                requires
                    n - 1 == m * q + r,
                    r + 1 == m,
            ;
            vstd::arithmetic::div_mod::lemma_fundamental_div_mod_converse(n, m, q + 1, 0);
        } else {
            assert(n == q * m + (r + 1)) by (nonlinear_arith)
                requires
                    n - 1 == m * q + r,
            ;
            vstd::arithmetic::div_mod::lemma_fundamental_div_mod_converse(n, m, q, r + 1);
        }
    }
}

} // verus!
