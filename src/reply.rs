//! The answer to an accepted request once the outbound connection has been
//! tried: the reply filled in with the bound endpoint, or a refusal.
use crate::messages::{
    port_of, Connection, Status, ATYP_V4, ATYP_V6, SOCKS_VERSION, STATUS_CONN_REFUSED,
    STATUS_HOST_UNREACHABLE, STATUS_NET_UNREACHABLE, STATUS_SOCKS_FAIL, STATUS_SUCCESS,
};
use vstd::prelude::*;

verus! {

/// Why an outbound connection could not be made.
#[derive(Clone, Copy, PartialEq, Eq, Structural, Debug)]
pub enum ConnectFailure {
    NetworkUnreachable,
    HostUnreachable,
    ConnectionRefused,
    Other,
}

pub open spec fn failure_status(f: ConnectFailure) -> u8 {
    match f {
        ConnectFailure::NetworkUnreachable => STATUS_NET_UNREACHABLE,
        ConnectFailure::HostUnreachable => STATUS_HOST_UNREACHABLE,
        ConnectFailure::ConnectionRefused => STATUS_CONN_REFUSED,
        ConnectFailure::Other => STATUS_SOCKS_FAIL,
    }
}

impl ConnectFailure {
    /// The status code that reports this failure to the client.
    pub fn status(&self) -> (r: u8)
        ensures
            r == failure_status(*self),
    {
        match self {
            ConnectFailure::NetworkUnreachable => STATUS_NET_UNREACHABLE,
            ConnectFailure::HostUnreachable => STATUS_HOST_UNREACHABLE,
            ConnectFailure::ConnectionRefused => STATUS_CONN_REFUSED,
            ConnectFailure::Other => STATUS_SOCKS_FAIL,
        }
    }
}

/// The minimal reply `[5, code]`.
pub fn refusal(code: u8) -> (r: Status)
    ensures
        r.0@ == seq![SOCKS_VERSION, code],
{
    let mut v: Vec<u8> = Vec::new();
    v.push(SOCKS_VERSION);
    v.push(code);
    assert(v@ =~= seq![SOCKS_VERSION, code]);
    Status(v)
}

/// The bound address fits the reply: same family as the request's address
/// type, and exactly the room of its address field.
pub open spec fn reply_fits(b: Seq<u8>, ip_len: nat) -> bool {
    ((b[3] == ATYP_V4 && ip_len == 4) || (b[3] == ATYP_V6 && ip_len == 16)) && b.len() == ip_len
        + 6
}

/// The successful reply carrying the bound endpoint.
pub open spec fn filled_reply(b: Seq<u8>, ip: Seq<u8>, port: u16) -> Seq<u8> {
    seq![SOCKS_VERSION, STATUS_SUCCESS, 0u8, b[3]] + ip + seq![(port / 256) as u8, (port % 256) as u8]
}

#[derive(Clone, Copy, PartialEq, Eq, Structural, Debug)]
pub enum ReplyError {
    /// The bound address is not of the family, or the size, that the
    /// request's address field has.
    AddressFamilyMismatch,
}

/// Writes the outbound socket's bound address and port into the reply, in
/// place, and marks it a success. The reply keeps its address type and
/// length, so a bound address that does not fit them is refused and the
/// reply left unchanged.
pub fn build_reply(reply: &mut Connection, bound_ip: &[u8], bound_port: u16) -> (r: Result<
    (),
    ReplyError,
>)
    requires
        old(reply).0@.len() >= 4,
    ensures
        r is Ok <==> reply_fits(old(reply).0@, bound_ip@.len()),
        r is Ok ==> final(reply).0@ == filled_reply(old(reply).0@, bound_ip@, bound_port),
        r is Ok ==> port_of(final(reply).0@) == bound_port,
        r is Err ==> final(reply).0@ == old(reply).0@,
{
    let atyp = *reply.atyp();
    let n = bound_ip.len();
    let fits = (atyp == ATYP_V4 && n == 4) || (atyp == ATYP_V6 && n == 16);
    if !fits || reply.0.len() != n + 6 {
        return Err(ReplyError::AddressFamilyMismatch);
    }
    *reply.version_mut() = SOCKS_VERSION;
    *reply.status_mut() = STATUS_SUCCESS;
    *reply.rsv_mut() = 0;
    let mut i: usize = 0;
    while i < n
        invariant
            n == bound_ip@.len(),
            n == 4 || n == 16,
            reply.0@.len() == n + 6,
            old(reply).0@.len() == n + 6,
            i <= n,
            reply.0@[0] == SOCKS_VERSION,
            reply.0@[1] == STATUS_SUCCESS,
            reply.0@[2] == 0,
            reply.0@[3] == old(reply).0@[3],
            forall|j: int| 0 <= j < i ==> reply.0@[4 + j] == bound_ip@[j],
        decreases n - i,
    {
        *reply.addr_mut(i) = bound_ip[i];
        i = i + 1;
    }
    reply.set_port(bound_port);
    assert(reply.0@ =~= filled_reply(old(reply).0@, bound_ip@, bound_port));
    Ok(())
}

/// The outbound socket's local endpoint.
#[derive(Debug)]
pub struct Bound {
    pub ip: Vec<u8>,
    pub port: u16,
}

/// What to send the client once the outbound connection has been tried, and
/// whether to go on to relaying.
#[derive(Debug)]
pub enum Answer {
    /// Send these bytes, then relay.
    Relay(Vec<u8>),
    /// Send these bytes, then close.
    Close(Vec<u8>),
}

/// Decides the answer to an accepted request from the outcome of the
/// outbound connect: the filled reply when the bound address fits it, a
/// general failure when it does not, and the failure's own status when the
/// connect failed.
pub fn conclude(reply: Connection, connected: Result<Bound, ConnectFailure>) -> (r: Answer)
    requires
        reply.0@.len() >= 4,
    ensures
        match connected {
            Ok(b) => if reply_fits(reply.0@, b.ip@.len()) {
                r matches Answer::Relay(v) && v@ == filled_reply(reply.0@, b.ip@, b.port)
            } else {
                r matches Answer::Close(v) && v@ == seq![SOCKS_VERSION, STATUS_SOCKS_FAIL]
            },
            Err(f) => r matches Answer::Close(v) && v@ == seq![SOCKS_VERSION, failure_status(f)],
        },
{
    match connected {
        Ok(bound) => {
            let mut reply = reply;
            match build_reply(&mut reply, bound.ip.as_slice(), bound.port) {
                Ok(()) => Answer::Relay(reply.0),
                Err(_) => Answer::Close(refusal(STATUS_SOCKS_FAIL).0),
            }
        },
        Err(failure) => Answer::Close(refusal(failure.status()).0),
    }
}

} // verus!
