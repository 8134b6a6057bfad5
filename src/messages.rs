//! Byte-level views of the SOCKS5 handshake messages.
//!
//! Each view owns the bytes of one message and exposes its fields. The
//! accessors never guard against short buffers at run time: their `requires`
//! asks the caller to have checked completeness first.
use vstd::prelude::*;
use vstd::slice::slice_subrange;

verus! {

pub const AUTH_METHODS_NO_AUTHENTICATION_REQUIRED: u8 = 0x00;
pub const AUTH_METHODS_GSSAPI: u8 = 0x01;
pub const AUTH_METHODS_USERNAME_PASSWORD: u8 = 0x02;
pub const AUTH_METHODS_NO_ACCEPTABLE_METHODS: u8 = 0xFF;

pub const CMD_CONNECT: u8 = 0x01;
pub const CMD_BIND: u8 = 0x02;
pub const CMD_UDP_ASSOCIATE: u8 = 0x03;

pub const STATUS_SUCCESS: u8 = 0x00;
pub const STATUS_SOCKS_FAIL: u8 = 0x01;
pub const STATUS_NOT_ALLOWED: u8 = 0x02;
pub const STATUS_NET_UNREACHABLE: u8 = 0x03;
pub const STATUS_HOST_UNREACHABLE: u8 = 0x04;
pub const STATUS_CONN_REFUSED: u8 = 0x05;
pub const STATUS_TTL_EXP: u8 = 0x06;
pub const STATUS_COMMAND_UNSUPPORTED: u8 = 0x07;
pub const STATUS_ADDRESS_UNSUPPORTED: u8 = 0x08;

pub const ATYP_V4: u8 = 0x01;
pub const ATYP_DOMAIN: u8 = 0x03;
pub const ATYP_V6: u8 = 0x04;

/// The protocol version carried by every message.
pub const SOCKS_VERSION: u8 = 5;

/// A greeting has arrived in full: the count byte and that many method codes.
pub open spec fn greeting_complete(b: Seq<u8>) -> bool {
    b.len() >= 2 && b.len() - 2 >= b[1]
}

/// Whether the greeting in `b` offers method `m` among the `b[1]` methods it
/// declares; bytes past the declared list are not methods.
pub open spec fn offers_method(b: Seq<u8>, m: u8) -> bool {
    exists|i: int| 2 <= i < b.len() && i < 2 + b[1] && #[trigger] b[i] == m
}

/// The length of the connection request that starts `b`, as far as its
/// address type tells it; an unknown address type ends the message at its
/// fixed header.
pub open spec fn request_len(b: Seq<u8>) -> int
    recommends
        b.len() >= 4,
{
    if b[3] == ATYP_V4 {
        10
    } else if b[3] == ATYP_V6 {
        22
    } else if b[3] == ATYP_DOMAIN {
        if b.len() >= 5 {
            7 + b[4]
        } else {
            5
        }
    } else {
        4
    }
}

/// A connection request has arrived in full: the fixed header, the address
/// that its type implies (for a domain, its length byte first) and the port.
pub open spec fn request_complete(b: Seq<u8>) -> bool {
    b.len() >= 4 && (b[3] != ATYP_DOMAIN || b.len() >= 5) && b.len() >= request_len(b)
}

/// The big-endian value of two bytes.
pub open spec fn be16(hi: u8, lo: u8) -> u16 {
    (hi as int * 256 + lo as int) as u16
}

/// The port field: the last two bytes of the message.
pub open spec fn port_of(b: Seq<u8>) -> u16
    recommends
        b.len() >= 2,
{
    be16(b[b.len() - 2], b[b.len() - 1])
}

/// The address field: everything between the fixed header and the port.
pub open spec fn addr_of(b: Seq<u8>) -> Seq<u8>
    recommends
        b.len() >= 6,
{
    b.subrange(4, b.len() - 2)
}

pub fn greeting_is_complete(b: &[u8]) -> (r: bool)
    ensures
        r == greeting_complete(b@),
{
    b.len() >= 2 && b.len() - 2 >= b[1] as usize
}

pub fn request_is_complete(b: &[u8]) -> (r: bool)
    ensures
        r == request_complete(b@),
{
    if b.len() < 4 {
        return false;
    }
    let atyp = b[3];
    if atyp == ATYP_V4 {
        b.len() >= 10
    } else if atyp == ATYP_V6 {
        b.len() >= 22
    } else if atyp == ATYP_DOMAIN {
        b.len() >= 5 && b.len() >= 7 + b[4] as usize
    } else {
        true
    }
}

pub fn contains_method(b: &[u8], m: u8) -> (r: bool)
    ensures
        r == offers_method(b@, m),
{
    if b.len() < 2 {
        return false;
    }
    let end: usize = if b.len() < 2 + b[1] as usize {
        b.len()
    } else {
        2 + b[1] as usize
    };
    let mut i: usize = 2;
    while i < end
        invariant
            2 <= i,
            end <= b@.len(),
            end == b@.len() || end == 2 + b@[1],
            end <= 2 + b@[1],
            end < 2 + b@[1] ==> end == b@.len(),
            forall|j: int| 2 <= j < i && j < end ==> b@[j] != m,
        decreases end - i,
    {
        if b[i] == m {
            assert(b@[i as int] == m);
            return true;
        }
        i = i + 1;
    }
    false
}

/// The client's first message: version, method count and methods.
#[derive(Debug)]
pub struct Greeting(pub Vec<u8>);

/// The server's choice of authentication method.
#[derive(Debug)]
pub struct ServerChoice(pub Vec<u8>);

/// A username/password authentication request.
#[derive(Debug)]
pub struct UsernamePasswordAuthRequest(pub Vec<u8>);

/// A two-byte status reply: version and status code.
#[derive(Debug)]
pub struct Status(pub Vec<u8>);

/// A connection request, or the reply built in its place.
#[derive(Debug)]
pub struct Connection(pub Vec<u8>);

impl Greeting {
    pub fn is_done(&self) -> (r: bool)
        ensures
            r == greeting_complete(self.0@),
    {
        greeting_is_complete(self.0.as_slice())
    }

    pub fn version(&self) -> (r: &u8)
        requires
            self.0@.len() >= 1,
        ensures
            *r == self.0@[0],
    {
        &self.0[0]
    }

    pub fn nmethods(&self) -> (r: &u8)
        requires
            self.0@.len() >= 2,
        ensures
            *r == self.0@[1],
    {
        &self.0[1]
    }

    /// The `nmethods` method codes that the greeting declares.
    pub fn methods(&self) -> (r: &[u8])
        requires
            greeting_complete(self.0@),
        ensures
            r@ == self.0@.subrange(2, 2 + self.0@[1]),
    {
        let n = self.0[1] as usize;
        slice_subrange(self.0.as_slice(), 2, 2 + n)
    }

    pub fn filter_for_method(&self, target: u8) -> (r: bool)
        ensures
            r == offers_method(self.0@, target),
    {
        contains_method(self.0.as_slice(), target)
    }
}

impl ServerChoice {
    pub fn version(&self) -> (r: &u8)
        requires
            self.0@.len() >= 1,
        ensures
            *r == self.0@[0],
    {
        &self.0[0]
    }

    pub fn method(&self) -> (r: &u8)
        requires
            self.0@.len() >= 2,
        ensures
            *r == self.0@[1],
    {
        &self.0[1]
    }

    pub fn version_mut(&mut self) -> (r: &mut u8)
        requires
            old(self).0@.len() >= 1,
        ensures
            *r == old(self).0@[0],
            final(self).0@ == old(self).0@.update(0, *final(r)),
    {
        &mut self.0[0]
    }

    pub fn method_mut(&mut self) -> (r: &mut u8)
        requires
            old(self).0@.len() >= 2,
        ensures
            *r == old(self).0@[1],
            final(self).0@ == old(self).0@.update(1, *final(r)),
    {
        &mut self.0[1]
    }
}


impl UsernamePasswordAuthRequest {
    pub fn version(&self) -> (r: &u8)
        requires
            self.0@.len() >= 1,
        ensures
            *r == self.0@[0],
    {
        &self.0[0]
    }

    pub fn ulen(&self) -> (r: &u8)
        requires
            self.0@.len() >= 2,
        ensures
            *r == self.0@[1],
    {
        &self.0[1]
    }

    pub fn uname(&self) -> (r: &[u8])
        requires
            self.0@.len() >= 2 + self.0@[1],
        ensures
            r@ == self.0@.subrange(2, 2 + self.0@[1]),
    {
        let ulen = *self.ulen() as usize;
        slice_subrange(self.0.as_slice(), 2, 2 + ulen)
    }

    pub fn plen(&self) -> (r: &u8)
        requires
            self.0@.len() >= 3 + self.0@[1],
        ensures
            *r == self.0@[2 + self.0@[1]],
    {
        let ulen = *self.ulen() as usize;
        &self.0[2 + ulen]
    }

    pub fn password(&self) -> (r: &[u8])
        requires
            self.0@.len() >= 3 + self.0@[1],
            self.0@.len() >= 3 + self.0@[1] + self.0@[2 + self.0@[1]],
        ensures
            r@ == self.0@.subrange(3 + self.0@[1], 3 + self.0@[1] + self.0@[2 + self.0@[1]]),
    {
        let offset = 3 + *self.ulen() as usize;
        let plen = *self.plen() as usize;
        slice_subrange(self.0.as_slice(), offset, offset + plen)
    }
}

impl Status {
    pub fn version(&self) -> (r: &u8)
        requires
            self.0@.len() >= 1,
        ensures
            *r == self.0@[0],
    {
        &self.0[0]
    }

    pub fn status(&self) -> (r: &u8)
        requires
            self.0@.len() >= 2,
        ensures
            *r == self.0@[1],
    {
        &self.0[1]
    }

    pub fn version_mut(&mut self) -> (r: &mut u8)
        requires
            old(self).0@.len() >= 1,
        ensures
            *r == old(self).0@[0],
            final(self).0@ == old(self).0@.update(0, *final(r)),
    {
        &mut self.0[0]
    }

    pub fn status_mut(&mut self) -> (r: &mut u8)
        requires
            old(self).0@.len() >= 2,
        ensures
            *r == old(self).0@[1],
            final(self).0@ == old(self).0@.update(1, *final(r)),
    {
        &mut self.0[1]
    }
}

impl Connection {
    pub fn is_done(&self) -> (r: bool)
        ensures
            r == request_complete(self.0@),
    {
        request_is_complete(self.0.as_slice())
    }

    pub fn version(&self) -> (r: &u8)
        requires
            self.0@.len() >= 1,
        ensures
            *r == self.0@[0],
    {
        &self.0[0]
    }

    pub fn cmd(&self) -> (r: &u8)
        requires
            self.0@.len() >= 2,
        ensures
            *r == self.0@[1],
    {
        &self.0[1]
    }

    pub fn rsv(&self) -> (r: &u8)
        requires
            self.0@.len() >= 3,
        ensures
            *r == self.0@[2],
    {
        &self.0[2]
    }

    pub fn atyp(&self) -> (r: &u8)
        requires
            self.0@.len() >= 4,
        ensures
            *r == self.0@[3],
    {
        &self.0[3]
    }

    pub fn addr(&self) -> (r: &[u8])
        requires
            self.0@.len() >= 6,
        ensures
            r@ == addr_of(self.0@),
    {
        let len = self.0.len();
        slice_subrange(self.0.as_slice(), 4, len - 2)
    }

    pub fn port(&self) -> (r: u16)
        requires
            self.0@.len() >= 2,
        ensures
            r == port_of(self.0@),
    {
        let len = self.0.len();
        (self.0[len - 2] as u16) * 256 + (self.0[len - 1] as u16)
    }

    pub fn version_mut(&mut self) -> (r: &mut u8)
        requires
            old(self).0@.len() >= 1,
        ensures
            *r == old(self).0@[0],
            final(self).0@ == old(self).0@.update(0, *final(r)),
    {
        &mut self.0[0]
    }

    pub fn status_mut(&mut self) -> (r: &mut u8)
        requires
            old(self).0@.len() >= 2,
        ensures
            *r == old(self).0@[1],
            final(self).0@ == old(self).0@.update(1, *final(r)),
    {
        &mut self.0[1]
    }

    pub fn rsv_mut(&mut self) -> (r: &mut u8)
        requires
            old(self).0@.len() >= 3,
        ensures
            *r == old(self).0@[2],
            final(self).0@ == old(self).0@.update(2, *final(r)),
    {
        &mut self.0[2]
    }

    pub fn atyp_mut(&mut self) -> (r: &mut u8)
        requires
            old(self).0@.len() >= 4,
        ensures
            *r == old(self).0@[3],
            final(self).0@ == old(self).0@.update(3, *final(r)),
    {
        &mut self.0[3]
    }

    /// Mutable access to byte `i` of the address field.
    pub fn addr_mut(&mut self, i: usize) -> (r: &mut u8)
        requires
            old(self).0@.len() >= 6,
            i < old(self).0@.len() - 6,
        ensures
            *r == old(self).0@[4 + i],
            final(self).0@ == old(self).0@.update(4 + i, *final(r)),
    {
        let len = self.0.len();
        assert(4 + i < len);
        &mut self.0[4 + i]
    }

    pub fn set_port(&mut self, port: u16)
        requires
            old(self).0@.len() >= 2,
        ensures
            final(self).0@ == old(self).0@.subrange(0, old(self).0@.len() - 2).push(
                (port / 256) as u8,
            ).push((port % 256) as u8),
            port_of(final(self).0@) == port,
    {
        let len = self.0.len();
        self.0.set(len - 2, (port / 256) as u8);
        self.0.set(len - 1, (port % 256) as u8);
        proof {
            assert(self.0@ =~= old(self).0@.subrange(0, len - 2).push((port / 256) as u8).push(
                (port % 256) as u8,
            ));
        }
    }
}

} // verus!
