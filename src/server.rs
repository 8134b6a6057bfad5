//! The handshake state machine: method negotiation, then the connection
//! request, fed from chunks of a byte stream however the stream cuts them.
use crate::buffer::{buffered, held, into_vec};
use crate::messages::{
    be16, greeting_complete, greeting_is_complete, offers_method, request_complete,
    request_is_complete, request_len, Connection, Greeting, ATYP_DOMAIN, ATYP_V4, ATYP_V6,
    AUTH_METHODS_NO_ACCEPTABLE_METHODS, AUTH_METHODS_NO_AUTHENTICATION_REQUIRED, CMD_CONNECT,
    SOCKS_VERSION, STATUS_ADDRESS_UNSUPPORTED, STATUS_COMMAND_UNSUPPORTED, STATUS_SUCCESS,
};
use bytes::BytesMut;
use vstd::prelude::*;
use vstd::slice::{slice_subrange, slice_to_vec};

verus! {

/// Where a connection stands in the handshake.
#[derive(Clone, Copy, PartialEq, Eq, Structural, Debug)]
pub enum GreetingState {
    NewConnection,
    Authenticated,
}

/// The endpoint that a client asks to reach: an IP literal (4 or 16 bytes)
/// or a domain name still to be resolved, with a port.
#[derive(Debug)]
pub enum Target {
    Ip { octets: Vec<u8>, port: u16 },
    Domain { name: Vec<u8>, port: u16 },
}

pub enum TargetView {
    Ip(Seq<u8>, u16),
    Domain(Seq<u8>, u16),
}

impl View for Target {
    type V = TargetView;

    open spec fn view(&self) -> TargetView {
        match self {
            Target::Ip { octets, port } => TargetView::Ip(octets@, *port),
            Target::Domain { name, port } => TargetView::Domain(name@, *port),
        }
    }
}

/// How a complete connection request is answered.
#[derive(Debug)]
pub enum Request {
    Accept(Target),
    CommandNotSupported,
    AddressTypeNotSupported,
}

pub enum RequestView {
    Accept(TargetView),
    CommandNotSupported,
    AddressTypeNotSupported,
}

impl View for Request {
    type V = RequestView;

    open spec fn view(&self) -> RequestView {
        match self {
            Request::Accept(t) => RequestView::Accept(t@),
            Request::CommandNotSupported => RequestView::CommandNotSupported,
            Request::AddressTypeNotSupported => RequestView::AddressTypeNotSupported,
        }
    }
}

/// The status code that answers a verdict.
pub open spec fn status_of(v: RequestView) -> u8 {
    match v {
        RequestView::Accept(_) => STATUS_SUCCESS,
        RequestView::CommandNotSupported => STATUS_COMMAND_UNSUPPORTED,
        RequestView::AddressTypeNotSupported => STATUS_ADDRESS_UNSUPPORTED,
    }
}

impl Request {
    pub fn status(&self) -> (r: u8)
        ensures
            r == status_of(self@),
    {
        match self {
            Request::Accept(_) => STATUS_SUCCESS,
            Request::CommandNotSupported => STATUS_COMMAND_UNSUPPORTED,
            Request::AddressTypeNotSupported => STATUS_ADDRESS_UNSUPPORTED,
        }
    }
}

/// The endpoint named by the complete request at the start of `b`; the port
/// is read where the address that its type implies ends.
pub open spec fn target_of(b: Seq<u8>) -> TargetView {
    let end = request_len(b) - 2;
    let port = be16(b[end], b[end + 1]);
    if b[3] == ATYP_DOMAIN {
        TargetView::Domain(b.subrange(5, end), port)
    } else {
        TargetView::Ip(b.subrange(4, end), port)
    }
}

/// The verdict on a complete request: only CONNECT is served, and only to an
/// IPv4, IPv6 or domain address.
pub open spec fn verdict(b: Seq<u8>) -> RequestView {
    if b[1] != CMD_CONNECT {
        RequestView::CommandNotSupported
    } else if b[3] == ATYP_V4 || b[3] == ATYP_V6 || b[3] == ATYP_DOMAIN {
        RequestView::Accept(target_of(b))
    } else {
        RequestView::AddressTypeNotSupported
    }
}

/// The request's bytes made ready to serve as its reply: version 5, status
/// success, reserved 0, the address type kept, address and port zeroed.
pub open spec fn reply_skeleton(b: Seq<u8>) -> Seq<u8> {
    seq![SOCKS_VERSION, STATUS_SUCCESS, 0u8, b[3]] + Seq::new((b.len() - 4) as nat, |i: int| 0u8)
}

/// The method selection answering a complete greeting.
pub open spec fn choice_reply(b: Seq<u8>) -> Seq<u8> {
    if offers_method(b, AUTH_METHODS_NO_AUTHENTICATION_REQUIRED) {
        seq![SOCKS_VERSION, AUTH_METHODS_NO_AUTHENTICATION_REQUIRED]
    } else {
        seq![SOCKS_VERSION, AUTH_METHODS_NO_ACCEPTABLE_METHODS]
    }
}

/// A complete greeting is answered the same once the bytes past its declared
/// methods are cut off.
proof fn lemma_greeting_prefix(b: Seq<u8>)
    requires
        greeting_complete(b),
    ensures
        greeting_complete(b.subrange(0, 2 + b[1])),
        choice_reply(b.subrange(0, 2 + b[1])) == choice_reply(b),
{
    let p = b.subrange(0, 2 + b[1]);
    assert(p[1] == b[1]);
    let m = AUTH_METHODS_NO_AUTHENTICATION_REQUIRED;
    if offers_method(b, m) {
        let i = choose|i: int| 2 <= i < b.len() && i < 2 + b[1] && #[trigger] b[i] == m;
        assert(p[i] == b[i]);
    }
    if offers_method(p, m) {
        let i = choose|i: int| 2 <= i < p.len() && i < 2 + p[1] && #[trigger] p[i] == m;
        assert(p[i] == b[i]);
    }
}

/// A complete request decides the same once the bytes past its end are cut off.
proof fn lemma_request_prefix(b: Seq<u8>)
    requires
        request_complete(b),
    ensures
        request_complete(b.subrange(0, request_len(b))),
        request_len(b.subrange(0, request_len(b))) == request_len(b),
        verdict(b.subrange(0, request_len(b))) == verdict(b),
{
    let p = b.subrange(0, request_len(b));
    let end = request_len(b) - 2;
    if b[3] == ATYP_DOMAIN {
        assert(p.subrange(5, end) =~= b.subrange(5, end));
    } else if b[3] == ATYP_V4 || b[3] == ATYP_V6 {
        assert(p.subrange(4, end) =~= b.subrange(4, end));
    }
}

/// The length of the request at the start of `b`.
pub fn request_length(b: &[u8]) -> (r: usize)
    requires
        b@.len() >= 4,
        b@[3] == ATYP_DOMAIN ==> b@.len() >= 5,
    ensures
        r == request_len(b@),
{
    let atyp = b[3];
    if atyp == ATYP_V4 {
        10
    } else if atyp == ATYP_V6 {
        22
    } else if atyp == ATYP_DOMAIN {
        7 + b[4] as usize
    } else {
        4
    }
}

/// Decides a complete connection request.
pub fn classify(connection: &Connection) -> (r: Request)
    requires
        request_complete(connection.0@),
    ensures
        r@ == verdict(connection.0@),
{
    if *connection.cmd() != CMD_CONNECT {
        return Request::CommandNotSupported;
    }
    let b = connection.0.as_slice();
    let atyp = *connection.atyp();
    if atyp != ATYP_V4 && atyp != ATYP_V6 && atyp != ATYP_DOMAIN {
        return Request::AddressTypeNotSupported;
    }
    let end = request_length(b) - 2;
    let port = (b[end] as u16) * 256 + (b[end + 1] as u16);
    if atyp == ATYP_DOMAIN {
        Request::Accept(Target::Domain { name: slice_to_vec(slice_subrange(b, 5, end)), port })
    } else {
        Request::Accept(Target::Ip { octets: slice_to_vec(slice_subrange(b, 4, end)), port })
    }
}

/// Answers a greeting once it is complete; `None` while it is not.
pub fn handle_greeting(greeting: &Greeting) -> (r: Option<Vec<u8>>)
    ensures
        r is None <==> !greeting_complete(greeting.0@),
        r matches Some(v) ==> v@ == choice_reply(greeting.0@),
{
    if !greeting.is_done() {
        None
    } else {
        let mut reply: Vec<u8> = Vec::new();
        reply.push(SOCKS_VERSION);
        if !greeting.filter_for_method(AUTH_METHODS_NO_AUTHENTICATION_REQUIRED) {
            reply.push(AUTH_METHODS_NO_ACCEPTABLE_METHODS);
        } else {
            reply.push(AUTH_METHODS_NO_AUTHENTICATION_REQUIRED);
        }
        proof {
            assert(reply@ =~= choice_reply(greeting.0@));
        }
        Some(reply)
    }
}

/// Decides a connection request once it is complete; `None` while it is not.
/// An accepted request is turned in place into its reply skeleton; a refused
/// one is left as it was.
pub fn handle_connection(connection: &mut Connection) -> (r: Option<Request>)
    ensures
        r is None <==> !request_complete(old(connection).0@),
        r matches Some(q) ==> q@ == verdict(old(connection).0@),
        (r matches Some(Request::Accept(_))) ==> final(connection).0@ == reply_skeleton(
            old(connection).0@,
        ),
        !(r matches Some(Request::Accept(_))) ==> final(connection).0@ == old(connection).0@,
{
    if !connection.is_done() {
        return None;
    }
    let request = classify(connection);
    if let Request::Accept(_) = &request {
        let len = connection.0.len();
        *connection.version_mut() = SOCKS_VERSION;
        *connection.status_mut() = STATUS_SUCCESS;
        *connection.rsv_mut() = 0;
        let mut i: usize = 0;
        while i < len - 6
            invariant
                len >= 7,
                len == old(connection).0@.len(),
                i <= len - 6,
                connection.0@.len() == len,
                connection.0@[0] == SOCKS_VERSION,
                connection.0@[1] == STATUS_SUCCESS,
                connection.0@[2] == 0,
                connection.0@[3] == old(connection).0@[3],
                forall|j: int| 4 <= j < 4 + i ==> connection.0@[j] == 0,
            decreases len - 6 - i,
        {
            *connection.addr_mut(i) = 0;
            i = i + 1;
        }
        connection.set_port(0);
        proof {
            assert(connection.0@ =~= reply_skeleton(old(connection).0@));
        }
    }
    Some(request)
}

/// The outcome of feeding one chunk.
#[derive(Debug)]
pub enum Progress {
    /// The message in hand is not complete yet.
    NeedMore,
    /// The method selection to send back.
    Reply(Vec<u8>),
    /// The request was refused: send this `[5, code]` reply, then close.
    Refused(Vec<u8>),
    /// The request was accepted: its target, and the reply skeleton to fill
    /// in once the outbound connection stands.
    Established(Target, Connection),
}

pub enum ProgressView {
    NeedMore,
    Reply(Seq<u8>),
    Refused(Seq<u8>),
    Established(TargetView, Seq<u8>),
}

impl View for Progress {
    type V = ProgressView;

    open spec fn view(&self) -> ProgressView {
        match self {
            Progress::NeedMore => ProgressView::NeedMore,
            Progress::Reply(v) => ProgressView::Reply(v@),
            Progress::Refused(v) => ProgressView::Refused(v@),
            Progress::Established(t, c) => ProgressView::Established(t@, c.0@),
        }
    }
}

/// What the handshake does with the bytes `b` now in hand, in state `s`: the
/// next state, the bytes still held, and the outcome.
pub open spec fn advance(s: GreetingState, b: Seq<u8>) -> (GreetingState, Seq<u8>, ProgressView) {
    match s {
        GreetingState::NewConnection => {
            if greeting_complete(b) {
                (GreetingState::Authenticated, Seq::empty(), ProgressView::Reply(choice_reply(b)))
            } else {
                (GreetingState::NewConnection, b, ProgressView::NeedMore)
            }
        },
        GreetingState::Authenticated => {
            if request_complete(b) {
                let len = request_len(b);
                match verdict(b) {
                    RequestView::Accept(t) => (
                        GreetingState::Authenticated,
                        b.subrange(len, b.len() as int),
                        ProgressView::Established(t, reply_skeleton(b.subrange(0, len))),
                    ),
                    v => (
                        GreetingState::Authenticated,
                        Seq::empty(),
                        ProgressView::Refused(seq![SOCKS_VERSION, status_of(v)]),
                    ),
                }
            } else {
                (GreetingState::Authenticated, b, ProgressView::NeedMore)
            }
        },
    }
}

/// Feeds each chunk in turn, starting in state `s` with the bytes `b` held:
/// the state, the bytes held and the outcome after the last chunk.
pub open spec fn run(s: GreetingState, b: Seq<u8>, chunks: Seq<Seq<u8>>) -> (
    GreetingState,
    Seq<u8>,
    ProgressView,
)
    decreases chunks.len(),
{
    if chunks.len() == 0 {
        (s, b, ProgressView::NeedMore)
    } else {
        let next = advance(s, b + chunks[0]);
        if chunks.len() == 1 {
            next
        } else {
            run(next.0, next.1, chunks.drop_first())
        }
    }
}

/// `m` is one whole message of the kind that state `s` waits for: complete,
/// with nothing past its end.
pub open spec fn whole_message(s: GreetingState, m: Seq<u8>) -> bool {
    match s {
        GreetingState::NewConnection => m.len() >= 2 && m.len() == 2 + m[1],
        GreetingState::Authenticated => request_complete(m) && m.len() == request_len(m),
    }
}

proof fn lemma_prefix_incomplete(s: GreetingState, m: Seq<u8>, q: Seq<u8>)
    requires
        whole_message(s, m),
        q.len() < m.len(),
        q == m.subrange(0, q.len() as int),
    ensures
        advance(s, q) == (s, q, ProgressView::NeedMore),
{
    if q.len() >= 2 {
        assert(q[1] == m[1]);
    }
    if q.len() >= 4 {
        assert(q[3] == m[3]);
    }
    if q.len() >= 5 {
        assert(q[4] == m[4]);
    }
}

proof fn lemma_run_rest(s: GreetingState, p: Seq<u8>, chunks: Seq<Seq<u8>>, m: Seq<u8>)
    requires
        whole_message(s, m),
        chunks.len() >= 1,
        forall|i: int| 0 <= i < chunks.len() ==> (#[trigger] chunks[i]).len() > 0,
        p + chunks.flatten() == m,
        p.len() < m.len(),
    ensures
        run(s, p, chunks) == advance(s, m),
    decreases chunks.len(),
{
    let q = p + chunks[0];
    let rest = chunks.drop_first();
    assert(chunks.flatten() == chunks[0] + rest.flatten());
    if chunks.len() == 1 {
        assert(rest.flatten() =~= Seq::<u8>::empty());
        assert(q =~= m);
    } else {
        assert(rest[0] == chunks[1]);
        assert(rest.flatten() == rest[0] + rest.drop_first().flatten());
        assert(m =~= q + rest.flatten());
        assert(q =~= m.subrange(0, q.len() as int));
        lemma_prefix_incomplete(s, m, q);
        assert forall|i: int| 0 <= i < rest.len() implies (#[trigger] rest[i]).len() > 0 by {
            assert(rest[i] == chunks[i + 1]);
        }
        lemma_run_rest(s, q, rest, m);
    }
}

/// A whole greeting, or a whole connection request, cut into any number of
/// non-empty chunks and fed one chunk at a time, ends in the same state, with
/// the same bytes held and the same outcome, as when fed in one piece.
pub proof fn lemma_chunk_boundary_invariance(s: GreetingState, m: Seq<u8>, chunks: Seq<Seq<u8>>)
    requires
        whole_message(s, m),
        chunks.len() >= 1,
        forall|i: int| 0 <= i < chunks.len() ==> (#[trigger] chunks[i]).len() > 0,
        chunks.flatten() == m,
    ensures
        run(s, Seq::empty(), chunks) == run(s, Seq::empty(), seq![m]),
{
    assert(Seq::<u8>::empty() + chunks.flatten() =~= m);
    lemma_run_rest(s, Seq::empty(), chunks, m);
    assert(Seq::<u8>::empty() + seq![m][0] =~= m);
}

/// One connection's handshake: its state and the bytes received and not yet
/// consumed.
pub struct Greeter {
    state: GreetingState,
    buf: BytesMut,
}

impl Greeter {
    pub closed spec fn state(&self) -> GreetingState {
        self.state
    }

    pub closed spec fn pending(&self) -> Seq<u8> {
        buffered(self.buf)
    }

    pub fn new() -> (r: Self)
        ensures
            r.state() == GreetingState::NewConnection,
            r.pending() == Seq::<u8>::empty(),
    {
        Self { state: GreetingState::NewConnection, buf: BytesMut::new() }
    }

    /// The number of bytes held and not yet consumed.
    pub fn pending_len(&self) -> (r: usize)
        ensures
            r == self.pending().len(),
    {
        held(&self.buf).len()
    }

    /// Feeds one chunk of the client's bytes.
    pub fn continue_greeting(&mut self, data: &[u8]) -> (r: Progress)
        requires
            old(self).pending().len() + data@.len() <= isize::MAX,
        ensures
            (final(self).state(), final(self).pending(), r@) == advance(
                old(self).state(),
                old(self).pending() + data@,
            ),
    {
        self.buf.extend_from_slice(data);
        match self.state {
            GreetingState::NewConnection => {
                let b = held(&self.buf);
                if !greeting_is_complete(b) {
                    return Progress::NeedMore;
                }
                let len = 2 + b[1] as usize;
                let whole = Ghost(buffered(self.buf));
                let greeting = Greeting(into_vec(self.buf.split_to(len)));
                proof {
                    lemma_greeting_prefix(whole@);
                }
                self.buf.clear();
                self.state = GreetingState::Authenticated;
                match handle_greeting(&greeting) {
                    Some(reply) => Progress::Reply(reply),
                    None => Progress::NeedMore,
                }
            },
            GreetingState::Authenticated => {
                let b = held(&self.buf);
                if !request_is_complete(b) {
                    return Progress::NeedMore;
                }
                let len = request_length(b);
                let whole = Ghost(buffered(self.buf));
                let mut connection = Connection(into_vec(self.buf.split_to(len)));
                proof {
                    lemma_request_prefix(whole@);
                }
                match handle_connection(&mut connection) {
                    Some(Request::Accept(target)) => Progress::Established(target, connection),
                    Some(request) => {
                        let mut reply: Vec<u8> = Vec::new();
                        reply.push(SOCKS_VERSION);
                        reply.push(request.status());
                        assert(reply@ =~= seq![SOCKS_VERSION, status_of(request@)]);
                        self.buf.clear();
                        Progress::Refused(reply)
                    },
                    None => Progress::NeedMore,
                }
            },
        }
    }
}

} // verus!
