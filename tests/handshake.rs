use despicable_socks5::messages::{Connection, Greeting, ServerChoice, Status, UsernamePasswordAuthRequest};
use despicable_socks5::reply::{build_reply, conclude, refusal, Answer, Bound, ConnectFailure, ReplyError};
use despicable_socks5::server::{classify, handle_connection, handle_greeting, Greeter, Progress, Request, Target};

fn authenticated() -> Greeter {
    let mut g = Greeter::new();
    match g.continue_greeting(&[5, 1, 0]) {
        Progress::Reply(r) => assert_eq!(r, vec![5, 0]),
        other => panic!("unexpected {:?}", other),
    }
    g
}

fn expect_reply(p: Progress) -> Vec<u8> {
    match p {
        Progress::Reply(r) => r,
        other => panic!("expected a reply, got {:?}", other),
    }
}

fn expect_refused(p: Progress) -> Vec<u8> {
    match p {
        Progress::Refused(r) => r,
        other => panic!("expected a refusal, got {:?}", other),
    }
}

fn expect_established(p: Progress) -> (Target, Connection) {
    match p {
        Progress::Established(t, c) => (t, c),
        other => panic!("expected an established request, got {:?}", other),
    }
}

fn is_need_more(p: &Progress) -> bool {
    matches!(p, Progress::NeedMore)
}

#[test]
fn greeting_offering_no_auth_is_accepted() {
    let mut g = Greeter::new();
    let r = expect_reply(g.continue_greeting(&[0x05, 0x02, 0x00, 0x01]));
    assert_eq!(r, vec![0x05, 0x00]);
}

#[test]
fn greeting_offering_only_gssapi_is_rejected() {
    let mut g = Greeter::new();
    let r = expect_reply(g.continue_greeting(&[0x05, 0x01, 0x01]));
    assert_eq!(r, vec![0x05, 0xFF]);
}

#[test]
fn rejected_greeting_still_moves_to_request_phase() {
    let mut g = Greeter::new();
    let r = expect_reply(g.continue_greeting(&[5, 1, 1]));
    assert_eq!(r, vec![5, 0xFF]);
    let (t, _) = expect_established(g.continue_greeting(&[5, 1, 0, 1, 10, 0, 0, 1, 0, 22]));
    match t {
        Target::Ip { octets, port } => {
            assert_eq!(octets, vec![10, 0, 0, 1]);
            assert_eq!(port, 22);
        }
        other => panic!("unexpected {:?}", other),
    }
}

#[test]
fn greeting_fed_byte_by_byte() {
    let mut g = Greeter::new();
    assert!(is_need_more(&g.continue_greeting(&[5])));
    assert!(is_need_more(&g.continue_greeting(&[2])));
    assert!(is_need_more(&g.continue_greeting(&[1])));
    assert_eq!(g.pending_len(), 3);
    let r = expect_reply(g.continue_greeting(&[0]));
    assert_eq!(r, vec![5, 0]);
    assert_eq!(g.pending_len(), 0);
}

#[test]
fn empty_method_list_is_rejected() {
    let mut g = Greeter::new();
    let r = expect_reply(g.continue_greeting(&[5, 0]));
    assert_eq!(r, vec![5, 0xFF]);
}

#[test]
fn ipv4_request_completeness_boundary() {
    let nine = Connection(vec![5, 1, 0, 1, 93, 184, 216, 34, 0]);
    assert!(!nine.is_done());
    let ten = Connection(vec![5, 1, 0, 1, 93, 184, 216, 34, 0, 80]);
    assert!(ten.is_done());
}

#[test]
fn domain_request_completeness_boundary() {
    let nine = Connection(vec![5, 1, 0, 3, 3, b'a', b'b', b'c', 0]);
    assert!(!nine.is_done());
    let ten = Connection(vec![5, 1, 0, 3, 3, b'a', b'b', b'c', 0, 80]);
    assert!(ten.is_done());
}

#[test]
fn ipv6_request_completeness_boundary() {
    let mut b = vec![5, 1, 0, 4];
    b.extend_from_slice(&[0; 16]);
    b.push(1);
    assert!(!Connection(b.clone()).is_done());
    b.push(187);
    assert!(Connection(b).is_done());
}

#[test]
fn unknown_address_type_is_refused() {
    let mut g = authenticated();
    let r = expect_refused(g.continue_greeting(&[5, 1, 0, 2, 1, 2, 3, 4, 0, 80]));
    assert_eq!(r, vec![5, 0x08]);
    assert_eq!(g.pending_len(), 0);
}

#[test]
fn bind_command_is_refused() {
    let mut g = authenticated();
    let r = expect_refused(g.continue_greeting(&[5, 2, 0, 1, 1, 2, 3, 4, 0, 80]));
    assert_eq!(r, vec![5, 0x07]);
}

#[test]
fn udp_associate_command_is_refused() {
    let mut g = authenticated();
    let r = expect_refused(g.continue_greeting(&[5, 3, 0, 1, 1, 2, 3, 4, 0, 80]));
    assert_eq!(r, vec![5, 0x07]);
}

#[test]
fn domain_request_yields_name_and_port() {
    let mut g = authenticated();
    let (t, reply) = expect_established(g.continue_greeting(&[5, 1, 0, 3, 3, b'a', b'b', b'c', 0x01, 0xBB]));
    match t {
        Target::Domain { name, port } => {
            assert_eq!(name, b"abc".to_vec());
            assert_eq!(port, 443);
        }
        other => panic!("unexpected {:?}", other),
    }
    assert_eq!(reply.0, vec![5, 0, 0, 3, 0, 0, 0, 0, 0, 0]);
}

#[test]
fn ipv6_request_yields_address() {
    let mut g = authenticated();
    let mut req = vec![5, 1, 0, 4];
    let addr: Vec<u8> = (1..=16).collect();
    req.extend_from_slice(&addr);
    req.extend_from_slice(&[0x1F, 0x90]);
    let (t, reply) = expect_established(g.continue_greeting(&req));
    match t {
        Target::Ip { octets, port } => {
            assert_eq!(octets, addr);
            assert_eq!(port, 8080);
        }
        other => panic!("unexpected {:?}", other),
    }
    assert_eq!(reply.0.len(), 22);
}

#[test]
fn request_split_in_chunks_matches_whole() {
    let req = [5u8, 1, 0, 1, 93, 184, 216, 34, 0, 80];
    let mut whole = authenticated();
    let (tw, rw) = expect_established(whole.continue_greeting(&req));
    for cut in 1..req.len() {
        let mut g = authenticated();
        assert!(is_need_more(&g.continue_greeting(&req[..cut])));
        let (t, r) = expect_established(g.continue_greeting(&req[cut..]));
        assert_eq!(format!("{:?}", t), format!("{:?}", tw));
        assert_eq!(r.0, rw.0);
    }
    let mut g = authenticated();
    for i in 0..req.len() - 1 {
        assert!(is_need_more(&g.continue_greeting(&req[i..i + 1])));
    }
    let (t, r) = expect_established(g.continue_greeting(&req[req.len() - 1..]));
    assert_eq!(format!("{:?}", t), format!("{:?}", tw));
    assert_eq!(r.0, rw.0);
}

#[test]
fn bytes_past_the_request_stay_pending() {
    let mut g = authenticated();
    let (_, reply) = expect_established(g.continue_greeting(&[5, 1, 0, 1, 1, 1, 1, 1, 0, 80, 9, 9]));
    assert_eq!(reply.0.len(), 10);
    assert_eq!(g.pending_len(), 2);
}

#[test]
fn reply_round_trip_ipv4() {
    let mut g = authenticated();
    let (_, mut reply) = expect_established(g.continue_greeting(&[5, 1, 0, 1, 93, 184, 216, 34, 0, 80]));
    assert_eq!(build_reply(&mut reply, &[127, 0, 0, 1], 54321), Ok(()));
    assert_eq!(reply.addr(), &[127, 0, 0, 1]);
    assert_eq!(reply.port(), 54321);
    assert_eq!(*reply.status_mut(), 0x00);
    assert_eq!(*reply.version(), 0x05);
    assert_eq!(*reply.rsv(), 0x00);
    assert_eq!(*reply.atyp(), 0x01);
}

#[test]
fn reply_with_other_family_is_refused() {
    let mut reply = Connection(vec![5, 0, 0, 1, 0, 0, 0, 0, 0, 0]);
    let before = reply.0.clone();
    assert_eq!(build_reply(&mut reply, &[0; 16], 1), Err(ReplyError::AddressFamilyMismatch));
    assert_eq!(reply.0, before);
}

#[test]
fn end_to_end_connect() {
    let mut g = Greeter::new();
    assert_eq!(expect_reply(g.continue_greeting(&[5, 1, 0])), vec![5, 0]);
    let (t, reply) = expect_established(g.continue_greeting(&[5, 1, 0, 1, 93, 184, 216, 34, 0, 80]));
    match t {
        Target::Ip { octets, port } => {
            assert_eq!(octets, vec![93, 184, 216, 34]);
            assert_eq!(port, 80);
        }
        other => panic!("unexpected {:?}", other),
    }
    let answer = conclude(reply, Ok(Bound { ip: vec![192, 168, 1, 2], port: 40000 }));
    match answer {
        Answer::Relay(bytes) => assert_eq!(bytes, vec![5, 0, 0, 1, 192, 168, 1, 2, 0x9C, 0x40]),
        other => panic!("unexpected {:?}", other),
    }
}

#[test]
fn connect_failures_map_to_status_codes() {
    let cases = [
        (ConnectFailure::NetworkUnreachable, 3u8),
        (ConnectFailure::HostUnreachable, 4),
        (ConnectFailure::ConnectionRefused, 5),
        (ConnectFailure::Other, 1),
    ];
    for (f, code) in cases {
        assert_eq!(f.status(), code);
        let reply = Connection(vec![5, 0, 0, 1, 0, 0, 0, 0, 0, 0]);
        match conclude(reply, Err(f)) {
            Answer::Close(bytes) => assert_eq!(bytes, vec![5, code]),
            other => panic!("unexpected {:?}", other),
        }
    }
}

#[test]
fn domain_request_cannot_carry_bound_address() {
    let reply = Connection(vec![5, 0, 0, 3, 0, 0, 0, 0, 0, 0]);
    match conclude(reply, Ok(Bound { ip: vec![127, 0, 0, 1], port: 1 })) {
        Answer::Close(bytes) => assert_eq!(bytes, vec![5, 1]),
        other => panic!("unexpected {:?}", other),
    }
}

#[test]
fn handle_greeting_waits_for_methods() {
    assert!(handle_greeting(&Greeting(vec![5, 2, 0])).is_none());
    assert_eq!(handle_greeting(&Greeting(vec![5, 2, 2, 0])), Some(vec![5, 0]));
}

#[test]
fn handle_connection_leaves_refused_request_alone() {
    let mut c = Connection(vec![5, 2, 0, 1, 1, 2, 3, 4, 0, 80]);
    match handle_connection(&mut c) {
        Some(Request::CommandNotSupported) => {}
        other => panic!("unexpected {:?}", other),
    }
    assert_eq!(c.0, vec![5, 2, 0, 1, 1, 2, 3, 4, 0, 80]);
    let mut short = Connection(vec![5, 1, 0, 1]);
    assert!(handle_connection(&mut short).is_none());
}

#[test]
fn classify_reads_target_and_status() {
    let c = Connection(vec![5, 1, 0, 1, 8, 8, 4, 4, 0, 53]);
    let r = classify(&c);
    assert_eq!(r.status(), 0);
    match r {
        Request::Accept(Target::Ip { octets, port }) => {
            assert_eq!(octets, vec![8, 8, 4, 4]);
            assert_eq!(port, 53);
        }
        other => panic!("unexpected {:?}", other),
    }
    assert_eq!(classify(&Connection(vec![5, 1, 0, 9, 0, 0, 0, 0, 0, 0])).status(), 8);
}

#[test]
fn greeting_view_fields() {
    let g = Greeting(vec![5, 3, 0, 1, 2]);
    assert_eq!(*g.version(), 5);
    assert_eq!(*g.nmethods(), 3);
    assert_eq!(g.methods(), &[0, 1, 2]);
    assert!(g.filter_for_method(2));
    assert!(!g.filter_for_method(0xFF));
    assert!(g.is_done());
}

#[test]
fn server_choice_and_status_views() {
    let mut c = ServerChoice(vec![0, 0]);
    *c.version_mut() = 5;
    *c.method_mut() = 0xFF;
    assert_eq!((*c.version(), *c.method()), (5, 0xFF));
    let mut s = Status(vec![0, 0]);
    *s.version_mut() = 5;
    *s.status_mut() = 7;
    assert_eq!((*s.version(), *s.status()), (5, 7));
    assert_eq!(refusal(8).0, vec![5, 8]);
}

#[test]
fn username_password_view_fields() {
    let r = UsernamePasswordAuthRequest(vec![1, 3, b'b', b'o', b'b', 2, b'p', b'w']);
    assert_eq!(*r.version(), 1);
    assert_eq!(*r.ulen(), 3);
    assert_eq!(r.uname(), b"bob");
    assert_eq!(*r.plen(), 2);
    assert_eq!(r.password(), b"pw");
}

#[test]
fn connection_mutators_rewrite_fields() {
    let mut c = Connection(vec![5, 1, 0, 1, 1, 2, 3, 4, 0, 80]);
    assert_eq!(*c.cmd(), 1);
    assert_eq!(c.addr(), &[1, 2, 3, 4]);
    assert_eq!(c.port(), 80);
    *c.version_mut() = 4;
    *c.status_mut() = 9;
    *c.rsv_mut() = 1;
    *c.atyp_mut() = 4;
    *c.addr_mut(2) = 0xAA;
    c.set_port(0xBEEF);
    assert_eq!(c.0, vec![4, 9, 1, 4, 1, 2, 0xAA, 4, 0xBE, 0xEF]);
    assert_eq!(c.port(), 0xBEEF);
}

#[test]
fn bytes_past_declared_methods_are_not_methods() {
    let mut g = Greeter::new();
    let r = expect_reply(g.continue_greeting(&[5, 1, 1, 0]));
    assert_eq!(r, vec![5, 0xFF]);
    assert_eq!(handle_greeting(&Greeting(vec![5, 1, 1, 0])), Some(vec![5, 0xFF]));
    assert!(!Greeting(vec![5, 1, 1, 0]).filter_for_method(0));
    assert_eq!(Greeting(vec![5, 1, 1, 0]).methods(), &[1]);
}

#[test]
fn greeting_and_request_in_one_segment_is_judged_on_declared_methods() {
    let mut g = Greeter::new();
    let r = expect_reply(g.continue_greeting(&[5, 1, 2, 5, 1, 0, 1, 1, 2, 3, 4, 0, 80]));
    assert_eq!(r, vec![5, 0xFF]);
    assert_eq!(g.pending_len(), 0);
}
