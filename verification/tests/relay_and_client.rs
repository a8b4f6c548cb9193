use simple_network::batch::SendOutcome;
use simple_network::client::{
    control_packet, data_packet, send_data, send_result, Client, ClientError, Inbound,
    InboundOutput, OutKind, TunOutput, TunReaction, MAX_PENDING_PER_IP, RESOLVE_RETRY_NANOS,
};
use simple_network::crypto::{derive_e2e_key, derive_node_key};
use simple_network::endpoint::{Endpoint, UdpAddr};
use simple_network::envelope::{open_packet, seal_packet};
use simple_network::registry::Registry;
use simple_network::relay::{
    send_tcp_result, Output, Reaction, Relay, RelayError, RelayEvent, Transport, TxKind,
};
use simple_network::wire::{
    decode_control, decode_wire, encode_wire, Control, Ipv4AddrBytes, MsgType, NodeId,
    WIRE_VERSION,
};

const RELAY_PSK: [u8; 32] = [4; 32];
const NETWORK_PSK: [u8; 32] = [5; 32];
const A: NodeId = NodeId([0xaa; 16]);
const B: NodeId = NodeId([0xbb; 16]);
const STRANGER: NodeId = NodeId([0xcc; 16]);
const IP_A: Ipv4AddrBytes = Ipv4AddrBytes([10, 0, 0, 2]);
const IP_B: Ipv4AddrBytes = Ipv4AddrBytes([10, 0, 0, 3]);
const AT_A: UdpAddr = UdpAddr::V4 { ip: 0x0102_0304, port: 1000 };
const AT_B: UdpAddr = UdpAddr::V6 { ip6: 1, port: 2000, flowinfo: 0, scope_id: 0 };

fn relay(transport: Transport) -> Relay {
    let entries = vec![
        ("aaaaaaaa-aaaa-aaaa-aaaa-aaaaaaaaaaaa".to_string(), "10.0.0.2".to_string()),
        ("bbbbbbbb-bbbb-bbbb-bbbb-bbbbbbbbbbbb".to_string(), "10.0.0.3".to_string()),
    ];
    Relay::new(Registry::build(&entries, &RELAY_PSK).unwrap(), transport)
}

fn client(id: NodeId) -> Client {
    Client::new(id, derive_node_key(&RELAY_PSK, id), NETWORK_PSK)
}

fn control(id: NodeId, msg: &Control) -> Vec<u8> {
    let key = derive_node_key(&RELAY_PSK, id);
    control_packet(id, NodeId::nil(), &key, msg, &[1; 12]).unwrap()
}

fn data(src: NodeId, dst: NodeId, payload: &[u8]) -> Vec<u8> {
    data_packet(src, dst, &NETWORK_PSK, payload, &[2; 12]).unwrap()
}

fn ip_packet(dst: Ipv4AddrBytes, mark: u8) -> Vec<u8> {
    let mut pkt = vec![mark; 24];
    pkt[16..20].copy_from_slice(&dst.0);
    pkt
}

fn sent(out: Result<Output, RelayError>) -> (Endpoint, TxKind, Vec<u8>) {
    match out {
        Ok(Output::Send(d)) => (d.to, d.kind, d.bytes),
        other => panic!("{other:?}"),
    }
}

fn refused(out: Result<Output, RelayError>, e: RelayError) {
    assert_eq!(out.err(), Some(e));
}

#[test]
fn sealed_packet_opens_with_the_key_only() {
    let key = [9; 32];
    let bytes = seal_packet(MsgType::Data, A, B, &key, &[1; 12], b"inner").unwrap();
    let mut pkt = decode_wire(&bytes).unwrap();
    assert_eq!(pkt.v, WIRE_VERSION);
    assert_eq!((pkt.src, pkt.dst, pkt.nonce12), (A, B, [1; 12]));
    assert_eq!(open_packet(&pkt, &key).unwrap(), b"inner".to_vec());
    assert!(open_packet(&pkt, &[8; 32]).is_err());
    // the header is bound to the ciphertext
    pkt.dst = STRANGER;
    assert!(open_packet(&pkt, &key).is_err());
}

#[test]
fn register_binds_and_data_is_forwarded() {
    let mut r = relay(Transport::Udp);
    let hello_a = control(A, &Control::Register { virtual_ip: IP_A });
    match r.handle_packet_udp(&hello_a, AT_A) {
        Ok(Output::Registered { node, ip }) => assert_eq!((node, ip), (A, IP_A)),
        other => panic!("{other:?}"),
    }
    let hello_b = control(B, &Control::Keepalive);
    assert!(matches!(r.handle_packet_udp(&hello_b, AT_B), Ok(Output::Nothing)));

    let bytes = data(A, B, b"ping");
    let (to, kind, out) = sent(r.handle_packet_udp(&bytes, AT_A));
    assert_eq!(to, Endpoint::Udp(AT_B));
    assert_eq!(kind, TxKind::Data);
    assert_eq!(out, bytes);
}

#[test]
fn forwarding_looks_at_the_header_only() {
    let mut r = relay(Transport::Udp);
    r.handle_packet_udp(&control(A, &Control::Keepalive), AT_A).unwrap();
    r.handle_packet_udp(&control(B, &Control::Keepalive), AT_B).unwrap();
    let mut pkt = decode_wire(&data(A, B, b"x")).unwrap();
    pkt.ciphertext = b"no ciphertext at all".to_vec();
    pkt.nonce12 = [0; 12];
    let bytes = encode_wire(&pkt).unwrap();
    let (to, _, out) = sent(r.handle_packet_udp(&bytes, AT_A));
    assert_eq!((to, out), (Endpoint::Udp(AT_B), bytes));
}

#[test]
fn data_is_refused() {
    let mut r = relay(Transport::Udp);
    let a_to_b = data(A, B, b"x");
    refused(r.handle_packet_udp(&a_to_b, AT_A), RelayError::NoSrcEndpoint);
    r.handle_packet_udp(&control(A, &Control::Keepalive), AT_A).unwrap();
    refused(r.handle_packet_udp(&a_to_b, AT_A), RelayError::NoDstEndpoint);
    refused(r.handle_packet_udp(&a_to_b, AT_B), RelayError::SrcEndpointMismatch);
    refused(r.handle_packet_tcp(7, &a_to_b), RelayError::SrcEndpointMismatch);
    refused(r.handle_packet_udp(&data(A, NodeId::nil(), b"x"), AT_A), RelayError::DataDst);
    refused(r.handle_packet_udp(&data(STRANGER, B, b"x"), AT_A), RelayError::UnknownSrc);
    refused(r.handle_packet_udp(&data(A, STRANGER, b"x"), AT_A), RelayError::UnknownDst);
}

#[test]
fn control_is_refused() {
    let mut r = relay(Transport::Udp);
    refused(r.handle_packet_udp(&[], AT_A), RelayError::DecodeWire);
    let good = control(A, &Control::Keepalive);
    let mut version = good.clone();
    version[0] = 1;
    refused(r.handle_packet_udp(&version, AT_A), RelayError::WireVersion);
    let key = derive_node_key(&RELAY_PSK, A);
    let to_b = control_packet(A, B, &key, &Control::Keepalive, &[1; 12]).unwrap();
    refused(r.handle_packet_udp(&to_b, AT_A), RelayError::ControlDst);
    let strange = control(STRANGER, &Control::Keepalive);
    refused(r.handle_packet_udp(&strange, AT_A), RelayError::UnknownSrc);
    let answer = Control::ResolveErr { virtual_ip: IP_B };
    refused(r.handle_packet_udp(&control(A, &answer), AT_A), RelayError::UnexpectedResolve);
    let answer = Control::ResolveOk { virtual_ip: IP_B, node_id: B };
    refused(r.handle_packet_udp(&control(A, &answer), AT_A), RelayError::UnexpectedResolve);
    let wrong_ip = Control::Register { virtual_ip: IP_B };
    refused(r.handle_packet_udp(&control(A, &wrong_ip), AT_A), RelayError::RegisterIpMismatch);
}

#[test]
fn connections_bind_by_authentic_control_only() {
    let mut r = relay(Transport::Both);
    r.handle_packet_udp(&control(A, &Control::Keepalive), AT_A).unwrap();
    r.handle_packet_udp(&control(B, &Control::Keepalive), AT_B).unwrap();
    // a packet in A's name that A did not seal
    let forged = control_packet(A, NodeId::nil(), &[0; 32], &Control::Keepalive, &[1; 12]).unwrap();
    refused(r.handle_packet_tcp(5, &forged), RelayError::DecryptControl);
    let (to, _, _) = sent(r.handle_packet_udp(&data(B, A, b"x"), AT_B));
    assert_eq!(to, Endpoint::Udp(AT_A));
    // and one that says nothing
    let key = derive_node_key(&RELAY_PSK, A);
    let nonsense =
        seal_packet(MsgType::Control, A, NodeId::nil(), &key, &[1; 12], &[200, 1]).unwrap();
    refused(r.handle_packet_tcp(5, &nonsense), RelayError::DecodeControl);
    let (to, _, _) = sent(r.handle_packet_udp(&data(B, A, b"x"), AT_B));
    assert_eq!(to, Endpoint::Udp(AT_A));
}

#[test]
fn datagrams_bind_when_they_open() {
    let mut r = relay(Transport::Udp);
    r.handle_packet_udp(&control(B, &Control::Keepalive), AT_B).unwrap();
    // a datagram in A's name that A did not seal binds nobody
    let forged = control_packet(A, NodeId::nil(), &[0; 32], &Control::Keepalive, &[1; 12]).unwrap();
    refused(r.handle_packet_udp(&forged, AT_A), RelayError::DecryptControl);
    refused(r.handle_packet_udp(&data(B, A, b"x"), AT_B), RelayError::NoDstEndpoint);
    refused(r.handle_packet_udp(&data(A, B, b"x"), AT_A), RelayError::NoSrcEndpoint);
    // nor does it move a node that is bound
    r.handle_packet_udp(&control(A, &Control::Keepalive), AT_A).unwrap();
    refused(r.handle_packet_udp(&forged, AT_B), RelayError::DecryptControl);
    let (to, _, _) = sent(r.handle_packet_udp(&data(B, A, b"x"), AT_B));
    assert_eq!(to, Endpoint::Udp(AT_A));
    // one that opens binds, even if it says nothing
    let key = derive_node_key(&RELAY_PSK, A);
    let nonsense =
        seal_packet(MsgType::Control, A, NodeId::nil(), &key, &[1; 12], &[200, 1]).unwrap();
    let elsewhere = UdpAddr::V4 { ip: 0x0102_0304, port: 1001 };
    refused(r.handle_packet_udp(&nonsense, elsewhere), RelayError::DecodeControl);
    let (to, _, _) = sent(r.handle_packet_udp(&data(B, A, b"x"), AT_B));
    assert_eq!(to, Endpoint::Udp(elsewhere));
}

#[test]
fn register_with_another_address_still_binds() {
    let mut r = relay(Transport::Udp);
    let wrong = control(A, &Control::Register { virtual_ip: IP_B });
    refused(r.handle_packet_udp(&wrong, AT_A), RelayError::RegisterIpMismatch);
    refused(r.handle_packet_udp(&data(A, B, b"x"), AT_A), RelayError::NoDstEndpoint);
}

#[test]
fn resolve_is_answered_for_the_asker() {
    let mut r = relay(Transport::Udp);
    for (ip, node) in [(IP_B, Some(B)), (Ipv4AddrBytes([10, 0, 0, 9]), None)] {
        let ask = control(A, &Control::Resolve { virtual_ip: ip });
        let (to, kind, out) = sent(r.handle_packet_udp(&ask, AT_A));
        assert_eq!(to, Endpoint::Udp(AT_A));
        assert_eq!(kind, TxKind::Control);
        let pkt = decode_wire(&out).unwrap();
        assert_eq!((pkt.v, pkt.t), (WIRE_VERSION, MsgType::Control));
        assert_eq!((pkt.src, pkt.dst), (NodeId::nil(), A));
        let inner = open_packet(&pkt, &derive_node_key(&RELAY_PSK, A)).unwrap();
        match (decode_control(&inner).unwrap(), node) {
            (Control::ResolveOk { virtual_ip, node_id }, Some(n)) => {
                assert_eq!((virtual_ip, node_id), (ip, n))
            }
            (Control::ResolveErr { virtual_ip }, None) => assert_eq!(virtual_ip, ip),
            other => panic!("{other:?}"),
        }
    }
}

#[test]
fn reply_with_a_given_nonce() {
    let r = relay(Transport::Udp);
    let key = [6; 32];
    let msg = Control::ResolveErr { virtual_ip: IP_B };
    let out = r.reply_with(Endpoint::Udp(AT_A), A, &key, &msg, &[3; 12]);
    let expected =
        seal_packet(MsgType::Control, NodeId::nil(), A, &key, &[3; 12], &[4, 10, 0, 0, 3]).unwrap();
    assert_eq!(sent(out), (Endpoint::Udp(AT_A), TxKind::Control, expected));
}

#[test]
fn judging_without_sending() {
    let mut r = relay(Transport::Udp);
    let ask = control(A, &Control::Resolve { virtual_ip: IP_B });
    match r.judge(Endpoint::Udp(AT_A), &ask) {
        Ok(Reaction::Reply { node, key, msg: Control::ResolveOk { virtual_ip, node_id } }) => {
            assert_eq!(node, A);
            assert_eq!(key, derive_node_key(&RELAY_PSK, A));
            assert_eq!((virtual_ip, node_id), (IP_B, B));
        }
        other => panic!("{other:?}"),
    }
}

#[test]
fn connections_come_and_go() {
    let mut r = relay(Transport::Both);
    assert!(matches!(r.handle_event(RelayEvent::TcpAccepted { conn_id: 1 }), Ok(Output::Nothing)));
    let hello = control(A, &Control::Register { virtual_ip: IP_A });
    let out = r.handle_event(RelayEvent::TcpFrame { conn_id: 1, bytes: hello.clone() });
    assert!(matches!(out, Ok(Output::Registered { .. })));
    r.handle_event(RelayEvent::UdpFrame { from: AT_B, bytes: control(B, &Control::Keepalive) })
        .unwrap();

    // datagram to connection and back
    let b_to_a = data(B, A, b"x");
    let out = r.handle_event(RelayEvent::UdpFrame { from: AT_B, bytes: b_to_a.clone() });
    assert_eq!(sent(out), (Endpoint::Tcp(1), TxKind::Data, b_to_a.clone()));
    let a_to_b = data(A, B, b"y");
    let out = r.handle_event(RelayEvent::TcpFrame { conn_id: 1, bytes: a_to_b.clone() });
    assert_eq!(sent(out), (Endpoint::Udp(AT_B), TxKind::Data, a_to_b.clone()));

    // the answer goes back over the connection
    let ask = control(A, &Control::Resolve { virtual_ip: IP_B });
    let (to, kind, _) = sent(r.handle_event(RelayEvent::TcpFrame { conn_id: 1, bytes: ask.clone() }));
    assert_eq!((to, kind), (Endpoint::Tcp(1), TxKind::Control));
    // over a connection without a writer it cannot
    refused(r.handle_packet_tcp(2, &ask), RelayError::NoWriter);
    r.handle_packet_tcp(1, &hello).unwrap();

    let out = r.handle_event(RelayEvent::TcpDisconnected { conn_id: 1 });
    assert!(matches!(out, Ok(Output::Nothing)));
    refused(r.handle_packet_udp(&b_to_a, AT_B), RelayError::NoDstEndpoint);
    refused(r.handle_packet_tcp(1, &a_to_b), RelayError::NoSrcEndpoint);
    // the other node is still there
    r.handle_event(RelayEvent::TcpAccepted { conn_id: 3 }).unwrap();
    r.handle_packet_tcp(3, &hello).unwrap();
    let out = r.handle_packet_tcp(3, &a_to_b);
    assert_eq!(sent(out), (Endpoint::Udp(AT_B), TxKind::Data, a_to_b));
}

#[test]
fn disconnecting_leaves_other_connections() {
    let mut r = relay(Transport::Tcp);
    r.tcp_accepted(1);
    r.tcp_accepted(2);
    r.handle_packet_tcp(1, &control(A, &Control::Keepalive)).unwrap();
    r.handle_packet_tcp(2, &control(B, &Control::Keepalive)).unwrap();
    r.tcp_disconnected(7);
    let bytes = data(A, B, b"x");
    assert_eq!(
        sent(r.handle_packet_tcp(1, &bytes)),
        (Endpoint::Tcp(2), TxKind::Data, bytes.clone())
    );
    r.tcp_disconnected(2);
    refused(r.handle_packet_tcp(1, &bytes), RelayError::NoDstEndpoint);
}

#[test]
fn transports_that_are_off() {
    let mut r = relay(Transport::Udp);
    r.handle_packet_tcp(1, &control(A, &Control::Keepalive)).unwrap();
    r.handle_packet_udp(&control(B, &Control::Keepalive), AT_B).unwrap();
    refused(r.handle_packet_udp(&data(B, A, b"x"), AT_B), RelayError::TcpNotEnabled);
    let mut r = relay(Transport::Tcp);
    r.tcp_accepted(1);
    r.handle_packet_tcp(1, &control(A, &Control::Keepalive)).unwrap();
    r.handle_packet_udp(&control(B, &Control::Keepalive), AT_B).unwrap();
    refused(r.handle_packet_tcp(1, &data(A, B, b"x")), RelayError::UdpNotEnabled);
}

#[test]
fn relay_send_results() {
    assert_eq!(send_tcp_result(TxKind::Control, SendOutcome::Sent), Ok(()));
    for outcome in [SendOutcome::Full, SendOutcome::Closed] {
        assert_eq!(send_tcp_result(TxKind::Control, outcome), Err(RelayError::ControlSend));
    }
    assert_eq!(send_tcp_result(TxKind::Data, SendOutcome::Sent), Ok(()));
    assert_eq!(send_tcp_result(TxKind::Data, SendOutcome::Full), Ok(()));
    assert_eq!(
        send_tcp_result(TxKind::Data, SendOutcome::Closed),
        Err(RelayError::WriterClosed)
    );
}

#[test]
fn relay_errors_in_words() {
    let words = [
        (RelayError::DecodeWire, "decode wire"),
        (RelayError::WireVersion, "unsupported wire version"),
        (RelayError::ControlDst, "control packets must have nil dst"),
        (RelayError::UnknownSrc, "unknown src node"),
        (RelayError::DecryptControl, "decrypt control"),
        (RelayError::DecodeControl, "decode control"),
        (RelayError::RegisterIpMismatch, "register ip mismatch"),
        (RelayError::UnexpectedResolve, "unexpected resolve response from client"),
        (RelayError::EncodeControl, "encode control"),
        (RelayError::NoNonce, "getrandom failed"),
        (RelayError::EncryptControl, "encrypt control"),
        (RelayError::EncodeWire, "encode wire"),
        (RelayError::DataDst, "data requires non-nil dst"),
        (RelayError::UnknownDst, "unknown dst node"),
        (RelayError::NoSrcEndpoint, "no endpoint for src (has it registered yet?)"),
        (RelayError::SrcEndpointMismatch, "src endpoint mismatch (spoof?)"),
        (RelayError::NoDstEndpoint, "no endpoint for dst (has it registered yet?)"),
        (RelayError::TcpNotEnabled, "tcp not enabled"),
        (RelayError::UdpNotEnabled, "udp not enabled"),
        (RelayError::NoWriter, "no writer for conn"),
        (RelayError::ControlSend, "tcp control send timeout/closed"),
        (RelayError::WriterClosed, "tcp writer closed"),
    ];
    for (e, text) in words {
        assert_eq!(e.message(), text);
    }
}

#[test]
fn short_packets_are_ignored() {
    let mut c = client(A);
    assert!(matches!(c.handle_tun(vec![0; 19], 0), TunOutput::Nothing));
    assert!(matches!(c.handle_tun(ip_packet(IP_B, 0)[..20].to_vec(), 0), TunOutput::Wait { .. }));
}

#[test]
fn unknown_address_is_asked_about() {
    let mut c = client(A);
    match c.handle_tun(ip_packet(IP_B, 1), 100) {
        TunOutput::Wait { ip, dropped, resolve: Some(Ok(out)) } => {
            assert_eq!((ip, dropped), (IP_B, false));
            assert_eq!(out.kind, OutKind::Control);
            // the relay understands it
            let mut r = relay(Transport::Udp);
            let (_, _, answer) = sent(r.handle_packet_udp(&out.bytes, AT_A));
            assert!(matches!(c.handle_inbound(&answer), Ok(InboundOutput::Flush { out }) if out.len() == 1));
        }
        other => panic!("{other:?}"),
    }
}

#[test]
fn questions_keep_their_distance() {
    let mut c = client(A);
    let mut ask = |now: u128, ip: Ipv4AddrBytes| match c.on_tun_packet(ip_packet(ip, 0), now) {
        TunReaction::Wait { resolve, .. } => resolve,
        other => panic!("{other:?}"),
    };
    assert_eq!(RESOLVE_RETRY_NANOS, 2_000_000_000);
    assert!(ask(1000, IP_B));
    assert!(!ask(1000, IP_B));
    assert!(!ask(1000 + 1_999_999_999, IP_B));
    // another address has its own time
    assert!(ask(1000 + 1_999_999_999, Ipv4AddrBytes([10, 0, 0, 9])));
    assert!(ask(1000 + 2_000_000_000, IP_B));
    // a clock that stands still or goes back asks nothing
    assert!(!ask(0, IP_B));
}

#[test]
fn sixteen_packets_wait_in_order() {
    let mut c = client(A);
    for i in 0..20u8 {
        match c.on_tun_packet(ip_packet(IP_B, i), 0) {
            TunReaction::Wait { dropped, .. } => {
                assert_eq!(dropped, i as usize >= MAX_PENDING_PER_IP)
            }
            other => panic!("{other:?}"),
        }
    }
    let answer = control_answer(A, &Control::ResolveOk { virtual_ip: IP_B, node_id: B });
    match c.handle_inbound(&answer) {
        Ok(InboundOutput::Flush { out }) => {
            assert_eq!(out.len(), 16);
            let mut b = client(B);
            for (i, o) in out.iter().enumerate() {
                let o = o.as_ref().unwrap();
                assert_eq!(o.kind, OutKind::Data);
                match b.handle_inbound(&o.bytes) {
                    Ok(InboundOutput::Deliver { payload }) => {
                        assert_eq!(payload, ip_packet(IP_B, i as u8))
                    }
                    other => panic!("{other:?}"),
                }
            }
        }
        other => panic!("{other:?}"),
    }
    // from now on packets are sent at once
    match c.handle_tun(ip_packet(IP_B, 99), 0) {
        TunOutput::Data(Ok(out)) => {
            let pkt = decode_wire(&out.bytes).unwrap();
            assert_eq!((pkt.t, pkt.src, pkt.dst), (MsgType::Data, A, B));
            let key = derive_e2e_key(&NETWORK_PSK, A, B);
            assert_eq!(open_packet(&pkt, &key).unwrap(), ip_packet(IP_B, 99));
        }
        other => panic!("{other:?}"),
    }
}

#[test]
fn queues_of_two_addresses_keep_apart() {
    let mut c = client(A);
    let other = Ipv4AddrBytes([10, 0, 0, 9]);
    for i in 0..20u8 {
        c.on_tun_packet(ip_packet(if i % 2 == 0 { IP_B } else { other }, i), 0);
        // an answer about another address, and bytes that mean nothing
        let no = control_answer(A, &Control::ResolveErr { virtual_ip: IP_A });
        c.on_inbound(&no).unwrap();
        assert!(c.on_inbound(&[i]).is_err());
    }
    let yes = control_answer(A, &Control::ResolveOk { virtual_ip: IP_B, node_id: B });
    match c.on_inbound(&yes) {
        Ok(Inbound::Learned { queued, .. }) => {
            assert_eq!(queued.len(), 10);
            for i in 0..10 {
                assert_eq!(queued.packet(i), &ip_packet(IP_B, 2 * i as u8));
            }
        }
        other => panic!("{other:?}"),
    }
}

fn control_answer(to: NodeId, msg: &Control) -> Vec<u8> {
    let key = derive_node_key(&RELAY_PSK, to);
    control_packet(NodeId::nil(), to, &key, msg, &[7; 12]).unwrap()
}

#[test]
fn unresolved_address_drops_what_waits() {
    let mut c = client(A);
    c.handle_tun(ip_packet(IP_B, 1), 0);
    let no = control_answer(A, &Control::ResolveErr { virtual_ip: IP_B });
    assert!(matches!(c.handle_inbound(&no), Ok(InboundOutput::Unresolved { ip }) if ip == IP_B));
    let yes = control_answer(A, &Control::ResolveOk { virtual_ip: IP_B, node_id: B });
    match c.on_inbound(&yes) {
        Ok(Inbound::Learned { peer, queued }) => {
            assert_eq!(peer, B);
            assert_eq!(queued.len(), 0);
        }
        other => panic!("{other:?}"),
    }
}

#[test]
fn other_control_messages_are_ignored() {
    let mut c = client(A);
    for msg in [
        Control::Keepalive,
        Control::Register { virtual_ip: IP_A },
        Control::Resolve { virtual_ip: IP_A },
    ] {
        assert!(matches!(c.handle_inbound(&control_answer(A, &msg)), Ok(InboundOutput::Nothing)));
    }
}

#[test]
fn inbound_is_dropped() {
    let mut c = client(A);
    let mut drop = |bytes: &[u8]| c.handle_inbound(bytes).err().unwrap();
    assert_eq!(drop(&[]), ClientError::DecodeWire);
    let good = control_answer(A, &Control::Keepalive);
    let mut version = good.clone();
    version[0] = 3;
    assert_eq!(drop(&version), ClientError::WireVersion);
    assert_eq!(drop(&control_answer(B, &Control::Keepalive)), ClientError::NotForUs);
    let mut bad = good;
    *bad.last_mut().unwrap() ^= 1;
    assert_eq!(drop(&bad), ClientError::DecryptControl);
    let key = derive_node_key(&RELAY_PSK, A);
    let nonsense =
        seal_packet(MsgType::Control, NodeId::nil(), A, &key, &[1; 12], &[9]).unwrap();
    assert_eq!(drop(&nonsense), ClientError::DecodeControl);
    let other_net = data_packet(B, A, &[0; 32], b"x", &[1; 12]).unwrap();
    assert_eq!(drop(&other_net), ClientError::DecryptData);
    assert_eq!(drop(&data(B, A, b"")), ClientError::EmptyPayload);
}

#[test]
fn forged_answers_teach_nothing() {
    let mut c = client(A);
    c.handle_tun(ip_packet(IP_B, 1), 0);
    let msg = Control::ResolveOk { virtual_ip: IP_B, node_id: STRANGER };
    let forged = control_packet(NodeId::nil(), A, &[0; 32], &msg, &[1; 12]).unwrap();
    assert!(c.handle_inbound(&forged).is_err());
    assert!(matches!(c.handle_tun(ip_packet(IP_B, 2), 0), TunOutput::Wait { dropped: false, .. }));
}

#[test]
fn data_arrives_through_the_relay() {
    let mut r = relay(Transport::Both);
    let a = client(A);
    let mut b = client(B);
    r.tcp_accepted(1);
    let hello = a.register(IP_A).unwrap();
    assert_eq!(hello.kind, OutKind::Control);
    assert!(matches!(r.handle_packet_tcp(1, &hello.bytes), Ok(Output::Registered { .. })));
    r.handle_packet_udp(&b.keepalive().unwrap().bytes, AT_B).unwrap();
    let out = send_data(A, B, &NETWORK_PSK, b"through").unwrap();
    let (to, _, bytes) = sent(r.handle_packet_tcp(1, &out.bytes));
    assert_eq!(to, Endpoint::Udp(AT_B));
    match b.handle_inbound(&bytes) {
        Ok(InboundOutput::Deliver { payload }) => assert_eq!(payload, b"through".to_vec()),
        other => panic!("{other:?}"),
    }
    // the relay's key does not open it
    let pkt = decode_wire(&bytes).unwrap();
    assert!(open_packet(&pkt, &derive_node_key(&RELAY_PSK, A)).is_err());
}

#[test]
fn client_send_results() {
    assert_eq!(send_result(OutKind::Control, SendOutcome::Sent), Ok(()));
    for outcome in [SendOutcome::Full, SendOutcome::Closed] {
        assert_eq!(send_result(OutKind::Control, outcome), Err(ClientError::ControlClosed));
    }
    assert_eq!(send_result(OutKind::Data, SendOutcome::Sent), Ok(()));
    assert_eq!(send_result(OutKind::Data, SendOutcome::Full), Ok(()));
    assert_eq!(send_result(OutKind::Data, SendOutcome::Closed), Err(ClientError::DataClosed));
}

#[test]
fn client_errors_in_words() {
    let words = [
        (ClientError::DecodeWire, "decode wire"),
        (ClientError::WireVersion, "unsupported wire version"),
        (ClientError::NotForUs, "not for us"),
        (ClientError::DecryptControl, "decrypt control"),
        (ClientError::DecodeControl, "decode control"),
        (ClientError::DecryptData, "decrypt data"),
        (ClientError::EmptyPayload, "empty payload"),
        (ClientError::EncodeControl, "encode control"),
        (ClientError::NoNonce, "getrandom failed"),
        (ClientError::Encrypt, "encrypt"),
        (ClientError::EncryptData, "encrypt data"),
        (ClientError::EncodeWire, "encode wire"),
        (ClientError::ControlClosed, "tcp control channel closed"),
        (ClientError::DataClosed, "tcp data channel closed"),
    ];
    for (e, text) in words {
        assert_eq!(e.message(), text);
    }
}
