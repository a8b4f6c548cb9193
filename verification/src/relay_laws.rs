//! What holds of the relay as a whole.

use vstd::prelude::*;

use crate::crypto::{aead_opened, aead_sealed};
use crate::endpoint::Endpoint;
use crate::envelope::{law_carrying, law_payload_is_under_the_header, law_sealed_packet_fields};
use crate::envelope::payload_of;
use crate::relay::{output_is, reaction_is, resolve_answer, Judgment, Output, Reaction};
use crate::relay::{ReactionView, RelayError, RelayEvent, RelayView, Transport, TxKind};
use crate::relay::CONTROL_SEND_TIMEOUT_MS;
use crate::wire::{law_control_fields, law_nil_is_all_zero};
use crate::wire::{decoded_control, decoded_wire, nil_bytes, ControlView, MsgType, WireView};
use crate::wire::{lemma_control_decodes, WIRE_VERSION};

verus! {

/// Whether `bytes` are a control packet of a node of the registry that opens with
/// the node's key: proof that whoever sealed it has that key.
pub open spec fn authentic_control(relay: RelayView, bytes: Seq<u8>, node: Seq<u8>) -> bool {
    match decoded_wire(bytes) {
        Some(pkt) => {
            &&& pkt.v == WIRE_VERSION
            &&& pkt.t == MsgType::Control
            &&& pkt.src == node
            &&& pkt.dst == nil_bytes()
            &&& relay.registry.peers.contains_key(node)
            &&& payload_of(pkt, relay.registry.peers[node].key) is Some
        },
        None => false,
    }
}

/// Where a node is reached changes only by an authentic control packet of that
/// node, and then to where the packet came from. Nobody else's endpoint changes.
pub proof fn law_endpoints_need_authentication(
    relay: RelayView,
    from: Endpoint,
    bytes: Seq<u8>,
    node: Seq<u8>,
)
    ensures
        ({
            let before = relay.endpoints;
            let after = relay.judged(from, bytes).endpoints;
            ||| {
                &&& after.contains_key(node) == before.contains_key(node)
                &&& before.contains_key(node) ==> after[node] == before[node]
            }
            ||| {
                &&& authentic_control(relay, bytes, node)
                &&& after.contains_key(node)
                &&& after[node] == from
            }
        }),
{
}

/// A packet that is no authentic control packet of any node leaves every
/// endpoint as it was.
pub proof fn law_unauthentic_packets_bind_nobody(relay: RelayView, from: Endpoint, bytes: Seq<u8>)
    requires
        forall|node: Seq<u8>| !#[trigger] authentic_control(relay, bytes, node),
    ensures
        relay.judged(from, bytes).endpoints == relay.endpoints,
{
    if let Some(pkt) = decoded_wire(bytes) {
        assert(!authentic_control(relay, bytes, pkt.src));
    }
}

/// Only nodes of the registry have endpoints: what a new relay starts with keeps
/// holding whatever comes.
pub proof fn law_only_peers_have_endpoints(
    relay: RelayView,
    from: Endpoint,
    bytes: Seq<u8>,
    conn_id: u64,
)
    requires
        relay.endpoints.dom().subset_of(relay.registry.peers.dom()),
    ensures
        relay.judged(from, bytes).endpoints.dom().subset_of(relay.registry.peers.dom()),
        relay.without_conn(conn_id).endpoints.dom().subset_of(relay.registry.peers.dom()),
{
}

/// An authentic control packet that holds a message binds its node to where it
/// came from, whatever the message and whatever comes of it.
pub proof fn law_authentic_control_binds(
    relay: RelayView,
    from: Endpoint,
    bytes: Seq<u8>,
    node: Seq<u8>,
)
    requires
        authentic_control(relay, bytes, node),
        decoded_control(
            payload_of(decoded_wire(bytes)->0, relay.registry.peers[node].key)->0,
        ) is Some,
    ensures
        relay.judged(from, bytes).endpoints == relay.endpoints.insert(node, from),
{
}

/// A data packet changes nothing in the relay.
pub proof fn law_data_binds_nobody(relay: RelayView, from: Endpoint, bytes: Seq<u8>)
    requires
        decoded_wire(bytes) matches Some(pkt) && pkt.t == MsgType::Data,
    ensures
        relay.judged(from, bytes).endpoints == relay.endpoints,
{
}

/// What is forwarded is a data packet between two nodes of the registry. It came
/// from where its source was last heard from, and goes to where its destination
/// was last heard from.
pub proof fn law_forwards_only_between_registered(
    relay: RelayView,
    from: Endpoint,
    bytes: Seq<u8>,
    to: Endpoint,
)
    requires
        relay.judged(from, bytes).outcome == Ok::<_, RelayError>(ReactionView::Forward { to }),
    ensures
        decoded_wire(bytes) matches Some(pkt) && {
            &&& pkt.v == WIRE_VERSION
            &&& pkt.t == MsgType::Data
            &&& pkt.dst != nil_bytes()
            &&& relay.registry.peers.contains_key(pkt.src)
            &&& relay.registry.peers.contains_key(pkt.dst)
            &&& relay.endpoints.contains_key(pkt.src)
            &&& relay.endpoints[pkt.src] == from
            &&& relay.endpoints.contains_key(pkt.dst)
            &&& relay.endpoints[pkt.dst] == to
        },
{
}

/// A data packet that does not come from where its source was last heard from is
/// refused.
pub proof fn law_spoofed_data_is_refused(relay: RelayView, from: Endpoint, bytes: Seq<u8>)
    requires
        decoded_wire(bytes) matches Some(pkt) && {
            &&& pkt.t == MsgType::Data
            &&& !(relay.endpoints.contains_key(pkt.src) && relay.endpoints[pkt.src] == from)
        },
    ensures
        relay.judged(from, bytes).outcome is Err,
        relay.judged(from, bytes).endpoints == relay.endpoints,
{
}

/// The relay judges a data packet by its header alone: neither the nonce, nor
/// the ciphertext, nor any key makes a difference.
pub proof fn law_forwarding_is_opaque(
    relay: RelayView,
    other: RelayView,
    from: Endpoint,
    bytes: Seq<u8>,
    other_bytes: Seq<u8>,
)
    requires
        relay.endpoints == other.endpoints,
        relay.registry.peers.dom() == other.registry.peers.dom(),
        decoded_wire(bytes) matches Some(pkt) && pkt.t == MsgType::Data,
        decoded_wire(other_bytes) matches Some(pkt) && {
            &&& pkt.t == MsgType::Data
            &&& pkt.v == decoded_wire(bytes)->0.v
            &&& pkt.src == decoded_wire(bytes)->0.src
            &&& pkt.dst == decoded_wire(bytes)->0.dst
        },
    ensures
        relay.judged(from, bytes).outcome == other.judged(from, other_bytes).outcome,
{
    assert(forall|id: Seq<u8>|
        relay.registry.peers.contains_key(id) == relay.registry.peers.dom().contains(id));
    assert(forall|id: Seq<u8>|
        other.registry.peers.contains_key(id) == other.registry.peers.dom().contains(id));
}

/// Once two nodes have each sent an authentic control message, data from the one
/// to the other is forwarded to where the other was heard from.
pub proof fn law_registered_nodes_reach_each_other(
    relay: RelayView,
    src_at: Endpoint,
    src_hello: Seq<u8>,
    dst_at: Endpoint,
    dst_hello: Seq<u8>,
    data: Seq<u8>,
)
    requires
        decoded_wire(data) matches Some(pkt) && {
            &&& pkt.v == WIRE_VERSION
            &&& pkt.t == MsgType::Data
            &&& pkt.src != pkt.dst
            &&& pkt.dst != nil_bytes()
            &&& authentic_control(relay, src_hello, pkt.src)
            &&& decoded_control(
                payload_of(decoded_wire(src_hello)->0, relay.registry.peers[pkt.src].key)->0,
            ) is Some
            &&& authentic_control(relay, dst_hello, pkt.dst)
            &&& decoded_control(
                payload_of(decoded_wire(dst_hello)->0, relay.registry.peers[pkt.dst].key)->0,
            ) is Some
        },
    ensures
        ({
            let one = RelayView { endpoints: relay.judged(src_at, src_hello).endpoints, ..relay };
            let two = RelayView { endpoints: one.judged(dst_at, dst_hello).endpoints, ..one };
            two.judged(src_at, data).outcome == Ok::<_, RelayError>(
                ReactionView::Forward { to: dst_at },
            )
        }),
{
}

/// What comes of a control packet does not depend on where it came from.
pub proof fn law_control_is_judged_alike(
    relay: RelayView,
    from: Endpoint,
    other: Endpoint,
    bytes: Seq<u8>,
)
    requires
        decoded_wire(bytes) matches Some(pkt) && pkt.t == MsgType::Control,
    ensures
        relay.judged(from, bytes).outcome == relay.judged(other, bytes).outcome,
{
}

/// A node's question who has an address is answered to that node, with the node
/// of the registry that has it, or that there is none.
pub proof fn law_resolve_is_answered(
    relay: RelayView,
    from: Endpoint,
    bytes: Seq<u8>,
    node: Seq<u8>,
    ip: Seq<u8>,
)
    requires
        authentic_control(relay, bytes, node),
        ip.len() == 4,
        payload_of(decoded_wire(bytes)->0, relay.registry.peers[node].key) == Some(
            (ControlView::Resolve { virtual_ip: ip }).encoding(),
        ),
    ensures
        relay.judged(from, bytes).outcome == Ok::<_, RelayError>(
            ReactionView::Reply {
                node,
                key: relay.registry.peers[node].key,
                msg: resolve_answer(relay.registry, ip),
            },
        ),
{
    lemma_control_decodes(ControlView::Resolve { virtual_ip: ip });
}

/// A node that registers the address that the registry gives it is registered,
/// and one that registers another is refused.
pub proof fn law_register_checks_the_address(
    relay: RelayView,
    from: Endpoint,
    bytes: Seq<u8>,
    node: Seq<u8>,
    ip: Seq<u8>,
)
    requires
        authentic_control(relay, bytes, node),
        ip.len() == 4,
        payload_of(decoded_wire(bytes)->0, relay.registry.peers[node].key) == Some(
            (ControlView::Register { virtual_ip: ip }).encoding(),
        ),
    ensures
        relay.judged(from, bytes).outcome == if ip == relay.registry.peers[node].virt_ip {
            Ok(ReactionView::Registered { node: relay.registry.peers[node].node, ip })
        } else {
            Err::<ReactionView, _>(RelayError::RegisterIpMismatch)
        },
{
    lemma_control_decodes(ControlView::Register { virtual_ip: ip });
}

/// After a connection has ended, no node is reached over it and it cannot be
/// written to. Nodes that are reached otherwise stay where they are.
pub proof fn law_disconnect_forgets(relay: RelayView, conn_id: u64, node: Seq<u8>)
    ensures
        ({
            let after = relay.without_conn(conn_id);
            &&& after.deliverable(Endpoint::Tcp(conn_id)) is Err
            &&& after.endpoints.contains_key(node) <==> relay.endpoints.contains_key(node)
                && relay.endpoints[node] != Endpoint::Tcp(conn_id)
            &&& after.endpoints.contains_key(node) ==> after.endpoints[node]
                == relay.endpoints[node]
        }),
{
}

/// Whether an event is that bytes came from an endpoint.
pub open spec fn came_from(ev: RelayEvent, from: Endpoint, bytes: Seq<u8>) -> bool {
    match ev {
        RelayEvent::UdpFrame { from: addr, bytes: b } => from == Endpoint::Udp(addr) && b@ == bytes,
        RelayEvent::TcpFrame { conn_id, bytes: b } => from == Endpoint::Tcp(conn_id) && b@ == bytes,
        _ => false,
    }
}

/// A data packet between two nodes of the registry, from where its source was
/// last heard from, goes to where its destination was last heard from: the same
/// bytes, all of them, whatever their number. Where the destination cannot be
/// sent to, that is the error. Either way the relay stays as it was.
pub proof fn law_data_is_forwarded_byte_for_byte(
    relay: RelayView,
    ev: RelayEvent,
    from: Endpoint,
    bytes: Seq<u8>,
    after: RelayView,
    r: Result<Output, RelayError>,
)
    requires
        came_from(ev, from, bytes),
        relay.after_event(ev, after, r),
        decoded_wire(bytes) matches Some(pkt) && {
            &&& pkt.v == 2
            &&& pkt.t == MsgType::Data
            &&& exists|i: int| 0 <= i < pkt.dst.len() && pkt.dst[i] != 0
            &&& relay.registry.peers.contains_key(pkt.src)
            &&& relay.registry.peers.contains_key(pkt.dst)
            &&& relay.endpoints.contains_key(pkt.src)
            &&& relay.endpoints[pkt.src] == from
            &&& relay.endpoints.contains_key(pkt.dst)
        },
    ensures
        after == relay,
        ({
            let to = relay.endpoints[decoded_wire(bytes)->0.dst];
            let trouble = match to {
                Endpoint::Udp(_) => if relay.transport == Transport::Tcp {
                    Some(RelayError::UdpNotEnabled)
                } else {
                    None
                },
                Endpoint::Tcp(conn_id) => if relay.transport == Transport::Udp {
                    Some(RelayError::TcpNotEnabled)
                } else if !relay.writers.contains(conn_id) {
                    Some(RelayError::NoWriter)
                } else {
                    None
                },
            };
            match trouble {
                None => r matches Ok(Output::Send(d)) && {
                    &&& d.to == to
                    &&& d.kind == TxKind::Data
                    &&& d.bytes@ == bytes
                },
                Some(e) => r matches Err(f) && f == e,
            }
        }),
{
    let pkt = decoded_wire(bytes)->0;
    law_nil_is_all_zero(pkt.dst);
    assert(after =~= relay);
}

/// Which data packets are refused, and why: the first that holds of a nil
/// destination, an unknown source or destination, a source that has not been heard
/// from or was heard from elsewhere, and a destination that has not been heard
/// from. The relay stays as it was.
pub proof fn law_refused_data(
    relay: RelayView,
    ev: RelayEvent,
    from: Endpoint,
    bytes: Seq<u8>,
    after: RelayView,
    r: Result<Output, RelayError>,
)
    requires
        came_from(ev, from, bytes),
        relay.after_event(ev, after, r),
        decoded_wire(bytes) matches Some(pkt) && pkt.v == 2 && pkt.t == MsgType::Data
            && pkt.dst.len() == 16,
    ensures
        after == relay,
        ({
            let pkt = decoded_wire(bytes)->0;
            let known_src = relay.registry.peers.contains_key(pkt.src);
            let known_dst = relay.registry.peers.contains_key(pkt.dst);
            let nil_dst = forall|i: int| 0 <= i < 16 ==> pkt.dst[i] == 0;
            let src_heard = relay.endpoints.contains_key(pkt.src);
            let dst_heard = relay.endpoints.contains_key(pkt.dst);
            let src_here = relay.endpoints[pkt.src] == from;
            &&& nil_dst ==> (r matches Err(e) && e == RelayError::DataDst)
            &&& !nil_dst && !known_src ==> (r matches Err(e) && e == RelayError::UnknownSrc)
            &&& !nil_dst && known_src && !known_dst ==> (r matches Err(e) && e
                == RelayError::UnknownDst)
            &&& !nil_dst && known_src && known_dst && !src_heard ==> (r matches Err(e) && e
                == RelayError::NoSrcEndpoint)
            &&& !nil_dst && known_src && known_dst && src_heard && !src_here ==> (r matches Err(e)
                && e == RelayError::SrcEndpointMismatch)
            &&& !nil_dst && known_src && known_dst && src_heard && src_here && !dst_heard ==> (
            r matches Err(e) && e == RelayError::NoDstEndpoint)
        }),
{
    law_nil_is_all_zero(decoded_wire(bytes)->0.dst);
    assert(after =~= relay);
}

/// What does not decode, has another version than 2, or is a control packet to
/// somebody, from nobody of the registry, or that the key of its node does not
/// open, is refused, and the relay stays as it was.
pub proof fn law_refused_control(
    relay: RelayView,
    ev: RelayEvent,
    from: Endpoint,
    bytes: Seq<u8>,
    after: RelayView,
    r: Result<Output, RelayError>,
)
    requires
        came_from(ev, from, bytes),
        relay.after_event(ev, after, r),
    ensures
        decoded_wire(bytes) is None ==> after == relay && (r matches Err(e) && e
            == RelayError::DecodeWire),
        decoded_wire(bytes) matches Some(pkt) ==> {
            let to_relay = pkt.dst.len() == 16 && forall|i: int| 0 <= i < 16 ==> pkt.dst[i] == 0;
            let known = relay.registry.peers.contains_key(pkt.src);
            let opens = aead_opened(
                relay.registry.peers[pkt.src].key,
                pkt.nonce12,
                pkt.ciphertext,
                seq![2u8, 1u8] + pkt.src + pkt.dst,
            ) is Some;
            &&& pkt.v != 2 ==> after == relay && (r matches Err(e) && e == RelayError::WireVersion)
            &&& pkt.v == 2 && pkt.t == MsgType::Control && !to_relay ==> after == relay && (
            r matches Err(e) && e == RelayError::ControlDst)
            &&& pkt.v == 2 && pkt.t == MsgType::Control && to_relay && !known ==> after == relay
                && (r matches Err(e) && e == RelayError::UnknownSrc)
            &&& pkt.v == 2 && pkt.t == MsgType::Control && to_relay && known && !opens ==> after
                == relay && (r matches Err(e) && e == RelayError::DecryptControl)
        },
{
    if let Some(pkt) = decoded_wire(bytes) {
        law_nil_is_all_zero(pkt.dst);
        if pkt.ciphertext.len() <= 274877906832 {
            law_payload_is_under_the_header(pkt, relay.registry.peers[pkt.src].key);
        }
    }
    assert(relay.judged(from, bytes).endpoints == relay.endpoints ==> after =~= relay);
}

/// Whether bytes are a control packet to the relay from a node of the registry,
/// and open with that node's key to `inner`.
pub open spec fn opens_to(relay: RelayView, bytes: Seq<u8>, node: Seq<u8>, inner: Seq<u8>) -> bool {
    match decoded_wire(bytes) {
        Some(pkt) => {
            &&& pkt.v == 2
            &&& pkt.t == MsgType::Control
            &&& pkt.src == node
            &&& pkt.dst.len() == 16
            &&& forall|i: int| 0 <= i < 16 ==> pkt.dst[i] == 0
            &&& relay.registry.peers.contains_key(node)
            &&& pkt.ciphertext.len() <= 274877906832
            &&& aead_opened(
                relay.registry.peers[node].key,
                pkt.nonce12,
                pkt.ciphertext,
                seq![2u8, 1u8] + node + pkt.dst,
            ) == Some(inner)
        },
        None => false,
    }
}

proof fn lemma_opens_to(relay: RelayView, bytes: Seq<u8>, node: Seq<u8>, inner: Seq<u8>)
    requires
        opens_to(relay, bytes, node, inner),
    ensures
        authentic_control(relay, bytes, node),
        payload_of(decoded_wire(bytes)->0, relay.registry.peers[node].key) == Some(inner),
{
    let pkt = decoded_wire(bytes)->0;
    law_nil_is_all_zero(pkt.dst);
    law_payload_is_under_the_header(pkt, relay.registry.peers[node].key);
}

/// A node that sends Register, the byte 0 and an address, is registered if the
/// registry gives it that address, and otherwise refused. Keepalive, the byte 1,
/// asks for nothing. Answers, which start with 3 or 4, are refused. Each binds the
/// node to where it came from, and nothing else changes.
pub proof fn law_control_messages(
    relay: RelayView,
    ev: RelayEvent,
    from: Endpoint,
    bytes: Seq<u8>,
    node: Seq<u8>,
    inner: Seq<u8>,
    after: RelayView,
    r: Result<Output, RelayError>,
)
    requires
        came_from(ev, from, bytes),
        relay.after_event(ev, after, r),
        opens_to(relay, bytes, node, inner),
        relay.registry.peers[node].node == node,
        inner.len() > 0,
    ensures
        ({
            let bound = RelayView { endpoints: relay.endpoints.insert(node, from), ..relay };
            let ip = inner.subrange(1, 5);
            &&& inner[0] == 0 && inner.len() >= 5 ==> after == bound
            &&& inner[0] == 0 && inner.len() >= 5 && ip == relay.registry.peers[node].virt_ip ==> (
            r matches Ok(Output::Registered { node: n, ip: i }) && n@ == node && i@ == ip)
            &&& inner[0] == 0 && inner.len() >= 5 && ip != relay.registry.peers[node].virt_ip ==> (
            r matches Err(e) && e == RelayError::RegisterIpMismatch)
            &&& inner[0] == 1 ==> after == bound && (r matches Ok(Output::Nothing))
            &&& inner[0] == 4 && inner.len() >= 5 ==> after == bound && (r matches Err(e) && e
                == RelayError::UnexpectedResolve)
            &&& inner[0] == 3 && inner.len() >= 22 && inner[5] == 16 ==> after == bound && (
            r matches Err(e) && e == RelayError::UnexpectedResolve)
            &&& 4 < inner[0] < 128 ==> (r matches Err(e) && e == RelayError::DecodeControl)
        }),
{
    lemma_opens_to(relay, bytes, node, inner);
    if inner[0] < 128 {
        law_control_fields(inner);
    }
    let bound = RelayView { endpoints: relay.endpoints.insert(node, from), ..relay };
    assert(relay.judged(from, bytes).endpoints == bound.endpoints ==> after =~= bound);
}

/// A node that sends Resolve, the byte 2 and an address, is bound to where it came
/// from and is answered there, if it can be sent to and there is a nonce: with a
/// control packet from the nil id to the node, which opens with the node's key to
/// the byte 3, the address, the byte 16 and the id of the node that has the
/// address, or to the byte 4 and the address where nobody has it.
pub proof fn law_resolve_is_answered_in_bytes(
    relay: RelayView,
    ev: RelayEvent,
    from: Endpoint,
    bytes: Seq<u8>,
    node: Seq<u8>,
    inner: Seq<u8>,
    after: RelayView,
    r: Result<Output, RelayError>,
)
    requires
        came_from(ev, from, bytes),
        relay.after_event(ev, after, r),
        opens_to(relay, bytes, node, inner),
        inner.len() >= 5,
        inner[0] == 2,
        relay.registry.node_by_ip.contains_key(inner.subrange(1, 5)) ==> relay.registry.node_by_ip[
        inner.subrange(1, 5)].len() == 16,
    ensures
        after == (RelayView { endpoints: relay.endpoints.insert(node, from), ..relay }),
        ({
            let ip = inner.subrange(1, 5);
            let answer = if relay.registry.node_by_ip.contains_key(ip) {
                seq![3u8] + ip + seq![16u8] + relay.registry.node_by_ip[ip]
            } else {
                seq![4u8] + ip
            };
            let trouble = match from {
                Endpoint::Udp(_) => if relay.transport == Transport::Tcp {
                    Some(RelayError::UdpNotEnabled)
                } else {
                    None
                },
                Endpoint::Tcp(conn_id) => if relay.transport == Transport::Udp {
                    Some(RelayError::TcpNotEnabled)
                } else if !relay.writers.contains(conn_id) {
                    Some(RelayError::NoWriter)
                } else {
                    None
                },
            };
            match r {
                Ok(out) => trouble is None && (out matches Output::Send(d) && {
                    &&& d.to == from
                    &&& d.kind == TxKind::Control
                    &&& decoded_wire(d.bytes@) matches Some(p) && {
                        &&& p.v == 2
                        &&& p.t == MsgType::Control
                        &&& p.src == Seq::new(16, |i: int| 0u8)
                        &&& p.dst == node
                        &&& aead_opened(
                            relay.registry.peers[node].key,
                            p.nonce12,
                            p.ciphertext,
                            seq![2u8, 1u8] + Seq::new(16, |i: int| 0u8) + node,
                        ) == Some(answer)
                    }
                }),
                Err(e) => e == RelayError::NoNonce || trouble == Some(e),
            }
        }),
{
    lemma_opens_to(relay, bytes, node, inner);
    law_control_fields(inner);
    let ip = inner.subrange(1, 5);
    let msg = resolve_answer(relay.registry, ip);
    let key = relay.registry.peers[node].key;
    assert(crate::postcard_format::varint(16) =~= seq![16u8]);
    if relay.registry.node_by_ip.contains_key(ip) {
        assert(msg.encoding() =~= seq![3u8] + ip + seq![16u8] + relay.registry.node_by_ip[ip]);
    } else {
        assert(msg.encoding() =~= seq![4u8] + ip);
    }
    assert(after =~= (RelayView { endpoints: relay.endpoints.insert(node, from), ..relay }));
    assert(relay.judged(from, bytes).outcome == Ok::<_, RelayError>(
        ReactionView::Reply { node, key, msg },
    ));
    if let Ok(Output::Send(d)) = r {
        law_carrying(
            d.bytes@,
            MsgType::Control,
            nil_bytes(),
            node,
            key,
            msg.encoding(),
        );
        assert(nil_bytes() =~= Seq::new(16, |i: int| 0u8));
    }
}

/// A control packet that opens but holds no message is refused. A datagram binds
/// its node all the same, and over a connection nothing changes.
pub proof fn law_authentic_nonsense(
    relay: RelayView,
    ev: RelayEvent,
    from: Endpoint,
    bytes: Seq<u8>,
    node: Seq<u8>,
    inner: Seq<u8>,
    after: RelayView,
    r: Result<Output, RelayError>,
)
    requires
        came_from(ev, from, bytes),
        relay.after_event(ev, after, r),
        opens_to(relay, bytes, node, inner),
        decoded_control(inner) is None,
    ensures
        r matches Err(e) && e == RelayError::DecodeControl,
        after == match from {
            Endpoint::Udp(_) => (RelayView {
                endpoints: relay.endpoints.insert(node, from),
                ..relay
            }),
            Endpoint::Tcp(_) => relay,
        },
{
    lemma_opens_to(relay, bytes, node, inner);
    assert(relay.judged(from, bytes).endpoints == relay.endpoints ==> after =~= relay);
}

/// An answer with a given nonce, where it can be sent: one packet to where it is
/// to go, from the nil id, of version 2, with the message sealed under that header.
pub proof fn law_reply_with_a_nonce(
    relay: RelayView,
    to: Endpoint,
    node: Seq<u8>,
    key: Seq<u8>,
    msg: ControlView,
    nonce12: Seq<u8>,
    r: Result<Output, RelayError>,
)
    requires
        output_is(r, relay.replied(to, node, key, msg, nonce12)),
        msg.encoding().len() <= 1000,
        match to {
            Endpoint::Udp(_) => relay.transport != Transport::Tcp,
            Endpoint::Tcp(conn_id) => relay.transport != Transport::Udp && relay.writers.contains(
                conn_id,
            ),
        },
    ensures
        r matches Ok(Output::Send(d)) && {
            &&& d.to == to
            &&& d.kind == TxKind::Control
            &&& d.bytes@ == (WireView {
                v: 2,
                t: MsgType::Control,
                src: Seq::new(16, |i: int| 0u8),
                dst: node,
                nonce12,
                ciphertext: aead_sealed(
                    key,
                    nonce12,
                    msg.encoding(),
                    seq![2u8, 1u8] + Seq::new(16, |i: int| 0u8) + node,
                ),
            }).encoding()
        },
{
    law_sealed_packet_fields(
        MsgType::Control,
        nil_bytes(),
        node,
        key,
        nonce12,
        msg.encoding(),
    );
    assert(nil_bytes() =~= Seq::new(16, |i: int| 0u8));
}

/// What a judgment says is what it is handed over as, field by field.
pub proof fn law_judgment_is_handed_over(r: Result<Reaction, RelayError>, j: Judgment)
    requires
        reaction_is(r, j.outcome),
    ensures
        match j.outcome {
            Err(e) => r matches Err(f) && f == e,
            Ok(ReactionView::Quiet) => r matches Ok(Reaction::Quiet),
            Ok(ReactionView::Registered { node, ip }) => r matches Ok(
                Reaction::Registered { node: n, ip: i },
            ) && n.0@ == node && i.0@ == ip,
            Ok(ReactionView::Reply { node, key, msg }) => r matches Ok(
                Reaction::Reply { node: n, key: k, msg: m },
            ) && n.0@ == node && k@ == key && m@ == msg,
            Ok(ReactionView::Forward { to }) => r matches Ok(Reaction::Forward { to: t }) && t
                == to,
        },
{
}

/// A connection that was accepted can be written to from then on, and nothing
/// else changes. One that ended cannot, and exactly the nodes that were reached
/// over it are forgotten.
pub proof fn law_connections(
    relay: RelayView,
    ev: RelayEvent,
    conn_id: u64,
    after: RelayView,
    r: Result<Output, RelayError>,
    other: u64,
    node: Seq<u8>,
)
    requires
        relay.after_event(ev, after, r),
        match ev {
            RelayEvent::TcpAccepted { conn_id: c } => c == conn_id,
            RelayEvent::TcpDisconnected { conn_id: c } => c == conn_id,
            _ => false,
        },
    ensures
        (r matches Ok(Output::Nothing)),
        after.registry == relay.registry,
        after.transport == relay.transport,
        ev is TcpAccepted ==> after.endpoints == relay.endpoints && (after.writers.contains(other)
            <==> other == conn_id || relay.writers.contains(other)),
        ev is TcpDisconnected ==> (after.writers.contains(other) <==> other != conn_id
            && relay.writers.contains(other)),
        ev is TcpDisconnected ==> (after.endpoints.contains_key(node)
            <==> relay.endpoints.contains_key(node) && relay.endpoints[node] != Endpoint::Tcp(
            conn_id,
        )),
        ev is TcpDisconnected && after.endpoints.contains_key(node) ==> after.endpoints[node]
            == relay.endpoints[node],
{
}

/// A control frame waits a tenth of a second for room, at most.
pub proof fn law_relay_numbers()
    ensures
        CONTROL_SEND_TIMEOUT_MS * 10 == 1000,
{
}

} // verus!
