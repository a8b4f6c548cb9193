//! What holds of a client as a whole, and of a client and the relay together.

use vstd::prelude::*;

use crate::client::{control_sent, data_sent, destination, inbound_is, ClientError, ClientView};
use crate::client::{Inbound, InboundOutput, InboundView, OutKind, Outgoing, TunOutput};
use crate::client::{TunReaction, TunReactionView, KEEPALIVE_SECS, MAX_PENDING_PER_IP};
use crate::client::RESOLVE_RETRY_NANOS;
use crate::crypto::{aead_opened, e2e_key, hkdf_sha256, law_e2e_key_input};
use crate::endpoint::Endpoint;
use crate::envelope::{carries, law_carrying, law_payload_is_under_the_header, payload_of};
use crate::relay::{brings, control_reaction, ReactionView, RelayView};
use crate::relay_laws::authentic_control;
use crate::wire::{decoded_wire, law_control_fields, lemma_control_decodes, nil_bytes};
use crate::wire::ControlView;
use crate::wire::MsgType;

verus! {

/// A packet that is dropped changes nothing.
pub proof fn law_dropped_inbound_changes_nothing(client: ClientView, bytes: Seq<u8>)
    requires
        client.inbound(bytes) is Err,
    ensures
        client.after_inbound(bytes) == client,
{
}

/// What a client knows of the others, and what waits, changes only by a control
/// packet to it that opens with its key. A data packet changes nothing.
pub proof fn law_inbound_change_needs_authentication(client: ClientView, bytes: Seq<u8>)
    requires
        client.after_inbound(bytes) != client,
    ensures
        decoded_wire(bytes) matches Some(pkt) && {
            &&& pkt.t == MsgType::Control
            &&& pkt.dst == client.node_id
            &&& payload_of(pkt, client.node_key) is Some
        },
{
}

/// No queue ever grows beyond its bound, whatever comes from either side.
pub proof fn law_queues_stay_bounded(client: ClientView, pkt: Seq<u8>, now: u128, bytes: Seq<u8>)
    requires
        client.bounded(),
    ensures
        client.after_tun(pkt, now).bounded(),
        client.after_inbound(bytes).bounded(),
{
}

/// A payload that a node sends is what the receiving client hands to its tunnel,
/// where both have the same network key.
pub proof fn law_data_arrives(client: ClientView, bytes: Seq<u8>, src: Seq<u8>, payload: Seq<u8>)
    requires
        carries(
            bytes,
            MsgType::Data,
            src,
            client.node_id,
            e2e_key(client.network_psk, src, client.node_id),
            payload,
        ),
        payload.len() > 0,
    ensures
        client.inbound(bytes) == Ok::<_, ClientError>(InboundView::Deliver { payload }),
        client.after_inbound(bytes) == client,
{
}

/// A packet for somebody else is dropped.
pub proof fn law_only_own_packets(client: ClientView, bytes: Seq<u8>)
    requires
        decoded_wire(bytes) matches Some(pkt) && pkt.dst != client.node_id,
    ensures
        client.inbound(bytes) is Err,
        client.after_inbound(bytes) == client,
{
}

/// The relay's answer that a node has an address teaches the client that, and
/// sets the packets free that waited for the address.
pub proof fn law_answer_is_learned(
    client: ClientView,
    bytes: Seq<u8>,
    ip: Seq<u8>,
    peer: Seq<u8>,
)
    requires
        brings(
            bytes,
            client.node_id,
            client.node_key,
            ControlView::ResolveOk { virtual_ip: ip, node_id: peer },
        ),
    ensures
        client.inbound(bytes) == Ok::<_, ClientError>(
            InboundView::Learned { peer, queued: client.queue(ip) },
        ),
        client.after_inbound(bytes).node_by_ip == client.node_by_ip.insert(ip, peer),
        client.after_inbound(bytes).queue(ip) == Seq::<Seq<u8>>::empty(),
{
}

/// Once an address is learned, packets to it are sent to its node at once.
pub proof fn law_learned_address_is_used(
    client: ClientView,
    bytes: Seq<u8>,
    ip: Seq<u8>,
    peer: Seq<u8>,
    pkt: Seq<u8>,
    now: u128,
)
    requires
        brings(
            bytes,
            client.node_id,
            client.node_key,
            ControlView::ResolveOk { virtual_ip: ip, node_id: peer },
        ),
        pkt.len() >= 20,
        destination(pkt) == ip,
    ensures
        client.after_inbound(bytes).tun_reaction(pkt, now) == (TunReactionView::Send {
            dst: peer,
            payload: pkt,
        }),
{
}

/// The relay's answer that nobody has an address drops what waited for it.
pub proof fn law_unresolved_drops_the_queue(client: ClientView, bytes: Seq<u8>, ip: Seq<u8>)
    requires
        brings(
            bytes,
            client.node_id,
            client.node_key,
            ControlView::ResolveErr { virtual_ip: ip },
        ),
    ensures
        client.inbound(bytes) == Ok::<_, ClientError>(InboundView::Unresolved { ip }),
        client.after_inbound(bytes).queue(ip) == Seq::<Seq<u8>>::empty(),
        client.after_inbound(bytes).node_by_ip == client.node_by_ip,
{
}

/// Something that happens to a client.
pub enum ClientEvent {
    /// A packet comes out of the tunnel.
    Tun { pkt: Seq<u8>, now: u128 },
    /// Bytes come from the relay.
    Inbound { bytes: Seq<u8> },
}

/// The client after some events.
pub open spec fn after_events(client: ClientView, events: Seq<ClientEvent>) -> ClientView
    decreases events.len(),
{
    if events.len() == 0 {
        client
    } else {
        let before = after_events(client, events.drop_last());
        match events.last() {
            ClientEvent::Tun { pkt, now } => before.after_tun(pkt, now),
            ClientEvent::Inbound { bytes } => before.after_inbound(bytes),
        }
    }
}

/// Whether an event brings the client an answer about an address.
pub open spec fn answers(client: ClientView, event: ClientEvent, ip: Seq<u8>) -> bool {
    match event {
        ClientEvent::Inbound { bytes } => match client.control_in(bytes) {
            Some(ControlView::ResolveOk { virtual_ip, .. }) => virtual_ip == ip,
            Some(ControlView::ResolveErr { virtual_ip }) => virtual_ip == ip,
            _ => false,
        },
        _ => false,
    }
}

/// The packets to an address among some events, in order.
pub open spec fn packets_to(events: Seq<ClientEvent>, ip: Seq<u8>) -> Seq<Seq<u8>>
    decreases events.len(),
{
    if events.len() == 0 {
        Seq::empty()
    } else {
        let before = packets_to(events.drop_last(), ip);
        match events.last() {
            ClientEvent::Tun { pkt, .. } => if pkt.len() >= 20 && destination(pkt) == ip {
                before.push(pkt)
            } else {
                before
            },
            _ => before,
        }
    }
}

/// Who the client is does not change.
proof fn lemma_identity_stays(client: ClientView, events: Seq<ClientEvent>)
    ensures
        after_events(client, events).node_id == client.node_id,
        after_events(client, events).node_key == client.node_key,
        after_events(client, events).network_psk == client.network_psk,
    decreases events.len(),
{
    if events.len() > 0 {
        lemma_identity_stays(client, events.drop_last());
    }
}

/// Packets to an address that is not known wait in the order in which they came,
/// whatever else happens before the relay answers about the address. The first
/// ones find room, and those beyond the bound are dropped.
pub proof fn law_waiting_is_first_come_first_kept(
    client: ClientView,
    ip: Seq<u8>,
    events: Seq<ClientEvent>,
)
    requires
        client.bounded(),
        !client.node_by_ip.contains_key(ip),
        forall|i: int| 0 <= i < events.len() ==> !answers(client, #[trigger] events[i], ip),
    ensures
        ({
            let all = client.queue(ip) + packets_to(events, ip);
            &&& after_events(client, events).queue(ip) == if all.len() <= MAX_PENDING_PER_IP {
                all
            } else {
                all.take(MAX_PENDING_PER_IP as int)
            }
            &&& !after_events(client, events).node_by_ip.contains_key(ip)
        }),
    decreases events.len(),
{
    let all = client.queue(ip) + packets_to(events, ip);
    if events.len() == 0 {
        assert(all =~= client.queue(ip));
    } else {
        let before = events.drop_last();
        let last = events.last();
        assert forall|i: int| 0 <= i < before.len() implies !answers(
            client,
            #[trigger] before[i],
            ip,
        ) by {
            assert(before[i] == events[i]);
        }
        law_waiting_is_first_come_first_kept(client, ip, before);
        lemma_identity_stays(client, before);
        assert(!answers(client, events[events.len() - 1], ip));
        let mid = after_events(client, before);
        let all_before = client.queue(ip) + packets_to(before, ip);
        match last {
            ClientEvent::Tun { pkt, now } => {
                if pkt.len() >= 20 && destination(pkt) == ip {
                    assert(all =~= all_before.push(pkt));
                    if all_before.len() < MAX_PENDING_PER_IP {
                        assert(mid.queue(ip).push(pkt) =~= all);
                    } else {
                        assert(all.take(MAX_PENDING_PER_IP as int) =~= mid.queue(ip));
                    }
                }
            },
            ClientEvent::Inbound { bytes } => {
                assert(mid.control_in(bytes) == client.control_in(bytes));
            },
        }
    }
}

/// After the relay was asked about an address, it is asked again only when the
/// waiting time is over, and then with the next packet.
pub proof fn law_questions_keep_their_distance(
    client: ClientView,
    first: Seq<u8>,
    asked_at: u128,
    next: Seq<u8>,
    now: u128,
)
    requires
        first.len() >= 20,
        next.len() >= 20,
        destination(first) == destination(next),
        client.tun_reaction(first, asked_at) matches TunReactionView::Wait { resolve, .. }
            && resolve,
    ensures
        client.after_tun(first, asked_at).tun_reaction(next, now) matches TunReactionView::Wait {
            resolve,
            ..
        } && resolve == (now - asked_at >= RESOLVE_RETRY_NANOS),
{
}

/// Whatever happens after the relay was asked about an address, a later question
/// about it comes when the waiting time is over, at the earliest.
pub proof fn law_later_questions_keep_their_distance(
    client: ClientView,
    ip: Seq<u8>,
    events: Seq<ClientEvent>,
    pkt: Seq<u8>,
    now: u128,
)
    requires
        client.last_resolve.contains_key(ip),
        after_events(client, events).tun_reaction(pkt, now) matches TunReactionView::Wait {
            ip: wanted,
            resolve,
            ..
        } && wanted == ip && resolve,
    ensures
        now - client.last_resolve[ip] >= RESOLVE_RETRY_NANOS,
{
    lemma_asked_only_later(client, ip, events);
}

/// The time of the last question about an address does not go back.
proof fn lemma_asked_only_later(client: ClientView, ip: Seq<u8>, events: Seq<ClientEvent>)
    requires
        client.last_resolve.contains_key(ip),
    ensures
        after_events(client, events).last_resolve.contains_key(ip),
        after_events(client, events).last_resolve[ip] >= client.last_resolve[ip],
    decreases events.len(),
{
    if events.len() > 0 {
        lemma_asked_only_later(client, ip, events.drop_last());
    }
}

/// The relay takes a client's control message: it is authentic, and the relay
/// does what the message asks for, where both have the same key for the node.
pub proof fn law_relay_understands_the_client(
    relay: RelayView,
    from: Endpoint,
    bytes: Seq<u8>,
    node: Seq<u8>,
    msg: ControlView,
)
    requires
        msg.wf(),
        relay.registry.peers.contains_key(node),
        carries(
            bytes,
            MsgType::Control,
            node,
            nil_bytes(),
            relay.registry.peers[node].key,
            msg.encoding(),
        ),
    ensures
        authentic_control(relay, bytes, node),
        relay.judged(from, bytes).endpoints == relay.endpoints.insert(node, from),
        relay.judged(from, bytes).outcome == control_reaction(
            relay.registry,
            node,
            relay.registry.peers[node],
            msg,
        ),
{
    lemma_control_decodes(msg);
}

/// A client that asks who has an address of the registry is answered, and the
/// answer teaches it the node that the registry gives the address to.
pub proof fn law_question_and_answer(
    client: ClientView,
    relay: RelayView,
    from: Endpoint,
    question: Seq<u8>,
    answer: Seq<u8>,
    ip: Seq<u8>,
)
    requires
        ip.len() == 4,
        relay.registry.peers.contains_key(client.node_id),
        relay.registry.peers[client.node_id].key == client.node_key,
        relay.registry.node_by_ip.contains_key(ip),
        carries(
            question,
            MsgType::Control,
            client.node_id,
            nil_bytes(),
            client.node_key,
            (ControlView::Resolve { virtual_ip: ip }).encoding(),
        ),
        relay.judged(from, question).outcome matches Ok(ReactionView::Reply { node, key, msg })
            ==> brings(answer, node, key, msg),
    ensures
        relay.judged(from, question).outcome is Ok,
        relay.judged(from, question).outcome->Ok_0 is Reply,
        client.after_inbound(answer).node_by_ip == client.node_by_ip.insert(
            ip,
            relay.registry.node_by_ip[ip],
        ),
        client.inbound(answer) == Ok::<_, ClientError>(
            InboundView::Learned {
                peer: relay.registry.node_by_ip[ip],
                queued: client.queue(ip),
            },
        ),
{
    law_relay_understands_the_client(
        relay,
        from,
        question,
        client.node_id,
        ControlView::Resolve { virtual_ip: ip },
    );
    law_answer_is_learned(client, answer, ip, relay.registry.node_by_ip[ip]);
}

/// A packet of at least twenty bytes is routed by its bytes 16 to 19, whatever its
/// length. Where the node of that address is known, it is sent there as it is.
/// Otherwise it waits for that address, unless sixteen wait already, and the relay
/// is asked if it never was, or not within the last two seconds. Anything shorter
/// is ignored.
pub proof fn law_packets_go_by_their_destination(
    client: ClientView,
    pkt: Seq<u8>,
    now: u128,
    r: TunReaction,
)
    requires
        r@ == client.tun_reaction(pkt, now),
    ensures
        pkt.len() < 20 ==> (r matches TunReaction::Ignore),
        pkt.len() >= 20 ==> {
            let ip = seq![pkt[16], pkt[17], pkt[18], pkt[19]];
            if client.node_by_ip.contains_key(ip) {
                r matches TunReaction::Send { dst, payload } && dst.0@ == client.node_by_ip[ip]
                    && payload@ == pkt
            } else {
                r matches TunReaction::Wait { ip: wanted, dropped, resolve } && {
                    &&& wanted.0@ == ip
                    &&& dropped <==> client.pending.contains_key(ip) && client.pending[ip].len()
                        >= 16
                    &&& resolve <==> !client.last_resolve.contains_key(ip) || now
                        - client.last_resolve[ip] >= 2_000_000_000
                }
            }
        },
{
    if pkt.len() >= 20 {
        assert(destination(pkt) =~= seq![pkt[16], pkt[17], pkt[18], pkt[19]]);
    }
}

/// The relay is asked about an address that it was never asked about, with the
/// first packet to it and at any time.
pub proof fn law_first_packet_asks(client: ClientView, pkt: Seq<u8>, now: u128)
    requires
        pkt.len() >= 20,
        !client.node_by_ip.contains_key(seq![pkt[16], pkt[17], pkt[18], pkt[19]]),
        !client.last_resolve.contains_key(seq![pkt[16], pkt[17], pkt[18], pkt[19]]),
    ensures
        client.tun_reaction(pkt, now) matches TunReactionView::Wait { resolve, .. } && resolve,
        client.after_tun(pkt, now).last_resolve.contains_key(
            seq![pkt[16], pkt[17], pkt[18], pkt[19]],
        ),
        client.after_tun(pkt, now).last_resolve[seq![pkt[16], pkt[17], pkt[18], pkt[19]]] == now,
{
    assert(destination(pkt) =~= seq![pkt[16], pkt[17], pkt[18], pkt[19]]);
}

/// What a packet out of the tunnel leaves behind: where its address is not known,
/// the packet at the end of that address's queue, if there was room, and the time,
/// if the relay is asked. Nothing else changes, for this address or any other.
pub proof fn law_tun_packet_leaves(client: ClientView, pkt: Seq<u8>, now: u128, other: Seq<u8>)
    ensures
        ({
            let ip = seq![pkt[16], pkt[17], pkt[18], pkt[19]];
            let after = client.after_tun(pkt, now);
            let old_queue = if client.pending.contains_key(ip) {
                client.pending[ip]
            } else {
                Seq::empty()
            };
            let ask = !client.last_resolve.contains_key(ip) || now - client.last_resolve[ip]
                >= 2_000_000_000;
            &&& after.node_id == client.node_id
            &&& after.node_key == client.node_key
            &&& after.network_psk == client.network_psk
            &&& after.node_by_ip == client.node_by_ip
            &&& pkt.len() < 20 || client.node_by_ip.contains_key(ip) ==> after == client
            &&& pkt.len() >= 20 && !client.node_by_ip.contains_key(ip) ==> {
                &&& after.pending.contains_key(ip)
                &&& after.pending[ip] == if old_queue.len() < 16 {
                    old_queue.push(pkt)
                } else {
                    old_queue
                }
                &&& ask ==> after.last_resolve.contains_key(ip) && after.last_resolve[ip] == now
                &&& !ask ==> after.last_resolve == client.last_resolve
                &&& other != ip ==> {
                    &&& after.pending.contains_key(other) == client.pending.contains_key(other)
                    &&& after.pending.contains_key(other) ==> after.pending[other]
                        == client.pending[other]
                    &&& after.last_resolve.contains_key(other)
                        == client.last_resolve.contains_key(other)
                    &&& after.last_resolve.contains_key(other) ==> after.last_resolve[other]
                        == client.last_resolve[other]
                }
            }
        }),
{
    if pkt.len() >= 20 {
        assert(destination(pkt) =~= seq![pkt[16], pkt[17], pkt[18], pkt[19]]);
    }
}

/// Whether bytes are a data packet of version 2 from one node to another, and open
/// with the key of the two to `payload`.
pub open spec fn data_on_the_wire(
    bytes: Seq<u8>,
    src: Seq<u8>,
    dst: Seq<u8>,
    network_psk: Seq<u8>,
    payload: Seq<u8>,
) -> bool {
    match decoded_wire(bytes) {
        Some(p) => {
            &&& p.v == 2
            &&& p.t == MsgType::Data
            &&& p.src == src
            &&& p.dst == dst
            &&& aead_opened(
                hkdf_sha256(
                    network_psk,
                    seq![115u8, 110u8, 47u8, 101u8, 50u8, 101u8, 45u8, 107u8, 101u8, 121u8] + src
                        + dst,
                ),
                p.nonce12,
                p.ciphertext,
                seq![2u8, 2u8] + src + dst,
            ) == Some(payload)
        },
        None => false,
    }
}

/// Whether bytes are a control packet of version 2 from a node to the nil id, and
/// open with the node's key to `inner`.
pub open spec fn control_on_the_wire(
    bytes: Seq<u8>,
    src: Seq<u8>,
    node_key: Seq<u8>,
    inner: Seq<u8>,
) -> bool {
    match decoded_wire(bytes) {
        Some(p) => {
            &&& p.v == 2
            &&& p.t == MsgType::Control
            &&& p.src == src
            &&& p.dst == Seq::new(16, |i: int| 0u8)
            &&& aead_opened(
                node_key,
                p.nonce12,
                p.ciphertext,
                seq![2u8, 1u8] + src + Seq::new(16, |i: int| 0u8),
            ) == Some(inner)
        },
        None => false,
    }
}

/// What is sent for a payload is a data packet that opens to the payload, all of
/// it. Nothing is sent only without a nonce, or beyond 274877906816 bytes.
pub proof fn law_sent_data(
    r: Result<Outgoing, ClientError>,
    src: Seq<u8>,
    dst: Seq<u8>,
    network_psk: Seq<u8>,
    payload: Seq<u8>,
)
    requires
        data_sent(r, src, dst, network_psk, payload),
    ensures
        match r {
            Ok(out) => {
                &&& out.kind == OutKind::Data
                &&& data_on_the_wire(out.bytes@, src, dst, network_psk, payload)
            },
            Err(e) => {
                ||| e == ClientError::NoNonce
                ||| e == ClientError::EncryptData && payload.len() > 274877906816
            },
        },
{
    law_e2e_key_input(network_psk, src, dst);
    if let Ok(out) = r {
        law_carrying(
            out.bytes@,
            MsgType::Data,
            src,
            dst,
            e2e_key(network_psk, src, dst),
            payload,
        );
    }
}

/// What is sent for a control message to the relay is a control packet that opens
/// to the message. Nothing is sent only without a nonce.
pub proof fn law_sent_control(
    r: Result<Outgoing, ClientError>,
    src: Seq<u8>,
    node_key: Seq<u8>,
    msg: ControlView,
)
    requires
        control_sent(r, src, nil_bytes(), node_key, msg),
    ensures
        match r {
            Ok(out) => {
                &&& out.kind == OutKind::Control
                &&& control_on_the_wire(out.bytes@, src, node_key, msg.encoding())
            },
            Err(e) => e == ClientError::NoNonce,
        },
{
    assert(nil_bytes() =~= Seq::new(16, |i: int| 0u8));
    if let Ok(out) = r {
        law_carrying(out.bytes@, MsgType::Control, src, nil_bytes(), node_key, msg.encoding());
    }
}

/// What goes out for a packet out of the tunnel, in bytes: the packet itself,
/// sealed for the node that has the address in its bytes 16 to 19, or, where the
/// relay is asked, the byte 2 and that address, sealed for the relay.
pub proof fn law_tun_output_in_bytes(client: ClientView, pkt: Seq<u8>, now: u128, out: TunOutput)
    requires
        client.tun_output(pkt, now, out),
    ensures
        pkt.len() < 20 ==> (out matches TunOutput::Nothing),
        pkt.len() >= 20 ==> {
            let ip = seq![pkt[16], pkt[17], pkt[18], pkt[19]];
            if client.node_by_ip.contains_key(ip) {
                out matches TunOutput::Data(r) && match r {
                    Ok(o) => o.kind == OutKind::Data && data_on_the_wire(
                        o.bytes@,
                        client.node_id,
                        client.node_by_ip[ip],
                        client.network_psk,
                        pkt,
                    ),
                    Err(e) => e == ClientError::NoNonce || pkt.len() > 274877906816,
                }
            } else {
                out matches TunOutput::Wait { ip: wanted, dropped, resolve } && {
                    &&& wanted.0@ == ip
                    &&& dropped <==> client.pending.contains_key(ip) && client.pending[ip].len()
                        >= 16
                    &&& resolve is Some <==> !client.last_resolve.contains_key(ip) || now
                        - client.last_resolve[ip] >= 2_000_000_000
                    &&& resolve matches Some(r) ==> match r {
                        Ok(o) => o.kind == OutKind::Control && control_on_the_wire(
                            o.bytes@,
                            client.node_id,
                            client.node_key,
                            seq![2u8] + ip,
                        ),
                        Err(e) => e == ClientError::NoNonce,
                    }
                }
            }
        },
{
    if pkt.len() >= 20 {
        let ip = seq![pkt[16], pkt[17], pkt[18], pkt[19]];
        assert(destination(pkt) =~= ip);
        match out {
            TunOutput::Data(r) => {
                if client.node_by_ip.contains_key(ip) {
                    law_sent_data(
                        r,
                        client.node_id,
                        client.node_by_ip[ip],
                        client.network_psk,
                        pkt,
                    );
                }
            },
            TunOutput::Wait { resolve: Some(r), .. } => {
                let msg = ControlView::Resolve { virtual_ip: ip };
                assert(msg.encoding() =~= seq![2u8] + ip);
                if !client.node_by_ip.contains_key(ip) {
                    law_sent_control(r, client.node_id, client.node_key, msg);
                }
            },
            _ => {},
        }
    }
}

/// Registering sends the byte 0 and the address, and keeping alive the byte 1.
pub proof fn law_greetings_in_bytes(
    client: ClientView,
    ip: Seq<u8>,
    hello: Result<Outgoing, ClientError>,
    alive: Result<Outgoing, ClientError>,
)
    requires
        control_sent(
            hello,
            client.node_id,
            nil_bytes(),
            client.node_key,
            ControlView::Register { virtual_ip: ip },
        ),
        control_sent(
            alive,
            client.node_id,
            nil_bytes(),
            client.node_key,
            ControlView::Keepalive,
        ),
    ensures
        hello matches Ok(o) ==> control_on_the_wire(
            o.bytes@,
            client.node_id,
            client.node_key,
            seq![0u8] + ip,
        ),
        alive matches Ok(o) ==> control_on_the_wire(
            o.bytes@,
            client.node_id,
            client.node_key,
            seq![1u8],
        ),
{
    let register = ControlView::Register { virtual_ip: ip };
    assert(register.encoding() =~= seq![0u8] + ip);
    assert(ControlView::Keepalive.encoding() =~= seq![1u8]);
    law_sent_control(hello, client.node_id, client.node_key, register);
    law_sent_control(alive, client.node_id, client.node_key, ControlView::Keepalive);
}

/// What comes of a data packet: where it is of version 2 and for this client, and
/// opens with the key of the two nodes, its payload goes to the tunnel, all of it
/// and as it is. An empty one is dropped, and so is what does not open. The client
/// stays as it was.
pub proof fn law_inbound_data_in_bytes(
    client: ClientView,
    bytes: Seq<u8>,
    r: Result<InboundOutput, ClientError>,
)
    requires
        client.inbound_output(bytes, r),
        decoded_wire(bytes) matches Some(p) && p.v == 2 && p.dst == client.node_id && p.t
            == MsgType::Data && p.ciphertext.len() <= 274877906832,
    ensures
        client.after_inbound(bytes) == client,
        ({
            let p = decoded_wire(bytes)->0;
            let opened = aead_opened(
                hkdf_sha256(
                    client.network_psk,
                    seq![115u8, 110u8, 47u8, 101u8, 50u8, 101u8, 45u8, 107u8, 101u8, 121u8]
                        + p.src + p.dst,
                ),
                p.nonce12,
                p.ciphertext,
                seq![2u8, 2u8] + p.src + p.dst,
            );
            match opened {
                None => r matches Err(e) && e == ClientError::DecryptData,
                Some(sent) => if sent.len() == 0 {
                    r matches Err(e) && e == ClientError::EmptyPayload
                } else {
                    r matches Ok(InboundOutput::Deliver { payload }) && payload@ == sent
                },
            }
        }),
{
    let p = decoded_wire(bytes)->0;
    law_e2e_key_input(client.network_psk, p.src, p.dst);
    law_payload_is_under_the_header(p, e2e_key(client.network_psk, p.src, p.dst));
}

/// What is dropped before it is opened: what does not decode, has another version
/// than 2, or is for another node. The client stays as it was.
pub proof fn law_unopened_inbound(
    client: ClientView,
    bytes: Seq<u8>,
    r: Result<InboundOutput, ClientError>,
)
    requires
        client.inbound_output(bytes, r),
        decoded_wire(bytes) matches Some(p) ==> p.v != 2 || p.dst != client.node_id,
    ensures
        client.after_inbound(bytes) == client,
        r matches Err(e) && e == match decoded_wire(bytes) {
            None => ClientError::DecodeWire,
            Some(p) => if p.v != 2 {
                ClientError::WireVersion
            } else {
                ClientError::NotForUs
            },
        },
{
}

/// What comes of a control packet for this client, by the bytes that it opens to.
/// The byte 3, an address, the byte 16 and an id: the address is noted, and every
/// packet that waited for it goes to that node, all of it and in order. The byte 4
/// and an address: what waited for it is dropped. The bytes 0, 1 and 2 start what
/// is of no matter to a client. What does not open, or is none of these, is
/// refused. No other address is touched.
pub proof fn law_inbound_control_in_bytes(
    client: ClientView,
    bytes: Seq<u8>,
    r: Result<InboundOutput, ClientError>,
)
    requires
        client.inbound_output(bytes, r),
        decoded_wire(bytes) matches Some(p) && p.v == 2 && p.dst == client.node_id && p.t
            == MsgType::Control && p.ciphertext.len() <= 274877906832,
    ensures
        ({
            let p = decoded_wire(bytes)->0;
            let after = client.after_inbound(bytes);
            let opened = aead_opened(
                client.node_key,
                p.nonce12,
                p.ciphertext,
                seq![2u8, 1u8] + p.src + p.dst,
            );
            &&& after.node_id == client.node_id
            &&& after.node_key == client.node_key
            &&& after.network_psk == client.network_psk
            &&& after.last_resolve == client.last_resolve
            &&& opened is None ==> after == client && (r matches Err(e) && e
                == ClientError::DecryptControl)
            &&& opened matches Some(inner) ==> inner.len() > 0 && inner[0] < 128 ==> {
                let ip = inner.subrange(1, 5);
                let waiting = if client.pending.contains_key(ip) {
                    client.pending[ip]
                } else {
                    Seq::empty()
                };
                &&& inner[0] == 3 && inner.len() >= 22 && inner[5] == 16 ==> {
                    &&& after.node_by_ip == client.node_by_ip.insert(ip, inner.subrange(6, 22))
                    &&& after.pending == client.pending.remove(ip)
                    &&& r matches Ok(InboundOutput::Flush { out }) && {
                        &&& out@.len() == waiting.len()
                        &&& forall|i: int|
                            0 <= i < waiting.len() ==> match #[trigger] out@[i] {
                                Ok(o) => o.kind == OutKind::Data && data_on_the_wire(
                                    o.bytes@,
                                    client.node_id,
                                    inner.subrange(6, 22),
                                    client.network_psk,
                                    waiting[i],
                                ),
                                Err(e) => e == ClientError::NoNonce || waiting[i].len()
                                    > 274877906816,
                            }
                    }
                }
                &&& inner[0] == 4 && inner.len() >= 5 ==> {
                    &&& after.node_by_ip == client.node_by_ip
                    &&& after.pending == client.pending.remove(ip)
                    &&& r matches Ok(InboundOutput::Unresolved { ip: i }) && i.0@ == ip
                }
                &&& inner[0] == 1 || (inner[0] == 0 || inner[0] == 2) && inner.len() >= 5
                    ==> after == client && (r matches Ok(InboundOutput::Nothing))
                &&& inner[0] > 4 || inner[0] != 1 && inner.len() < 5 ==> after == client && (
                r matches Err(e) && e == ClientError::DecodeControl)
            }
        }),
{
    let p = decoded_wire(bytes)->0;
    law_payload_is_under_the_header(p, client.node_key);
    if let Some(inner) = payload_of(p, client.node_key) {
        if inner.len() > 0 && inner[0] < 128 {
            law_control_fields(inner);
            if inner[0] == 3 && inner.len() >= 22 && inner[5] == 16 {
                let ip = inner.subrange(1, 5);
                let peer = inner.subrange(6, 22);
                let waiting = client.queue(ip);
                if let Ok(InboundOutput::Flush { out }) = r {
                    assert forall|i: int| 0 <= i < waiting.len() implies match #[trigger] out@[i] {
                        Ok(o) => o.kind == OutKind::Data && data_on_the_wire(
                            o.bytes@,
                            client.node_id,
                            peer,
                            client.network_psk,
                            waiting[i],
                        ),
                        Err(e) => e == ClientError::NoNonce || waiting[i].len() > 274877906816,
                    } by {
                        law_sent_data(
                            out@[i],
                            client.node_id,
                            peer,
                            client.network_psk,
                            waiting[i],
                        );
                    }
                }
            }
        }
    }
}

/// What a packet brings is what it is handed over as, field by field.
pub proof fn law_inbound_is_handed_over(
    r: Result<Inbound, ClientError>,
    expected: Result<InboundView, ClientError>,
)
    requires
        inbound_is(r, expected),
    ensures
        match expected {
            Err(e) => r matches Err(f) && f == e,
            Ok(InboundView::Learned { peer, queued }) => r matches Ok(
                Inbound::Learned { peer: p, queued: q },
            ) && p.0@ == peer && q@ == queued,
            Ok(InboundView::Unresolved { ip }) => r matches Ok(Inbound::Unresolved { ip: i })
                && i.0@ == ip,
            Ok(InboundView::Ignored) => r matches Ok(Inbound::Ignored),
            Ok(InboundView::Deliver { payload }) => r matches Ok(
                Inbound::Deliver { payload: p },
            ) && p@ == payload,
        },
{
}

/// A client says that it is there every twenty seconds, asks again after two, and
/// lets sixteen packets wait for each address.
pub proof fn law_client_numbers()
    ensures
        KEEPALIVE_SECS == 20,
        RESOLVE_RETRY_NANOS == 2 * 1_000_000_000,
        MAX_PENDING_PER_IP == 16,
{
}

} // verus!
