//! What a client decides: what it sends for a packet out of the tunnel, and what
//! it does with a packet from the relay.
//!
//! Packets to an address whose node is not known yet wait in a queue, and the
//! relay is asked who has the address.

use vstd::prelude::*;

use crate::batch::SendOutcome;
use crate::bytes::to_array;
use crate::crypto::{derive_e2e_key, e2e_key, random_nonce12, MAX_PLAINTEXT_LEN};
use crate::envelope::{carries, open_packet, payload_of, seal_packet, sealed_bytes};
use crate::envelope::EnvelopeError;
use crate::framing::contents;
use crate::table::ByteMap;
use crate::text::own;
use crate::wire::{decode_control, decode_wire, decoded_control, decoded_wire, encode_control};
use crate::wire::{nil_bytes, Control, ControlView, Ipv4AddrBytes, MsgType, NodeId, WireView};
use crate::wire::WIRE_VERSION;

verus! {

/// How many packets wait for one address at most.
pub const MAX_PENDING_PER_IP: usize = 16;

/// How long the client waits before it asks again who has an address, in
/// nanoseconds.
pub const RESOLVE_RETRY_NANOS: u128 = 2_000_000_000;

/// How often the client tells the relay that it is there, in seconds.
pub const KEEPALIVE_SECS: u64 = 20;

/// Which plane a packet to the relay belongs to.
#[derive(Clone, Copy, Debug, PartialEq, Eq, Structural)]
pub enum OutKind {
    Control,
    Data,
}

/// Why the client drops a packet, or cannot send one.
#[derive(Clone, Copy, Debug, PartialEq, Eq, Structural)]
pub enum ClientError {
    DecodeWire,
    WireVersion,
    NotForUs,
    DecryptControl,
    DecodeControl,
    DecryptData,
    EmptyPayload,
    EncodeControl,
    NoNonce,
    Encrypt,
    EncryptData,
    EncodeWire,
    ControlClosed,
    DataClosed,
}

impl ClientError {
    /// The error in words.
    pub open spec fn spec_message(self) -> Seq<char> {
        match self {
            ClientError::DecodeWire => "decode wire"@,
            ClientError::WireVersion => "unsupported wire version"@,
            ClientError::NotForUs => "not for us"@,
            ClientError::DecryptControl => "decrypt control"@,
            ClientError::DecodeControl => "decode control"@,
            ClientError::DecryptData => "decrypt data"@,
            ClientError::EmptyPayload => "empty payload"@,
            ClientError::EncodeControl => "encode control"@,
            ClientError::NoNonce => "getrandom failed"@,
            ClientError::Encrypt => "encrypt"@,
            ClientError::EncryptData => "encrypt data"@,
            ClientError::EncodeWire => "encode wire"@,
            ClientError::ControlClosed => "tcp control channel closed"@,
            ClientError::DataClosed => "tcp data channel closed"@,
        }
    }

    /// The error in words.
    pub fn message(&self) -> (r: String)
        ensures
            r@ == self.spec_message(),
    {
        own(
            match self {
                ClientError::DecodeWire => "decode wire",
                ClientError::WireVersion => "unsupported wire version",
                ClientError::NotForUs => "not for us",
                ClientError::DecryptControl => "decrypt control",
                ClientError::DecodeControl => "decode control",
                ClientError::DecryptData => "decrypt data",
                ClientError::EmptyPayload => "empty payload",
                ClientError::EncodeControl => "encode control",
                ClientError::NoNonce => "getrandom failed",
                ClientError::Encrypt => "encrypt",
                ClientError::EncryptData => "encrypt data",
                ClientError::EncodeWire => "encode wire",
                ClientError::ControlClosed => "tcp control channel closed",
                ClientError::DataClosed => "tcp data channel closed",
            },
        )
    }
}

/// Whether a packet counts as sent over a stream. A control packet must be
/// taken.
///
/// For real-time traffic (e.g. game streaming), prefer dropping rather than
/// queueing behind TCP backpressure, which manifests as high latency: a data
/// packet may be dropped where there is no room.
pub fn send_result(kind: OutKind, outcome: SendOutcome) -> (r: Result<(), ClientError>)
    ensures
        r == match (kind, outcome) {
            (_, SendOutcome::Sent) => Ok(()),
            (OutKind::Control, _) => Err(ClientError::ControlClosed),
            (OutKind::Data, SendOutcome::Full) => Ok(()),
            (OutKind::Data, SendOutcome::Closed) => Err(ClientError::DataClosed),
        },
{
    match kind {
        OutKind::Control => match outcome {
            SendOutcome::Sent => Ok(()),
            _ => Err(ClientError::ControlClosed),
        },
        OutKind::Data => match outcome {
            SendOutcome::Sent => Ok(()),
            SendOutcome::Full => Ok(()),
            SendOutcome::Closed => Err(ClientError::DataClosed),
        },
    }
}

/// A packet for the relay.
#[derive(Debug)]
pub struct Outgoing {
    pub kind: OutKind,
    pub bytes: Vec<u8>,
}

/// The bytes of a control packet with the given nonce. They carry the message
/// to whoever has the key.
pub fn control_packet(
    src: NodeId,
    dst: NodeId,
    node_key: &[u8; 32],
    ctrl: &Control,
    nonce12: &[u8; 12],
) -> (r: Result<Vec<u8>, ClientError>)
    ensures
        r is Ok,
        sealed_bytes(MsgType::Control, src@, dst@, node_key@, nonce12@, ctrl@.encoding()) == Some(
            r->Ok_0@,
        ),
        carries(r->Ok_0@, MsgType::Control, src@, dst@, node_key@, ctrl@.encoding()),
{
    let inner = match encode_control(ctrl) {
        Ok(inner) => inner,
        Err(_) => return Err(ClientError::EncodeControl),
    };
    match seal_packet(MsgType::Control, src, dst, node_key, nonce12, inner.as_slice()) {
        Ok(bytes) => Ok(bytes),
        Err(EnvelopeError::Seal) => Err(ClientError::Encrypt),
        Err(EnvelopeError::Encode) => Err(ClientError::EncodeWire),
    }
}

/// The bytes of a data packet with the given nonce. They carry the payload to
/// whoever has the network's key.
pub fn data_packet(
    src: NodeId,
    dst: NodeId,
    network_psk: &[u8; 32],
    payload: &[u8],
    nonce12: &[u8; 12],
) -> (r: Result<Vec<u8>, ClientError>)
    ensures
        ({
            let key = e2e_key(network_psk@, src@, dst@);
            match r {
                Ok(bytes) => {
                    &&& sealed_bytes(MsgType::Data, src@, dst@, key, nonce12@, payload@) == Some(
                        bytes@,
                    )
                    &&& carries(bytes@, MsgType::Data, src@, dst@, key, payload@)
                },
                Err(e) => e == ClientError::EncryptData,
            }
        }),
        r is Ok <==> payload@.len() <= MAX_PLAINTEXT_LEN,
{
    let key = derive_e2e_key(network_psk, src, dst);
    match seal_packet(MsgType::Data, src, dst, &key, nonce12, payload) {
        Ok(bytes) => Ok(bytes),
        Err(EnvelopeError::Seal) => Err(ClientError::EncryptData),
        Err(EnvelopeError::Encode) => Err(ClientError::EncodeWire),
    }
}

/// Whether a result is what may come of sending a control message: a packet
/// that carries it, unless there was no nonce to be had.
pub open spec fn control_sent(
    r: Result<Outgoing, ClientError>,
    src: Seq<u8>,
    dst: Seq<u8>,
    node_key: Seq<u8>,
    ctrl: ControlView,
) -> bool {
    match r {
        Ok(out) => {
            &&& out.kind == OutKind::Control
            &&& carries(out.bytes@, MsgType::Control, src, dst, node_key, ctrl.encoding())
            &&& exists|nonce12: Seq<u8>|
                nonce12.len() == 12 && #[trigger] sealed_bytes(
                    MsgType::Control,
                    src,
                    dst,
                    node_key,
                    nonce12,
                    ctrl.encoding(),
                ) == Some(out.bytes@)
        },
        Err(e) => e == ClientError::NoNonce,
    }
}

/// Whether a result is what may come of sending a payload: a packet that
/// carries it, unless it is too long to seal or there was no nonce to be had.
pub open spec fn data_sent(
    r: Result<Outgoing, ClientError>,
    src: Seq<u8>,
    dst: Seq<u8>,
    network_psk: Seq<u8>,
    payload: Seq<u8>,
) -> bool {
    let key = e2e_key(network_psk, src, dst);
    match r {
        Ok(out) => {
            &&& out.kind == OutKind::Data
            &&& payload.len() <= MAX_PLAINTEXT_LEN
            &&& carries(out.bytes@, MsgType::Data, src, dst, key, payload)
            &&& exists|nonce12: Seq<u8>|
                nonce12.len() == 12 && #[trigger] sealed_bytes(
                    MsgType::Data,
                    src,
                    dst,
                    key,
                    nonce12,
                    payload,
                ) == Some(out.bytes@)
        },
        Err(e) => e == ClientError::NoNonce || (e == ClientError::EncryptData && payload.len()
            > MAX_PLAINTEXT_LEN),
    }
}

/// A control message for sending, sealed with a fresh nonce.
pub fn send_control(src: NodeId, dst: NodeId, node_key: &[u8; 32], ctrl: Control) -> (r: Result<
    Outgoing,
    ClientError,
>)
    ensures
        control_sent(r, src@, dst@, node_key@, ctrl@),
{
    let nonce: [u8; 12] = match random_nonce12() {
        Some(nonce) => nonce,
        None => return Err(ClientError::NoNonce),
    };
    match control_packet(src, dst, node_key, &ctrl, &nonce) {
        Ok(bytes) => Ok(Outgoing { kind: OutKind::Control, bytes }),
        Err(e) => Err(e),
    }
}

/// A payload for sending, sealed with a fresh nonce.
pub fn send_data(src: NodeId, dst: NodeId, network_psk: &[u8; 32], payload: &[u8]) -> (r: Result<
    Outgoing,
    ClientError,
>)
    ensures
        data_sent(r, src@, dst@, network_psk@, payload@),
{
    let nonce: [u8; 12] = match random_nonce12() {
        Some(nonce) => nonce,
        None => return Err(ClientError::NoNonce),
    };
    match data_packet(src, dst, network_psk, payload, &nonce) {
        Ok(bytes) => Ok(Outgoing { kind: OutKind::Data, bytes }),
        Err(e) => Err(e),
    }
}

/// Packets that wait, the oldest first.
#[derive(Debug)]
pub struct Waiting {
    packets: Vec<Vec<u8>>,
}

impl View for Waiting {
    type V = Seq<Seq<u8>>;

    closed spec fn view(&self) -> Seq<Seq<u8>> {
        contents(self.packets@)
    }
}

impl Waiting {
    /// No packets.
    fn new() -> (r: Self)
        ensures
            r@ == Seq::<Seq<u8>>::empty(),
    {
        let r = Waiting { packets: Vec::new() };
        assert(r@ =~= Seq::<Seq<u8>>::empty());
        r
    }

    /// Lets one more packet wait, behind the others.
    fn push(&mut self, pkt: Vec<u8>)
        ensures
            final(self)@ == old(self)@.push(pkt@),
    {
        self.packets.push(pkt);
        assert(self@ =~= old(self)@.push(pkt@));
    }

    /// How many packets wait.
    pub fn len(&self) -> (r: usize)
        ensures
            r == self@.len(),
    {
        self.packets.len()
    }

    /// The packet at a position.
    pub fn packet(&self, i: usize) -> (r: &Vec<u8>)
        requires
            i < self@.len(),
        ensures
            r@ == self@[i as int],
    {
        &self.packets[i]
    }
}

/// What a [`Client`] holds.
#[verifier::ext_equal]
pub struct ClientView {
    pub node_id: Seq<u8>,
    pub node_key: Seq<u8>,
    pub network_psk: Seq<u8>,
    /// Which node has an address, as far as the relay has said.
    pub node_by_ip: Map<Seq<u8>, Seq<u8>>,
    /// The packets that wait for an address.
    pub pending: Map<Seq<u8>, Seq<Seq<u8>>>,
    /// When the relay was last asked about an address.
    pub last_resolve: Map<Seq<u8>, u128>,
}

/// What is done about a packet out of the tunnel.
#[verifier::ext_equal]
pub enum TunReactionView {
    /// Nothing: it is too short for an IPv4 packet.
    Ignore,
    /// It is sent to the node that has its destination address.
    Send { dst: Seq<u8>, payload: Seq<u8> },
    /// It waits, or was dropped where too many wait already. The relay is asked
    /// who has the address, unless it was asked a moment ago.
    Wait { ip: Seq<u8>, dropped: bool, resolve: bool },
}

/// What a packet from the relay brings.
#[verifier::ext_equal]
pub enum InboundView {
    /// The node that has an address, and the packets that waited for that.
    Learned { peer: Seq<u8>, queued: Seq<Seq<u8>> },
    /// That nobody has an address.
    Unresolved { ip: Seq<u8> },
    /// Nothing that matters to a client.
    Ignored,
    /// A packet for the tunnel.
    Deliver { payload: Seq<u8> },
}

/// The destination address of an IPv4 packet.
pub open spec fn destination(pkt: Seq<u8>) -> Seq<u8> {
    pkt.subrange(16, 20)
}

impl ClientView {
    /// No queue is longer than it may be.
    pub open spec fn bounded(self) -> bool {
        forall|ip: Seq<u8>| #[trigger]
            self.pending.contains_key(ip) ==> self.pending[ip].len() <= MAX_PENDING_PER_IP
    }

    /// The packets that wait for an address.
    pub open spec fn queue(self, ip: Seq<u8>) -> Seq<Seq<u8>> {
        if self.pending.contains_key(ip) {
            self.pending[ip]
        } else {
            Seq::empty()
        }
    }

    /// Whether it is time to ask who has an address.
    pub open spec fn resolve_due(self, ip: Seq<u8>, now: u128) -> bool {
        self.last_resolve.contains_key(ip) ==> now - self.last_resolve[ip] >= RESOLVE_RETRY_NANOS
    }

    /// What is done about a packet out of the tunnel.
    pub open spec fn tun_reaction(self, pkt: Seq<u8>, now: u128) -> TunReactionView {
        let ip = destination(pkt);
        if pkt.len() < 20 {
            TunReactionView::Ignore
        } else if self.node_by_ip.contains_key(ip) {
            TunReactionView::Send { dst: self.node_by_ip[ip], payload: pkt }
        } else {
            TunReactionView::Wait {
                ip,
                dropped: self.queue(ip).len() >= MAX_PENDING_PER_IP,
                resolve: self.resolve_due(ip, now),
            }
        }
    }

    /// The client after a packet out of the tunnel.
    pub open spec fn after_tun(self, pkt: Seq<u8>, now: u128) -> ClientView {
        match self.tun_reaction(pkt, now) {
            TunReactionView::Wait { ip, dropped, resolve } => ClientView {
                pending: self.pending.insert(
                    ip,
                    if dropped {
                        self.queue(ip)
                    } else {
                        self.queue(ip).push(pkt)
                    },
                ),
                last_resolve: if resolve {
                    self.last_resolve.insert(ip, now)
                } else {
                    self.last_resolve
                },
                ..self
            },
            _ => self,
        }
    }

    /// What the bytes from the relay bring.
    pub open spec fn inbound(self, bytes: Seq<u8>) -> Result<InboundView, ClientError> {
        match decoded_wire(bytes) {
            None => Err(ClientError::DecodeWire),
            Some(pkt) => if pkt.v != WIRE_VERSION {
                Err(ClientError::WireVersion)
            } else if pkt.dst != self.node_id {
                Err(ClientError::NotForUs)
            } else if pkt.t == MsgType::Control {
                self.inbound_control(pkt)
            } else {
                self.inbound_data(pkt)
            },
        }
    }

    /// What a control packet to this client brings.
    pub open spec fn inbound_control(self, pkt: WireView) -> Result<InboundView, ClientError> {
        match payload_of(pkt, self.node_key) {
            None => Err(ClientError::DecryptControl),
            Some(inner) => match decoded_control(inner) {
                None => Err(ClientError::DecodeControl),
                Some(ControlView::ResolveOk { virtual_ip, node_id }) => Ok(
                    InboundView::Learned { peer: node_id, queued: self.queue(virtual_ip) },
                ),
                Some(ControlView::ResolveErr { virtual_ip }) => Ok(
                    InboundView::Unresolved { ip: virtual_ip },
                ),
                Some(_) => Ok(InboundView::Ignored),
            },
        }
    }

    /// What a data packet to this client brings.
    pub open spec fn inbound_data(self, pkt: WireView) -> Result<InboundView, ClientError> {
        match payload_of(pkt, e2e_key(self.network_psk, pkt.src, pkt.dst)) {
            None => Err(ClientError::DecryptData),
            Some(payload) => if payload.len() == 0 {
                Err(ClientError::EmptyPayload)
            } else {
                Ok(InboundView::Deliver { payload })
            },
        }
    }

    /// The control message that the bytes bring to this client, if they do.
    pub open spec fn control_in(self, bytes: Seq<u8>) -> Option<ControlView> {
        match decoded_wire(bytes) {
            Some(pkt) => if pkt.v == WIRE_VERSION && pkt.dst == self.node_id && pkt.t
                == MsgType::Control {
                match payload_of(pkt, self.node_key) {
                    Some(inner) => decoded_control(inner),
                    None => None,
                }
            } else {
                None
            },
            None => None,
        }
    }

    /// The client after the bytes from the relay. Only an authentic answer to
    /// the question who has an address changes it.
    pub open spec fn after_inbound(self, bytes: Seq<u8>) -> ClientView {
        match self.control_in(bytes) {
            Some(ControlView::ResolveOk { virtual_ip, node_id }) => ClientView {
                node_by_ip: self.node_by_ip.insert(virtual_ip, node_id),
                pending: self.pending.remove(virtual_ip),
                ..self
            },
            Some(ControlView::ResolveErr { virtual_ip }) => ClientView {
                pending: self.pending.remove(virtual_ip),
                ..self
            },
            _ => self,
        }
    }
}

/// What is done about a packet out of the tunnel.
#[derive(Debug)]
pub enum TunReaction {
    Ignore,
    Send { dst: NodeId, payload: Vec<u8> },
    Wait { ip: Ipv4AddrBytes, dropped: bool, resolve: bool },
}

impl View for TunReaction {
    type V = TunReactionView;

    open spec fn view(&self) -> TunReactionView {
        match self {
            TunReaction::Ignore => TunReactionView::Ignore,
            TunReaction::Send { dst, payload } => TunReactionView::Send {
                dst: dst@,
                payload: payload@,
            },
            TunReaction::Wait { ip, dropped, resolve } => TunReactionView::Wait {
                ip: ip@,
                dropped: *dropped,
                resolve: *resolve,
            },
        }
    }
}

/// What a packet from the relay brings.
#[derive(Debug)]
pub enum Inbound {
    Learned { peer: NodeId, queued: Waiting },
    Unresolved { ip: Ipv4AddrBytes },
    Ignored,
    Deliver { payload: Vec<u8> },
}

impl View for Inbound {
    type V = InboundView;

    open spec fn view(&self) -> InboundView {
        match self {
            Inbound::Learned { peer, queued } => InboundView::Learned {
                peer: peer@,
                queued: queued@,
            },
            Inbound::Unresolved { ip } => InboundView::Unresolved { ip: ip@ },
            Inbound::Ignored => InboundView::Ignored,
            Inbound::Deliver { payload } => InboundView::Deliver { payload: payload@ },
        }
    }
}

/// Whether a result is the expected one.
pub open spec fn inbound_is(
    r: Result<Inbound, ClientError>,
    expected: Result<InboundView, ClientError>,
) -> bool {
    match (r, expected) {
        (Ok(inbound), Ok(view)) => inbound@ == view,
        (Err(e), Err(f)) => e == f,
        _ => false,
    }
}

/// A client: who it is, and what it knows of the others.
pub struct Client {
    node_id: NodeId,
    node_key: [u8; 32],
    network_psk: [u8; 32],
    node_by_ip: ByteMap<4, NodeId>,
    pending: ByteMap<4, Waiting>,
    last_resolve: ByteMap<4, u128>,
}

impl View for Client {
    type V = ClientView;

    closed spec fn view(&self) -> ClientView {
        ClientView {
            node_id: self.node_id@,
            node_key: self.node_key@,
            network_psk: self.network_psk@,
            node_by_ip: self.node_by_ip@,
            pending: self.pending@,
            last_resolve: self.last_resolve@,
        }
    }
}

impl Client {
    /// A client that knows of nobody yet.
    pub fn new(node_id: NodeId, node_key: [u8; 32], network_psk: [u8; 32]) -> (r: Self)
        ensures
            r@ == (ClientView {
                node_id: node_id@,
                node_key: node_key@,
                network_psk: network_psk@,
                node_by_ip: Map::empty(),
                pending: Map::empty(),
                last_resolve: Map::empty(),
            }),
            r@.bounded(),
    {
        Client {
            node_id,
            node_key,
            network_psk,
            node_by_ip: ByteMap::new(),
            pending: ByteMap::new(),
            last_resolve: ByteMap::new(),
        }
    }

    /// Whether it is time to ask who has an address.
    fn is_resolve_due(&self, ip: &Ipv4AddrBytes, now: u128) -> (r: bool)
        ensures
            r == self@.resolve_due(ip@, now),
    {
        match self.last_resolve.get(&ip.0) {
            Some(t) => now >= *t && now - *t >= RESOLVE_RETRY_NANOS,
            None => true,
        }
    }

    /// Lets a packet wait for an address, if there is room. Tells whether there
    /// was none.
    fn enqueue(&mut self, ip: &Ipv4AddrBytes, pkt: Vec<u8>) -> (dropped: bool)
        ensures
            dropped == (old(self)@.queue(ip@).len() >= MAX_PENDING_PER_IP),
            final(self)@ == (ClientView {
                pending: old(self)@.pending.insert(
                    ip@,
                    if dropped {
                        old(self)@.queue(ip@)
                    } else {
                        old(self)@.queue(ip@).push(pkt@)
                    },
                ),
                ..old(self)@
            }),
    {
        let mut queue = match self.pending.remove(&ip.0) {
            Some(queue) => queue,
            None => Waiting::new(),
        };
        let dropped = queue.len() >= MAX_PENDING_PER_IP;
        if !dropped {
            queue.push(pkt);
        }
        self.pending.insert(&ip.0, queue);
        assert(self@.pending =~= old(self)@.pending.insert(ip@, queue@));
        dropped
    }

    /// Takes a packet out of the tunnel, at a time in nanoseconds.
    pub fn on_tun_packet(&mut self, pkt: Vec<u8>, now: u128) -> (r: TunReaction)
        ensures
            r@ == old(self)@.tun_reaction(pkt@, now),
            final(self)@ == old(self)@.after_tun(pkt@, now),
            old(self)@.bounded() ==> final(self)@.bounded(),
    {
        // Minimal IPv4 parsing: destination at bytes 16..20.
        if pkt.len() < 20 {
            return TunReaction::Ignore;
        }
        let ip = Ipv4AddrBytes(to_array(vstd::slice::slice_subrange(pkt.as_slice(), 16, 20)));
        assert(ip@ =~= destination(pkt@));
        match self.node_by_ip.get(&ip.0) {
            Some(dst) => {
                return TunReaction::Send { dst: *dst, payload: pkt };
            },
            None => {},
        }
        let resolve = self.is_resolve_due(&ip, now);
        let dropped = self.enqueue(&ip, pkt);
        if resolve {
            self.last_resolve.insert(&ip.0, now);
        }
        TunReaction::Wait { ip, dropped, resolve }
    }

    /// Takes the bytes of a packet from the relay.
    pub fn on_inbound(&mut self, bytes: &[u8]) -> (r: Result<Inbound, ClientError>)
        ensures
            inbound_is(r, old(self)@.inbound(bytes@)),
            final(self)@ == old(self)@.after_inbound(bytes@),
            old(self)@.bounded() ==> final(self)@.bounded(),
    {
        let pkt = match decode_wire(bytes) {
            Ok(pkt) => pkt,
            Err(_) => return Err(ClientError::DecodeWire),
        };
        if pkt.v != WIRE_VERSION {
            return Err(ClientError::WireVersion);
        }
        if pkt.dst != self.node_id {
            return Err(ClientError::NotForUs);
        }
        match pkt.t {
            MsgType::Control => {
                let inner = match open_packet(&pkt, &self.node_key) {
                    Ok(inner) => inner,
                    Err(_) => return Err(ClientError::DecryptControl),
                };
                match decode_control(inner.as_slice()) {
                    Err(_) => Err(ClientError::DecodeControl),
                    Ok(Control::ResolveOk { virtual_ip, node_id }) => {
                        self.node_by_ip.insert(&virtual_ip.0, node_id);
                        let queued = match self.pending.remove(&virtual_ip.0) {
                            Some(queued) => queued,
                            None => Waiting::new(),
                        };
                        Ok(Inbound::Learned { peer: node_id, queued })
                    },
                    Ok(Control::ResolveErr { virtual_ip }) => {
                        self.pending.remove(&virtual_ip.0);
                        Ok(Inbound::Unresolved { ip: virtual_ip })
                    },
                    Ok(Control::Keepalive) => Ok(Inbound::Ignored),
                    Ok(Control::Register { .. }) => Ok(Inbound::Ignored),
                    Ok(Control::Resolve { .. }) => Ok(Inbound::Ignored),
                }
            },
            MsgType::Data => {
                let key = derive_e2e_key(&self.network_psk, pkt.src, pkt.dst);
                match open_packet(&pkt, &key) {
                    Ok(payload) => if payload.is_empty() {
                        Err(ClientError::EmptyPayload)
                    } else {
                        Ok(Inbound::Deliver { payload })
                    },
                    Err(_) => Err(ClientError::DecryptData),
                }
            },
        }
    }
}

/// What is to be sent for a packet out of the tunnel.
#[derive(Debug)]
pub enum TunOutput {
    /// Nothing.
    Nothing,
    /// The packet itself.
    Data(Result<Outgoing, ClientError>),
    /// The question who has the address, if it is asked.
    Wait { ip: Ipv4AddrBytes, dropped: bool, resolve: Option<Result<Outgoing, ClientError>> },
}

/// What is to be done about a packet from the relay.
#[derive(Debug)]
pub enum InboundOutput {
    /// Nothing.
    Nothing,
    /// Note that nobody has an address.
    Unresolved { ip: Ipv4AddrBytes },
    /// Hand a packet to the tunnel.
    Deliver { payload: Vec<u8> },
    /// Send the packets that waited, in order.
    Flush { out: Vec<Result<Outgoing, ClientError>> },
}

impl ClientView {
    /// Whether `out` is what may be sent for a packet out of the tunnel.
    pub open spec fn tun_output(self, pkt: Seq<u8>, now: u128, out: TunOutput) -> bool {
        match self.tun_reaction(pkt, now) {
            TunReactionView::Ignore => out is Nothing,
            TunReactionView::Send { dst, payload } => match out {
                TunOutput::Data(r) => data_sent(r, self.node_id, dst, self.network_psk, payload),
                _ => false,
            },
            TunReactionView::Wait { ip: wanted, dropped: no_room, resolve: ask } => match out {
                TunOutput::Wait { ip, dropped, resolve } => {
                    &&& ip@ == wanted
                    &&& dropped == no_room
                    &&& resolve is Some == ask
                    &&& resolve matches Some(r) ==> control_sent(
                        r,
                        self.node_id,
                        nil_bytes(),
                        self.node_key,
                        ControlView::Resolve { virtual_ip: wanted },
                    )
                },
                _ => false,
            },
        }
    }

    /// Whether `r` is what may come of the bytes from the relay.
    pub open spec fn inbound_output(
        self,
        bytes: Seq<u8>,
        r: Result<InboundOutput, ClientError>,
    ) -> bool {
        match (self.inbound(bytes), r) {
            (Err(e), Err(f)) => e == f,
            (Ok(InboundView::Ignored), Ok(out)) => out is Nothing,
            (Ok(InboundView::Unresolved { ip: wanted }), Ok(InboundOutput::Unresolved { ip })) => {
                ip@ == wanted
            },
            (Ok(InboundView::Deliver { payload: sent }), Ok(InboundOutput::Deliver { payload })) => {
                payload@ == sent
            },
            (Ok(InboundView::Learned { peer, queued }), Ok(InboundOutput::Flush { out })) => {
                &&& out@.len() == queued.len()
                &&& forall|i: int|
                    0 <= i < queued.len() ==> data_sent(
                        #[trigger] out@[i],
                        self.node_id,
                        peer,
                        self.network_psk,
                        queued[i],
                    )
            },
            _ => false,
        }
    }
}

impl Client {
    /// The message that binds this client to its address at the relay.
    pub fn register(&self, virt_ip: Ipv4AddrBytes) -> (r: Result<Outgoing, ClientError>)
        ensures
            control_sent(
                r,
                self@.node_id,
                nil_bytes(),
                self@.node_key,
                ControlView::Register { virtual_ip: virt_ip@ },
            ),
    {
        send_control(
            self.node_id,
            NodeId::nil(),
            &self.node_key,
            Control::Register { virtual_ip: virt_ip },
        )
    }

    /// The message that keeps this client's binding at the relay alive.
    pub fn keepalive(&self) -> (r: Result<Outgoing, ClientError>)
        ensures
            control_sent(
                r,
                self@.node_id,
                nil_bytes(),
                self@.node_key,
                ControlView::Keepalive,
            ),
    {
        send_control(self.node_id, NodeId::nil(), &self.node_key, Control::Keepalive)
    }

    /// Handles a packet out of the tunnel, at a time in nanoseconds.
    pub fn handle_tun(&mut self, pkt: Vec<u8>, now: u128) -> (r: TunOutput)
        ensures
            old(self)@.tun_output(pkt@, now, r),
            final(self)@ == old(self)@.after_tun(pkt@, now),
            old(self)@.bounded() ==> final(self)@.bounded(),
    {
        match self.on_tun_packet(pkt, now) {
            TunReaction::Ignore => TunOutput::Nothing,
            TunReaction::Send { dst, payload } => TunOutput::Data(
                send_data(self.node_id, dst, &self.network_psk, payload.as_slice()),
            ),
            TunReaction::Wait { ip, dropped, resolve } => {
                let asked = if resolve {
                    Some(
                        send_control(
                            self.node_id,
                            NodeId::nil(),
                            &self.node_key,
                            Control::Resolve { virtual_ip: ip },
                        ),
                    )
                } else {
                    None
                };
                TunOutput::Wait { ip, dropped, resolve: asked }
            },
        }
    }

    /// The packets that waited, for sending to the node that has their address.
    fn flush(&self, peer: NodeId, queued: &Waiting) -> (out: Vec<Result<Outgoing, ClientError>>)
        ensures
            out@.len() == queued@.len(),
            forall|i: int|
                0 <= i < queued@.len() ==> data_sent(
                    #[trigger] out@[i],
                    self@.node_id,
                    peer@,
                    self@.network_psk,
                    queued@[i],
                ),
    {
        let mut out: Vec<Result<Outgoing, ClientError>> = Vec::new();
        let mut i: usize = 0;
        while i < queued.len()
            invariant
                i <= queued@.len(),
                out@.len() == i,
                forall|j: int|
                    0 <= j < i ==> data_sent(
                        #[trigger] out@[j],
                        self@.node_id,
                        peer@,
                        self@.network_psk,
                        queued@[j],
                    ),
            decreases queued@.len() - i,
        {
            out.push(
                send_data(self.node_id, peer, &self.network_psk, queued.packet(i).as_slice()),
            );
            i += 1;
        }
        out
    }

    /// Handles the bytes of a packet from the relay.
    pub fn handle_inbound(&mut self, bytes: &[u8]) -> (r: Result<InboundOutput, ClientError>)
        ensures
            old(self)@.inbound_output(bytes@, r),
            final(self)@ == old(self)@.after_inbound(bytes@),
            old(self)@.bounded() ==> final(self)@.bounded(),
    {
        match self.on_inbound(bytes) {
            Ok(Inbound::Ignored) => Ok(InboundOutput::Nothing),
            Ok(Inbound::Unresolved { ip }) => Ok(InboundOutput::Unresolved { ip }),
            Ok(Inbound::Deliver { payload }) => Ok(InboundOutput::Deliver { payload }),
            Ok(Inbound::Learned { peer, queued }) => Ok(
                InboundOutput::Flush { out: self.flush(peer, &queued) },
            ),
            Err(e) => Err(e),
        }
    }
}

} // verus!
