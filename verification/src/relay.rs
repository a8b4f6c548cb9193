//! What the relay decides: which packets it takes, where a node is reached, what
//! it answers, and what it forwards to whom.
//!
//! The relay never opens data packets. It learns where a node is from control
//! packets that open with the node's key.

use std::collections::HashSet;

use vstd::prelude::*;

use crate::batch::SendOutcome;
use crate::crypto::random_nonce12;
use crate::endpoint::{Endpoint, UdpAddr};
use crate::envelope::{carries, open_packet, payload_of, seal_packet, sealed_bytes};
use crate::envelope::EnvelopeError;
use crate::registry::{PeerInfo, PeerView, Registry, RegistryView};
use crate::table::ByteMap;
use crate::text::{own, same_text};
use crate::transport::{law_default_transport, setting, transport_word, word, UnsupportedTransport};
use crate::wire::{decode_control, decode_wire, decoded_control, decoded_wire, nil_bytes};
use crate::wire::{encode_control, Control, ControlView, Ipv4AddrBytes, MsgType, NodeId};
use crate::wire::{WirePacket, WireView, WIRE_VERSION};

verus! {

broadcast use vstd::std_specs::hash::group_hash_axioms;

/// What the relay listens on.
#[derive(Clone, Copy, Debug, PartialEq, Eq, Structural)]
pub enum Transport {
    Udp,
    Tcp,
    Both,
}

impl Transport {
    /// The transport that a configuration names: "udp", "tcp" or "both",
    /// whatever the case and the white space around it, and UDP where it names none.
    pub fn parse(v: Option<&str>) -> (r: Result<Self, UnsupportedTransport>)
        ensures
            match r {
                Ok(Transport::Udp) => transport_word(setting(v)) == "udp"@,
                Ok(Transport::Tcp) => transport_word(setting(v)) == "tcp"@,
                Ok(Transport::Both) => transport_word(setting(v)) == "both"@,
                Err(e) => {
                    &&& e.word@ == transport_word(setting(v))
                    &&& e.word@ != "udp"@
                    &&& e.word@ != "tcp"@
                    &&& e.word@ != "both"@
                },
            },
            v is None ==> r == Ok::<_, UnsupportedTransport>(Transport::Udp),
    {
        let word = word(v);
        proof {
            law_default_transport();
            reveal_strlit("udp");
            reveal_strlit("tcp");
            reveal_strlit("both");
        }
        if same_text(word.as_str(), "udp") {
            Ok(Transport::Udp)
        } else if same_text(word.as_str(), "tcp") {
            Ok(Transport::Tcp)
        } else if same_text(word.as_str(), "both") {
            Ok(Transport::Both)
        } else {
            Err(UnsupportedTransport { word })
        }
    }

    /// Whether datagrams are sent and received.
    pub open spec fn has_udp(self) -> bool {
        self != Transport::Tcp
    }

    /// Whether connections are accepted.
    pub open spec fn has_tcp(self) -> bool {
        self != Transport::Udp
    }
}

/// Which plane a frame to a connection belongs to.
#[derive(Clone, Copy, Debug, PartialEq, Eq, Structural)]
pub enum TxKind {
    Control,
    Data,
}

/// Why the relay refuses a packet, or cannot deliver one.
#[derive(Clone, Copy, Debug, PartialEq, Eq, Structural)]
pub enum RelayError {
    DecodeWire,
    WireVersion,
    ControlDst,
    UnknownSrc,
    DecryptControl,
    DecodeControl,
    RegisterIpMismatch,
    UnexpectedResolve,
    EncodeControl,
    NoNonce,
    EncryptControl,
    EncodeWire,
    DataDst,
    UnknownDst,
    NoSrcEndpoint,
    SrcEndpointMismatch,
    NoDstEndpoint,
    TcpNotEnabled,
    UdpNotEnabled,
    NoWriter,
    ControlSend,
    WriterClosed,
}

impl RelayError {
    /// The error in words.
    pub open spec fn spec_message(self) -> Seq<char> {
        match self {
            RelayError::DecodeWire => "decode wire"@,
            RelayError::WireVersion => "unsupported wire version"@,
            RelayError::ControlDst => "control packets must have nil dst"@,
            RelayError::UnknownSrc => "unknown src node"@,
            RelayError::DecryptControl => "decrypt control"@,
            RelayError::DecodeControl => "decode control"@,
            RelayError::RegisterIpMismatch => "register ip mismatch"@,
            RelayError::UnexpectedResolve => "unexpected resolve response from client"@,
            RelayError::EncodeControl => "encode control"@,
            RelayError::NoNonce => "getrandom failed"@,
            RelayError::EncryptControl => "encrypt control"@,
            RelayError::EncodeWire => "encode wire"@,
            RelayError::DataDst => "data requires non-nil dst"@,
            RelayError::UnknownDst => "unknown dst node"@,
            RelayError::NoSrcEndpoint => "no endpoint for src (has it registered yet?)"@,
            RelayError::SrcEndpointMismatch => "src endpoint mismatch (spoof?)"@,
            RelayError::NoDstEndpoint => "no endpoint for dst (has it registered yet?)"@,
            RelayError::TcpNotEnabled => "tcp not enabled"@,
            RelayError::UdpNotEnabled => "udp not enabled"@,
            RelayError::NoWriter => "no writer for conn"@,
            RelayError::ControlSend => "tcp control send timeout/closed"@,
            RelayError::WriterClosed => "tcp writer closed"@,
        }
    }

    /// The error in words.
    pub fn message(&self) -> (r: String)
        ensures
            r@ == self.spec_message(),
    {
        own(
            match self {
                RelayError::DecodeWire => "decode wire",
                RelayError::WireVersion => "unsupported wire version",
                RelayError::ControlDst => "control packets must have nil dst",
                RelayError::UnknownSrc => "unknown src node",
                RelayError::DecryptControl => "decrypt control",
                RelayError::DecodeControl => "decode control",
                RelayError::RegisterIpMismatch => "register ip mismatch",
                RelayError::UnexpectedResolve => "unexpected resolve response from client",
                RelayError::EncodeControl => "encode control",
                RelayError::NoNonce => "getrandom failed",
                RelayError::EncryptControl => "encrypt control",
                RelayError::EncodeWire => "encode wire",
                RelayError::DataDst => "data requires non-nil dst",
                RelayError::UnknownDst => "unknown dst node",
                RelayError::NoSrcEndpoint => "no endpoint for src (has it registered yet?)",
                RelayError::SrcEndpointMismatch => "src endpoint mismatch (spoof?)",
                RelayError::NoDstEndpoint => "no endpoint for dst (has it registered yet?)",
                RelayError::TcpNotEnabled => "tcp not enabled",
                RelayError::UdpNotEnabled => "udp not enabled",
                RelayError::NoWriter => "no writer for conn",
                RelayError::ControlSend => "tcp control send timeout/closed",
                RelayError::WriterClosed => "tcp writer closed",
            },
        )
    }
}

/// What a [`Relay`] holds.
#[verifier::ext_equal]
pub struct RelayView {
    pub registry: RegistryView,
    /// Where each node was last heard from.
    pub endpoints: Map<Seq<u8>, Endpoint>,
    /// The connections that can be written to.
    pub writers: Set<u64>,
    pub transport: Transport,
}

/// What the relay does about a packet that it takes.
#[verifier::ext_equal]
pub enum ReactionView {
    /// Nothing.
    Quiet,
    /// Note that a node has registered its address.
    Registered { node: Seq<u8>, ip: Seq<u8> },
    /// Answer the sender, sealed with its key.
    Reply { node: Seq<u8>, key: Seq<u8>, msg: ControlView },
    /// Hand the packet on as it is.
    Forward { to: Endpoint },
}

/// How a packet is judged: what becomes of the endpoints, and what is done.
#[verifier::ext_equal]
pub struct Judgment {
    pub endpoints: Map<Seq<u8>, Endpoint>,
    pub outcome: Result<ReactionView, RelayError>,
}

/// What is said about who has an address.
pub open spec fn resolve_answer(registry: RegistryView, ip: Seq<u8>) -> ControlView {
    if registry.node_by_ip.contains_key(ip) {
        ControlView::ResolveOk { virtual_ip: ip, node_id: registry.node_by_ip[ip] }
    } else {
        ControlView::ResolveErr { virtual_ip: ip }
    }
}

/// What a control message from a node asks for.
pub open spec fn control_reaction(
    registry: RegistryView,
    src: Seq<u8>,
    peer: PeerView,
    msg: ControlView,
) -> Result<ReactionView, RelayError> {
    match msg {
        ControlView::Register { virtual_ip } => if virtual_ip != peer.virt_ip {
            Err(RelayError::RegisterIpMismatch)
        } else {
            Ok(ReactionView::Registered { node: peer.node, ip: virtual_ip })
        },
        ControlView::Keepalive => Ok(ReactionView::Quiet),
        ControlView::Resolve { virtual_ip } => Ok(
            ReactionView::Reply {
                node: src,
                key: peer.key,
                msg: resolve_answer(registry, virtual_ip),
            },
        ),
        ControlView::ResolveOk { .. } | ControlView::ResolveErr { .. } => Err(
            RelayError::UnexpectedResolve,
        ),
    }
}

impl RelayView {
    /// How a control packet is judged. Only a packet that opens with its node's
    /// key binds the node to where it came from: a datagram whatever it holds, a
    /// frame over a connection if it holds a control message.
    pub open spec fn judged_control(self, from: Endpoint, pkt: WireView) -> Judgment {
        let refused = |e: RelayError| Judgment { endpoints: self.endpoints, outcome: Err(e) };
        if pkt.dst != nil_bytes() {
            refused(RelayError::ControlDst)
        } else if !self.registry.peers.contains_key(pkt.src) {
            refused(RelayError::UnknownSrc)
        } else {
            let peer = self.registry.peers[pkt.src];
            let bound = self.endpoints.insert(pkt.src, from);
            match payload_of(pkt, peer.key) {
                None => refused(RelayError::DecryptControl),
                Some(inner) => match decoded_control(inner) {
                    None => Judgment {
                        endpoints: if from is Udp {
                            bound
                        } else {
                            self.endpoints
                        },
                        outcome: Err(RelayError::DecodeControl),
                    },
                    Some(msg) => Judgment {
                        endpoints: bound,
                        outcome: control_reaction(self.registry, pkt.src, peer, msg),
                    },
                },
            }
        }
    }

    /// How a data packet is judged, by its header alone.
    pub open spec fn judged_data(self, from: Endpoint, pkt: WireView) -> Result<
        ReactionView,
        RelayError,
    > {
        if pkt.dst == nil_bytes() {
            Err(RelayError::DataDst)
        } else if !self.registry.peers.contains_key(pkt.src) {
            Err(RelayError::UnknownSrc)
        } else if !self.registry.peers.contains_key(pkt.dst) {
            Err(RelayError::UnknownDst)
        } else if !self.endpoints.contains_key(pkt.src) {
            Err(RelayError::NoSrcEndpoint)
        } else if self.endpoints[pkt.src] != from {
            Err(RelayError::SrcEndpointMismatch)
        } else if !self.endpoints.contains_key(pkt.dst) {
            Err(RelayError::NoDstEndpoint)
        } else {
            Ok(ReactionView::Forward { to: self.endpoints[pkt.dst] })
        }
    }

    /// How the bytes that came from an endpoint are judged.
    pub open spec fn judged(self, from: Endpoint, bytes: Seq<u8>) -> Judgment {
        match decoded_wire(bytes) {
            None => Judgment { endpoints: self.endpoints, outcome: Err(RelayError::DecodeWire) },
            Some(pkt) => if pkt.v != WIRE_VERSION {
                Judgment { endpoints: self.endpoints, outcome: Err(RelayError::WireVersion) }
            } else if pkt.t == MsgType::Control {
                self.judged_control(from, pkt)
            } else {
                Judgment { endpoints: self.endpoints, outcome: self.judged_data(from, pkt) }
            },
        }
    }

    /// Whether an endpoint can be sent to now.
    pub open spec fn deliverable(self, to: Endpoint) -> Result<(), RelayError> {
        match to {
            Endpoint::Udp(_) => if self.transport.has_udp() {
                Ok(())
            } else {
                Err(RelayError::UdpNotEnabled)
            },
            Endpoint::Tcp(conn_id) => if !self.transport.has_tcp() {
                Err(RelayError::TcpNotEnabled)
            } else if !self.writers.contains(conn_id) {
                Err(RelayError::NoWriter)
            } else {
                Ok(())
            },
        }
    }
}

/// What the relay does about a packet that it takes.
#[derive(Debug)]
pub enum Reaction {
    /// Nothing.
    Quiet,
    /// Note that a node has registered its address.
    Registered { node: NodeId, ip: Ipv4AddrBytes },
    /// Answer the sender, sealed with its key.
    Reply { node: NodeId, key: [u8; 32], msg: Control },
    /// Hand the packet on as it is.
    Forward { to: Endpoint },
}

impl View for Reaction {
    type V = ReactionView;

    open spec fn view(&self) -> ReactionView {
        match self {
            Reaction::Quiet => ReactionView::Quiet,
            Reaction::Registered { node, ip } => ReactionView::Registered { node: node@, ip: ip@ },
            Reaction::Reply { node, key, msg } => ReactionView::Reply {
                node: node@,
                key: key@,
                msg: msg@,
            },
            Reaction::Forward { to } => ReactionView::Forward { to: *to },
        }
    }
}

/// Whether a result is the expected one.
pub open spec fn reaction_is(
    r: Result<Reaction, RelayError>,
    expected: Result<ReactionView, RelayError>,
) -> bool {
    match (r, expected) {
        (Ok(reaction), Ok(view)) => reaction@ == view,
        (Err(e), Err(f)) => e == f,
        _ => false,
    }
}

/// The relay: the nodes it serves, where they are, and whom it can write to.
pub struct Relay {
    registry: Registry,
    endpoints: ByteMap<16, Endpoint>,
    writers: HashSet<u64>,
    transport: Transport,
}

impl View for Relay {
    type V = RelayView;

    closed spec fn view(&self) -> RelayView {
        RelayView {
            registry: self.registry@,
            endpoints: self.endpoints@,
            writers: self.writers@,
            transport: self.transport,
        }
    }
}

impl Relay {
    /// A relay that has heard from nobody yet.
    pub fn new(registry: Registry, transport: Transport) -> (r: Self)
        ensures
            r@ == (RelayView {
                registry: registry@,
                endpoints: Map::empty(),
                writers: Set::empty(),
                transport,
            }),
    {
        Relay { registry, endpoints: ByteMap::new(), writers: HashSet::new(), transport }
    }

    /// What is said about who has an address.
    fn answer_resolve(&self, ip: Ipv4AddrBytes) -> (r: Control)
        ensures
            r@ == resolve_answer(self@.registry, ip@),
    {
        match self.registry.node_at(&ip) {
            Some(node_id) => Control::ResolveOk { virtual_ip: ip, node_id },
            None => Control::ResolveErr { virtual_ip: ip },
        }
    }

    /// What a control message from a node asks for.
    fn react_to_control(&self, src: NodeId, peer: PeerInfo, msg: Control) -> (r: Result<
        Reaction,
        RelayError,
    >)
        ensures
            reaction_is(r, control_reaction(self@.registry, src@, peer@, msg@)),
    {
        match msg {
            Control::Register { virtual_ip } => {
                if virtual_ip != peer.virt_ip {
                    return Err(RelayError::RegisterIpMismatch);
                }
                Ok(Reaction::Registered { node: peer.node, ip: virtual_ip })
            },
            Control::Keepalive => Ok(Reaction::Quiet),
            Control::Resolve { virtual_ip } => Ok(
                Reaction::Reply { node: src, key: peer.key, msg: self.answer_resolve(virtual_ip) },
            ),
            Control::ResolveOk { .. } => Err(RelayError::UnexpectedResolve),
            Control::ResolveErr { .. } => Err(RelayError::UnexpectedResolve),
        }
    }

    /// Judges a control packet, and binds its node where it is authentic.
    fn judge_control(&mut self, from: Endpoint, pkt: &WirePacket) -> (r: Result<
        Reaction,
        RelayError,
    >)
        ensures
            final(self)@ == (RelayView {
                endpoints: old(self)@.judged_control(from, pkt@).endpoints,
                ..old(self)@
            }),
            reaction_is(r, old(self)@.judged_control(from, pkt@).outcome),
    {
        if !pkt.dst.is_nil() {
            return Err(RelayError::ControlDst);
        }
        let peer: PeerInfo = match self.registry.peer(&pkt.src) {
            Some(peer) => *peer,
            None => return Err(RelayError::UnknownSrc),
        };
        let inner = match open_packet(pkt, &peer.key) {
            Ok(inner) => inner,
            Err(_) => return Err(RelayError::DecryptControl),
        };
        // Only bind endpoints on authenticated control-plane packets.
        match from {
            Endpoint::Udp(_) => {
                self.endpoints.insert(&pkt.src.0, from);
            },
            Endpoint::Tcp(_) => {},
        }
        let msg = match decode_control(inner.as_slice()) {
            Ok(msg) => msg,
            Err(_) => return Err(RelayError::DecodeControl),
        };
        // A connection binds once the packet also turned out to hold a message.
        match from {
            Endpoint::Udp(_) => {},
            Endpoint::Tcp(_) => {
                self.endpoints.insert(&pkt.src.0, from);
            },
        }
        self.react_to_control(pkt.src, peer, msg)
    }

    /// Judges a data packet, by its header alone.
    fn judge_data(&self, from: Endpoint, pkt: &WirePacket) -> (r: Result<Reaction, RelayError>)
        ensures
            reaction_is(r, self@.judged_data(from, pkt@)),
    {
        if pkt.dst.is_nil() {
            return Err(RelayError::DataDst);
        }
        if self.registry.peer(&pkt.src).is_none() {
            return Err(RelayError::UnknownSrc);
        }
        if self.registry.peer(&pkt.dst).is_none() {
            return Err(RelayError::UnknownDst);
        }
        let expected_from: Endpoint = match self.endpoints.get(&pkt.src.0) {
            Some(endpoint) => *endpoint,
            None => return Err(RelayError::NoSrcEndpoint),
        };
        if expected_from != from {
            return Err(RelayError::SrcEndpointMismatch);
        }
        // Forward opaquely; relay never decrypts MsgType::Data.
        match self.endpoints.get(&pkt.dst.0) {
            Some(to) => Ok(Reaction::Forward { to: *to }),
            None => Err(RelayError::NoDstEndpoint),
        }
    }

    /// Judges the bytes that came from an endpoint.
    pub fn judge(&mut self, from: Endpoint, bytes: &[u8]) -> (r: Result<Reaction, RelayError>)
        ensures
            final(self)@ == (RelayView {
                endpoints: old(self)@.judged(from, bytes@).endpoints,
                ..old(self)@
            }),
            reaction_is(r, old(self)@.judged(from, bytes@).outcome),
    {
        let pkt = match decode_wire(bytes) {
            Ok(pkt) => pkt,
            Err(_) => return Err(RelayError::DecodeWire),
        };
        if pkt.v != WIRE_VERSION {
            return Err(RelayError::WireVersion);
        }
        match pkt.t {
            MsgType::Control => self.judge_control(from, &pkt),
            MsgType::Data => self.judge_data(from, &pkt),
        }
    }
}

/// Something to send: where to, on which plane, and what.
#[derive(Debug)]
pub struct Delivery {
    pub to: Endpoint,
    pub kind: TxKind,
    pub bytes: Vec<u8>,
}

/// What is to be done after a packet.
#[derive(Debug)]
pub enum Output {
    /// Nothing.
    Nothing,
    /// Note that a node has registered its address.
    Registered { node: NodeId, ip: Ipv4AddrBytes },
    /// Send something.
    Send(Delivery),
}

/// What an [`Output`] says.
#[verifier::ext_equal]
pub enum OutputView {
    Nothing,
    Registered { node: Seq<u8>, ip: Seq<u8> },
    Send { to: Endpoint, kind: TxKind, bytes: Seq<u8> },
}

impl View for Output {
    type V = OutputView;

    open spec fn view(&self) -> OutputView {
        match self {
            Output::Nothing => OutputView::Nothing,
            Output::Registered { node, ip } => OutputView::Registered { node: node@, ip: ip@ },
            Output::Send(d) => OutputView::Send { to: d.to, kind: d.kind, bytes: d.bytes@ },
        }
    }
}

/// Whether a result is the expected one.
pub open spec fn output_is(
    r: Result<Output, RelayError>,
    expected: Result<OutputView, RelayError>,
) -> bool {
    match (r, expected) {
        (Ok(output), Ok(view)) => output@ == view,
        (Err(e), Err(f)) => e == f,
        _ => false,
    }
}

impl RelayView {
    /// What is sent where `bytes` are to go to an endpoint.
    pub open spec fn sent(self, to: Endpoint, kind: TxKind, bytes: Seq<u8>) -> Result<
        OutputView,
        RelayError,
    > {
        match self.deliverable(to) {
            Ok(()) => Ok(OutputView::Send { to, kind, bytes }),
            Err(e) => Err(e),
        }
    }

    /// What is sent as an answer to a node, sealed with its key and a nonce.
    /// The answer comes from the nil id.
    pub open spec fn replied(
        self,
        to: Endpoint,
        node: Seq<u8>,
        key: Seq<u8>,
        msg: ControlView,
        nonce12: Seq<u8>,
    ) -> Result<OutputView, RelayError> {
        match sealed_bytes(MsgType::Control, nil_bytes(), node, key, nonce12, msg.encoding()) {
            Some(bytes) => self.sent(to, TxKind::Control, bytes),
            None => Err(RelayError::EncryptControl),
        }
    }

    /// What may come of the bytes that came from an endpoint. An answer is
    /// sealed with a nonce that nobody knows beforehand, if there is one to be had.
    /// It is then sent wherever the node that asked can be sent to, and that node
    /// can read it.
    pub open spec fn handled(
        self,
        from: Endpoint,
        bytes: Seq<u8>,
        r: Result<Output, RelayError>,
    ) -> bool {
        match self.judged(from, bytes).outcome {
            Err(e) => output_is(r, Err(e)),
            Ok(ReactionView::Quiet) => output_is(r, Ok(OutputView::Nothing)),
            Ok(ReactionView::Registered { node, ip }) => output_is(
                r,
                Ok(OutputView::Registered { node, ip }),
            ),
            Ok(ReactionView::Forward { to }) => output_is(
                r,
                self.sent(to, TxKind::Data, bytes),
            ),
            Ok(ReactionView::Reply { node, key, msg }) => {
                ||| output_is(r, Err(RelayError::NoNonce))
                ||| {
                    &&& exists|nonce12: Seq<u8>|
                        nonce12.len() == 12 && output_is(
                            r,
                            #[trigger] self.replied(from, node, key, msg, nonce12),
                        )
                    &&& r is Ok <==> self.deliverable(from) is Ok
                    &&& r matches Ok(Output::Send(d)) ==> brings(d.bytes@, node, key, msg)
                }
            },
        }
    }
}

/// Whether `bytes` are a packet that brings a control message from the relay to
/// a node which has the key.
pub open spec fn brings(bytes: Seq<u8>, node: Seq<u8>, key: Seq<u8>, msg: ControlView) -> bool {
    &&& carries(bytes, MsgType::Control, nil_bytes(), node, key, msg.encoding())
    &&& decoded_control(msg.encoding()) == Some(msg)
}

impl Relay {
    /// Whether an endpoint can be sent to now.
    fn check_deliverable(&self, to: Endpoint) -> (r: Result<(), RelayError>)
        ensures
            r == self@.deliverable(to),
    {
        match to {
            Endpoint::Udp(_) => match self.transport {
                Transport::Tcp => Err(RelayError::UdpNotEnabled),
                _ => Ok(()),
            },
            Endpoint::Tcp(conn_id) => match self.transport {
                Transport::Udp => Err(RelayError::TcpNotEnabled),
                _ => if self.writers.contains(&conn_id) {
                    Ok(())
                } else {
                    Err(RelayError::NoWriter)
                },
            },
        }
    }

    /// Sends bytes to an endpoint, if it can be sent to.
    fn send(&self, to: Endpoint, kind: TxKind, bytes: Vec<u8>) -> (r: Result<Output, RelayError>)
        ensures
            output_is(r, self@.sent(to, kind, bytes@)),
    {
        match self.check_deliverable(to) {
            Ok(()) => Ok(Output::Send(Delivery { to, kind, bytes })),
            Err(e) => Err(e),
        }
    }

    /// Answers a node: the message comes from the nil id and is sealed with the
    /// node's key and the given nonce. Who has the key can read it.
    pub fn reply_with(
        &self,
        to: Endpoint,
        node: NodeId,
        key: &[u8; 32],
        msg: &Control,
        nonce12: &[u8; 12],
    ) -> (r: Result<Output, RelayError>)
        ensures
            output_is(r, self@.replied(to, node@, key@, msg@, nonce12@)),
            r is Ok <==> self@.deliverable(to) is Ok,
            r matches Ok(Output::Send(d)) ==> brings(d.bytes@, node@, key@, msg@),
    {
        let inner = match encode_control(msg) {
            Ok(inner) => inner,
            Err(_) => return Err(RelayError::EncodeControl),
        };
        let relay_id = NodeId::nil();
        match seal_packet(
            MsgType::Control,
            relay_id,
            node,
            key,
            nonce12,
            inner.as_slice(),
        ) {
            Ok(bytes) => self.send(to, TxKind::Control, bytes),
            Err(EnvelopeError::Seal) => Err(RelayError::EncryptControl),
            Err(EnvelopeError::Encode) => Err(RelayError::EncodeWire),
        }
    }

    /// Handles the bytes that came from an endpoint.
    fn handle_packet(&mut self, from: Endpoint, bytes: &[u8]) -> (r: Result<Output, RelayError>)
        ensures
            final(self)@ == (RelayView {
                endpoints: old(self)@.judged(from, bytes@).endpoints,
                ..old(self)@
            }),
            old(self)@.handled(from, bytes@, r),
    {
        match self.judge(from, bytes) {
            Ok(Reaction::Quiet) => Ok(Output::Nothing),
            Ok(Reaction::Registered { node, ip }) => Ok(Output::Registered { node, ip }),
            Ok(Reaction::Forward { to }) => self.send(
                to,
                TxKind::Data,
                vstd::slice::slice_to_vec(bytes),
            ),
            Ok(Reaction::Reply { node, key, msg }) => match random_nonce12() {
                Some(nonce12) => {
                    let r = self.reply_with(from, node, &key, &msg, &nonce12);
                    assert(output_is(
                        r,
                        old(self)@.replied(from, node@, key@, msg@, nonce12@),
                    ));
                    r
                },
                None => Err(RelayError::NoNonce),
            },
            Err(e) => Err(e),
        }
    }

    /// Handles a datagram.
    pub fn handle_packet_udp(&mut self, bytes: &[u8], from: UdpAddr) -> (r: Result<
        Output,
        RelayError,
    >)
        ensures
            final(self)@ == (RelayView {
                endpoints: old(self)@.judged(Endpoint::Udp(from), bytes@).endpoints,
                ..old(self)@
            }),
            old(self)@.handled(Endpoint::Udp(from), bytes@, r),
    {
        self.handle_packet(Endpoint::Udp(from), bytes)
    }

    /// Handles a frame from a connection.
    pub fn handle_packet_tcp(&mut self, conn_id: u64, bytes: &[u8]) -> (r: Result<
        Output,
        RelayError,
    >)
        ensures
            final(self)@ == (RelayView {
                endpoints: old(self)@.judged(Endpoint::Tcp(conn_id), bytes@).endpoints,
                ..old(self)@
            }),
            old(self)@.handled(Endpoint::Tcp(conn_id), bytes@, r),
    {
        self.handle_packet(Endpoint::Tcp(conn_id), bytes)
    }

    /// Takes note of a connection that can be written to.
    pub fn tcp_accepted(&mut self, conn_id: u64)
        ensures
            final(self)@ == (RelayView {
                writers: old(self)@.writers.insert(conn_id),
                ..old(self)@
            }),
    {
        self.writers.insert(conn_id);
    }

    /// Forgets a connection, and every node that was reached over it.
    pub fn tcp_disconnected(&mut self, conn_id: u64)
        ensures
            final(self)@ == old(self)@.without_conn(conn_id),
    {
        self.writers.remove(&conn_id);
        self.endpoints.forget(Endpoint::Tcp(conn_id));
    }
}

impl RelayView {
    /// The relay without a connection and without the nodes reached over it.
    pub open spec fn without_conn(self, conn_id: u64) -> RelayView {
        RelayView {
            writers: self.writers.remove(conn_id),
            endpoints: self.endpoints.remove_keys(
                Set::new(
                    |id: Seq<u8>|
                        self.endpoints.contains_key(id) && self.endpoints[id] == Endpoint::Tcp(
                            conn_id,
                        ),
                ),
            ),
            ..self
        }
    }
}

/// Something that happened to the relay.
#[derive(Debug)]
pub enum RelayEvent {
    /// A datagram came.
    UdpFrame { from: UdpAddr, bytes: Vec<u8> },
    /// A connection was accepted.
    TcpAccepted { conn_id: u64 },
    /// A frame came over a connection.
    TcpFrame { conn_id: u64, bytes: Vec<u8> },
    /// A connection ended.
    TcpDisconnected { conn_id: u64 },
}

impl RelayView {
    /// What may come of a packet: the relay afterwards, and what is to be done.
    pub open spec fn after_packet(
        self,
        from: Endpoint,
        bytes: Seq<u8>,
        after: RelayView,
        r: Result<Output, RelayError>,
    ) -> bool {
        &&& after == (RelayView { endpoints: self.judged(from, bytes).endpoints, ..self })
        &&& self.handled(from, bytes, r)
    }

    /// What may come of an event.
    pub open spec fn after_event(
        self,
        ev: RelayEvent,
        after: RelayView,
        r: Result<Output, RelayError>,
    ) -> bool {
        match ev {
            RelayEvent::UdpFrame { from, bytes } => self.after_packet(
                Endpoint::Udp(from),
                bytes@,
                after,
                r,
            ),
            RelayEvent::TcpFrame { conn_id, bytes } => self.after_packet(
                Endpoint::Tcp(conn_id),
                bytes@,
                after,
                r,
            ),
            RelayEvent::TcpAccepted { conn_id } => {
                &&& after == (RelayView { writers: self.writers.insert(conn_id), ..self })
                &&& output_is(r, Ok(OutputView::Nothing))
            },
            RelayEvent::TcpDisconnected { conn_id } => {
                &&& after == self.without_conn(conn_id)
                &&& output_is(r, Ok(OutputView::Nothing))
            },
        }
    }
}

impl Relay {
    /// Handles an event.
    pub fn handle_event(&mut self, ev: RelayEvent) -> (r: Result<Output, RelayError>)
        ensures
            old(self)@.after_event(ev, final(self)@, r),
    {
        match ev {
            RelayEvent::UdpFrame { from, bytes } => self.handle_packet_udp(bytes.as_slice(), from),
            RelayEvent::TcpFrame { conn_id, bytes } => self.handle_packet_tcp(
                conn_id,
                bytes.as_slice(),
            ),
            RelayEvent::TcpAccepted { conn_id } => {
                self.tcp_accepted(conn_id);
                Ok(Output::Nothing)
            },
            RelayEvent::TcpDisconnected { conn_id } => {
                self.tcp_disconnected(conn_id);
                Ok(Output::Nothing)
            },
        }
    }
}

/// How long a control frame may wait for room in a connection's queue, in
/// milliseconds. Control stays responsive, but does not block for ever.
pub const CONTROL_SEND_TIMEOUT_MS: u64 = 100;

/// Whether a frame counts as sent. A control frame must be taken. A data frame
/// may be dropped where there is no room, to avoid building up latency.
pub fn send_tcp_result(kind: TxKind, outcome: SendOutcome) -> (r: Result<(), RelayError>)
    ensures
        r == match (kind, outcome) {
            (_, SendOutcome::Sent) => Ok(()),
            (TxKind::Control, _) => Err(RelayError::ControlSend),
            (TxKind::Data, SendOutcome::Full) => Ok(()),
            (TxKind::Data, SendOutcome::Closed) => Err(RelayError::WriterClosed),
        },
{
    match kind {
        TxKind::Control => match outcome {
            SendOutcome::Sent => Ok(()),
            _ => Err(RelayError::ControlSend),
        },
        TxKind::Data => match outcome {
            SendOutcome::Sent => Ok(()),
            SendOutcome::Full => Ok(()),
            SendOutcome::Closed => Err(RelayError::WriterClosed),
        },
    }
}

} // verus!
