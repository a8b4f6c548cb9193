//! The messages of the network and their encoding.

use vstd::prelude::*;

use crate::bytes::{append, same_bytes, to_array};
use crate::postcard_format::{
    prefixed, read_bytes, read_u32, read_uuid, take_prefixed, take_uuid_bytes, take_varint, varint,
    write_bytes, write_u32, write_uuid,
};
use crate::postcard_format::{lemma_prefixed_cut, lemma_prefixed_read_back, lemma_varint_cut};
use crate::postcard_format::lemma_varint_read_back;

verus! {

/// The wire version that this network speaks.
pub const WIRE_VERSION: u8 = 2;

/// A node's identity: the sixteen bytes of a UUID.
#[derive(Clone, Copy, Debug, Eq, Hash)]
pub struct NodeId(pub [u8; 16]);

impl View for NodeId {
    type V = Seq<u8>;

    open spec fn view(&self) -> Seq<u8> {
        self.0@
    }
}

/// The bytes of the nil node id, which stands for the relay.
pub open spec fn nil_bytes() -> Seq<u8> {
    Seq::new(16, |i: int| 0u8)
}

impl NodeId {
    /// The sixteen bytes of the id.
    pub fn as_bytes(&self) -> (r: &[u8; 16])
        ensures
            r@ == self@,
    {
        &self.0
    }

    /// The nil id: all bytes zero. It stands for the relay.
    pub fn nil() -> (r: NodeId)
        ensures
            r@ == nil_bytes(),
    {
        let r = NodeId([0u8;16]);
        assert(r@ =~= nil_bytes());
        r
    }

    /// Whether this is the nil id.
    pub fn is_nil(&self) -> (r: bool)
        ensures
            r == (self@ == nil_bytes()),
    {
        let nil = NodeId::nil();
        same_bytes(&self.0, &nil.0)
    }
}

impl PartialEq for NodeId {
    fn eq(&self, other: &Self) -> (r: bool) {
        let r = same_bytes(&self.0, &other.0);
        assert(r ==> self.0 =~= other.0);
        r
    }
}

impl vstd::std_specs::cmp::PartialEqSpecImpl for NodeId {
    open spec fn obeys_eq_spec() -> bool {
        true
    }

    open spec fn eq_spec(&self, other: &Self) -> bool {
        self@ == other@
    }
}

/// A virtual IPv4 address: its four octets.
#[derive(Clone, Copy, Debug, Eq, Hash)]
pub struct Ipv4AddrBytes(pub [u8; 4]);

impl View for Ipv4AddrBytes {
    type V = Seq<u8>;

    open spec fn view(&self) -> Seq<u8> {
        self.0@
    }
}

impl Ipv4AddrBytes {
    /// The address with the given octets, as the standard address type holds them.
    pub fn from_std(octets: [u8; 4]) -> (r: Self)
        ensures
            r@ == octets@,
    {
        Ipv4AddrBytes(octets)
    }

    /// The octets of the address, as the standard address type takes them.
    pub fn to_std(self) -> (r: [u8; 4])
        ensures
            r@ == self@,
    {
        self.0
    }
}

impl PartialEq for Ipv4AddrBytes {
    fn eq(&self, other: &Self) -> (r: bool) {
        let r = same_bytes(&self.0, &other.0);
        assert(r ==> self.0 =~= other.0);
        r
    }
}

impl vstd::std_specs::cmp::PartialEqSpecImpl for Ipv4AddrBytes {
    open spec fn obeys_eq_spec() -> bool {
        true
    }

    open spec fn eq_spec(&self, other: &Self) -> bool {
        self@ == other@
    }
}

/// The two planes of the network.
#[derive(Clone, Copy, Debug, PartialEq, Eq, Structural)]
pub enum MsgType {
    /// Client <-> relay control-plane messages.
    ///
    /// These are encrypted with a per-node key derived from the relay PSK.
    Control,
    /// End-to-end encrypted data-plane messages.
    ///
    /// The relay forwards these opaquely without decrypting.
    Data,
}

impl MsgType {
    /// The number of the type, as associated data carries it.
    pub open spec fn spec_code(self) -> u8 {
        match self {
            MsgType::Control => 1,
            MsgType::Data => 2,
        }
    }

    /// The number of the type: 1 for control, 2 for data.
    pub fn code(self) -> (r: u8)
        ensures
            r == self.spec_code(),
    {
        match self {
            MsgType::Control => 1,
            MsgType::Data => 2,
        }
    }

    /// The position of the type in its list, as the wire carries it.
    pub open spec fn spec_index(self) -> nat {
        match self {
            MsgType::Control => 0,
            MsgType::Data => 1,
        }
    }

    /// The position of the type in its list.
    fn index(self) -> (r: u32)
        ensures
            r == self.spec_index(),
    {
        match self {
            MsgType::Control => 0,
            MsgType::Data => 1,
        }
    }
}

/// A packet between two nodes, or between a node and the relay.
#[derive(Clone, Debug)]
pub struct WirePacket {
    pub v: u8,
    pub t: MsgType,
    pub src: NodeId,
    pub dst: NodeId,
    pub nonce12: [u8; 12],
    pub ciphertext: Vec<u8>,
}

/// What a [`WirePacket`] holds.
#[verifier::ext_equal]
pub struct WireView {
    pub v: u8,
    pub t: MsgType,
    pub src: Seq<u8>,
    pub dst: Seq<u8>,
    pub nonce12: Seq<u8>,
    pub ciphertext: Seq<u8>,
}

impl View for WirePacket {
    type V = WireView;

    open spec fn view(&self) -> WireView {
        WireView {
            v: self.v,
            t: self.t,
            src: self.src@,
            dst: self.dst@,
            nonce12: self.nonce12@,
            ciphertext: self.ciphertext@,
        }
    }
}

impl WireView {
    /// Whether the fields have the lengths that a packet's fields have.
    pub open spec fn wf(self) -> bool {
        &&& self.src.len() == 16
        &&& self.dst.len() == 16
        &&& self.nonce12.len() == 12
        &&& self.ciphertext.len() <= usize::MAX
    }

    /// The packet on the wire: the fields in order, the type by its position,
    /// the ids and the ciphertext with their lengths in front.
    pub open spec fn encoding(self) -> Seq<u8> {
        seq![self.v] + varint(self.t.spec_index()) + prefixed(self.src) + prefixed(self.dst)
            + self.nonce12 + prefixed(self.ciphertext)
    }
}

/// The packet at the front of `b`, where there is one. Bytes after it are ignored.
pub open spec fn decoded_wire(b: Seq<u8>) -> Option<WireView> {
    if b.len() == 0 {
        None
    } else {
        match take_varint(b.skip(1), 32) {
            Some((t, after_t)) => if t > 1 {
                None
            } else {
                match take_uuid_bytes(after_t) {
                    Some((src, after_src)) => match take_uuid_bytes(after_src) {
                        Some((dst, after_dst)) => if after_dst.len() < 12 {
                            None
                        } else {
                            match take_prefixed(after_dst.skip(12)) {
                                Some((ciphertext, _)) => Some(
                                    WireView {
                                        v: b[0],
                                        t: if t == 0 {
                                            MsgType::Control
                                        } else {
                                            MsgType::Data
                                        },
                                        src,
                                        dst,
                                        nonce12: after_dst.take(12),
                                        ciphertext,
                                    },
                                ),
                                None => None,
                            }
                        },
                        None => None,
                    },
                    None => None,
                }
            },
            None => None,
        }
    }
}

/// A control-plane message.
#[derive(Clone, Debug)]
pub enum Control {
    /// Client -> relay: bind node_id to its virtual IPv4.
    Register { virtual_ip: Ipv4AddrBytes },
    /// Client -> relay: keep NAT mapping alive.
    Keepalive,
    /// Client -> relay: resolve a virtual IPv4 to a node_id.
    Resolve { virtual_ip: Ipv4AddrBytes },
    /// Relay -> client: resolution succeeded.
    ResolveOk { virtual_ip: Ipv4AddrBytes, node_id: NodeId },
    /// Relay -> client: resolution failed.
    ResolveErr { virtual_ip: Ipv4AddrBytes },
}

/// What a [`Control`] message says.
#[verifier::ext_equal]
pub enum ControlView {
    Register { virtual_ip: Seq<u8> },
    Keepalive,
    Resolve { virtual_ip: Seq<u8> },
    ResolveOk { virtual_ip: Seq<u8>, node_id: Seq<u8> },
    ResolveErr { virtual_ip: Seq<u8> },
}

impl View for Control {
    type V = ControlView;

    open spec fn view(&self) -> ControlView {
        match self {
            Control::Register { virtual_ip } => ControlView::Register { virtual_ip: virtual_ip@ },
            Control::Keepalive => ControlView::Keepalive,
            Control::Resolve { virtual_ip } => ControlView::Resolve { virtual_ip: virtual_ip@ },
            Control::ResolveOk { virtual_ip, node_id } => ControlView::ResolveOk {
                virtual_ip: virtual_ip@,
                node_id: node_id@,
            },
            Control::ResolveErr { virtual_ip } => ControlView::ResolveErr {
                virtual_ip: virtual_ip@,
            },
        }
    }
}

impl ControlView {
    /// Whether addresses have four bytes and ids sixteen.
    pub open spec fn wf(self) -> bool {
        match self {
            ControlView::Register { virtual_ip } => virtual_ip.len() == 4,
            ControlView::Keepalive => true,
            ControlView::Resolve { virtual_ip } => virtual_ip.len() == 4,
            ControlView::ResolveOk { virtual_ip, node_id } => virtual_ip.len() == 4
                && node_id.len() == 16,
            ControlView::ResolveErr { virtual_ip } => virtual_ip.len() == 4,
        }
    }

    /// The message on the wire: its position in the list, then its fields.
    pub open spec fn encoding(self) -> Seq<u8> {
        match self {
            ControlView::Register { virtual_ip } => varint(0) + virtual_ip,
            ControlView::Keepalive => varint(1),
            ControlView::Resolve { virtual_ip } => varint(2) + virtual_ip,
            ControlView::ResolveOk { virtual_ip, node_id } => varint(3) + virtual_ip + prefixed(
                node_id,
            ),
            ControlView::ResolveErr { virtual_ip } => varint(4) + virtual_ip,
        }
    }
}

/// The message at the front of `b`, where there is one. Bytes after it are ignored.
pub open spec fn decoded_control(b: Seq<u8>) -> Option<ControlView> {
    match take_varint(b, 32) {
        Some((tag, rest)) => if tag == 1 {
            Some(ControlView::Keepalive)
        } else if tag > 4 || rest.len() < 4 {
            None
        } else if tag == 0 {
            Some(ControlView::Register { virtual_ip: rest.take(4) })
        } else if tag == 2 {
            Some(ControlView::Resolve { virtual_ip: rest.take(4) })
        } else if tag == 4 {
            Some(ControlView::ResolveErr { virtual_ip: rest.take(4) })
        } else {
            match take_uuid_bytes(rest.skip(4)) {
                Some((node_id, _)) => Some(
                    ControlView::ResolveOk { virtual_ip: rest.take(4), node_id },
                ),
                None => None,
            }
        },
        None => None,
    }
}

/// Why a message could not be encoded or decoded.
#[derive(Clone, Copy, Debug, PartialEq, Eq, Structural)]
pub enum WireError {
    /// The encoder gave up.
    Encode,
    /// The bytes hold no such message.
    Decode,
}

/// What decoding gives back of an encoded packet: the packet, whatever bytes
/// follow it.
pub proof fn law_wire_read_back(pkt: WireView, rest: Seq<u8>)
    requires
        pkt.wf(),
    ensures
        decoded_wire(pkt.encoding() + rest) == Some(pkt),
{
    let b = pkt.encoding() + rest;
    let after_dst = pkt.nonce12 + (prefixed(pkt.ciphertext) + rest);
    let after_src = prefixed(pkt.dst) + after_dst;
    let after_t = prefixed(pkt.src) + after_src;
    assert(b.skip(1) =~= varint(pkt.t.spec_index()) + after_t);
    vstd::layout::unsigned_int_max_values();
    lemma_varint_read_back(pkt.t.spec_index(), 32, after_t);
    lemma_prefixed_read_back(pkt.src, after_src);
    lemma_prefixed_read_back(pkt.dst, after_dst);
    assert(after_dst.skip(12) =~= prefixed(pkt.ciphertext) + rest);
    assert(after_dst.take(12) =~= pkt.nonce12);
    lemma_prefixed_read_back(pkt.ciphertext, rest);
}

/// What decoding gives back of an encoded control message: the message,
/// whatever bytes follow it.
pub proof fn law_control_read_back(msg: ControlView, rest: Seq<u8>)
    requires
        msg.wf(),
    ensures
        decoded_control(msg.encoding() + rest) == Some(msg),
{
    vstd::layout::unsigned_int_max_values();
    let b = msg.encoding() + rest;
    match msg {
        ControlView::Register { virtual_ip } => {
            assert(b =~= varint(0) + (virtual_ip + rest));
            lemma_varint_read_back(0, 32, virtual_ip + rest);
            assert((virtual_ip + rest).take(4) =~= virtual_ip);
        },
        ControlView::Keepalive => {
            lemma_varint_read_back(1, 32, rest);
        },
        ControlView::Resolve { virtual_ip } => {
            assert(b =~= varint(2) + (virtual_ip + rest));
            lemma_varint_read_back(2, 32, virtual_ip + rest);
            assert((virtual_ip + rest).take(4) =~= virtual_ip);
        },
        ControlView::ResolveOk { virtual_ip, node_id } => {
            let tail = prefixed(node_id) + rest;
            assert(b =~= varint(3) + (virtual_ip + tail));
            lemma_varint_read_back(3, 32, virtual_ip + tail);
            assert((virtual_ip + tail).take(4) =~= virtual_ip);
            assert((virtual_ip + tail).skip(4) =~= tail);
            lemma_prefixed_read_back(node_id, rest);
        },
        ControlView::ResolveErr { virtual_ip } => {
            assert(b =~= varint(4) + (virtual_ip + rest));
            lemma_varint_read_back(4, 32, virtual_ip + rest);
            assert((virtual_ip + rest).take(4) =~= virtual_ip);
        },
    }
}

/// An encoded packet with nothing behind it decodes to the packet.
pub proof fn lemma_wire_decodes(pkt: WireView)
    requires
        pkt.wf(),
    ensures
        decoded_wire(pkt.encoding()) == Some(pkt),
{
    law_wire_read_back(pkt, Seq::empty());
    assert(pkt.encoding() + Seq::<u8>::empty() =~= pkt.encoding());
}

/// An encoded control message with nothing behind it decodes to the message.
pub proof fn lemma_control_decodes(msg: ControlView)
    requires
        msg.wf(),
    ensures
        decoded_control(msg.encoding()) == Some(msg),
{
    law_control_read_back(msg, Seq::empty());
    assert(msg.encoding() + Seq::<u8>::empty() =~= msg.encoding());
}

/// A packet that is cut short anywhere is refused.
pub proof fn law_cut_wire_is_refused(pkt: WireView, k: int)
    requires
        pkt.wf(),
        0 <= k < pkt.encoding().len(),
    ensures
        decoded_wire(pkt.encoding().take(k)) is None,
{
    vstd::layout::unsigned_int_max_values();
    let b = pkt.encoding().take(k);
    let nonce_on = pkt.nonce12 + prefixed(pkt.ciphertext);
    let dst_on = prefixed(pkt.dst) + nonce_on;
    let src_on = prefixed(pkt.src) + dst_on;
    let t = varint(pkt.t.spec_index());
    if k > 0 {
        let k_t = k - 1;
        assert(b.skip(1) =~= (t + src_on).take(k_t));
        lemma_varint_cut(pkt.t.spec_index(), 32, src_on, k_t);
        if k_t >= t.len() {
            let k_src = k_t - t.len();
            lemma_prefixed_cut(pkt.src, dst_on, k_src);
            if k_src >= prefixed(pkt.src).len() {
                let k_dst = k_src - prefixed(pkt.src).len();
                lemma_prefixed_cut(pkt.dst, nonce_on, k_dst);
                if k_dst >= prefixed(pkt.dst).len() {
                    let k_nonce = k_dst - prefixed(pkt.dst).len();
                    if k_nonce >= 12 {
                        let rest = prefixed(pkt.ciphertext);
                        assert(nonce_on.take(k_nonce).skip(12) =~= (rest + Seq::empty()).take(
                            k_nonce - 12,
                        ));
                        lemma_prefixed_cut(pkt.ciphertext, Seq::empty(), k_nonce - 12);
                    }
                }
            }
        }
    }
}

/// A control message that is cut short anywhere is refused.
pub proof fn law_cut_control_is_refused(msg: ControlView, k: int)
    requires
        msg.wf(),
        0 <= k < msg.encoding().len(),
    ensures
        decoded_control(msg.encoding().take(k)) is None,
{
    vstd::layout::unsigned_int_max_values();
    let b = msg.encoding().take(k);
    match msg {
        ControlView::Register { virtual_ip } => {
            lemma_varint_cut(0, 32, virtual_ip, k);
        },
        ControlView::Keepalive => {
            assert(b =~= (varint(1) + Seq::empty()).take(k));
            lemma_varint_cut(1, 32, Seq::empty(), k);
        },
        ControlView::Resolve { virtual_ip } => {
            lemma_varint_cut(2, 32, virtual_ip, k);
        },
        ControlView::ResolveOk { virtual_ip, node_id } => {
            let ip_on = virtual_ip + prefixed(node_id);
            assert(b =~= (varint(3) + ip_on).take(k));
            lemma_varint_cut(3, 32, ip_on, k);
            let k_ip = k - varint(3).len();
            if k_ip >= 4 {
                assert(ip_on.take(k_ip).skip(4) =~= (prefixed(node_id) + Seq::empty()).take(
                    k_ip - 4,
                ));
                lemma_prefixed_cut(node_id, Seq::empty(), k_ip - 4);
            }
        },
        ControlView::ResolveErr { virtual_ip } => {
            lemma_varint_cut(4, 32, virtual_ip, k);
        },
    }
}

/// The nil id is the one whose sixteen bytes are all zero.
pub proof fn law_nil_is_all_zero(id: Seq<u8>)
    ensures
        id == nil_bytes() <==> id.len() == 16 && forall|i: int| 0 <= i < 16 ==> id[i] == 0,
{
    if id.len() == 16 && forall|i: int| 0 <= i < 16 ==> id[i] == 0 {
        assert(id =~= nil_bytes());
    }
}

/// Where the fields of a packet stand on the wire: the version, the type as 0 or
/// 1, source and destination each behind a 16, the nonce, and the ciphertext at
/// the end behind its length.
pub proof fn law_wire_layout(pkt: WirePacket)
    ensures
        ({
            let b = pkt@.encoding();
            &&& b[0] == pkt.v
            &&& b[1] == match pkt.t {
                MsgType::Control => 0u8,
                MsgType::Data => 1u8,
            }
            &&& b[2] == 16
            &&& b.subrange(3, 19) == pkt.src.0@
            &&& b[19] == 16
            &&& b.subrange(20, 36) == pkt.dst.0@
            &&& b.subrange(36, 48) == pkt.nonce12@
            &&& b.skip(48) == varint(pkt.ciphertext@.len()) + pkt.ciphertext@
        }),
{
    let b = pkt@.encoding();
    assert(varint(pkt.t.spec_index()).len() == 1);
    assert(varint(16) =~= seq![16u8]);
    assert(b.subrange(3, 19) =~= pkt.src.0@);
    assert(b.subrange(20, 36) =~= pkt.dst.0@);
    assert(b.subrange(36, 48) =~= pkt.nonce12@);
    assert(b.skip(48) =~= varint(pkt.ciphertext@.len()) + pkt.ciphertext@);
}

/// What a decoder finds in bytes whose numbers are written in one byte each: the
/// fields where [`law_wire_layout`] has them. Another type, or an id of another
/// length than 16, is refused.
pub proof fn law_wire_fields(b: Seq<u8>)
    requires
        b.len() > 2,
        b[1] < 128,
        b[2] < 128,
        b.len() > 19 ==> b[19] < 128,
    ensures
        match decoded_wire(b) {
            Some(p) => {
                &&& b.len() > 48
                &&& p.v == b[0]
                &&& b[1] < 2
                &&& p.t is Control <==> b[1] == 0
                &&& b[2] == 16
                &&& p.src == b.subrange(3, 19)
                &&& b[19] == 16
                &&& p.dst == b.subrange(20, 36)
                &&& p.nonce12 == b.subrange(36, 48)
                &&& take_prefixed(b.skip(48)) matches Some((c, _)) && p.ciphertext == c
            },
            None => {
                ||| b.len() < 49
                ||| b[1] >= 2
                ||| b[2] != 16
                ||| b[19] != 16
                ||| take_prefixed(b.skip(48)) is None
            },
        },
{
    vstd::layout::unsigned_int_max_values();
    let after_v = b.skip(1);
    let after_t = after_v.skip(1);
    assert(after_v[0] == b[1]);
    assert(after_t[0] == b[2]);
    assert(take_varint(after_v, 32) == Some((b[1] as nat, after_t)));
    assert(take_varint(after_t, usize::BITS as nat) == Some((b[2] as nat, after_t.skip(1))));
    let src_on = after_t.skip(1);
    assert(src_on =~= b.skip(3));
    if b[2] == 16 && b.len() > 19 {
        let after_src = src_on.skip(16);
        assert(src_on.take(16) =~= b.subrange(3, 19));
        assert(after_src =~= b.skip(19));
        assert(take_varint(after_src, usize::BITS as nat) == Some(
            (b[19] as nat, after_src.skip(1)),
        ));
        let dst_on = after_src.skip(1);
        assert(dst_on =~= b.skip(20));
        if b[19] == 16 && b.len() >= 36 {
            let after_dst = dst_on.skip(16);
            assert(dst_on.take(16) =~= b.subrange(20, 36));
            assert(after_dst =~= b.skip(36));
            if b.len() >= 48 {
                assert(after_dst.take(12) =~= b.subrange(36, 48));
                assert(after_dst.skip(12) =~= b.skip(48));
            }
        }
    } else if b[2] == 16 && b.len() == 19 {
        assert(src_on.skip(16).len() == 0);
    }
}

/// However its numbers are written, a packet is its version, a type of 0 or 1, two
/// ids, twelve bytes and a byte string, one behind the other, and whatever lacks
/// one of these is none.
pub proof fn law_wire_parts(
    b: Seq<u8>,
    type_on: Seq<u8>,
    src_on: Seq<u8>,
    dst_on: Seq<u8>,
    nonce_on: Seq<u8>,
)
    requires
        b.len() > 0,
        type_on == b.skip(1),
        take_varint(type_on, 32) matches Some((_, rest)) ==> src_on == rest,
        take_prefixed(src_on) matches Some((_, rest)) ==> dst_on == rest,
        take_prefixed(dst_on) matches Some((_, rest)) ==> nonce_on == rest,
    ensures
        ({
            let whole = {
                &&& take_varint(type_on, 32) matches Some((t, _)) && t < 2
                &&& take_prefixed(src_on) matches Some((id, _)) && id.len() == 16
                &&& take_prefixed(dst_on) matches Some((id, _)) && id.len() == 16
                &&& nonce_on.len() >= 12
                &&& take_prefixed(nonce_on.skip(12)) is Some
            };
            match decoded_wire(b) {
                None => !whole,
                Some(p) => {
                    &&& whole
                    &&& p.v == b[0]
                    &&& p.t is Control <==> take_varint(type_on, 32).unwrap().0 == 0
                    &&& p.src == take_prefixed(src_on).unwrap().0
                    &&& p.dst == take_prefixed(dst_on).unwrap().0
                    &&& p.nonce12 == nonce_on.subrange(0, 12)
                    &&& p.ciphertext == take_prefixed(nonce_on.skip(12)).unwrap().0
                },
            }
        }),
{
    if nonce_on.len() >= 12 {
        assert(nonce_on.take(12) =~= nonce_on.subrange(0, 12));
    }
}

/// The bytes of each control message, written out.
pub proof fn law_control_layout(msg: Control)
    ensures
        msg@.encoding() == match msg {
            Control::Register { virtual_ip } => seq![0u8] + virtual_ip.0@,
            Control::Keepalive => seq![1u8],
            Control::Resolve { virtual_ip } => seq![2u8] + virtual_ip.0@,
            Control::ResolveOk { virtual_ip, node_id } => seq![3u8] + virtual_ip.0@ + seq![16u8]
                + node_id.0@,
            Control::ResolveErr { virtual_ip } => seq![4u8] + virtual_ip.0@,
        },
{
    assert(varint(16) =~= seq![16u8]);
    let b = msg@.encoding();
    match msg {
        Control::ResolveOk { virtual_ip, node_id } => {
            assert(b =~= seq![3u8] + virtual_ip.0@ + seq![16u8] + node_id.0@);
        },
        _ => {},
    }
}

/// What a decoder makes of bytes whose first number is written in one byte: the
/// message that the number stands for, with the four bytes behind it as its
/// address. Any other number is refused, and so is an address cut short.
pub proof fn law_control_fields(b: Seq<u8>)
    requires
        b.len() > 0,
        b[0] < 128,
    ensures
        ({
            let r = decoded_control(b);
            let ip = b.subrange(1, 5);
            &&& b[0] == 1 ==> r == Some(ControlView::Keepalive)
            &&& b[0] > 4 ==> r is None
            &&& b[0] != 1 && b.len() < 5 ==> r is None
            &&& b[0] == 0 && b.len() >= 5 ==> r == Some(ControlView::Register { virtual_ip: ip })
            &&& b[0] == 2 && b.len() >= 5 ==> r == Some(ControlView::Resolve { virtual_ip: ip })
            &&& b[0] == 4 && b.len() >= 5 ==> r == Some(ControlView::ResolveErr { virtual_ip: ip })
            &&& b[0] == 3 && b.len() >= 22 && b[5] == 16 ==> r == Some(
                ControlView::ResolveOk { virtual_ip: ip, node_id: b.subrange(6, 22) },
            )
            &&& b[0] == 3 && 5 < b.len() < 22 && b[5] < 128 ==> r is None
            &&& b[0] == 3 && b.len() > 5 && b[5] < 128 && b[5] != 16 ==> r is None
        }),
{
    vstd::layout::unsigned_int_max_values();
    let rest = b.skip(1);
    assert(take_varint(b, 32) == Some((b[0] as nat, rest)));
    if b.len() >= 5 {
        assert(rest.take(4) =~= b.subrange(1, 5));
        let id_on = rest.skip(4);
        if b.len() > 5 && b[5] < 128 {
            assert(id_on[0] == b[5]);
            assert(take_varint(id_on, usize::BITS as nat) == Some((b[5] as nat, id_on.skip(1))));
            if b.len() >= 22 {
                assert(id_on.skip(1).take(16) =~= b.subrange(6, 22));
            }
        }
    }
}

/// Two packets with one encoding are one packet.
pub proof fn law_wire_encoding_injective(a: WireView, b: WireView)
    requires
        a.wf(),
        b.wf(),
        a.encoding() == b.encoding(),
    ensures
        a == b,
{
    lemma_wire_decodes(a);
    lemma_wire_decodes(b);
}

/// However its number is written, a control message is a number and, but for
/// Keepalive, an address of four bytes, with an id behind it in an answer that
/// names a node. Whatever lacks one of these is none.
pub proof fn law_control_parts(b: Seq<u8>, tag: nat, rest: Seq<u8>)
    requires
        take_varint(b, 32) == Some((tag, rest)),
    ensures
        ({
            let r = decoded_control(b);
            let ip = rest.subrange(0, 4);
            let id = take_prefixed(rest.skip(4));
            &&& tag > 4 ==> r is None
            &&& tag == 1 ==> r == Some(ControlView::Keepalive)
            &&& tag != 1 && rest.len() < 4 ==> r is None
            &&& tag == 0 && rest.len() >= 4 ==> r == Some(ControlView::Register { virtual_ip: ip })
            &&& tag == 2 && rest.len() >= 4 ==> r == Some(ControlView::Resolve { virtual_ip: ip })
            &&& tag == 4 && rest.len() >= 4 ==> r == Some(
                ControlView::ResolveErr { virtual_ip: ip },
            )
            &&& tag == 3 && rest.len() >= 4 && (id matches Some((node_id, _)) && node_id.len()
                == 16) ==> r == Some(
                ControlView::ResolveOk { virtual_ip: ip, node_id: id.unwrap().0 },
            )
            &&& tag == 3 && rest.len() >= 4 && !(id matches Some((node_id, _)) && node_id.len()
                == 16) ==> r is None
        }),
{
    if rest.len() >= 4 {
        assert(rest.take(4) =~= rest.subrange(0, 4));
    }
}

/// What is decoded can be encoded again, and decodes to itself.
pub proof fn law_decoded_wire_encodes(b: Seq<u8>)
    requires
        b.len() <= usize::MAX,
        decoded_wire(b) is Some,
    ensures
        decoded_wire(b)->0.wf(),
        decoded_wire(decoded_wire(b)->0.encoding()) == decoded_wire(b),
{
    let pkt = decoded_wire(b)->0;
    lemma_decoded_wire_wf(b);
    lemma_wire_decodes(pkt);
}

/// What is decoded can be encoded again, and decodes to itself.
pub proof fn law_decoded_control_encodes(b: Seq<u8>)
    requires
        decoded_control(b) is Some,
    ensures
        decoded_control(b)->0.wf(),
        decoded_control(decoded_control(b)->0.encoding()) == decoded_control(b),
{
    lemma_control_decodes(decoded_control(b)->0);
}

/// What is decoded has fields of the right lengths.
proof fn lemma_decoded_wire_wf(b: Seq<u8>)
    requires
        b.len() <= usize::MAX,
    ensures
        decoded_wire(b) matches Some(p) ==> p.wf() && p.ciphertext.len() <= b.len(),
{
    if decoded_wire(b) is Some {
        lemma_take_varint_shrinks(b.skip(1), 32);
        let after_t = take_varint(b.skip(1), 32).unwrap().1;
        lemma_take_varint_shrinks(after_t, usize::BITS as nat);
        let after_src = take_uuid_bytes(after_t).unwrap().1;
        lemma_take_varint_shrinks(after_src, usize::BITS as nat);
        let after_dst = take_uuid_bytes(after_src).unwrap().1;
        lemma_take_varint_shrinks(after_dst.skip(12), usize::BITS as nat);
    }
}

proof fn lemma_take_varint_shrinks(b: Seq<u8>, bits: nat)
    ensures
        take_varint(b, bits) matches Some((_, rest)) ==> rest.len() < b.len(),
    decreases b.len(),
{
    if b.len() > 0 && bits > 0 && b[0] >= 128 {
        lemma_take_varint_shrinks(
            b.skip(1),
            if bits > 7 {
                (bits - 7) as nat
            } else {
                0
            },
        );
    }
}

/// The bytes of a packet on the wire. Encoding never fails.
pub fn encode_wire(pkt: &WirePacket) -> (r: Result<Vec<u8>, WireError>)
    ensures
        r is Ok,
        r->Ok_0@ == pkt@.encoding(),
        decoded_wire(r->Ok_0@) == Some(pkt@),
{
    let mut out: Vec<u8> = Vec::new();
    out.push(pkt.v);
    match write_u32(pkt.t.index()) {
        Ok(s) => append(&mut out, &s),
        Err(_) => return Err(WireError::Encode),
    }
    match write_uuid(&pkt.src.0) {
        Ok(s) => append(&mut out, &s),
        Err(_) => return Err(WireError::Encode),
    }
    match write_uuid(&pkt.dst.0) {
        Ok(s) => append(&mut out, &s),
        Err(_) => return Err(WireError::Encode),
    }
    append(&mut out, &pkt.nonce12);
    match write_bytes(&pkt.ciphertext) {
        Ok(s) => append(&mut out, &s),
        Err(_) => return Err(WireError::Encode),
    }
    proof {
        assert(out@ =~= pkt@.encoding());
        assert(pkt.ciphertext@.len() == pkt.ciphertext.len());
        lemma_wire_decodes(pkt@);
    }
    Ok(out)
}

/// The packet at the front of `bytes`. Bytes after it are ignored.
pub fn decode_wire(bytes: &[u8]) -> (r: Result<WirePacket, WireError>)
    ensures
        match r {
            Ok(pkt) => decoded_wire(bytes@) == Some(pkt@),
            Err(e) => e == WireError::Decode && decoded_wire(bytes@) is None,
        },
{
    if bytes.len() == 0 {
        return Err(WireError::Decode);
    }
    let after_v = vstd::slice::slice_subrange(bytes, 1, bytes.len());
    assert(after_v@ =~= bytes@.skip(1));
    let (index, after_t) = match read_u32(after_v) {
        Ok(p) => p,
        Err(_) => return Err(WireError::Decode),
    };
    let t = if index == 0 {
        MsgType::Control
    } else if index == 1 {
        MsgType::Data
    } else {
        return Err(WireError::Decode);
    };
    let (src, after_src) = match read_uuid(after_t) {
        Ok(p) => p,
        Err(_) => return Err(WireError::Decode),
    };
    let (dst, after_dst) = match read_uuid(after_src) {
        Ok(p) => p,
        Err(_) => return Err(WireError::Decode),
    };
    if after_dst.len() < 12 {
        return Err(WireError::Decode);
    }
    let nonce = vstd::slice::slice_subrange(after_dst, 0, 12);
    let after_nonce = vstd::slice::slice_subrange(after_dst, 12, after_dst.len());
    assert(nonce@ =~= after_dst@.take(12));
    assert(after_nonce@ =~= after_dst@.skip(12));
    let nonce12: [u8; 12] = to_array(nonce);
    match read_bytes(after_nonce) {
        Ok((ciphertext, _)) => Ok(
            WirePacket { v: bytes[0], t, src: NodeId(src), dst: NodeId(dst), nonce12, ciphertext },
        ),
        Err(_) => Err(WireError::Decode),
    }
}

/// A message that is a position in the list and an address.
fn encode_tagged_ip(tag: u32, ip: &Ipv4AddrBytes) -> (r: Result<Vec<u8>, WireError>)
    ensures
        r is Ok,
        r->Ok_0@ == varint(tag as nat) + ip@,
{
    match write_u32(tag) {
        Ok(s) => {
            let mut out = s;
            append(&mut out, &ip.0);
            Ok(out)
        },
        Err(_) => Err(WireError::Encode),
    }
}

/// The bytes of a control message. Encoding never fails.
pub fn encode_control(msg: &Control) -> (r: Result<Vec<u8>, WireError>)
    ensures
        r is Ok,
        r->Ok_0@ == msg@.encoding(),
        decoded_control(r->Ok_0@) == Some(msg@),
{
    proof {
        lemma_control_decodes(msg@);
    }
    match msg {
        Control::Register { virtual_ip } => encode_tagged_ip(0, virtual_ip),
        Control::Keepalive => match write_u32(1) {
            Ok(s) => Ok(s),
            Err(_) => Err(WireError::Encode),
        },
        Control::Resolve { virtual_ip } => encode_tagged_ip(2, virtual_ip),
        Control::ResolveOk { virtual_ip, node_id } => match (
            encode_tagged_ip(3, virtual_ip),
            write_uuid(&node_id.0),
        ) {
            (Ok(head), Ok(id)) => {
                let mut out = head;
                append(&mut out, &id);
                Ok(out)
            },
            _ => Err(WireError::Encode),
        },
        Control::ResolveErr { virtual_ip } => encode_tagged_ip(4, virtual_ip),
    }
}

/// The control message at the front of `bytes`. Bytes after it are ignored.
pub fn decode_control(bytes: &[u8]) -> (r: Result<Control, WireError>)
    ensures
        match r {
            Ok(msg) => decoded_control(bytes@) == Some(msg@),
            Err(e) => e == WireError::Decode && decoded_control(bytes@) is None,
        },
{
    let (tag, rest) = match read_u32(bytes) {
        Ok(p) => p,
        Err(_) => return Err(WireError::Decode),
    };
    if tag == 1 {
        return Ok(Control::Keepalive);
    }
    if tag > 4 || rest.len() < 4 {
        return Err(WireError::Decode);
    }
    let octets = vstd::slice::slice_subrange(rest, 0, 4);
    let after_ip = vstd::slice::slice_subrange(rest, 4, rest.len());
    assert(octets@ =~= rest@.take(4));
    assert(after_ip@ =~= rest@.skip(4));
    let virtual_ip = Ipv4AddrBytes(to_array(octets));
    if tag == 0 {
        Ok(Control::Register { virtual_ip })
    } else if tag == 2 {
        Ok(Control::Resolve { virtual_ip })
    } else if tag == 4 {
        Ok(Control::ResolveErr { virtual_ip })
    } else {
        match read_uuid(after_ip) {
            Ok((id, _)) => Ok(Control::ResolveOk { virtual_ip, node_id: NodeId(id) }),
            Err(_) => Err(WireError::Decode),
        }
    }
}

} // verus!
