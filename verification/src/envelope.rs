//! Sealed packets: the routing header in the clear, the payload sealed and
//! bound to that header.

use vstd::prelude::*;

use crate::bytes::append;
use crate::crypto::{aead_opened, aead_sealed, open, opened, seal, sealed, CryptoError, TAG_LEN};
use crate::wire::{encode_wire, MsgType, NodeId, WirePacket, WireView, WIRE_VERSION};
use crate::wire::decoded_wire;

verus! {

/// The associated data of a packet: its routing header.
pub open spec fn aad(v: u8, t: MsgType, src: Seq<u8>, dst: Seq<u8>) -> Seq<u8> {
    seq![v, t.spec_code()] + src + dst
}

/// What a packet's ciphertext opens to under a key, if it is authentic.
pub open spec fn payload_of(pkt: WireView, key: Seq<u8>) -> Option<Seq<u8>> {
    opened(key, pkt.nonce12, pkt.ciphertext, aad(pkt.v, pkt.t, pkt.src, pkt.dst))
}

/// The packet that carries `inner` from `src` to `dst`, unless it is too long to seal.
pub open spec fn sealed_packet(
    t: MsgType,
    src: Seq<u8>,
    dst: Seq<u8>,
    key: Seq<u8>,
    nonce12: Seq<u8>,
    inner: Seq<u8>,
) -> Option<WireView> {
    match sealed(key, nonce12, inner, aad(WIRE_VERSION, t, src, dst)) {
        Some(ciphertext) => Some(
            WireView { v: WIRE_VERSION, t, src, dst, nonce12, ciphertext },
        ),
        None => None,
    }
}

/// The bytes of that packet on the wire.
pub open spec fn sealed_bytes(
    t: MsgType,
    src: Seq<u8>,
    dst: Seq<u8>,
    key: Seq<u8>,
    nonce12: Seq<u8>,
    inner: Seq<u8>,
) -> Option<Seq<u8>> {
    match sealed_packet(t, src, dst, key, nonce12, inner) {
        Some(pkt) => Some(pkt.encoding()),
        None => None,
    }
}

/// Whether `bytes` are a packet of this network's version with the given header,
/// which whoever has the key opens to `inner`.
pub open spec fn carries(
    bytes: Seq<u8>,
    t: MsgType,
    src: Seq<u8>,
    dst: Seq<u8>,
    key: Seq<u8>,
    inner: Seq<u8>,
) -> bool {
    match decoded_wire(bytes) {
        Some(pkt) => {
            &&& pkt.v == WIRE_VERSION
            &&& pkt.t == t
            &&& pkt.src == src
            &&& pkt.dst == dst
            &&& payload_of(pkt, key) == Some(inner)
        },
        None => false,
    }
}

/// Why a packet could not be made.
#[derive(Clone, Copy, Debug, PartialEq, Eq, Structural)]
pub enum EnvelopeError {
    /// The payload could not be sealed.
    Seal,
    /// The packet could not be encoded.
    Encode,
}

/// The associated data of a packet, byte by byte: the version, 1 for control and
/// 2 for data, the source and the destination.
pub proof fn law_aad_layout(v: u8, t: MsgType, src: Seq<u8>, dst: Seq<u8>)
    ensures
        aad(v, t, src, dst) == match t {
            MsgType::Control => seq![v, 1u8],
            MsgType::Data => seq![v, 2u8],
        } + src + dst,
{
}

/// What a packet opens to is what the cipher makes of its nonce and ciphertext
/// under its own header.
pub proof fn law_payload_is_under_the_header(pkt: WireView, key: Seq<u8>)
    requires
        pkt.ciphertext.len() <= 274877906832,
    ensures
        payload_of(pkt, key) == aead_opened(
            key,
            pkt.nonce12,
            pkt.ciphertext,
            match pkt.t {
                MsgType::Control => seq![pkt.v, 1u8],
                MsgType::Data => seq![pkt.v, 2u8],
            } + pkt.src + pkt.dst,
        ),
{
}

/// A payload of up to 274877906816 bytes makes a packet of version 2 with the
/// given header and nonce, sealed under that header.
pub proof fn law_sealed_packet_fields(
    t: MsgType,
    src: Seq<u8>,
    dst: Seq<u8>,
    key: Seq<u8>,
    nonce12: Seq<u8>,
    inner: Seq<u8>,
)
    requires
        inner.len() <= 274877906816,
    ensures
        sealed_packet(t, src, dst, key, nonce12, inner) matches Some(pkt) && {
            &&& pkt.v == 2
            &&& pkt.t == t
            &&& pkt.src == src
            &&& pkt.dst == dst
            &&& pkt.nonce12 == nonce12
            &&& pkt.ciphertext == aead_sealed(
                key,
                nonce12,
                inner,
                match t {
                    MsgType::Control => seq![2u8, 1u8],
                    MsgType::Data => seq![2u8, 2u8],
                } + src + dst,
            )
            &&& sealed_bytes(t, src, dst, key, nonce12, inner) == Some(pkt.encoding())
        },
{
}

/// What it is to carry a payload: the bytes decode to a packet of version 2 with
/// the given header, and the cipher opens its ciphertext under that header.
pub proof fn law_carrying(
    bytes: Seq<u8>,
    t: MsgType,
    src: Seq<u8>,
    dst: Seq<u8>,
    key: Seq<u8>,
    inner: Seq<u8>,
)
    requires
        carries(bytes, t, src, dst, key, inner),
    ensures
        decoded_wire(bytes) matches Some(pkt) && {
            &&& pkt.v == 2
            &&& pkt.t == t
            &&& pkt.src == src
            &&& pkt.dst == dst
            &&& aead_opened(
                key,
                pkt.nonce12,
                pkt.ciphertext,
                match t {
                    MsgType::Control => seq![2u8, 1u8],
                    MsgType::Data => seq![2u8, 2u8],
                } + src + dst,
            ) == Some(inner)
        },
{
}

/// Distinct routing headers have distinct associated data, so a ciphertext is
/// bound to one header only.
pub proof fn law_aad_injective(
    v1: u8,
    t1: MsgType,
    src1: Seq<u8>,
    dst1: Seq<u8>,
    v2: u8,
    t2: MsgType,
    src2: Seq<u8>,
    dst2: Seq<u8>,
)
    requires
        src1.len() == 16,
        src2.len() == 16,
        aad(v1, t1, src1, dst1) == aad(v2, t2, src2, dst2),
    ensures
        v1 == v2,
        t1 == t2,
        src1 == src2,
        dst1 == dst2,
{
    let a = aad(v1, t1, src1, dst1);
    let b = aad(v2, t2, src2, dst2);
    assert(a[0] == v1 && b[0] == v2);
    assert(a[1] == t1.spec_code() && b[1] == t2.spec_code());
    assert(a.subrange(2, 18) =~= src1);
    assert(b.subrange(2, 18) =~= src2);
    assert(a.skip(18) =~= dst1);
    assert(b.skip(18) =~= dst2);
}

/// The associated data of a packet: its version, type, source and destination.
pub fn aad_bytes(v: u8, t: MsgType, src: NodeId, dst: NodeId) -> (r: Vec<u8>)
    ensures
        r@ == aad(v, t, src@, dst@),
{
    let mut aad: Vec<u8> = Vec::with_capacity(34);
    aad.push(v);
    aad.push(t.code());
    append(&mut aad, src.as_bytes());
    append(&mut aad, dst.as_bytes());
    assert(aad@ =~= crate::envelope::aad(v, t, src@, dst@));
    aad
}

/// Opens a packet's payload.
pub fn open_packet(pkt: &WirePacket, key: &[u8; 32]) -> (r: Result<Vec<u8>, CryptoError>)
    ensures
        match r {
            Ok(inner) => payload_of(pkt@, key@) == Some(inner@),
            Err(e) => e == CryptoError::CryptoFailure && payload_of(pkt@, key@) is None,
        },
{
    let aad = aad_bytes(pkt.v, pkt.t, pkt.src, pkt.dst);
    open(key, &pkt.nonce12, pkt.ciphertext.as_slice(), aad.as_slice())
}

/// The bytes of the packet that carries `inner` from `src` to `dst`. Whoever
/// decodes them and opens the packet with the key has `inner` back.
pub fn seal_packet(
    t: MsgType,
    src: NodeId,
    dst: NodeId,
    key: &[u8; 32],
    nonce12: &[u8; 12],
    inner: &[u8],
) -> (r: Result<Vec<u8>, EnvelopeError>)
    ensures
        match r {
            Ok(bytes) => {
                &&& sealed_bytes(t, src@, dst@, key@, nonce12@, inner@) == Some(bytes@)
                &&& carries(bytes@, t, src@, dst@, key@, inner@)
                &&& decoded_wire(bytes@)->0.nonce12 == nonce12@
                &&& decoded_wire(bytes@)->0.ciphertext.len() == inner@.len() + TAG_LEN
            },
            Err(e) => {
                &&& e == EnvelopeError::Seal
                &&& sealed_bytes(t, src@, dst@, key@, nonce12@, inner@) is None
            },
        },
{
    let aad = aad_bytes(WIRE_VERSION, t, src, dst);
    match seal(key, nonce12, inner, aad.as_slice()) {
        Ok(ciphertext) => {
            let pkt = WirePacket { v: WIRE_VERSION, t, src, dst, nonce12: *nonce12, ciphertext };
            match encode_wire(&pkt) {
                Ok(bytes) => Ok(bytes),
                Err(_) => Err(EnvelopeError::Encode),
            }
        },
        Err(_) => Err(EnvelopeError::Seal),
    }
}

} // verus!
