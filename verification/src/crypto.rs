//! Keys, sealing and opening.
//!
//! A packet's payload is sealed with ChaCha20-Poly1305 under a key that is
//! derived from a pre-shared key with HKDF-SHA256.

use vstd::prelude::*;

use crate::base64_text::{base64_text, decode_standard, law_base64_text_injective};
use crate::bytes::{append, to_array};
use crate::text::{ascii_bytes, own};
use crate::wire::NodeId;

verus! {

/// The error of the `aead` crate, which says nothing about its cause.
#[verifier::external_type_specification]
#[verifier::external_body]
pub struct ExAeadError(aead::Error);

/// The error of the `getrandom` crate, carried through without looking inside.
#[verifier::external_type_specification]
#[verifier::external_body]
pub struct ExGetrandomError(getrandom::Error);

/// The longest plaintext that the cipher's 32-bit block counter can cover:
/// `(2^32 - 2) * 64` bytes.
pub const MAX_PLAINTEXT_LEN: u64 = 0x3f_ffff_ff80;

/// The length of the tag at the end of a ciphertext.
pub const TAG_LEN: u64 = 16;

/// Why a key could not be read, or a message not be sealed or opened.
#[derive(Clone, Copy, Debug, PartialEq, Eq, Structural)]
pub enum CryptoError {
    /// The text is not the base64 of 32 bytes.
    InvalidPskLength,
    /// The message could not be sealed, or is not authentic.
    CryptoFailure,
}

impl CryptoError {
    /// The error in words.
    pub open spec fn spec_message(self) -> Seq<char> {
        match self {
            CryptoError::InvalidPskLength => "invalid PSK length: expected 32 bytes"@,
            CryptoError::CryptoFailure => "crypto failure"@,
        }
    }

    /// The error in words.
    pub fn message(&self) -> (r: String)
        ensures
            r@ == self.spec_message(),
    {
        match self {
            CryptoError::InvalidPskLength => own("invalid PSK length: expected 32 bytes"),
            CryptoError::CryptoFailure => own("crypto failure"),
        }
    }
}

/// What HKDF-SHA256 without a salt expands `ikm` to under `info`: 32 bytes.
pub uninterp spec fn hkdf_sha256(ikm: Seq<u8>, info: Seq<u8>) -> Seq<u8>;

/// What ChaCha20-Poly1305 seals `msg` to, the tag at the end.
pub uninterp spec fn aead_sealed(
    key: Seq<u8>,
    nonce: Seq<u8>,
    msg: Seq<u8>,
    aad: Seq<u8>,
) -> Seq<u8>;

/// What ChaCha20-Poly1305 opens `ciphertext` to, if its tag is right.
pub uninterp spec fn aead_opened(
    key: Seq<u8>,
    nonce: Seq<u8>,
    ciphertext: Seq<u8>,
    aad: Seq<u8>,
) -> Option<Seq<u8>>;

/// The key between a node and the relay:
/// HKDF(psk, info = "sn/node-key" || node_id).
pub open spec fn node_key(psk: Seq<u8>, node_id: Seq<u8>) -> Seq<u8> {
    hkdf_sha256(psk, ascii_bytes("sn/node-key"@) + node_id)
}

/// The key for data from one node to another:
/// HKDF(psk, info = "sn/e2e-key" || src || dst).
pub open spec fn e2e_key(psk: Seq<u8>, src: Seq<u8>, dst: Seq<u8>) -> Seq<u8> {
    hkdf_sha256(psk, ascii_bytes("sn/e2e-key"@) + src + dst)
}

/// The ciphertext of a message, unless the message is too long to seal.
pub open spec fn sealed(key: Seq<u8>, nonce: Seq<u8>, msg: Seq<u8>, aad: Seq<u8>) -> Option<
    Seq<u8>,
> {
    if msg.len() <= MAX_PLAINTEXT_LEN {
        Some(aead_sealed(key, nonce, msg, aad))
    } else {
        None
    }
}

/// The message in a ciphertext, if it is authentic and not too long to open.
pub open spec fn opened(
    key: Seq<u8>,
    nonce: Seq<u8>,
    ciphertext: Seq<u8>,
    aad: Seq<u8>,
) -> Option<Seq<u8>> {
    if ciphertext.len() <= MAX_PLAINTEXT_LEN + TAG_LEN {
        aead_opened(key, nonce, ciphertext, aad)
    } else {
        None
    }
}

/// The pre-shared key that a text holds, if it is the base64 of 32 bytes.
pub open spec fn psk_of(text: Seq<char>) -> Option<Seq<u8>> {
    if exists|b: Seq<u8>| b.len() == 32 && #[trigger] base64_text(b) == text {
        Some(choose|b: Seq<u8>| b.len() == 32 && #[trigger] base64_text(b) == text)
    } else {
        None
    }
}

/// What goes into the derivation of a node's key, byte by byte: the letters of
/// "sn/node-key" and the id.
pub proof fn law_node_key_input(psk: Seq<u8>, node_id: Seq<u8>)
    ensures
        node_key(psk, node_id) == hkdf_sha256(
            psk,
            seq![115u8, 110u8, 47u8, 110u8, 111u8, 100u8, 101u8, 45u8, 107u8, 101u8, 121u8]
                + node_id,
        ),
{
    reveal_strlit("sn/node-key");
    assert(ascii_bytes("sn/node-key"@) =~= seq![
        115u8,
        110u8,
        47u8,
        110u8,
        111u8,
        100u8,
        101u8,
        45u8,
        107u8,
        101u8,
        121u8,
    ]);
}

/// What goes into the derivation of the key between two nodes, byte by byte: the
/// letters of "sn/e2e-key", the sender's id and the receiver's.
pub proof fn law_e2e_key_input(psk: Seq<u8>, src: Seq<u8>, dst: Seq<u8>)
    ensures
        e2e_key(psk, src, dst) == hkdf_sha256(
            psk,
            seq![115u8, 110u8, 47u8, 101u8, 50u8, 101u8, 45u8, 107u8, 101u8, 121u8] + src + dst,
        ),
{
    reveal_strlit("sn/e2e-key");
    assert(ascii_bytes("sn/e2e-key"@) =~= seq![
        115u8,
        110u8,
        47u8,
        101u8,
        50u8,
        101u8,
        45u8,
        107u8,
        101u8,
        121u8,
    ]);
}

/// The inputs of two derivations are the same only for the same ids: no two nodes,
/// no two ordered pairs of nodes, and no node and pair share one.
pub proof fn law_key_inputs_differ(a: Seq<u8>, b: Seq<u8>, c: Seq<u8>, d: Seq<u8>)
    requires
        a.len() == 16,
        b.len() == 16,
        c.len() == 16,
        d.len() == 16,
    ensures
        ascii_bytes("sn/e2e-key"@) + a + b == ascii_bytes("sn/e2e-key"@) + c + d ==> a == c && b
            == d,
        ascii_bytes("sn/node-key"@) + a == ascii_bytes("sn/node-key"@) + c ==> a == c,
        ascii_bytes("sn/node-key"@) + a != ascii_bytes("sn/e2e-key"@) + c + d,
{
    reveal_strlit("sn/e2e-key");
    reveal_strlit("sn/node-key");
    let e = ascii_bytes("sn/e2e-key"@);
    let n = ascii_bytes("sn/node-key"@);
    assert((e + a + b).subrange(10, 26) =~= a);
    assert((e + c + d).subrange(10, 26) =~= c);
    assert((e + a + b).skip(26) =~= b);
    assert((e + c + d).skip(26) =~= d);
    assert((n + a).skip(11) =~= a);
    assert((n + c).skip(11) =~= c);
    assert((n + a).len() != (e + c + d).len());
}

/// Every message of up to 274877906816 bytes is sealed, and every ciphertext of
/// up to sixteen bytes more is tried: nothing shorter is refused for its length.
pub proof fn law_no_shorter_message_is_refused(
    key: Seq<u8>,
    nonce: Seq<u8>,
    bytes: Seq<u8>,
    aad: Seq<u8>,
)
    ensures
        bytes.len() <= 274877906816 ==> sealed(key, nonce, bytes, aad) == Some(
            aead_sealed(key, nonce, bytes, aad),
        ),
        bytes.len() > 274877906816 ==> sealed(key, nonce, bytes, aad) is None,
        bytes.len() <= 274877906832 ==> opened(key, nonce, bytes, aad) == aead_opened(
            key,
            nonce,
            bytes,
            aad,
        ),
        bytes.len() > 274877906832 ==> opened(key, nonce, bytes, aad) is None,
{
}

/// A key is found again in its base64 text, and only a text of 32 bytes holds one.
pub proof fn law_psk_text_holds_the_key(text: Seq<char>, psk: Seq<u8>)
    requires
        psk.len() == 32,
    ensures
        psk_of(text) == Some(psk) <==> base64_text(psk) == text,
        psk_of(base64_text(psk)) == Some(psk),
{
    if base64_text(psk) == text {
        law_base64_text_injective(psk_of(text)->0, psk);
    }
    law_base64_text_injective(psk_of(base64_text(psk))->0, psk);
}

/// `Hkdf::<Sha256>::new` without a salt and `Hkdf::expand` to 32 bytes, of the
/// `hkdf` and `sha2` crates. Expanding fails only beyond 255 blocks of 32 bytes,
/// so it does not fail here.
#[verifier::external_body]
fn hkdf_expand(ikm: &[u8], info: &[u8]) -> (r: [u8; 32])
    ensures
        r@ == hkdf_sha256(ikm@, info@),
{
    let mut okm = [0u8;32];
    hkdf::Hkdf::<sha2::Sha256>::new(None, ikm).expand(info, &mut okm).expect(
        "HKDF expand must not fail for 32-byte okm",
    );
    okm
}

/// `Aead::encrypt` of the `aead` crate with `ChaCha20Poly1305` of the
/// `chacha20poly1305` crate: the ciphertext is as long as the message and the
/// tag, and the same key, nonce and associated data open it again. It fails, or
/// panics, only for messages that its block counter cannot cover.
#[verifier::external_body]
fn chacha_encrypt(key: &[u8; 32], nonce12: &[u8; 12], msg: &[u8], aad: &[u8]) -> (r: Result<
    Vec<u8>,
    aead::Error,
>)
    requires
        msg@.len() <= MAX_PLAINTEXT_LEN,
    ensures
        r is Ok,
        r->Ok_0@ == aead_sealed(key@, nonce12@, msg@, aad@),
        r->Ok_0@.len() == msg@.len() + TAG_LEN,
        aead_opened(key@, nonce12@, r->Ok_0@, aad@) == Some(msg@),
{
    let cipher = <chacha20poly1305::ChaCha20Poly1305 as aead::KeyInit>::new(
        chacha20poly1305::Key::from_slice(key),
    );
    aead::Aead::encrypt(
        &cipher,
        chacha20poly1305::Nonce::from_slice(nonce12),
        aead::Payload { msg, aad },
    )
}

/// `Aead::decrypt` of the `aead` crate with `ChaCha20Poly1305` of the
/// `chacha20poly1305` crate: the message, where the tag at the end of the
/// ciphertext is right, and then sealing the message gives the ciphertext again.
/// It panics only for authentic messages that its block counter cannot cover.
#[verifier::external_body]
fn chacha_decrypt(key: &[u8; 32], nonce12: &[u8; 12], ciphertext: &[u8], aad: &[u8]) -> (r: Result<
    Vec<u8>,
    aead::Error,
>)
    requires
        ciphertext@.len() <= MAX_PLAINTEXT_LEN + TAG_LEN,
    ensures
        match r {
            Ok(msg) => {
                &&& aead_opened(key@, nonce12@, ciphertext@, aad@) == Some(msg@)
                &&& ciphertext@.len() == msg@.len() + TAG_LEN
                &&& aead_sealed(key@, nonce12@, msg@, aad@) == ciphertext@
            },
            Err(_) => aead_opened(key@, nonce12@, ciphertext@, aad@) is None,
        },
{
    let cipher = <chacha20poly1305::ChaCha20Poly1305 as aead::KeyInit>::new(
        chacha20poly1305::Key::from_slice(key),
    );
    aead::Aead::decrypt(
        &cipher,
        chacha20poly1305::Nonce::from_slice(nonce12),
        aead::Payload { msg: ciphertext, aad },
    )
}

/// `getrandom::getrandom` on twelve bytes, filled from the system's random
/// source. Nothing is promised of the bytes.
#[verifier::external_body]
fn random_bytes12() -> (r: Result<[u8; 12], getrandom::Error>) {
    let mut bytes = [0u8;12];
    match getrandom::getrandom(&mut bytes) {
        Ok(()) => Ok(bytes),
        Err(e) => Err(e),
    }
}

/// The pre-shared key that a text holds: standard base64 of 32 bytes.
pub fn decode_psk_base64(psk_base64: &str) -> (r: Result<[u8; 32], CryptoError>)
    ensures
        match r {
            Ok(psk) => base64_text(psk@) == psk_base64@,
            Err(e) => {
                &&& e == CryptoError::InvalidPskLength
                &&& forall|b: Seq<u8>| b.len() == 32 ==> #[trigger] base64_text(b) != psk_base64@
            },
        },
        psk_of(psk_base64@) == match r {
            Ok(psk) => Some(psk@),
            Err(_) => None,
        },
{
    match decode_standard(psk_base64) {
        Ok(bytes) => {
            if bytes.len() != 32 {
                proof {
                    assert forall|b: Seq<u8>| b.len() == 32 implies #[trigger] base64_text(b)
                        != psk_base64@ by {
                        if base64_text(b) == psk_base64@ {
                            law_base64_text_injective(b, bytes@);
                        }
                    }
                }
                return Err(CryptoError::InvalidPskLength);
            }
            proof {
                law_base64_text_injective(psk_of(psk_base64@).unwrap(), bytes@);
            }
            Ok(to_array(bytes.as_slice()))
        },
        Err(_) => Err(CryptoError::InvalidPskLength),
    }
}

/// The bytes of a label of ASCII characters.
fn label_bytes(label: &str) -> (r: Vec<u8>)
    requires
        vstd::string::is_ascii(label),
    ensures
        r@ == ascii_bytes(label@),
{
    let r = vstd::slice::slice_to_vec(label.as_bytes());
    proof {
        vstd::string::is_ascii_spec_bytes(label);
        assert(r@ =~= ascii_bytes(label@));
    }
    r
}

/// The key between a node and the relay.
pub fn derive_node_key(psk: &[u8; 32], node_id: NodeId) -> (r: [u8; 32])
    ensures
        r@ == node_key(psk@, node_id@),
{
    // HKDF(psk, info = "sn/node-key" || node_id)
    proof {
        reveal_strlit("sn/node-key");
    }
    let mut info = label_bytes("sn/node-key");
    append(&mut info, node_id.as_bytes());
    hkdf_expand(psk, info.as_slice())
}

/// The key for data from `src` to `dst`. Both ends derive it from the network's
/// pre-shared key, which the relay does not have.
pub fn derive_e2e_key(psk: &[u8; 32], src: NodeId, dst: NodeId) -> (r: [u8; 32])
    ensures
        r@ == e2e_key(psk@, src@, dst@),
{
    // HKDF(psk, info = "sn/e2e-key" || src || dst)
    proof {
        reveal_strlit("sn/e2e-key");
    }
    let mut info = label_bytes("sn/e2e-key");
    append(&mut info, src.as_bytes());
    append(&mut info, dst.as_bytes());
    hkdf_expand(psk, info.as_slice())
}

/// Seals a message: only who holds the key can read it, and a change to it or
/// to the associated data is noticed. What comes back opens to the message.
pub fn seal(node_key: &[u8; 32], nonce12: &[u8; 12], plaintext: &[u8], aad: &[u8]) -> (r: Result<
    Vec<u8>,
    CryptoError,
>)
    ensures
        match r {
            Ok(ciphertext) => {
                &&& sealed(node_key@, nonce12@, plaintext@, aad@) == Some(ciphertext@)
                &&& ciphertext@.len() == plaintext@.len() + TAG_LEN
                &&& opened(node_key@, nonce12@, ciphertext@, aad@) == Some(plaintext@)
            },
            Err(e) => {
                &&& e == CryptoError::CryptoFailure
                &&& sealed(node_key@, nonce12@, plaintext@, aad@) is None
            },
        },
{
    if plaintext.len() as u64 > MAX_PLAINTEXT_LEN {
        return Err(CryptoError::CryptoFailure);
    }
    match chacha_encrypt(node_key, nonce12, plaintext, aad) {
        Ok(ciphertext) => Ok(ciphertext),
        Err(_) => Err(CryptoError::CryptoFailure),
    }
}

/// Opens a sealed message. What comes back seals to the ciphertext again.
pub fn open(node_key: &[u8; 32], nonce12: &[u8; 12], ciphertext: &[u8], aad: &[u8]) -> (r: Result<
    Vec<u8>,
    CryptoError,
>)
    ensures
        match r {
            Ok(plaintext) => {
                &&& opened(node_key@, nonce12@, ciphertext@, aad@) == Some(plaintext@)
                &&& ciphertext@.len() == plaintext@.len() + TAG_LEN
                &&& sealed(node_key@, nonce12@, plaintext@, aad@) == Some(ciphertext@)
            },
            Err(e) => {
                &&& e == CryptoError::CryptoFailure
                &&& opened(node_key@, nonce12@, ciphertext@, aad@) is None
            },
        },
{
    if ciphertext.len() as u64 > MAX_PLAINTEXT_LEN + TAG_LEN {
        return Err(CryptoError::CryptoFailure);
    }
    match chacha_decrypt(node_key, nonce12, ciphertext, aad) {
        Ok(plaintext) => Ok(plaintext),
        Err(_) => Err(CryptoError::CryptoFailure),
    }
}

/// The nonce that a draw gave: the bytes as they came, or nothing where the draw
/// failed.
pub fn drawn_nonce12(drawn: Result<[u8; 12], getrandom::Error>) -> (r: Option<[u8; 12]>)
    ensures
        match drawn {
            Ok(bytes) => r == Some(bytes),
            Err(_) => r is None,
        },
{
    match drawn {
        Ok(nonce) => Some(nonce),
        Err(_) => None,
    }
}

/// Twelve fresh random bytes, or nothing where the system's random source fails.
/// No promise is made of their values: any twelve bytes may come.
pub fn random_nonce12() -> (r: Option<[u8; 12]>)
    ensures
        r matches Some(nonce) ==> nonce@.len() == 12,
{
    drawn_nonce12(random_bytes12())
}

/// The node id with the bytes of a UUID.
pub fn node_id_from_uuid(uuid: [u8; 16]) -> (r: NodeId)
    ensures
        r@ == uuid@,
{
    NodeId(uuid)
}

} // verus!
