use simple_network::crypto::{
    decode_psk_base64, derive_e2e_key, derive_node_key, drawn_nonce12, node_id_from_uuid, open,
    random_nonce12, seal, CryptoError,
};
use simple_network::wire::{MsgType, NodeId, WIRE_VERSION};

#[test]
fn roundtrip_encrypt_decrypt() {
    let psk = [7u8; 32];
    let node_id = NodeId([1u8; 16]);
    let key = derive_node_key(&psk, node_id);

    let nonce = random_nonce12().unwrap();
    let aad = {
        let mut v = Vec::new();
        v.push(WIRE_VERSION);
        v.push(MsgType::Control.code());
        v.extend_from_slice(node_id.as_bytes());
        v.extend_from_slice(node_id.as_bytes());
        v
    };

    let pt = b"hello";
    let ct = seal(&key, &nonce, pt, &aad).unwrap();
    let out = open(&key, &nonce, &ct, &aad).unwrap();
    assert_eq!(&out, pt);
}

#[test]
fn seal_matches_the_published_vector() {
    let mut key = [0u8; 32];
    for i in 0..32 {
        key[i] = 0x80 + i as u8;
    }
    let nonce = [
        0x07, 0x00, 0x00, 0x00, 0x40, 0x41, 0x42, 0x43, 0x44, 0x45, 0x46, 0x47,
    ];
    let aad = [
        0x50, 0x51, 0x52, 0x53, 0xc0, 0xc1, 0xc2, 0xc3, 0xc4, 0xc5, 0xc6, 0xc7,
    ];
    let text = b"Ladies and Gentlemen of the class of '99: If I could offer you only one tip for the future, sunscreen would be it.";
    let ct = seal(&key, &nonce, text, &aad).unwrap();
    assert_eq!(ct.len(), text.len() + 16);
    assert_eq!(
        &ct[..16],
        &[
            0xd3, 0x1a, 0x8d, 0x34, 0x64, 0x8e, 0x60, 0xdb, 0x7b, 0x86, 0xaf, 0xbc, 0x53, 0xef,
            0x7e, 0xc2
        ]
    );
    assert_eq!(
        &ct[text.len()..],
        &[
            0x1a, 0xe1, 0x0b, 0x59, 0x4f, 0x09, 0xe2, 0x6a, 0x7e, 0x90, 0x2e, 0xcb, 0xd0, 0x60,
            0x06, 0x91
        ]
    );
    assert_eq!(open(&key, &nonce, &ct, &aad).unwrap(), text.to_vec());
}

#[test]
fn open_refuses_what_was_changed() {
    let key = [9u8; 32];
    let nonce = [3u8; 12];
    let ct = seal(&key, &nonce, b"payload", b"header").unwrap();
    let mut bad = ct.clone();
    bad[0] ^= 1;
    assert_eq!(open(&key, &nonce, &bad, b"header"), Err(CryptoError::CryptoFailure));
    assert_eq!(open(&key, &nonce, &ct, b"Header"), Err(CryptoError::CryptoFailure));
    assert_eq!(open(&key, &[4u8; 12], &ct, b"header"), Err(CryptoError::CryptoFailure));
    assert_eq!(open(&[8u8; 32], &nonce, &ct, b"header"), Err(CryptoError::CryptoFailure));
    assert_eq!(open(&key, &nonce, &ct[..15], b"header"), Err(CryptoError::CryptoFailure));
    assert_eq!(open(&key, &nonce, &[], b"header"), Err(CryptoError::CryptoFailure));
}

#[test]
fn what_opens_seals_to_the_same_bytes() {
    let key = [5u8; 32];
    let nonce = [6u8; 12];
    let ct = seal(&key, &nonce, b"again", b"").unwrap();
    let pt = open(&key, &nonce, &ct, b"").unwrap();
    assert_eq!(seal(&key, &nonce, &pt, b"").unwrap(), ct);
}

#[test]
fn node_key_is_hkdf_of_label_and_id() {
    let psk = [7u8; 32];
    let id = NodeId([1u8; 16]);
    let mut info = b"sn/node-key".to_vec();
    info.extend_from_slice(&[1u8; 16]);
    let mut expected = [0u8; 32];
    hkdf::Hkdf::<sha2::Sha256>::new(None, &psk)
        .expand(&info, &mut expected)
        .unwrap();
    assert_eq!(derive_node_key(&psk, id), expected);
    assert_ne!(derive_node_key(&psk, NodeId([2u8; 16])), expected);
    assert_ne!(derive_node_key(&[8u8; 32], id), expected);
}

#[test]
fn e2e_key_is_hkdf_of_label_and_both_ids() {
    let psk = [7u8; 32];
    let mut info = b"sn/e2e-key".to_vec();
    info.extend_from_slice(&[1u8; 16]);
    info.extend_from_slice(&[2u8; 16]);
    let mut expected = [0u8; 32];
    hkdf::Hkdf::<sha2::Sha256>::new(None, &psk)
        .expand(&info, &mut expected)
        .unwrap();
    let key = derive_e2e_key(&psk, NodeId([1u8; 16]), NodeId([2u8; 16]));
    assert_eq!(key, expected);
    assert_ne!(derive_e2e_key(&psk, NodeId([2u8; 16]), NodeId([1u8; 16])), key);
}

#[test]
fn psk_is_base64_of_32_bytes() {
    let zeros = "AAAAAAAAAAAAAAAAAAAAAAAAAAAAAAAAAAAAAAAAAAA=";
    assert_eq!(decode_psk_base64(zeros), Ok([0u8; 32]));
    let mut psk = [0u8; 32];
    for i in 0..32 {
        psk[i] = (i * 37 + 11) as u8;
    }
    let text = base64::Engine::encode(&base64::engine::general_purpose::STANDARD, psk);
    assert_eq!(decode_psk_base64(&text), Ok(psk));
}

#[test]
fn psk_of_another_shape_is_refused() {
    let bad = [
        "",
        "AAAA",
        "not base64!",
        // no padding
        "AAAAAAAAAAAAAAAAAAAAAAAAAAAAAAAAAAAAAAAAAAA",
        // 31 and 33 bytes
        "AAAAAAAAAAAAAAAAAAAAAAAAAAAAAAAAAAAAAAAAAA==",
        "AAAAAAAAAAAAAAAAAAAAAAAAAAAAAAAAAAAAAAAAAAAA",
        // fill bits that are not zero
        "AAAAAAAAAAAAAAAAAAAAAAAAAAAAAAAAAAAAAAAAAAB=",
        // white space
        " AAAAAAAAAAAAAAAAAAAAAAAAAAAAAAAAAAAAAAAAAAA=",
        // the alphabet for file names
        "__________________________________________8=",
    ];
    for text in bad {
        assert_eq!(decode_psk_base64(text), Err(CryptoError::InvalidPskLength), "{text}");
    }
}

#[test]
fn crypto_errors_in_words() {
    assert_eq!(
        CryptoError::InvalidPskLength.message(),
        "invalid PSK length: expected 32 bytes"
    );
    assert_eq!(CryptoError::CryptoFailure.message(), "crypto failure");
}

#[test]
fn nonces_differ() {
    assert_ne!(random_nonce12().unwrap(), random_nonce12().unwrap());
}

#[test]
fn a_nonce_is_the_bytes_that_were_drawn() {
    assert_eq!(drawn_nonce12(Ok([7; 12])), Some([7; 12]));
    assert_eq!(drawn_nonce12(Err(getrandom::Error::UNSUPPORTED)), None);
}

#[test]
fn node_id_from_uuid_keeps_the_bytes() {
    let uuid = uuid::Uuid::parse_str("00112233-4455-6677-8899-aabbccddeeff").unwrap();
    let id = node_id_from_uuid(uuid.into_bytes());
    assert_eq!(id.as_bytes(), uuid.as_bytes());
}
