use simple_network::envelope::aad_bytes;
use simple_network::wire::{
    decode_control, decode_wire, encode_control, encode_wire, Control, Ipv4AddrBytes, MsgType,
    NodeId, WireError, WirePacket, WIRE_VERSION,
};

fn packet(t: MsgType, len: usize) -> WirePacket {
    WirePacket {
        v: WIRE_VERSION,
        t,
        src: NodeId([1u8; 16]),
        dst: NodeId([2u8; 16]),
        nonce12: [3u8; 12],
        ciphertext: (0..len).map(|i| i as u8).collect(),
    }
}

#[test]
fn nil_is_nil() {
    assert!(NodeId::nil().is_nil());
    assert_eq!(NodeId::nil().as_bytes(), &[0u8; 16]);
    let mut id = [0u8; 16];
    id[15] = 1;
    assert!(!NodeId(id).is_nil());
    assert!(NodeId([1u8; 16]) == NodeId([1u8; 16]));
    assert!(NodeId([1u8; 16]) != NodeId([2u8; 16]));
}

#[test]
fn ipv4_bytes_keep_the_octets() {
    let ip = Ipv4AddrBytes::from_std([10, 0, 0, 2]);
    assert_eq!(ip.to_std(), [10, 0, 0, 2]);
    assert!(ip == Ipv4AddrBytes([10, 0, 0, 2]));
    assert!(ip != Ipv4AddrBytes([2, 0, 0, 10]));
}

#[test]
fn message_type_codes() {
    assert_eq!(MsgType::Control.code(), 1);
    assert_eq!(MsgType::Data.code(), 2);
}

#[test]
fn wire_bytes_are_postcard() {
    for (t, index) in [(MsgType::Control, 0u32), (MsgType::Data, 1u32)] {
        for len in [0, 1, 127, 128, 300, 20_000] {
            let pkt = packet(t, len);
            let expected = postcard::to_stdvec(&(
                2u8,
                index,
                uuid::Uuid::from_bytes([1u8; 16]),
                uuid::Uuid::from_bytes([2u8; 16]),
                [3u8; 12],
                pkt.ciphertext.clone(),
            ))
            .unwrap();
            assert_eq!(encode_wire(&pkt).unwrap(), expected);
        }
    }
}

#[test]
fn wire_layout_byte_by_byte() {
    let mut expected = vec![2u8, 1, 16];
    expected.extend_from_slice(&[1u8; 16]);
    expected.push(16);
    expected.extend_from_slice(&[2u8; 16]);
    expected.extend_from_slice(&[3u8; 12]);
    expected.extend_from_slice(&[2, 0, 1]);
    assert_eq!(encode_wire(&packet(MsgType::Data, 2)).unwrap(), expected);
}

#[test]
fn wire_is_read_back() {
    for len in [0, 1, 127, 128, 2000] {
        let pkt = packet(MsgType::Data, len);
        let mut bytes = encode_wire(&pkt).unwrap();
        // what follows a packet is ignored
        bytes.extend_from_slice(b"rest");
        let back = decode_wire(&bytes).unwrap();
        assert_eq!(back.v, pkt.v);
        assert_eq!(back.t, pkt.t);
        assert_eq!(back.src, pkt.src);
        assert_eq!(back.dst, pkt.dst);
        assert_eq!(back.nonce12, pkt.nonce12);
        assert_eq!(back.ciphertext, pkt.ciphertext);
    }
}

#[test]
fn wire_cut_short_is_refused() {
    let bytes = encode_wire(&packet(MsgType::Control, 5)).unwrap();
    for n in 0..bytes.len() {
        assert!(matches!(decode_wire(&bytes[..n]), Err(WireError::Decode)), "{n}");
    }
    assert!(decode_wire(&bytes).is_ok());
}

#[test]
fn wire_with_a_bad_field_is_refused() {
    let good = encode_wire(&packet(MsgType::Control, 5)).unwrap();
    let mut bad_type = good.clone();
    bad_type[1] = 2;
    assert!(decode_wire(&bad_type).is_err());
    let mut bad_id_len = good.clone();
    bad_id_len[2] = 15;
    assert!(decode_wire(&bad_id_len).is_err());
    let mut other_version = good;
    other_version[0] = 9;
    assert_eq!(decode_wire(&other_version).unwrap().v, 9);
}

#[test]
fn wire_reads_what_postcard_reads() {
    // numbers may be written longer than needed
    let mut long = vec![2u8, 0x80, 0x00, 0x90, 0x00];
    long.extend_from_slice(&[1u8; 16]);
    long.push(16);
    long.extend_from_slice(&[2u8; 16]);
    long.extend_from_slice(&[3u8; 12]);
    long.push(0);
    let theirs: Result<(u8, u32, uuid::Uuid, uuid::Uuid, [u8; 12], Vec<u8>), _> =
        postcard::from_bytes(&long);
    assert!(theirs.is_ok());
    assert_eq!(decode_wire(&long).unwrap().t, MsgType::Control);
    // but not beyond the width of the number
    let mut endless = vec![2u8];
    endless.extend_from_slice(&[0x80; 40]);
    assert!(decode_wire(&endless).is_err());
    let too_big = [2u8, 0xff, 0xff, 0xff, 0xff, 0x1f];
    assert!(decode_wire(&too_big).is_err());
}

fn controls() -> Vec<(Control, Vec<u8>)> {
    let ip = Ipv4AddrBytes([10, 0, 0, 2]);
    let id = NodeId([7u8; 16]);
    let mut ok = vec![3u8, 10, 0, 0, 2, 16];
    ok.extend_from_slice(&[7u8; 16]);
    vec![
        (Control::Register { virtual_ip: ip }, vec![0, 10, 0, 0, 2]),
        (Control::Keepalive, vec![1]),
        (Control::Resolve { virtual_ip: ip }, vec![2, 10, 0, 0, 2]),
        (Control::ResolveOk { virtual_ip: ip, node_id: id }, ok),
        (Control::ResolveErr { virtual_ip: ip }, vec![4, 10, 0, 0, 2]),
    ]
}

#[test]
fn control_layout_byte_by_byte() {
    for (msg, expected) in controls() {
        assert_eq!(encode_control(&msg).unwrap(), expected);
    }
}

#[test]
fn control_is_read_back() {
    for (msg, mut bytes) in controls() {
        bytes.push(0xee);
        let back = decode_control(&bytes).unwrap();
        assert_eq!(format!("{back:?}"), format!("{msg:?}"));
    }
}

#[test]
fn control_cut_short_or_unknown_is_refused() {
    for (_, bytes) in controls() {
        for n in 0..bytes.len() {
            assert!(matches!(decode_control(&bytes[..n]), Err(WireError::Decode)));
        }
    }
    assert!(decode_control(&[5, 0, 0, 0, 0]).is_err());
}

#[test]
fn associated_data_is_the_header() {
    let aad = aad_bytes(2, MsgType::Data, NodeId([1u8; 16]), NodeId([2u8; 16]));
    let mut expected = vec![2u8, 2];
    expected.extend_from_slice(&[1u8; 16]);
    expected.extend_from_slice(&[2u8; 16]);
    assert_eq!(aad, expected);
    let other = aad_bytes(2, MsgType::Control, NodeId([1u8; 16]), NodeId([2u8; 16]));
    assert_ne!(aad, other);
}

#[test]
fn different_packets_have_different_bytes() {
    let base = encode_wire(&packet(MsgType::Control, 3)).unwrap();
    assert_ne!(base, encode_wire(&packet(MsgType::Data, 3)).unwrap());
    assert_ne!(base, encode_wire(&packet(MsgType::Control, 4)).unwrap());
    let mut other = packet(MsgType::Control, 3);
    other.nonce12[11] = 4;
    assert_ne!(base, encode_wire(&other).unwrap());
}

#[test]
fn what_is_decoded_encodes_again() {
    let mut long = vec![2u8, 0x81, 0x00, 0x90, 0x00];
    long.extend_from_slice(&[1u8; 16]);
    long.push(16);
    long.extend_from_slice(&[2u8; 16]);
    long.extend_from_slice(&[3u8; 12]);
    long.extend_from_slice(&[2, 0, 1]);
    let pkt = decode_wire(&long).unwrap();
    let bytes = encode_wire(&pkt).unwrap();
    assert_eq!(bytes, encode_wire(&packet(MsgType::Data, 2)).unwrap());
    let msg = decode_control(&[0x82, 0x00, 10, 0, 0, 2, 99]).unwrap();
    assert_eq!(encode_control(&msg).unwrap(), vec![2, 10, 0, 0, 2]);
}
