use simple_network::addr::{
    ipv4_text, ipv4_to_u32, overlay_network, parse_ipv4, u32_to_ipv4,
};
use simple_network::macos::{
    add_pi_header, macos_pi_header_for_ipv4, route_args, route_outcome, strip_pi_header, tun_name,
    TunName,
};
use simple_network::text::{contains, same_text, starts_with, to_ascii_lower, trim};
use simple_network::wire::Ipv4AddrBytes;

#[test]
fn trim_agrees_with_the_standard_one() {
    for c in '\0'..=char::MAX {
        let text = format!("{c}a{c}");
        if c.is_whitespace() || c < '\u{100}' {
            assert_eq!(trim(&text), text.trim(), "{c:?}");
        }
    }
    for text in ["", " ", "\t\r\n", "  udp\u{3000}", "a b", "\u{200b}x"] {
        assert_eq!(trim(text), text.trim());
    }
}

#[test]
fn ascii_lower_agrees_with_the_standard_one() {
    for c in '\0'..'\u{300}' {
        let text = format!("{c}Zz");
        assert_eq!(to_ascii_lower(&text), text.to_ascii_lowercase());
    }
}

#[test]
fn search_in_text() {
    assert!(contains("File exists", "exists"));
    assert!(contains("exists", "exists"));
    assert!(contains("abc", ""));
    assert!(!contains("exist", "exists"));
    assert!(!contains("exisexist", "exists"));
    assert!(starts_with("utun3", "utun"));
    assert!(!starts_with("utu", "utun"));
    assert!(same_text("run", "run"));
    assert!(!same_text("run", "Run"));
}

#[test]
fn ipv4_text_is_dotted_decimal() {
    for octets in [[0, 0, 0, 0], [10, 0, 0, 2], [255, 255, 255, 0], [1, 22, 199, 100]] {
        let text = format!("{}.{}.{}.{}", octets[0], octets[1], octets[2], octets[3]);
        assert_eq!(ipv4_text(Ipv4AddrBytes(octets)), text);
        assert_eq!(parse_ipv4(&text).unwrap().0, octets);
    }
    for n in 0..=255u8 {
        let text = ipv4_text(Ipv4AddrBytes([n, 0, n, 1]));
        assert_eq!(text, format!("{n}.0.{n}.1"));
        assert_eq!(parse_ipv4(&text).unwrap().0, [n, 0, n, 1]);
    }
}

#[test]
fn other_texts_are_no_ipv4() {
    for text in [
        "", "1", "1.2.3", "1.2.3.4.5", "1.2.3.", ".1.2.3", "1..2.3", "256.1.1.1", "1.1.1.1000",
        "01.1.1.1", "1.1.1.00", " 1.1.1.1", "1.1.1.1 ", "1.1.1.1\n", "a.b.c.d", "+1.1.1.1",
        "1.1.1.-1", "0x1.1.1.1", "\u{661}.1.1.1",
    ] {
        assert!(parse_ipv4(text).is_none(), "{text:?}");
    }
}

#[test]
fn ipv4_numbers() {
    assert_eq!(ipv4_to_u32(Ipv4AddrBytes([10, 1, 2, 3])), 0x0a01_0203);
    assert_eq!(u32_to_ipv4(0xc0a8_0001).0, [192, 168, 0, 1]);
    for v in [0, 1, 255, 256, 0x0102_0304, u32::MAX] {
        assert_eq!(ipv4_to_u32(u32_to_ipv4(v)), v);
    }
}

#[test]
fn network_is_the_masked_address() {
    let mask = Ipv4AddrBytes([255, 255, 240, 0]);
    let network = overlay_network(Ipv4AddrBytes([172, 16, 37, 9]), mask);
    assert_eq!(network.0, [172, 16, 32, 0]);
    assert_eq!(overlay_network(network, mask).0, network.0);
}

#[test]
fn route_command_for_the_overlay() {
    let args = route_args(
        "utun4",
        Ipv4AddrBytes([10, 0, 0, 2]),
        Ipv4AddrBytes([255, 255, 255, 0]),
    );
    assert_eq!(
        args,
        ["-n", "add", "-net", "10.0.0.0", "-netmask", "255.255.255.0", "-interface", "utun4"]
    );
}

#[test]
fn route_that_exists_is_fine() {
    assert_eq!(route_outcome(true, "", ""), Ok(()));
    assert_eq!(route_outcome(false, "route: File exists", ""), Ok(()));
    assert_eq!(route_outcome(false, "", "already exists"), Ok(()));
    assert_eq!(route_outcome(false, "exi", "sts"), Ok(()));
    assert_eq!(
        route_outcome(false, "out ", "not permitted"),
        Err("out not permitted".to_string())
    );
}

#[test]
fn tunnel_names() {
    assert!(matches!(tun_name(""), TunName::Auto));
    assert!(matches!(tun_name("  "), TunName::Auto));
    assert!(matches!(tun_name(" auto\n"), TunName::Auto));
    assert!(matches!(tun_name("utun"), TunName::Named(n) if n == "utun"));
    assert!(matches!(tun_name(" utun7 "), TunName::Named(n) if n == "utun7"));
    assert!(matches!(tun_name("sn0"), TunName::Ignored(n) if n == "sn0"));
    assert!(matches!(tun_name("AUTO"), TunName::Ignored(n) if n == "AUTO"));
}

#[test]
fn packet_information_header() {
    assert_eq!(macos_pi_header_for_ipv4(), [0, 0, 0, 2]);
    let framed = add_pi_header(b"ip");
    assert_eq!(framed, vec![0, 0, 0, 2, b'i', b'p']);
    assert_eq!(strip_pi_header(&framed), Some(b"ip".to_vec()));
    assert_eq!(strip_pi_header(&[0, 0, 0, 2]), None);
    assert_eq!(strip_pi_header(&[]), None);
}
