use simple_network::cli::{is_debug, parse_args, usage, ArgsError, Command};
use simple_network::client_config::{self, ClientConfig, ConfigError};
use simple_network::crypto::derive_node_key;
use simple_network::registry::{Registry, RegistryError};
use simple_network::relay;
use simple_network::relay_config::{RelayConfig, RelayConfigError};
use simple_network::wire::{Ipv4AddrBytes, NodeId};

const ZERO_PSK: &str = "AAAAAAAAAAAAAAAAAAAAAAAAAAAAAAAAAAAAAAAAAAA=";
const ONES_PSK: &str = "AQEBAQEBAQEBAQEBAQEBAQEBAQEBAQEBAQEBAQEBAQE=";
const NODE_A: &str = "00112233-4455-6677-8899-aabbccddeeff";

fn args(list: &[&str]) -> Vec<String> {
    list.iter().map(|s| s.to_string()).collect()
}

fn error_of(list: &[&str]) -> ArgsError {
    parse_args(&args(list)).unwrap_err()
}

#[test]
fn help_and_version_go_first() {
    for list in [&["p", "-h"][..], &["p", "run", "--help"], &["p", "-V", "--help"]] {
        assert!(matches!(parse_args(&args(list)), Ok(Command::Help)));
    }
    for list in [&["p", "-V"][..], &["p", "nonsense", "--version"]] {
        assert!(matches!(parse_args(&args(list)), Ok(Command::Version)));
    }
    // the program's own name is no argument
    assert!(matches!(error_of(&["-h"]), ArgsError::MissingCommand));
}

#[test]
fn run_needs_a_config() {
    let ok = parse_args(&args(&["p", "run", "--config", "a.toml"]));
    assert!(matches!(ok, Ok(Command::Run { config }) if config == "a.toml"));
    // the last one counts
    let ok = parse_args(&args(&["p", "run", "--config", "a", "--config", "b"]));
    assert!(matches!(ok, Ok(Command::Run { config }) if config == "b"));
    // a value may look like an option
    let ok = parse_args(&args(&["p", "run", "--config", "--config"]));
    assert!(matches!(ok, Ok(Command::Run { config }) if config == "--config"));
}

#[test]
fn argument_errors() {
    let cases: [(&[&str], &str, bool); 7] = [
        (&[], "missing command", true),
        (&["p"], "missing command", true),
        (&["p", "stop"], "unsupported command: stop", true),
        (&["p", "run"], "missing --config", false),
        (&["p", "run", "--config"], "--config requires a value", false),
        (&["p", "run", "-c", "x"], "unknown arg: -c", false),
        (&["p", "run", "--config", "x", "y"], "unknown arg: y", false),
    ];
    for (list, message, shows_usage) in cases {
        let e = error_of(list);
        assert_eq!(e.message(), message);
        assert_eq!(e.shows_usage(), shows_usage);
    }
}

#[test]
fn usage_text() {
    assert_eq!(
        usage("sn-relay"),
        "Usage:\n  sn-relay run --config <path>\n\nEnvironment:\n  RUST_LOG=info|debug"
    );
}

#[test]
fn debug_levels() {
    assert!(is_debug(Some("debug")));
    assert!(is_debug(Some("trace")));
    assert!(!is_debug(Some("info")));
    assert!(!is_debug(Some("Debug")));
    assert!(!is_debug(None));
}

#[test]
fn relay_transports() {
    assert_eq!(relay::Transport::parse(None).unwrap(), relay::Transport::Udp);
    assert_eq!(relay::Transport::parse(Some("udp")).unwrap(), relay::Transport::Udp);
    assert_eq!(relay::Transport::parse(Some("  TCP\n")).unwrap(), relay::Transport::Tcp);
    assert_eq!(relay::Transport::parse(Some("Both")).unwrap(), relay::Transport::Both);
    let e = relay::Transport::parse(Some(" QUIC ")).unwrap_err();
    assert_eq!(e.message(), "unsupported transport: quic (expected udp|tcp)");
    assert!(relay::Transport::parse(Some("")).is_err());
}

#[test]
fn client_transports() {
    assert_eq!(client_config::Transport::parse(None).unwrap(), client_config::Transport::Udp);
    assert_eq!(client_config::Transport::parse(Some("UDP ")).unwrap(), client_config::Transport::Udp);
    assert_eq!(client_config::Transport::parse(Some("tcp")).unwrap(), client_config::Transport::Tcp);
    let e = client_config::Transport::parse(Some("both")).unwrap_err();
    assert_eq!(e.message(), "unsupported transport: both (expected udp|tcp)");
}

fn client_config() -> ClientConfig {
    ClientConfig {
        server: "1.2.3.4:41641".to_string(),
        transport: None,
        node_id: NODE_A.to_string(),
        virtual_ip: "10.0.0.2".to_string(),
        netmask: None,
        mtu: None,
        tun: "sn0".to_string(),
        relay_psk_base64: ZERO_PSK.to_string(),
        network_psk_base64: None,
    }
}

#[test]
fn client_defaults() {
    let s = client_config().settings().unwrap();
    assert_eq!(s.transport, client_config::Transport::Udp);
    assert_eq!(s.virt_ip, Ipv4AddrBytes([10, 0, 0, 2]));
    assert_eq!(s.netmask, Ipv4AddrBytes([255, 255, 255, 0]));
    assert_eq!(s.mtu, 1280);
    assert_eq!(s.network_psk, [0u8; 32]);
    assert!(!s.own_network_psk);
    let id = NodeId(uuid::Uuid::parse_str(NODE_A).unwrap().into_bytes());
    assert_eq!(s.node_id, id);
    assert_eq!(s.node_key, derive_node_key(&[0u8; 32], id));
}

#[test]
fn client_settings_given() {
    let mut c = client_config();
    c.transport = Some("tcp".to_string());
    c.netmask = Some("255.0.0.0".to_string());
    c.mtu = Some(65535);
    c.network_psk_base64 = Some(ONES_PSK.to_string());
    let s = c.settings().unwrap();
    assert_eq!(s.transport, client_config::Transport::Tcp);
    assert_eq!(s.netmask, Ipv4AddrBytes([255, 0, 0, 0]));
    assert_eq!(s.mtu, 65535);
    assert_eq!(s.network_psk, [1u8; 32]);
    assert!(s.own_network_psk);
}

#[test]
fn client_config_errors_in_order() {
    let mut c = client_config();
    c.netmask = Some("255".to_string());
    assert_eq!(c.settings().unwrap_err().message(), "parsing netmask");
    c.network_psk_base64 = Some("x".to_string());
    assert_eq!(c.settings().unwrap_err().message(), "invalid network_psk_base64");
    c.relay_psk_base64 = "AAAA".to_string();
    assert_eq!(c.settings().unwrap_err().message(), "invalid relay_psk_base64");
    c.virtual_ip = "10.0.0".to_string();
    assert_eq!(c.settings().unwrap_err().message(), "parsing virtual_ip");
    c.node_id = "me".to_string();
    assert_eq!(c.settings().unwrap_err().message(), "parsing node_id");
    c.transport = Some("pigeon".to_string());
    let e = c.settings().unwrap_err();
    assert!(matches!(&e, ConfigError::Transport(_)));
    assert_eq!(e.message(), "unsupported transport: pigeon (expected udp|tcp)");
}

fn entries(list: &[(&str, &str)]) -> Vec<(String, String)> {
    list.iter().map(|(a, b)| (a.to_string(), b.to_string())).collect()
}

#[test]
fn registry_knows_nodes_and_addresses() {
    let psk = [4u8; 32];
    let list = entries(&[
        (NODE_A, "10.0.0.2"),
        ("11111111111111111111111111111111", "10.0.0.3"),
    ]);
    let r = Registry::build(&list, &psk).unwrap();
    let a = NodeId(uuid::Uuid::parse_str(NODE_A).unwrap().into_bytes());
    let peer = r.peer(&a).unwrap();
    assert_eq!(peer.node, a);
    assert_eq!(peer.virt_ip, Ipv4AddrBytes([10, 0, 0, 2]));
    assert_eq!(peer.key, derive_node_key(&psk, a));
    assert_eq!(r.node_at(&Ipv4AddrBytes([10, 0, 0, 3])), Some(NodeId([0x11; 16])));
    assert_eq!(r.node_at(&Ipv4AddrBytes([10, 0, 0, 4])), None);
    assert!(r.peer(&NodeId([9; 16])).is_none());
}

#[test]
fn later_entries_replace_earlier_ones() {
    let list = entries(&[
        ("11111111111111111111111111111111", "10.0.0.3"),
        ("11111111-1111-1111-1111-111111111111", "10.0.0.4"),
        ("22222222222222222222222222222222", "10.0.0.3"),
    ]);
    let r = Registry::build(&list, &[0; 32]).unwrap();
    let one = NodeId([0x11; 16]);
    assert_eq!(r.peer(&one).unwrap().virt_ip, Ipv4AddrBytes([10, 0, 0, 4]));
    assert_eq!(r.node_at(&Ipv4AddrBytes([10, 0, 0, 4])), Some(one));
    assert_eq!(r.node_at(&Ipv4AddrBytes([10, 0, 0, 3])), Some(NodeId([0x22; 16])));
}

#[test]
fn registry_errors() {
    let e = Registry::build(&entries(&[("nobody", "x")]), &[0; 32]).err().unwrap();
    assert!(matches!(&e, RegistryError::InvalidNodeId { .. }));
    assert_eq!(e.message(), "invalid node_id UUID: nobody");
    let list = entries(&[(NODE_A, "10.0.0.2"), (NODE_A, "10.0.0.256")]);
    let e = Registry::build(&list, &[0; 32]).err().unwrap();
    assert!(matches!(&e, RegistryError::InvalidIpv4 { .. }));
    assert_eq!(e.message(), format!("invalid IPv4 for {NODE_A}: 10.0.0.256"));
}

#[test]
fn relay_config_errors_in_order() {
    let mut c = RelayConfig {
        listen: "0.0.0.0:41641".to_string(),
        transport: Some("both".to_string()),
        relay_psk_base64: ZERO_PSK.to_string(),
        peers: entries(&[(NODE_A, "10.0.0.2")]),
    };
    assert!(c.build().is_ok());
    c.peers = entries(&[(NODE_A, "")]);
    let e = c.build().err().unwrap();
    assert_eq!(e.message(), format!("invalid IPv4 for {NODE_A}: "));
    c.relay_psk_base64 = String::new();
    let e = c.build().err().unwrap();
    assert_eq!(e.message(), "invalid relay_psk_base64");
    c.transport = Some("x".to_string());
    let e = c.build().err().unwrap();
    assert!(matches!(&e, RelayConfigError::Transport(_)));
    assert_eq!(e.message(), "unsupported transport: x (expected udp|tcp)");
}
