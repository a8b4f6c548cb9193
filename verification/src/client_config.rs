//! What a client's configuration says.

use vstd::prelude::*;

use crate::addr::{address_of, dotted, law_dotted_injective, parse_ipv4};
use crate::crypto::{decode_psk_base64, derive_node_key, node_key, psk_of};
use crate::text::{own, same_text};
use crate::transport::{law_default_transport, optional_text, setting, transport_word, word};
use crate::transport::UnsupportedTransport;
use crate::uuid_text::{parse_uuid, uuid_parsed};
use crate::wire::{Ipv4AddrBytes, NodeId};

verus! {

/// How the client reaches the relay.
#[derive(Clone, Copy, Debug, PartialEq, Eq, Structural)]
pub enum Transport {
    Udp,
    Tcp,
}

impl Transport {
    /// The transport that a configuration names: "udp" or "tcp", whatever the
    /// case and the white space around it, and UDP where it names none.
    pub fn parse(v: Option<&str>) -> (r: Result<Self, UnsupportedTransport>)
        ensures
            match r {
                Ok(Transport::Udp) => transport_word(setting(v)) == "udp"@,
                Ok(Transport::Tcp) => transport_word(setting(v)) == "tcp"@,
                Err(e) => {
                    &&& e.word@ == transport_word(setting(v))
                    &&& e.word@ != "udp"@
                    &&& e.word@ != "tcp"@
                },
            },
            v is None ==> r == Ok::<_, UnsupportedTransport>(Transport::Udp),
    {
        let word = word(v);
        proof {
            law_default_transport();
            reveal_strlit("udp");
            reveal_strlit("tcp");
        }
        if same_text(word.as_str(), "udp") {
            Ok(Transport::Udp)
        } else if same_text(word.as_str(), "tcp") {
            Ok(Transport::Tcp)
        } else {
            Err(UnsupportedTransport { word })
        }
    }
}

/// The MTU of the tunnel where the configuration gives none.
pub const DEFAULT_MTU: u16 = 1280;

/// A client's configuration, as text.
#[derive(Debug)]
pub struct ClientConfig {
    pub server: String,
    pub transport: Option<String>,
    pub node_id: String,
    pub virtual_ip: String,
    pub netmask: Option<String>,
    pub mtu: Option<u16>,
    pub tun: String,
    pub relay_psk_base64: String,
    /// Optional. If omitted, falls back to relay_psk_base64 (reduces E2E security).
    pub network_psk_base64: Option<String>,
}

/// Why a configuration is of no use: the field that is not in order.
#[derive(Debug)]
pub enum ConfigError {
    Transport(UnsupportedTransport),
    NodeId,
    VirtualIp,
    RelayPsk,
    NetworkPsk,
    Netmask,
}

impl ConfigError {
    /// The error in words.
    pub fn message(&self) -> (r: String)
        ensures
            r@ == match self {
                ConfigError::Transport(e) => "unsupported transport: "@ + e.word@
                    + " (expected udp|tcp)"@,
                ConfigError::NodeId => "parsing node_id"@,
                ConfigError::VirtualIp => "parsing virtual_ip"@,
                ConfigError::RelayPsk => "invalid relay_psk_base64"@,
                ConfigError::NetworkPsk => "invalid network_psk_base64"@,
                ConfigError::Netmask => "parsing netmask"@,
            },
    {
        match self {
            ConfigError::Transport(e) => e.message(),
            ConfigError::NodeId => own("parsing node_id"),
            ConfigError::VirtualIp => own("parsing virtual_ip"),
            ConfigError::RelayPsk => own("invalid relay_psk_base64"),
            ConfigError::NetworkPsk => own("invalid network_psk_base64"),
            ConfigError::Netmask => own("parsing netmask"),
        }
    }
}

/// What a client needs to know to run.
#[derive(Debug)]
pub struct ClientSettings {
    pub transport: Transport,
    pub node_id: NodeId,
    pub virt_ip: Ipv4AddrBytes,
    pub netmask: Ipv4AddrBytes,
    pub mtu: i32,
    pub node_key: [u8; 32],
    pub network_psk: [u8; 32],
    /// Whether the configuration gave a network key of its own. Otherwise the
    /// relay's key stands in for it, and the relay could read the data.
    pub own_network_psk: bool,
}

/// The netmask that stands in for one is the address of a `/24` mask.
proof fn lemma_default_netmask()
    ensures
        address_of("255.255.255.0"@) == Some(seq![255u8, 255u8, 255u8, 0u8]),
{
    let mask = seq![255u8, 255u8, 255u8, 0u8];
    let text = "255.255.255.0"@;
    reveal_strlit("255.255.255.0");
    assert(dotted(mask) =~= text);
    law_dotted_injective(mask, address_of(text)->0);
}

impl ClientConfig {
    /// The word for the transport.
    pub open spec fn transport_is(self, word: Seq<char>) -> bool {
        transport_word(optional_text(self.transport)) == word
    }

    /// The text of the netmask: a `/24` where none is given.
    pub open spec fn netmask_text(self) -> Seq<char> {
        match self.netmask {
            Some(text) => text@,
            None => "255.255.255.0"@,
        }
    }

    /// The text of the network's key: the relay's where none is given.
    pub open spec fn network_psk_text(self) -> Seq<char> {
        match self.network_psk_base64 {
            Some(text) => text@,
            None => self.relay_psk_base64@,
        }
    }

    /// Whether the transport is in order.
    pub open spec fn transport_ok(self) -> bool {
        self.transport_is("udp"@) || self.transport_is("tcp"@)
    }

    /// Whether the fields up to the node's id are in order.
    pub open spec fn node_id_ok(self) -> bool {
        self.transport_ok() && uuid_parsed(self.node_id@) is Some
    }

    /// Whether the fields up to the virtual address are in order.
    pub open spec fn virtual_ip_ok(self) -> bool {
        self.node_id_ok() && address_of(self.virtual_ip@) is Some
    }

    /// Whether the fields up to the relay's key are in order.
    pub open spec fn relay_psk_ok(self) -> bool {
        self.virtual_ip_ok() && psk_of(self.relay_psk_base64@) is Some
    }

    /// Whether the fields up to the network's key are in order.
    pub open spec fn network_psk_ok(self) -> bool {
        self.relay_psk_ok() && psk_of(self.network_psk_text()) is Some
    }

    /// Whether all fields are in order, up to the netmask, which is looked at last.
    pub open spec fn netmask_ok(self) -> bool {
        self.network_psk_ok() && address_of(self.netmask_text()) is Some
    }

    /// What the configuration says, or the first field that is not in order.
    pub fn settings(&self) -> (r: Result<ClientSettings, ConfigError>)
        ensures
            match r {
                Ok(s) => {
                    &&& self.netmask_ok()
                    &&& self.transport_is(
                        match s.transport {
                            Transport::Udp => "udp"@,
                            Transport::Tcp => "tcp"@,
                        },
                    )
                    &&& uuid_parsed(self.node_id@) == Some(s.node_id@)
                    &&& address_of(self.virtual_ip@) == Some(s.virt_ip@)
                    &&& address_of(self.netmask_text()) == Some(s.netmask@)
                    &&& self.netmask is None ==> s.netmask@ == seq![255u8, 255u8, 255u8, 0u8]
                    &&& s.mtu == match self.mtu {
                        Some(mtu) => mtu as i32,
                        None => DEFAULT_MTU as i32,
                    }
                    &&& s.node_key@ == node_key(psk_of(self.relay_psk_base64@)->0, s.node_id@)
                    &&& psk_of(self.network_psk_text()) == Some(s.network_psk@)
                    &&& s.own_network_psk == self.network_psk_base64 is Some
                },
                Err(ConfigError::Transport(e)) => {
                    &&& !self.transport_ok()
                    &&& self.transport_is(e.word@)
                },
                Err(ConfigError::NodeId) => self.transport_ok() && !self.node_id_ok(),
                Err(ConfigError::VirtualIp) => self.node_id_ok() && !self.virtual_ip_ok(),
                Err(ConfigError::RelayPsk) => self.virtual_ip_ok() && !self.relay_psk_ok(),
                Err(ConfigError::NetworkPsk) => self.relay_psk_ok() && !self.network_psk_ok(),
                Err(ConfigError::Netmask) => {
                    &&& self.network_psk_ok()
                    &&& !self.netmask_ok()
                    &&& self.netmask is Some
                },
            },
    {
        let transport_text: Option<&str> = match &self.transport {
            Some(text) => Some(text.as_str()),
            None => None,
        };
        assert(setting(transport_text) == optional_text(self.transport));
        let transport = match Transport::parse(transport_text) {
            Ok(transport) => transport,
            Err(e) => return Err(ConfigError::Transport(e)),
        };
        let node_id = match parse_uuid(self.node_id.as_str()) {
            Ok(id) => NodeId(id),
            Err(_) => return Err(ConfigError::NodeId),
        };
        let virt_ip = match parse_ipv4(self.virtual_ip.as_str()) {
            Some(ip) => ip,
            None => return Err(ConfigError::VirtualIp),
        };
        let relay_psk: [u8; 32] = match decode_psk_base64(self.relay_psk_base64.as_str()) {
            Ok(psk) => psk,
            Err(_) => return Err(ConfigError::RelayPsk),
        };
        let network_psk: [u8; 32] = match &self.network_psk_base64 {
            Some(text) => match decode_psk_base64(text.as_str()) {
                Ok(psk) => psk,
                Err(_) => return Err(ConfigError::NetworkPsk),
            },
            None => relay_psk,
        };
        let node_key = derive_node_key(&relay_psk, node_id);
        let netmask_text: &str = match &self.netmask {
            Some(text) => text.as_str(),
            None => "255.255.255.0",
        };
        proof {
            lemma_default_netmask();
        }
        let netmask = match parse_ipv4(netmask_text) {
            Some(ip) => ip,
            None => return Err(ConfigError::Netmask),
        };
        // UDP-based overlays are sensitive to underlay MTU (PPPoE, tunnels, etc.).
        // A conservative default avoids fragmentation/blackholing for larger TCP transfers.
        let mtu: u16 = match self.mtu {
            Some(mtu) => mtu,
            None => DEFAULT_MTU,
        };
        Ok(
            ClientSettings {
                transport,
                node_id,
                virt_ip,
                netmask,
                mtu: mtu as i32,
                node_key,
                network_psk,
                own_network_psk: self.network_psk_base64.is_some(),
            },
        )
    }
}

/// A configuration is in order if and only if its transport is one that there is,
/// its id is a UUID, its addresses are addresses, and each key that it gives is a
/// key. Optional fields that are missing are no trouble.
pub proof fn law_config_in_order(c: ClientConfig)
    ensures
        c.netmask_ok() <==> {
            &&& match c.transport {
                Some(text) => transport_word(Some(text@)) == "udp"@ || transport_word(Some(text@))
                    == "tcp"@,
                None => true,
            }
            &&& uuid_parsed(c.node_id@) is Some
            &&& address_of(c.virtual_ip@) is Some
            &&& psk_of(c.relay_psk_base64@) is Some
            &&& match c.network_psk_base64 {
                Some(text) => psk_of(text@) is Some,
                None => true,
            }
            &&& match c.netmask {
                Some(text) => address_of(text@) is Some,
                None => true,
            }
        },
{
    law_default_transport();
    lemma_default_netmask();
}

/// A network key that the configuration gives is the one that is used. Only where
/// it gives none does the relay's key stand in.
pub proof fn law_network_key(c: ClientConfig)
    ensures
        match c.network_psk_base64 {
            Some(text) => psk_of(c.network_psk_text()) == psk_of(text@),
            None => psk_of(c.network_psk_text()) == psk_of(c.relay_psk_base64@),
        },
        match c.netmask {
            Some(text) => address_of(c.netmask_text()) == address_of(text@),
            None => address_of(c.netmask_text()) == Some(seq![255u8, 255u8, 255u8, 0u8]),
        },
{
    lemma_default_netmask();
}

} // verus!
