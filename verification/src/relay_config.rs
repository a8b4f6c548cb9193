//! What a relay's configuration says.

use vstd::prelude::*;

use crate::crypto::{decode_psk_base64, psk_of};
use crate::registry::{entry_texts, registry_of, Registry, RegistryError, RegistryErrorView};
use crate::registry::RegistryView;
use crate::relay::{Relay, RelayView, Transport};
use crate::text::own;
use crate::transport::{law_default_transport, optional_text, setting, transport_word};
use crate::transport::UnsupportedTransport;

verus! {

/// A relay's configuration, as text.
#[derive(Debug)]
pub struct RelayConfig {
    pub listen: String,
    pub transport: Option<String>,
    pub relay_psk_base64: String,
    /// For each node its UUID and its virtual address.
    pub peers: Vec<(String, String)>,
}

/// Why a configuration is of no use.
#[derive(Debug)]
pub enum RelayConfigError {
    Transport(UnsupportedTransport),
    RelayPsk,
    Peers(RegistryError),
}

impl RelayConfigError {
    /// The error in words.
    pub fn message(&self) -> (r: String)
        ensures
            r@ == match self {
                RelayConfigError::Transport(e) => "unsupported transport: "@ + e.word@
                    + " (expected udp|tcp)"@,
                RelayConfigError::RelayPsk => "invalid relay_psk_base64"@,
                RelayConfigError::Peers(e) => e@.message(),
            },
    {
        match self {
            RelayConfigError::Transport(e) => e.message(),
            RelayConfigError::RelayPsk => own("invalid relay_psk_base64"),
            RelayConfigError::Peers(e) => e.message(),
        }
    }
}

proof fn lemma_words_differ()
    ensures
        "udp"@ != "tcp"@,
        "udp"@ != "both"@,
        "tcp"@ != "both"@,
{
    reveal_strlit("udp");
    reveal_strlit("tcp");
    reveal_strlit("both");
    assert("udp"@[0] != "tcp"@[0]);
    assert("udp"@.len() != "both"@.len());
}

impl RelayConfig {
    /// The transport that the configuration names, if there is such a one.
    pub open spec fn named_transport(self) -> Option<Transport> {
        let word = transport_word(optional_text(self.transport));
        if word == "udp"@ {
            Some(Transport::Udp)
        } else if word == "tcp"@ {
            Some(Transport::Tcp)
        } else if word == "both"@ {
            Some(Transport::Both)
        } else {
            None
        }
    }

    /// The relay that the configuration asks for, or the first thing that is not
    /// in order: the transport, then the key, then the peers.
    pub fn build(&self) -> (r: Result<Relay, RelayConfigError>)
        ensures
            ({
                let psk = psk_of(self.relay_psk_base64@);
                let registry = registry_of(entry_texts(self.peers@), psk->0);
                match r {
                    Ok(relay) => {
                        &&& self.named_transport() is Some
                        &&& psk is Some
                        &&& registry is Ok
                        &&& relay@ == (RelayView {
                            registry: registry->Ok_0,
                            endpoints: Map::empty(),
                            writers: Set::empty(),
                            transport: self.named_transport()->0,
                        })
                        &&& relay@.registry.consistent(psk->0)
                    },
                    Err(RelayConfigError::Transport(e)) => {
                        &&& self.named_transport() is None
                        &&& e.word@ == transport_word(optional_text(self.transport))
                    },
                    Err(RelayConfigError::RelayPsk) => {
                        &&& self.named_transport() is Some
                        &&& psk is None
                    },
                    Err(RelayConfigError::Peers(e)) => {
                        &&& self.named_transport() is Some
                        &&& psk is Some
                        &&& registry == Err::<RegistryView, RegistryErrorView>(e@)
                    },
                }
            }),
    {
        let transport_text: Option<&str> = match &self.transport {
            Some(text) => Some(text.as_str()),
            None => None,
        };
        assert(setting(transport_text) == optional_text(self.transport));
        proof {
            lemma_words_differ();
        }
        let transport = match Transport::parse(transport_text) {
            Ok(transport) => transport,
            Err(e) => return Err(RelayConfigError::Transport(e)),
        };
        let relay_psk: [u8; 32] = match decode_psk_base64(self.relay_psk_base64.as_str()) {
            Ok(psk) => psk,
            Err(_) => return Err(RelayConfigError::RelayPsk),
        };
        match Registry::build(&self.peers, &relay_psk) {
            Ok(registry) => Ok(Relay::new(registry, transport)),
            Err(e) => Err(RelayConfigError::Peers(e)),
        }
    }
}

/// Which words name which transport: "udp", "tcp" and "both" one each, no word
/// UDP, and any other word none.
pub proof fn law_named_transport(c: RelayConfig)
    ensures
        match c.transport {
            Some(text) => {
                let word = transport_word(Some(text@));
                &&& c.named_transport() == Some(Transport::Udp) <==> word == "udp"@
                &&& c.named_transport() == Some(Transport::Tcp) <==> word == "tcp"@
                &&& c.named_transport() == Some(Transport::Both) <==> word == "both"@
                &&& c.named_transport() is None <==> word != "udp"@ && word != "tcp"@ && word
                    != "both"@
            },
            None => c.named_transport() == Some(Transport::Udp),
        },
{
    lemma_words_differ();
    law_default_transport();
}

} // verus!
