//! The relay's registry: which nodes there are, and which address each has.

use vstd::prelude::*;

use crate::addr::{address_of, parse_ipv4};
use crate::crypto::{derive_node_key, hkdf_sha256, law_node_key_input, node_key};
use crate::table::ByteMap;
use crate::text::own;
use crate::uuid_text::{parse_uuid, uuid_parsed};
use crate::wire::{Ipv4AddrBytes, NodeId};

verus! {

/// A node that the relay serves.
#[derive(Clone, Copy, Debug)]
pub struct PeerInfo {
    pub node: NodeId,
    pub virt_ip: Ipv4AddrBytes,
    pub key: [u8; 32],
}

/// What a [`PeerInfo`] holds.
#[verifier::ext_equal]
pub struct PeerView {
    pub node: Seq<u8>,
    pub virt_ip: Seq<u8>,
    pub key: Seq<u8>,
}

impl View for PeerInfo {
    type V = PeerView;

    open spec fn view(&self) -> PeerView {
        PeerView { node: self.node@, virt_ip: self.virt_ip@, key: self.key@ }
    }
}

/// What a [`Registry`] holds.
#[verifier::ext_equal]
pub struct RegistryView {
    pub peers: Map<Seq<u8>, PeerView>,
    pub node_by_ip: Map<Seq<u8>, Seq<u8>>,
}

impl RegistryView {
    /// The registry with one more node.
    pub open spec fn with_peer(self, node: Seq<u8>, ip: Seq<u8>, relay_psk: Seq<u8>) -> RegistryView {
        RegistryView {
            peers: self.peers.insert(
                node,
                PeerView { node, virt_ip: ip, key: node_key(relay_psk, node) },
            ),
            node_by_ip: self.node_by_ip.insert(ip, node),
        }
    }

    /// Every peer stands under its own id and has the key of that id, and every
    /// address leads to a peer.
    pub open spec fn consistent(self, relay_psk: Seq<u8>) -> bool {
        &&& forall|id: Seq<u8>| #[trigger]
            self.peers.contains_key(id) ==> id.len() == 16 && self.peers[id].node == id
                && self.peers[id].key == node_key(relay_psk, id)
        &&& forall|ip: Seq<u8>| #[trigger]
            self.node_by_ip.contains_key(ip) ==> ip.len() == 4 && self.peers.contains_key(
                self.node_by_ip[ip],
            )
    }
}

/// Why a registry could not be read.
#[derive(Debug)]
pub enum RegistryError {
    /// The node is not named by a UUID.
    InvalidNodeId { node: String },
    /// The address of a node is not an IPv4 address.
    InvalidIpv4 { node: String, ip: String },
}

/// What a [`RegistryError`] says.
#[verifier::ext_equal]
pub enum RegistryErrorView {
    InvalidNodeId { node: Seq<char> },
    InvalidIpv4 { node: Seq<char>, ip: Seq<char> },
}

impl View for RegistryError {
    type V = RegistryErrorView;

    open spec fn view(&self) -> RegistryErrorView {
        match self {
            RegistryError::InvalidNodeId { node } => RegistryErrorView::InvalidNodeId {
                node: node@,
            },
            RegistryError::InvalidIpv4 { node, ip } => RegistryErrorView::InvalidIpv4 {
                node: node@,
                ip: ip@,
            },
        }
    }
}

impl RegistryErrorView {
    /// The error in words.
    pub open spec fn message(self) -> Seq<char> {
        match self {
            RegistryErrorView::InvalidNodeId { node } => "invalid node_id UUID: "@ + node,
            RegistryErrorView::InvalidIpv4 { node, ip } => "invalid IPv4 for "@ + node + ": "@ + ip,
        }
    }
}

impl RegistryError {
    /// The error in words.
    pub fn message(&self) -> (r: String)
        ensures
            r@ == self@.message(),
    {
        match self {
            RegistryError::InvalidNodeId { node } => own("invalid node_id UUID: ").concat(
                node.as_str(),
            ),
            RegistryError::InvalidIpv4 { node, ip } => own("invalid IPv4 for ").concat(
                node.as_str(),
            ).concat(": ").concat(ip.as_str()),
        }
    }
}

/// The texts of a list of peers: the node's UUID and its address.
pub open spec fn entry_texts(entries: Seq<(String, String)>) -> Seq<(Seq<char>, Seq<char>)> {
    entries.map_values(|e: (String, String)| (e.0@, e.1@))
}

/// The registry that a list of peers makes, entry by entry, or the first
/// trouble. A later entry replaces an earlier one for the same node, and for the
/// same address.
pub open spec fn registry_of(entries: Seq<(Seq<char>, Seq<char>)>, relay_psk: Seq<u8>) -> Result<
    RegistryView,
    RegistryErrorView,
>
    decreases entries.len(),
{
    if entries.len() == 0 {
        Ok(RegistryView { peers: Map::empty(), node_by_ip: Map::empty() })
    } else {
        match registry_of(entries.drop_last(), relay_psk) {
            Ok(registry) => {
                let (node_text, ip_text) = entries.last();
                match uuid_parsed(node_text) {
                    Some(node) => match address_of(ip_text) {
                        Some(ip) => Ok(registry.with_peer(node, ip, relay_psk)),
                        None => Err(
                            RegistryErrorView::InvalidIpv4 { node: node_text, ip: ip_text },
                        ),
                    },
                    None => Err(RegistryErrorView::InvalidNodeId { node: node_text }),
                }
            },
            Err(e) => Err(e),
        }
    }
}

/// Trouble in the first entries is trouble of the whole list.
proof fn lemma_registry_error(
    entries: Seq<(Seq<char>, Seq<char>)>,
    n: int,
    relay_psk: Seq<u8>,
)
    requires
        0 <= n <= entries.len(),
        registry_of(entries.take(n), relay_psk) is Err,
    ensures
        registry_of(entries, relay_psk) == registry_of(entries.take(n), relay_psk),
    decreases entries.len() - n,
{
    if n == entries.len() {
        assert(entries.take(n) =~= entries);
    } else {
        assert(entries.take(n + 1).drop_last() =~= entries.take(n));
        lemma_registry_error(entries, n + 1, relay_psk);
    }
}

/// The nodes of the registry are those of the list.
pub proof fn law_registry_has_the_listed(
    entries: Seq<(Seq<char>, Seq<char>)>,
    relay_psk: Seq<u8>,
    id: Seq<u8>,
)
    requires
        registry_of(entries, relay_psk) is Ok,
    ensures
        registry_of(entries, relay_psk)->Ok_0.peers.contains_key(id) <==> exists|i: int|
            0 <= i < entries.len() && uuid_parsed((#[trigger] entries[i]).0) == Some(id),
    decreases entries.len(),
{
    if entries.len() > 0 {
        let before = entries.drop_last();
        let n = before.len() as int;
        law_registry_has_the_listed(before, relay_psk, id);
        if uuid_parsed(entries.last().0) == Some(id) {
            assert(uuid_parsed(entries[n].0) == Some(id));
        }
        if exists|i: int| 0 <= i < n && uuid_parsed((#[trigger] before[i]).0) == Some(id) {
            let i = choose|i: int| 0 <= i < n && uuid_parsed((#[trigger] before[i]).0) == Some(id);
            assert(uuid_parsed(entries[i].0) == Some(id));
        }
        if exists|i: int|
            0 <= i < entries.len() && uuid_parsed((#[trigger] entries[i]).0) == Some(id) {
            let i = choose|i: int|
                0 <= i < entries.len() && uuid_parsed((#[trigger] entries[i]).0) == Some(id);
            if i < n {
                assert(uuid_parsed(before[i].0) == Some(id));
            }
        }
    }
}

/// A node of the list has the address of the last entry that names it, and the
/// key that is derived from the relay's key and the letters "sn/node-key" with the
/// node's id.
pub proof fn law_listed_node_has_its_address(
    entries: Seq<(Seq<char>, Seq<char>)>,
    relay_psk: Seq<u8>,
    i: int,
)
    requires
        registry_of(entries, relay_psk) is Ok,
        0 <= i < entries.len(),
        forall|j: int|
            i < j < entries.len() ==> uuid_parsed((#[trigger] entries[j]).0) != uuid_parsed(
                entries[i].0,
            ),
    ensures
        uuid_parsed(entries[i].0) is Some,
        address_of(entries[i].1) is Some,
        ({
            let registry = registry_of(entries, relay_psk)->Ok_0;
            let id = uuid_parsed(entries[i].0)->0;
            &&& registry.peers.contains_key(id)
            &&& registry.peers[id].node == id
            &&& Some(registry.peers[id].virt_ip) == address_of(entries[i].1)
            &&& registry.peers[id].key == hkdf_sha256(
                relay_psk,
                seq![115u8, 110u8, 47u8, 110u8, 111u8, 100u8, 101u8, 45u8, 107u8, 101u8, 121u8]
                    + id,
            )
        }),
    decreases entries.len(),
{
    let n = entries.len() - 1;
    let before = entries.drop_last();
    if i < n {
        assert(before[i] == entries[i]);
        assert forall|j: int| i < j < before.len() implies uuid_parsed((#[trigger] before[j]).0)
            != uuid_parsed(before[i].0) by {
            assert(before[j] == entries[j]);
        }
        law_listed_node_has_its_address(before, relay_psk, i);
        assert(entries[n] == entries.last());
    } else {
        law_node_key_input(relay_psk, uuid_parsed(entries[i].0)->0);
    }
}

/// An address leads to the node of the last entry that gives it.
pub proof fn law_listed_address_resolves(
    entries: Seq<(Seq<char>, Seq<char>)>,
    relay_psk: Seq<u8>,
    i: int,
)
    requires
        registry_of(entries, relay_psk) is Ok,
        0 <= i < entries.len(),
        forall|j: int|
            i < j < entries.len() ==> address_of((#[trigger] entries[j]).1) != address_of(
                entries[i].1,
            ),
    ensures
        address_of(entries[i].1) is Some,
        ({
            let registry = registry_of(entries, relay_psk)->Ok_0;
            let ip = address_of(entries[i].1)->0;
            &&& registry.node_by_ip.contains_key(ip)
            &&& uuid_parsed(entries[i].0) == Some(registry.node_by_ip[ip])
        }),
    decreases entries.len(),
{
    let n = entries.len() - 1;
    let before = entries.drop_last();
    if i < n {
        assert(before[i] == entries[i]);
        assert forall|j: int| i < j < before.len() implies address_of((#[trigger] before[j]).1)
            != address_of(before[i].1) by {
            assert(before[j] == entries[j]);
        }
        law_listed_address_resolves(before, relay_psk, i);
        assert(entries[n] == entries.last());
    }
}

/// The addresses of the registry are those of the list.
pub proof fn law_registry_has_the_listed_addresses(
    entries: Seq<(Seq<char>, Seq<char>)>,
    relay_psk: Seq<u8>,
    ip: Seq<u8>,
)
    requires
        registry_of(entries, relay_psk) is Ok,
    ensures
        registry_of(entries, relay_psk)->Ok_0.node_by_ip.contains_key(ip) <==> exists|i: int|
            0 <= i < entries.len() && address_of((#[trigger] entries[i]).1) == Some(ip),
    decreases entries.len(),
{
    if entries.len() > 0 {
        let before = entries.drop_last();
        let n = before.len() as int;
        law_registry_has_the_listed_addresses(before, relay_psk, ip);
        if address_of(entries.last().1) == Some(ip) {
            assert(address_of(entries[n].1) == Some(ip));
        }
        if exists|i: int| 0 <= i < n && address_of((#[trigger] before[i]).1) == Some(ip) {
            let i = choose|i: int| 0 <= i < n && address_of((#[trigger] before[i]).1) == Some(ip);
            assert(address_of(entries[i].1) == Some(ip));
        }
        if exists|i: int|
            0 <= i < entries.len() && address_of((#[trigger] entries[i]).1) == Some(ip) {
            let i = choose|i: int|
                0 <= i < entries.len() && address_of((#[trigger] entries[i]).1) == Some(ip);
            if i < n {
                assert(address_of(before[i].1) == Some(ip));
            }
        }
    }
}

/// A list whose every entry is a UUID and an IPv4 address makes a registry.
pub proof fn law_good_list_makes_a_registry(
    entries: Seq<(Seq<char>, Seq<char>)>,
    relay_psk: Seq<u8>,
)
    requires
        forall|i: int|
            0 <= i < entries.len() ==> uuid_parsed((#[trigger] entries[i]).0) is Some
                && address_of(entries[i].1) is Some,
    ensures
        registry_of(entries, relay_psk) is Ok,
    decreases entries.len(),
{
    if entries.len() > 0 {
        let before = entries.drop_last();
        assert forall|i: int| 0 <= i < before.len() implies uuid_parsed(
            (#[trigger] before[i]).0,
        ) is Some && address_of(before[i].1) is Some by {
            assert(before[i] == entries[i]);
        }
        law_good_list_makes_a_registry(before, relay_psk);
        assert(entries[entries.len() - 1] == entries.last());
    }
}

/// A list is refused for its first entry that is not in order: for the node's
/// text where that is no UUID, and otherwise for the address.
pub proof fn law_bad_list_is_refused(
    entries: Seq<(Seq<char>, Seq<char>)>,
    relay_psk: Seq<u8>,
    i: int,
)
    requires
        0 <= i < entries.len(),
        uuid_parsed(entries[i].0) is None || address_of(entries[i].1) is None,
        forall|j: int|
            0 <= j < i ==> uuid_parsed((#[trigger] entries[j]).0) is Some && address_of(
                entries[j].1,
            ) is Some,
    ensures
        registry_of(entries, relay_psk) == Err::<RegistryView, _>(
            if uuid_parsed(entries[i].0) is None {
                RegistryErrorView::InvalidNodeId { node: entries[i].0 }
            } else {
                RegistryErrorView::InvalidIpv4 { node: entries[i].0, ip: entries[i].1 }
            },
        ),
{
    let good = entries.take(i);
    assert forall|j: int| 0 <= j < good.len() implies uuid_parsed((#[trigger] good[j]).0) is Some
        && address_of(good[j].1) is Some by {
        assert(good[j] == entries[j]);
    }
    law_good_list_makes_a_registry(good, relay_psk);
    let bad = entries.take(i + 1);
    assert(bad.drop_last() =~= good);
    assert(bad.last() == entries[i]);
    lemma_registry_error(entries, i + 1, relay_psk);
}

/// The nodes that the relay serves.
pub struct Registry {
    peers: ByteMap<16, PeerInfo>,
    node_by_ip: ByteMap<4, NodeId>,
}

impl View for Registry {
    type V = RegistryView;

    closed spec fn view(&self) -> RegistryView {
        RegistryView { peers: self.peers@, node_by_ip: self.node_by_ip@ }
    }
}

impl Registry {
    /// The registry that a list of peers makes: for each, the node's UUID and
    /// its address, in text.
    pub fn build(entries: &Vec<(String, String)>, relay_psk: &[u8; 32]) -> (r: Result<
        Registry,
        RegistryError,
    >)
        ensures
            match (r, registry_of(entry_texts(entries@), relay_psk@)) {
                (Ok(registry), Ok(expected)) => registry@ == expected && registry@.consistent(
                    relay_psk@,
                ),
                (Err(e), Err(expected)) => e@ == expected,
                _ => false,
            },
    {
        let ghost all = entry_texts(entries@);
        let mut peers: ByteMap<16, PeerInfo> = ByteMap::new();
        let mut node_by_ip: ByteMap<4, NodeId> = ByteMap::new();
        let mut i: usize = 0;
        assert(all.take(0) =~= Seq::empty());
        while i < entries.len()
            invariant
                i <= entries.len(),
                all == entry_texts(entries@),
                registry_of(all.take(i as int), relay_psk@) == Ok::<_, RegistryErrorView>(
                    RegistryView { peers: peers@, node_by_ip: node_by_ip@ },
                ),
                (RegistryView { peers: peers@, node_by_ip: node_by_ip@ }).consistent(relay_psk@),
            decreases entries.len() - i,
        {
            let (node_text, ip_text) = &entries[i];
            proof {
                let next = all.take(i + 1);
                assert(next.drop_last() =~= all.take(i as int));
                assert(next.last() == (node_text@, ip_text@));
                if registry_of(next, relay_psk@) is Err {
                    lemma_registry_error(all, i + 1, relay_psk@);
                }
            }
            let node = match parse_uuid(node_text.as_str()) {
                Ok(id) => NodeId(id),
                Err(_) => {
                    return Err(RegistryError::InvalidNodeId { node: node_text.clone() });
                },
            };
            let ip = match parse_ipv4(ip_text.as_str()) {
                Some(ip) => ip,
                None => {
                    return Err(
                        RegistryError::InvalidIpv4 { node: node_text.clone(), ip: ip_text.clone() },
                    );
                },
            };
            let key = derive_node_key(relay_psk, node);
            node_by_ip.insert(&ip.0, node);
            peers.insert(&node.0, PeerInfo { node, virt_ip: ip, key });
            i += 1;
        }
        assert(all.take(entries@.len() as int) =~= all);
        Ok(Registry { peers, node_by_ip })
    }

    /// The node with an id, if the relay serves it.
    pub fn peer(&self, id: &NodeId) -> (r: Option<&PeerInfo>)
        ensures
            match r {
                Some(peer) => self@.peers.contains_key(id@) && self@.peers[id@] == peer@,
                None => !self@.peers.contains_key(id@),
            },
    {
        self.peers.get(&id.0)
    }

    /// The node that has an address, if one has.
    pub fn node_at(&self, ip: &Ipv4AddrBytes) -> (r: Option<NodeId>)
        ensures
            match r {
                Some(id) => self@.node_by_ip.contains_key(ip@) && self@.node_by_ip[ip@] == id@,
                None => !self@.node_by_ip.contains_key(ip@),
            },
    {
        match self.node_by_ip.get(&ip.0) {
            Some(id) => Some(*id),
            None => None,
        }
    }
}

} // verus!
