//! What macOS asks of a tunnel: `utun` names, a packet information header, and
//! an explicit route to the overlay.

use vstd::prelude::*;

use crate::addr::{dotted, ipv4_text, masked, overlay_network};
use crate::bytes::append;
use crate::text::{contains, contains_text, own, same_text, starts_with, trim, trimmed};
use crate::wire::Ipv4AddrBytes;

verus! {

/// The length of the packet information header.
pub const PI_HEADER_LEN: usize = 4;

/// The packet information header of an IPv4 packet.
pub open spec fn pi_header() -> Seq<u8> {
    seq![0u8, 0u8, 0u8, 2u8]
}

/// The packet information header of an IPv4 packet.
pub fn macos_pi_header_for_ipv4() -> (r: [u8; 4])
    ensures
        r@ == pi_header(),
{
    // flags (u16 native endian) + protocol (u16 network endian):
    // flags is always 0, protocol for IPv4 on macOS is PF_INET (2).
    let r: [u8; 4] = [0, 0, 0, 2];
    assert(r@ =~= pi_header());
    r
}

/// The packet behind the header of what the device gave, if there is one.
pub fn strip_pi_header(read: &[u8]) -> (r: Option<Vec<u8>>)
    ensures
        match r {
            Some(pkt) => read@.len() > PI_HEADER_LEN && pkt@ == read@.skip(PI_HEADER_LEN as int),
            None => read@.len() <= PI_HEADER_LEN,
        },
{
    if read.len() <= PI_HEADER_LEN {
        return None;
    }
    let pkt = vstd::slice::slice_to_vec(
        vstd::slice::slice_subrange(read, PI_HEADER_LEN, read.len()),
    );
    assert(pkt@ =~= read@.skip(PI_HEADER_LEN as int));
    Some(pkt)
}

/// The packet with the header that the device expects.
pub fn add_pi_header(pkt: &[u8]) -> (r: Vec<u8>)
    ensures
        r@ == pi_header() + pkt@,
{
    let mut framed: Vec<u8> = Vec::new();
    append(&mut framed, &macos_pi_header_for_ipv4());
    append(&mut framed, pkt);
    assert(framed@ =~= pi_header() + pkt@);
    framed
}

/// Taking the header off a packet that it was put on gives the packet.
pub proof fn law_pi_header_strips(pkt: Seq<u8>)
    ensures
        (pi_header() + pkt).skip(PI_HEADER_LEN as int) == pkt,
{
    assert((pi_header() + pkt).skip(PI_HEADER_LEN as int) =~= pkt);
}

/// What to do about the name of the device.
#[derive(Debug)]
pub enum TunName {
    /// Let the system pick one.
    Auto,
    /// Ask for this one.
    Named(String),
    /// The name cannot be had: say so, and let the system pick one.
    Ignored(String),
}

/// The name for the device that a configuration asks for, without the white
/// space around it. None, or "auto", leaves it to the system, and so does any
/// name that does not start with "utun".
pub fn tun_name(requested: &str) -> (r: TunName)
    ensures
        match r {
            TunName::Auto => trimmed(requested@).len() == 0 || trimmed(requested@) == "auto"@,
            TunName::Named(name) => {
                &&& name@ == trimmed(requested@)
                &&& name@ != "auto"@
                &&& "utun"@.is_prefix_of(name@)
            },
            TunName::Ignored(name) => {
                &&& name@ == trimmed(requested@)
                &&& name@.len() > 0
                &&& name@ != "auto"@
                &&& !"utun"@.is_prefix_of(name@)
            },
        },
{
    let name = trim(requested);
    if name.as_str().is_empty() || same_text(name.as_str(), "auto") {
        TunName::Auto
    } else if starts_with(name.as_str(), "utun") {
        TunName::Named(name)
    } else {
        TunName::Ignored(name)
    }
}

/// The arguments of the command that routes the overlay to a device.
pub open spec fn route_command(dev: Seq<char>, virt_ip: Seq<u8>, netmask: Seq<u8>) -> Seq<
    Seq<char>,
> {
    seq![
        "-n"@,
        "add"@,
        "-net"@,
        dotted(masked(virt_ip, netmask)),
        "-netmask"@,
        dotted(netmask),
        "-interface"@,
        dev,
    ]
}

/// The route leads to the network that the address is in under the mask, and
/// goes over the device: the parts of the command, whatever they are.
pub proof fn law_route_command(dev: Seq<char>, virt_ip: Seq<u8>, netmask: Seq<u8>, network: Seq<u8>)
    requires
        virt_ip.len() == 4,
        netmask.len() == 4,
        network.len() == 4,
        forall|i: int| 0 <= i < 4 ==> #[trigger] network[i] == virt_ip[i] & netmask[i],
    ensures
        route_command(dev, virt_ip, netmask).len() == 8,
        route_command(dev, virt_ip, netmask)[0] == "-n"@,
        route_command(dev, virt_ip, netmask)[1] == "add"@,
        route_command(dev, virt_ip, netmask)[2] == "-net"@,
        route_command(dev, virt_ip, netmask)[3] == dotted(network),
        route_command(dev, virt_ip, netmask)[4] == "-netmask"@,
        route_command(dev, virt_ip, netmask)[5] == dotted(netmask),
        route_command(dev, virt_ip, netmask)[6] == "-interface"@,
        route_command(dev, virt_ip, netmask)[7] == dev,
{
    assert(masked(virt_ip, netmask) =~= network);
}

/// The header is four bytes, 0 0 0 2, in front of the packet, whatever its length.
pub proof fn law_pi_header_layout(pkt: Seq<u8>)
    ensures
        (pi_header() + pkt).len() == pkt.len() + 4,
        (pi_header() + pkt)[0] == 0,
        (pi_header() + pkt)[1] == 0,
        (pi_header() + pkt)[2] == 0,
        (pi_header() + pkt)[3] == 2,
        (pi_header() + pkt).skip(4) == pkt,
{
    assert((pi_header() + pkt).skip(4) =~= pkt);
}

/// The arguments of the command that routes the overlay to a device.
pub fn route_args(dev: &str, virt_ip: Ipv4AddrBytes, netmask: Ipv4AddrBytes) -> (r: Vec<String>)
    ensures
        r@.map_values(|s: String| s@) == route_command(dev@, virt_ip@, netmask@),
{
    let network = overlay_network(virt_ip, netmask);
    let mut args: Vec<String> = Vec::new();
    args.push(own("-n"));
    args.push(own("add"));
    args.push(own("-net"));
    args.push(ipv4_text(network));
    args.push(own("-netmask"));
    args.push(ipv4_text(netmask));
    args.push(own("-interface"));
    args.push(own(dev));
    assert(args@.map_values(|s: String| s@) =~= route_command(dev@, virt_ip@, netmask@));
    args
}

/// Whether there is a route after the command ran: it succeeded, or what it
/// printed says that the route was there before. Otherwise what it printed
/// comes back.
pub fn route_outcome(success: bool, stdout: &str, stderr: &str) -> (r: Result<(), String>)
    ensures
        match r {
            Ok(()) => success || contains_text(stdout@ + stderr@, "exists"@),
            Err(printed) => {
                &&& !success
                &&& !contains_text(stdout@ + stderr@, "exists"@)
                &&& printed@ == stdout@ + stderr@
            },
        },
{
    if success {
        return Ok(());
    }
    // If the route already exists, consider it success.
    let combined = own(stdout).concat(stderr);
    if contains(combined.as_str(), "exists") {
        return Ok(());
    }
    Err(combined)
}

} // verus!
