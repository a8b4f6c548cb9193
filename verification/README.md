# simple_network

Minimal relay-based encrypted overlay network.

Each client has a TUN interface with a virtual IPv4 address. A packet to another
virtual address is sealed end to end and sent to the relay, which forwards it to
the destination node without opening it. Clients ask the relay which node has an
address. They reach the relay over UDP or over TCP.

- `src/` is the library, verified with Verus: the wire format, key derivation and
  sealing, stream framing and batching, the relay's and the client's decisions,
  and what a configuration and a command line say. What is assumed of the crates
  it calls stands in the contracts of the functions marked `external_body`, next
  to the calls.
- `app/` holds the programs around it, `sn-relay` and `sn-client`: sockets,
  threads, the TUN device, configuration files.
- `tests/` runs the library.

## Configuration

Client (TOML): `server`, `transport` (optional, `udp` or `tcp`), `node_id`,
`virtual_ip`, `tun`, `relay_psk_base64`, `network_psk_base64` (optional, falls
back to the relay's key), `netmask` (optional, `255.255.255.0`), `mtu` (optional,
`1280`).

Relay (TOML): `listen`, `transport` (optional, `udp`, `tcp` or `both`),
`relay_psk_base64`, and a table `peers` from node UUIDs to virtual addresses.

Keys are 32 bytes in standard base64.
