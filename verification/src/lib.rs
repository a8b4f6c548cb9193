//! Minimal relay-based encrypted overlay network: the wire format, the
//! cryptography, the stream framing, and the decisions that the relay and the
//! client take.
//!
//! Sockets, threads, the TUN device and the clock live in the programs around
//! this library. They hand plain values in and carry out what comes back.
//!
//! - [`wire`], [`postcard_format`]: messages and their bytes.
//! - [`crypto`], [`base64_text`], [`envelope`]: keys, sealing, sealed packets.
//! - [`framing`], [`batch`]: frames on a stream, and how they are gathered.
//! - [`relay`], [`registry`], [`relay_config`]: the relay.
//! - [`client`], [`client_config`], [`macos`]: the client.
//! - [`relay_laws`], [`client_laws`]: what holds of each as a whole, and of both
//!   together.
//! - [`cli`], [`transport`]: the command line and the names of transports.
//! - [`addr`], [`endpoint`], [`table`], [`text`], [`uuid_text`], [`bytes`]: what
//!   the others are made of.

pub mod bytes;
pub mod text;
pub mod postcard_format;
pub mod wire;
pub mod framing;
pub mod batch;
pub mod base64_text;
pub mod crypto;
pub mod envelope;
pub mod endpoint;
pub mod table;
pub mod addr;
pub mod uuid_text;
pub mod transport;
pub mod registry;
pub mod relay;
pub mod relay_laws;
pub mod relay_config;
pub mod client_config;
pub mod client;
pub mod client_laws;
pub mod macos;
pub mod cli;
