//! A verified binary codec for TCP segment headers.
//!
//! The crate represents a TCP header together with the two IPv4 endpoint
//! addresses as a plain value, builds well-formed control segments (ACK,
//! SYN-ACK, RST), parses an on-wire TCP segment, and serializes a value back
//! to bytes with the header-length and one's-complement checksum fields
//! filled in.

pub mod addr;
pub mod checksum;
pub mod flags;
pub mod model;
pub mod segment;
pub mod text;

pub use addr::Ipv4Address;
pub use segment::{LayerType, Tcp, TcpError, TcpHeader};
