//! Core of a stateless NAT64-style translator.
//!
//! The library pairs an IPv6 network, reached through a tunnel device, with
//! an IPv4 network, reached through a raw Ethernet socket.  A static mapping
//! table ties an IPv6 (local, remote) address pair to an IPv4 (local, remote)
//! pair and an optional gateway.  The modules here hold everything that can
//! be stated and proved about that job: the packet codecs with their
//! checksums, the mapping lookups, the ARP cache with explicit lifetimes,
//! the resolution state machine, and the two translation pipelines.
//! Reading and writing the actual devices is left to the embedding program.

pub mod addr;
pub mod arp;
pub mod arp_cache;
pub mod bytes;
pub mod checksum;
pub mod config;
pub mod eth;
pub mod iptools;
pub mod ipv4;
pub mod ipv6;
pub mod l4;
pub mod map_table;
pub mod mapping;
pub mod roundtrip;
pub mod v4v6;
pub mod v6v4;

pub use addr::Ipv4Address;
pub use addr::Ipv6Address;
pub use addr::MacAddr;
