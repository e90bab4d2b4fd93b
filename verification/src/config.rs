use vstd::prelude::*;

use crate::addr::IpAddress;
use crate::l4::PROTO_TCP;
use crate::l4::PROTO_UDP;
use crate::mapping::MapConfig;

verus! {

/// The translator carries exactly two transport protocols through; every
/// other protocol number is dropped at ingress.
pub fn supports(proto: u8) -> (r: bool)
    ensures
        r == (proto == PROTO_TCP || proto == PROTO_UDP),
{
    proto == PROTO_UDP || proto == PROTO_TCP
}

/// One endpoint as the operator names it: an interface name alone, or a
/// name with an address, prefix length and MTU to install at startup.
#[derive(Debug)]
pub struct InterfaceConfig {
    pub name: String,
    pub address: Option<IpAddress>,
    pub mask: Option<u32>,
    pub mtu: u32,
}

impl InterfaceConfig {
    /// The bare form: a name and nothing to install.
    pub fn from_name(s: &str) -> (r: InterfaceConfig)
        ensures
            r.name@ == s@,
            r.address is None,
            r.mask is None,
            r.mtu == 0,
    {
        InterfaceConfig { name: s.to_owned(), address: None, mask: None, mtu: 0 }
    }
}

impl Default for InterfaceConfig {
    fn default() -> (r: InterfaceConfig)
        ensures
            r.name@.len() == 0,
            r.address is None,
            r.mask is None,
            r.mtu == 0,
    {
        InterfaceConfig { name: String::new(), address: None, mask: None, mtu: 0 }
    }
}

/// The two endpoints of the translator.
#[derive(Debug)]
pub struct InterfacesConfig {
    pub ipv4: InterfaceConfig,
    pub ipv6: InterfaceConfig,
}

/// Everything the operator supplies: the endpoints, the mapping table,
/// and whether the v4-side loop answers ARP requests for the local
/// addresses it serves.
#[derive(Debug)]
pub struct Config {
    pub interfaces: InterfacesConfig,
    pub mappings: Vec<MapConfig>,
    pub send_arp: bool,
}

} // verus!
