//! Asking the router for a port of its own.

use crate::traversal::address::{Endpoint, IpAddress};
use vstd::prelude::*;

verus! {

/// How long a mapping lasts, in seconds.
pub const LEASE_SECS: u32 = 86400;

/// What the router shows for a mapping.
pub const MAPPING_LABEL: &'static str = "Decentis Mesh UDP";

/// Why there is no mapping.
#[derive(Debug, PartialEq, Eq, Structural)]
pub enum UpnpError {
    /// Our own address is no IPv4 address.
    LocalIpv6,
    /// The router's address is no IPv4 address.
    ExternalIpv6,
}

/// A mapping of a UDP port to ask the router for.
#[derive(Debug, Clone, Copy, PartialEq, Eq, Structural)]
pub struct PortMapping {
    /// The port on the outside.
    pub external_port: u16,
    /// Where packets to it go.
    pub local: Endpoint,
    /// How long it lasts, in seconds.
    pub lease_secs: u32,
}

/// The mapping to ask for, when `local_ip` is our own address: the same port outside as inside.
pub fn port_mapping(local_ip: IpAddress, local_port: u16) -> (mapping: Result<
    PortMapping,
    UpnpError,
>)
    ensures
        mapping == match local_ip {
            IpAddress::V4(_) => Ok(
                PortMapping {
                    external_port: local_port,
                    local: Endpoint { ip: local_ip, port: local_port },
                    lease_secs: LEASE_SECS,
                },
            ),
            IpAddress::V6(_) => Err(UpnpError::LocalIpv6),
        },
{
    match local_ip {
        IpAddress::V4(_) => Ok(
            PortMapping {
                external_port: local_port,
                local: Endpoint { ip: local_ip, port: local_port },
                lease_secs: LEASE_SECS,
            },
        ),
        IpAddress::V6(_) => Err(UpnpError::LocalIpv6),
    }
}

/// Where we can be reached through a mapping, when `external_ip` is the router's address.
pub fn mapped_endpoint(external_ip: IpAddress, mapping: &PortMapping) -> (endpoint: Result<
    Endpoint,
    UpnpError,
>)
    ensures
        endpoint == match external_ip {
            IpAddress::V4(_) => Ok(Endpoint { ip: external_ip, port: mapping.external_port }),
            IpAddress::V6(_) => Err(UpnpError::ExternalIpv6),
        },
{
    match external_ip {
        IpAddress::V4(_) => Ok(Endpoint { ip: external_ip, port: mapping.external_port }),
        IpAddress::V6(_) => Err(UpnpError::ExternalIpv6),
    }
}

} // verus!
