//! The resolution result and the interface that resolver plugins implement.

use vstd::prelude::*;
use crate::errors::Error;

verus! {

/// The address family a lookup asks for.
#[derive(Clone, Copy, Debug, PartialEq, Eq, Structural)]
pub enum AddressFamily {
    Ipv4,
    Ipv6,
}

/// A list of addresses of one family. An IPv4 address is the 32-bit number
/// whose most significant byte is the first octet; an IPv6 address is its
/// sixteen octets.
#[derive(Debug)]
pub enum HostAddressList {
    V4(Vec<u32>),
    V6(Vec<[u8; 16]>),
}

/// An address handed to a reverse lookup.
#[derive(Clone, Copy, Debug)]
pub enum IpAddress {
    V4(u32),
    V6([u8; 16]),
}

/// Information about a host, as a lookup returns it. Names are byte strings
/// without their terminator.
#[derive(Debug)]
pub struct HostEntry {
    pub name: Vec<u8>,
    pub aliases: Vec<Vec<u8>>,
    pub addr_list: HostAddressList,
}

/// A resolver plugin. `Ok(None)` means that nothing was found; an `Err`
/// carries the failure to report.
pub trait NameService {
    /// Looks up the IPv4 addresses of `name`.
    fn gethostbyname_r(name: &[u8]) -> Result<Option<HostEntry>, Error> {
        Self::gethostbyname2_r(name, AddressFamily::Ipv4)
    }

    /// Looks up the addresses of family `af` of `name`.
    fn gethostbyname2_r(name: &[u8], af: AddressFamily) -> Result<Option<HostEntry>, Error>;

    /// Looks up the host that has address `addr`.
    fn gethostbyaddr_r(addr: &IpAddress) -> Result<Option<HostEntry>, Error>;
}

} // verus!
