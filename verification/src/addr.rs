//! IPv4 addresses, held as four plain octets.
//!
//! The codec needs the endpoint addresses only for the TCP pseudo-header
//! checksum, so an address is nothing more than its four bytes in network
//! order.

use vstd::prelude::*;

verus! {

/// An IPv4 address as its four octets, most significant first.
#[derive(Clone, Copy, PartialEq, Eq, Structural, Debug)]
pub struct Ipv4Address {
    pub o0: u8,
    pub o1: u8,
    pub o2: u8,
    pub o3: u8,
}

impl Ipv4Address {
    /// Builds the address `o0.o1.o2.o3`.
    pub fn new(o0: u8, o1: u8, o2: u8, o3: u8) -> (r: Ipv4Address)
        ensures
            r == (Ipv4Address { o0, o1, o2, o3 }),
    {
        Ipv4Address { o0, o1, o2, o3 }
    }

    /// The four octets in network order.
    pub fn octets(&self) -> (r: (u8, u8, u8, u8))
        ensures
            r == (self.o0, self.o1, self.o2, self.o3),
    {
        (self.o0, self.o1, self.o2, self.o3)
    }
}

} // verus!
