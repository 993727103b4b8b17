//! The address of one probed server.

use vstd::prelude::*;

verus! {

/// A host and a port: one server instance. The host is an IPv4 address in
/// host byte order.
#[derive(Clone, Copy, Debug, PartialEq, Eq, Hash, Structural)]
pub struct TargetAddr {
    pub ip: u32,
    pub port: u16,
}

impl TargetAddr {
    /// The address as one number: the host in the upper bits, the port in
    /// the lower sixteen.
    pub open spec fn spec_key(self) -> u64 {
        (self.ip as int * 65536 + self.port as int) as u64
    }

    pub fn new(ip: u32, port: u16) -> (target: TargetAddr)
        ensures
            target == (TargetAddr { ip, port }),
    {
        TargetAddr { ip, port }
    }

    /// The address of the host with the four given octets, first octet
    /// first.
    pub fn from_octets(a: u8, b: u8, c: u8, d: u8, port: u16) -> (target: TargetAddr)
        ensures
            target.ip as int == a as int * 16777216 + b as int * 65536 + c as int * 256 + d as int,
            target.port == port,
    {
        let ip: u32 = (a as u32) * 16777216 + (b as u32) * 65536 + (c as u32) * 256 + (d as u32);
        TargetAddr { ip, port }
    }

    /// The number under which the address is filed.
    pub fn key(&self) -> (key: u64)
        ensures
            key == self.spec_key(),
    {
        (self.ip as u64) * 65536 + (self.port as u64)
    }
}

/// Different addresses are filed under different numbers.
pub proof fn lemma_key_injective(a: TargetAddr, b: TargetAddr)
    ensures
        a.spec_key() == b.spec_key() <==> a == b,
{
}

} // verus!
