//! A virtual network fabric: addressed datagrams moved between simulated
//! endpoints over bounded links, with optional latency and bandwidth shaping.
//!
//! The fabric is a deterministic state machine. Nothing in it blocks, sleeps
//! or reads a clock: an operation that would have to wait says so in its
//! result, and the shaping relays advance only when [`fabric::Fabric::poll`]
//! is called with the current virtual time. A driver built on an event loop
//! supplies the waiting.

use vstd::prelude::*;

pub mod channel;
pub mod connector;
pub mod fabric;
pub mod lane;
pub mod relay;
pub mod socket;
pub mod switch;
pub mod time;
pub mod wire;

verus! {

/// The address of one simulated endpoint.
///
/// Addresses are opaque: the fabric only compares them.
#[derive(Clone, Copy, Debug, PartialEq, Eq, Structural, Hash)]
pub struct TestAddr(pub u64);

/// The first 16-bit group of every socket address that stands for a fabric
/// address: the unique-local prefix.
pub const ADDR_PREFIX: u16 = 0xfd00;

/// The port of every socket address that stands for a fabric address.
pub const ADDR_PORT: u16 = 443;

impl TestAddr {
    /// The eight 16-bit groups of the IPv6 address that stands for `self`:
    /// the prefix, three groups of zero, and the address in the last four,
    /// highest group first.
    pub open spec fn groups(self) -> Seq<u16> {
        seq![
            ADDR_PREFIX,
            0u16,
            0u16,
            0u16,
            (self.0 / 0x1_0000_0000_0000) as u16,
            (self.0 / 0x1_0000_0000 % 0x1_0000) as u16,
            (self.0 / 0x1_0000 % 0x1_0000) as u16,
            (self.0 % 0x1_0000) as u16,
        ]
    }

    /// The groups of the IPv6 address that stands for this address.
    pub fn to_groups(self) -> (groups: [u16; 8])
        ensures
            groups@ == self.groups(),
    {
        let groups = [
            ADDR_PREFIX,
            0,
            0,
            0,
            (self.0 / 0x1_0000_0000_0000) as u16,
            (self.0 / 0x1_0000_0000 % 0x1_0000) as u16,
            (self.0 / 0x1_0000 % 0x1_0000) as u16,
            (self.0 % 0x1_0000) as u16,
        ];
        assert(groups@ =~= self.groups());
        groups
    }

    /// The fabric address that the socket address with these groups and this
    /// port stands for: `Some` exactly when it stands for one.
    pub fn from_groups(groups: [u16; 8], port: u16) -> (addr: Option<TestAddr>)
        ensures
            match addr {
                Some(addr) => addr.groups() == groups@ && port == ADDR_PORT,
                None => port != ADDR_PORT || forall|any: TestAddr| #[trigger]
                    any.groups() != groups@,
            },
    {
        if port != ADDR_PORT || groups[0] != ADDR_PREFIX || groups[1] != 0 || groups[2] != 0
            || groups[3] != 0 {
            assert forall|any: TestAddr| port == ADDR_PORT implies #[trigger] any.groups()
                != groups@ by {
                if any.groups() == groups@ {
                    assert(any.groups()[0] == groups@[0]);
                    assert(any.groups()[1] == groups@[1]);
                    assert(any.groups()[2] == groups@[2]);
                    assert(any.groups()[3] == groups@[3]);
                }
            }
            return None;
        }
        let addr = TestAddr(
            groups[4] as u64 * 0x1_0000_0000_0000 + groups[5] as u64 * 0x1_0000_0000
                + groups[6] as u64 * 0x1_0000 + groups[7] as u64,
        );
        assert(addr.groups() =~= groups@);
        Some(addr)
    }

    /// Different addresses stand behind different socket addresses.
    pub proof fn law_groups_tell_apart(self, other: TestAddr)
        requires
            self.groups() == other.groups(),
        ensures
            self == other,
    {
        assert(self.groups()[4] == other.groups()[4]);
        assert(self.groups()[5] == other.groups()[5]);
        assert(self.groups()[6] == other.groups()[6]);
        assert(self.groups()[7] == other.groups()[7]);
        lemma_rebuild(self.0);
        lemma_rebuild(other.0);
    }
}

/// A 64-bit number is made up of its four 16-bit groups.
proof fn lemma_rebuild(n: u64)
    ensures
        n == (n / 0x1_0000_0000_0000) * 0x1_0000_0000_0000 + (n / 0x1_0000_0000 % 0x1_0000)
            * 0x1_0000_0000 + (n / 0x1_0000 % 0x1_0000) * 0x1_0000 + n % 0x1_0000,
{
    let low = n / 0x1_0000;
    let mid = low / 0x1_0000;
    let high = mid / 0x1_0000;
    assert(n == low * 0x1_0000 + n % 0x1_0000);
    assert(low == mid * 0x1_0000 + low % 0x1_0000);
    assert(mid == high * 0x1_0000 + mid % 0x1_0000);
    assert(mid == n / 0x1_0000_0000);
    assert(high == n / 0x1_0000_0000_0000);
}

/// One datagram on its way through the fabric.
///
/// The payload is owned, so a transmit can be handed from one relay stage to
/// the next without sharing. The fabric never changes a transmit after it has
/// been created.
#[derive(Clone, Debug, PartialEq, Eq)]
pub struct OwnedTransmit {
    /// The endpoint this datagram is addressed to.
    pub destination: TestAddr,
    /// The endpoint that sent it, recorded by the sending socket.
    pub source: TestAddr,
    /// The payload. Its length is the datagram's size on the wire.
    pub contents: Vec<u8>,
}

impl OwnedTransmit {
    /// The number of payload bytes, as bandwidth shaping counts them.
    pub open spec fn wire_size(self) -> nat {
        self.contents@.len()
    }

    /// The number of payload bytes.
    pub fn size(&self) -> (n: usize)
        ensures
            n == self.wire_size(),
    {
        self.contents.len()
    }
}

} // verus!
