//! The switch: an address-keyed router for fabrics with more than two
//! endpoints.

use vstd::prelude::*;
use crate::fabric::{Fabric, FabricView};
use crate::socket::{Backing, Transport, VirtualSocket};
use crate::{OwnedTransmit, TestAddr};

verus! {

/// The capacity of the inbox a switch opens for each socket.
pub const INBOX_CAPACITY: usize = 64;

/// A handle on one switch of a fabric. Copies of the handle name the same
/// switch.
#[derive(Clone, Copy, Debug, PartialEq, Eq, Structural)]
pub struct Switch {
    /// The position of the switch among the switches of its fabric.
    pub id: usize,
}

impl Switch {
    /// Which switch of the fabric this handle names.
    pub open spec fn index(self) -> int {
        self.id as int
    }

    /// Opens a switch in `fabric`. Its registry starts empty and grows as
    /// sockets connect.
    pub fn new(fabric: &mut Fabric) -> (switch: Switch)
        ensures
            final(fabric)@ == old(fabric)@.after_open_switch(),
            switch.index() == old(fabric)@.switches.len(),
            old(fabric)@.wf() ==> final(fabric)@.wf(),
    {
        fabric.open_switch()
    }

    /// Registers a fresh inbox under `addr` and hands out the socket bound
    /// to it. Fails, and changes nothing, if and only if a live socket is
    /// bound to `addr` already or the fabric has no such switch.
    pub fn connect_socket(&self, fabric: &mut Fabric, addr: TestAddr) -> (result: Result<
        VirtualSocket,
        BindError,
    >)
        ensures
            match result {
                Ok(socket) => {
                    &&& old(fabric)@.bind_refusal(self.index(), addr) is None
                    &&& socket.addr == addr
                    &&& socket.transport matches Transport::Switched { switch, inbox }
                    &&& switch == *self
                    &&& inbox.index() == old(fabric)@.channels.len()
                },
                Err(refusal) => old(fabric)@.bind_refusal(self.index(), addr) == Some(refusal),
            },
            final(fabric)@ == old(fabric)@.after_bind(self.index(), addr, INBOX_CAPACITY as nat),
            old(fabric)@.wf() ==> final(fabric)@.wf(),
    {
        VirtualSocket::bind(fabric, addr, Backing::Switch(*self))
    }
}

/// Why an address could not be bound.
#[derive(Clone, Copy, Debug, PartialEq, Eq, Structural)]
pub enum BindError {
    /// A live socket is bound to the address already.
    AddressInUse,
    /// The handle names no switch of this fabric.
    NoSuchSwitch,
}

/// Why a switch did not deliver a transmit. The transmit comes back.
#[derive(Debug, PartialEq, Eq)]
pub enum RouteError {
    /// No socket is bound to the destination.
    Unroutable(OwnedTransmit),
    /// The destination's inbox is at capacity: the sender has to wait.
    Full(OwnedTransmit),
    /// The destination's inbox was torn down.
    Closed(OwnedTransmit),
}

/// Address uniqueness: a switch binds an address exactly when no live
/// socket holds it. Once bound, every further attempt on that address is
/// refused and changes nothing, while other addresses are as free or as
/// taken as before. So no address ever names more than one live socket.
pub proof fn law_address_unique(fabric: FabricView, s: int, addr: TestAddr, capacity: nat)
    requires
        fabric.has_switch(s),
    ensures
        fabric.bind_refusal(s, addr) is None <==> !fabric.is_bound(s, addr),
        fabric.is_bound(s, addr) ==> fabric.bind_refusal(s, addr) == Some(
            BindError::AddressInUse,
        ) && fabric.after_bind(s, addr, capacity) == fabric,
        fabric.after_bind(s, addr, capacity).is_bound(s, addr),
        fabric.after_bind(s, addr, capacity).bind_refusal(s, addr) == Some(
            BindError::AddressInUse,
        ),
        fabric.after_bind(s, addr, capacity).after_bind(s, addr, capacity) == fabric.after_bind(
            s,
            addr,
            capacity,
        ),
        forall|other: TestAddr|
            other != addr ==> #[trigger] fabric.after_bind(s, addr, capacity).is_bound(s, other)
                == fabric.is_bound(s, other),
{
}

/// An address is free again once its socket is closed: the next socket to
/// connect under it is accepted.
pub proof fn law_address_reuse(fabric: FabricView, s: int, addr: TestAddr)
    requires
        fabric.is_bound(s, addr),
    ensures
        !fabric.after_unbind(s, addr, fabric.inbox_of(s, addr)).is_bound(s, addr),
        fabric.after_unbind(s, addr, fabric.inbox_of(s, addr)).bind_refusal(s, addr) is None,
        forall|other: TestAddr|
            other != addr ==> #[trigger] fabric.after_unbind(
                s,
                addr,
                fabric.inbox_of(s, addr),
            ).is_bound(s, other) == fabric.is_bound(s, other),
{
}

/// Unroutable send: a transmit for an address that no socket is bound to is
/// refused at once. It is not queued anywhere, and the sender is not told to
/// wait.
pub proof fn law_unroutable(fabric: FabricView, s: int, transmit: OwnedTransmit)
    requires
        !fabric.is_bound(s, transmit.destination),
    ensures
        fabric.route_result(s, transmit) == Err::<(), RouteError>(
            RouteError::Unroutable(transmit),
        ),
        fabric.after_route(s, transmit) == fabric,
{
}

/// Routing: a transmit for a bound address is queued in the inbox of the
/// socket bound to it, behind what is already there, and nowhere else.
pub proof fn law_routed(fabric: FabricView, s: int, transmit: OwnedTransmit)
    requires
        fabric.is_bound(s, transmit.destination),
        fabric.has_channel(fabric.inbox_of(s, transmit.destination)),
    ensures
        ({
            let inbox = fabric.inbox_of(s, transmit.destination);
            &&& fabric.route_result(s, transmit) is Ok <==> fabric.channels[inbox].accepts()
            &&& fabric.after_route(s, transmit) == fabric.with_channel(
                inbox,
                fabric.channels[inbox].after_send(transmit),
            )
        }),
{
}

} // verus!
