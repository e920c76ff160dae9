//! The endpoint socket: what a protocol engine binds to.
//!
//! A socket is backed either by one end of a private wire or by a
//! registration in a switch. Its operations never wait: where a caller would
//! have to be suspended, the result says `WouldBlock`, and the caller tries
//! again once the fabric has moved on.

use vstd::prelude::*;
use crate::channel::{TryRecvError, TrySendError};
use crate::fabric::{Fabric, FabricView, ReceiveHandle, SendHandle};
use crate::switch::{BindError, RouteError, Switch, INBOX_CAPACITY};
use crate::{OwnedTransmit, TestAddr};

verus! {

/// One end of a link: the handle that sends to the peer and the handle that
/// receives from it.
#[derive(Debug)]
pub struct Plug {
    pub sender: SendHandle,
    pub receiver: ReceiveHandle,
}

/// What a socket is to be bound to.
#[derive(Debug)]
pub enum Backing {
    /// One end of a private wire.
    Plug(Plug),
    /// A switch, in which the socket's address is to be registered.
    Switch(Switch),
}

/// What a bound socket sends and receives through.
#[derive(Debug)]
pub enum Transport {
    /// One end of a private wire: every datagram goes to the one peer.
    Wired(Plug),
    /// A registration in a switch: datagrams are routed by destination, and
    /// arrive in the socket's own inbox.
    Switched { switch: Switch, inbox: ReceiveHandle },
}

/// Why a datagram was not sent.
#[derive(Debug, PartialEq, Eq)]
pub enum SendError {
    /// The destination's queue is full. This is back-pressure, not a
    /// failure: the payload comes back, to be sent again later.
    WouldBlock(Vec<u8>),
    /// The transport was torn down.
    Closed,
    /// No socket is bound to the destination.
    Unroutable,
}

/// Why no datagram was received.
#[derive(Clone, Copy, Debug, PartialEq, Eq, Structural)]
pub enum RecvError {
    /// Nothing has arrived yet.
    WouldBlock,
    /// The transport was torn down and nothing more will arrive.
    Closed,
}

/// A datagram socket with an address, bound and ready for use. Closing it
/// consumes it.
#[derive(Debug)]
pub struct VirtualSocket {
    /// The address the socket sends from.
    pub addr: TestAddr,
    pub transport: Transport,
}

impl VirtualSocket {
    /// The index of the channel this socket receives from.
    pub open spec fn inbox(self) -> int {
        match self.transport {
            Transport::Wired(plug) => plug.receiver.index(),
            Transport::Switched { inbox, .. } => inbox.index(),
        }
    }

    /// The transmit this socket makes of a payload: the destination as
    /// given, the socket's own address as the source.
    pub open spec fn outgoing(self, destination: TestAddr, payload: Vec<u8>) -> OwnedTransmit {
        OwnedTransmit { destination, source: self.addr, contents: payload }
    }

    /// What sending `payload` to `destination` answers in the fabric state
    /// `fabric`.
    pub open spec fn send_result(
        self,
        fabric: FabricView,
        destination: TestAddr,
        payload: Vec<u8>,
    ) -> Result<(), SendError> {
        let transmit = self.outgoing(destination, payload);
        match self.transport {
            Transport::Wired(plug) => match fabric.send_result(plug.sender.index(), transmit) {
                Ok(()) => Ok(()),
                Err(TrySendError::Full(back)) => Err(SendError::WouldBlock(back.contents)),
                Err(TrySendError::Closed(_)) => Err(SendError::Closed),
            },
            Transport::Switched { switch, .. } => match fabric.route_result(
                switch.index(),
                transmit,
            ) {
                Ok(()) => Ok(()),
                Err(RouteError::Unroutable(_)) => Err(SendError::Unroutable),
                Err(RouteError::Full(back)) => Err(SendError::WouldBlock(back.contents)),
                Err(RouteError::Closed(_)) => Err(SendError::Closed),
            },
        }
    }

    /// The fabric after this socket tried to send `payload` to
    /// `destination`.
    pub open spec fn after_send(
        self,
        fabric: FabricView,
        destination: TestAddr,
        payload: Vec<u8>,
    ) -> FabricView {
        let transmit = self.outgoing(destination, payload);
        match self.transport {
            Transport::Wired(plug) => fabric.after_send(plug.sender.index(), transmit),
            Transport::Switched { switch, .. } => fabric.after_route(switch.index(), transmit),
        }
    }

    /// What a receive on this socket answers in the fabric state `fabric`:
    /// the source and payload of the oldest datagram in its inbox.
    pub open spec fn recv_result(self, fabric: FabricView) -> Result<
        (TestAddr, Vec<u8>),
        RecvError,
    > {
        match fabric.recv_result(self.inbox()) {
            Ok(transmit) => Ok((transmit.source, transmit.contents)),
            Err(TryRecvError::Empty) => Err(RecvError::WouldBlock),
            Err(TryRecvError::Disconnected) => Err(RecvError::Closed),
        }
    }

    /// Whether a send to `destination` has to wait in the fabric state
    /// `fabric`.
    pub open spec fn send_waits(self, fabric: FabricView, destination: TestAddr) -> bool {
        match self.transport {
            Transport::Wired(plug) => fabric.send_waits(plug.sender.index()),
            Transport::Switched { switch, .. } => fabric.route_waits(switch.index(), destination),
        }
    }

    /// Whether a receive has to wait in the fabric state `fabric`.
    pub open spec fn recv_waits(self, fabric: FabricView) -> bool {
        fabric.recv_waits(self.inbox())
    }

    /// The fabric after this socket was closed.
    pub open spec fn after_close(self, fabric: FabricView) -> FabricView {
        match self.transport {
            Transport::Wired(plug) => fabric.after_drop_sender(
                plug.sender.index(),
            ).after_drop_receiver(plug.receiver.index()),
            Transport::Switched { switch, inbox } => fabric.after_unbind(
                switch.index(),
                self.addr,
                inbox.index(),
            ),
        }
    }

    /// A socket with the address `addr` on one end of a wire.
    pub fn new(addr: TestAddr, plug: Plug) -> (socket: VirtualSocket)
        ensures
            socket == (VirtualSocket { addr, transport: Transport::Wired(plug) }),
    {
        VirtualSocket { addr, transport: Transport::Wired(plug) }
    }

    /// Binds a socket with the address `addr` to a plug or to a switch.
    ///
    /// A plug is taken as it is and the fabric does not change. In a switch
    /// the address is registered with a fresh inbox; that fails, and changes
    /// nothing, where a live socket holds the address already.
    pub fn bind(fabric: &mut Fabric, addr: TestAddr, backing: Backing) -> (result: Result<
        VirtualSocket,
        BindError,
    >)
        ensures
            match backing {
                Backing::Plug(plug) => {
                    &&& result == Ok::<VirtualSocket, BindError>(
                        VirtualSocket { addr, transport: Transport::Wired(plug) },
                    )
                    &&& final(fabric)@ == old(fabric)@
                },
                Backing::Switch(switch) => {
                    &&& match result {
                        Ok(socket) => {
                            &&& old(fabric)@.bind_refusal(switch.index(), addr) is None
                            &&& socket.addr == addr
                            &&& socket.transport matches Transport::Switched { switch: s, inbox }
                            &&& s == switch
                            &&& inbox.index() == old(fabric)@.channels.len()
                        },
                        Err(refusal) => old(fabric)@.bind_refusal(switch.index(), addr) == Some(
                            refusal,
                        ),
                    }
                    &&& final(fabric)@ == old(fabric)@.after_bind(
                        switch.index(),
                        addr,
                        INBOX_CAPACITY as nat,
                    )
                },
            },
            old(fabric)@.wf() ==> final(fabric)@.wf(),
    {
        match backing {
            Backing::Plug(plug) => Ok(VirtualSocket::new(addr, plug)),
            Backing::Switch(switch) => match fabric.bind(&switch, addr, INBOX_CAPACITY) {
                Ok(inbox) => Ok(
                    VirtualSocket { addr, transport: Transport::Switched { switch, inbox } },
                ),
                Err(refusal) => Err(refusal),
            },
        }
    }

    /// Sends `payload` to `destination`, without waiting.
    ///
    /// On a wire the datagram goes to the one peer, whatever the destination
    /// says. In a switch it goes to the inbox of the socket bound to the
    /// destination, or fails at once with `Unroutable` where there is none.
    pub fn send_datagram(
        &self,
        fabric: &mut Fabric,
        destination: TestAddr,
        payload: Vec<u8>,
    ) -> (result: Result<(), SendError>)
        ensures
            result == self.send_result(old(fabric)@, destination, payload),
            final(fabric)@ == self.after_send(old(fabric)@, destination, payload),
            old(fabric)@.wf() ==> final(fabric)@.wf(),
    {
        let transmit = OwnedTransmit { destination, source: self.addr, contents: payload };
        match &self.transport {
            Transport::Wired(plug) => match fabric.try_send(&plug.sender, transmit) {
                Ok(()) => Ok(()),
                Err(TrySendError::Full(back)) => Err(SendError::WouldBlock(back.contents)),
                Err(TrySendError::Closed(_)) => Err(SendError::Closed),
            },
            Transport::Switched { switch, .. } => match fabric.route(switch, transmit) {
                Ok(()) => Ok(()),
                Err(RouteError::Unroutable(_)) => Err(SendError::Unroutable),
                Err(RouteError::Full(back)) => Err(SendError::WouldBlock(back.contents)),
                Err(RouteError::Closed(_)) => Err(SendError::Closed),
            },
        }
    }

    /// Receives the next datagram, without waiting: its recorded source and
    /// its payload, in the order of arrival at this socket's inbox.
    pub fn receive_datagram(&mut self, fabric: &mut Fabric) -> (result: Result<
        (TestAddr, Vec<u8>),
        RecvError,
    >)
        ensures
            *final(self) == *old(self),
            result == old(self).recv_result(old(fabric)@),
            final(fabric)@ == old(fabric)@.after_recv(old(self).inbox()),
            old(fabric)@.wf() ==> final(fabric)@.wf(),
    {
        let received = match &self.transport {
            Transport::Wired(plug) => fabric.try_recv(&plug.receiver),
            Transport::Switched { inbox, .. } => fabric.try_recv(inbox),
        };
        match received {
            Ok(transmit) => Ok((transmit.source, transmit.contents)),
            Err(TryRecvError::Empty) => Err(RecvError::WouldBlock),
            Err(TryRecvError::Disconnected) => Err(RecvError::Closed),
        }
    }

    /// Whether the socket is ready to send to `destination`: whether
    /// `send_datagram` would answer at once rather than `WouldBlock`.
    pub fn poll_send(&self, fabric: &Fabric, destination: TestAddr) -> (ready: bool)
        ensures
            ready == !self.send_waits(fabric@, destination),
    {
        match &self.transport {
            Transport::Wired(plug) => !fabric.send_waits(&plug.sender),
            Transport::Switched { switch, .. } => !fabric.route_waits(switch, destination),
        }
    }

    /// Whether the socket is ready to receive: whether `receive_datagram`
    /// would answer at once rather than `WouldBlock`.
    pub fn poll_recv(&self, fabric: &Fabric) -> (ready: bool)
        ensures
            ready == !self.recv_waits(fabric@),
    {
        match &self.transport {
            Transport::Wired(plug) => !fabric.recv_waits(&plug.receiver),
            Transport::Switched { inbox, .. } => !fabric.recv_waits(inbox),
        }
    }

    /// Closes the socket. On a wire both handles are dropped, so the peer
    /// finds its transport closed. In a switch the inbox is torn down and
    /// the address becomes free for a later socket.
    pub fn close(self, fabric: &mut Fabric)
        ensures
            final(fabric)@ == self.after_close(old(fabric)@),
            old(fabric)@.wf() ==> final(fabric)@.wf(),
    {
        let addr = self.addr;
        match self.transport {
            Transport::Wired(plug) => {
                fabric.drop_sender(plug.sender);
                fabric.drop_receiver(plug.receiver);
            },
            Transport::Switched { switch, inbox } => {
                fabric.unbind(&switch, addr, inbox);
            },
        }
    }
}

/// The polling surface and the operations are two views of one transport:
/// a socket is not ready to send exactly when a send would be told to wait,
/// and not ready to receive exactly when a receive would.
pub proof fn law_polling_is_consistent(
    fabric: FabricView,
    socket: VirtualSocket,
    destination: TestAddr,
    payload: Vec<u8>,
)
    ensures
        socket.send_waits(fabric, destination) <==> socket.send_result(
            fabric,
            destination,
            payload,
        ) == Err::<(), SendError>(SendError::WouldBlock(payload)),
        socket.recv_waits(fabric) <==> socket.recv_result(fabric) == Err::<
            (TestAddr, Vec<u8>),
            RecvError,
        >(RecvError::WouldBlock),
{
}

/// Delivery over a wire: when two sockets sit on channels that mirror each
/// other and the way from the first to the second is empty and has room,
/// what the first sends is what the second receives next, with the first
/// socket's address as its source, whatever destination was named.
pub proof fn law_wired_delivery(
    fabric: FabricView,
    from: VirtualSocket,
    to: VirtualSocket,
    destination: TestAddr,
    payload: Vec<u8>,
)
    requires
        from.transport matches Transport::Wired(near) && to.transport matches Transport::Wired(
            far,
        ) && near.sender.index() == far.receiver.index(),
        fabric.has_channel(to.inbox()),
        fabric.channels[to.inbox()].accepts(),
        !fabric.channels[to.inbox()].has_next(),
    ensures
        from.send_result(fabric, destination, payload) == Ok::<(), SendError>(()),
        to.recv_result(from.after_send(fabric, destination, payload)) == Ok::<
            (TestAddr, Vec<u8>),
            RecvError,
        >((from.addr, payload)),
{
}

/// Delivery through a switch: what a socket sends to a bound address is
/// what the socket bound to that address receives next, where its inbox
/// was empty and has room, with the sender's address as its source.
pub proof fn law_switched_delivery(
    fabric: FabricView,
    from: VirtualSocket,
    to: VirtualSocket,
    payload: Vec<u8>,
)
    requires
        from.transport matches Transport::Switched { switch, .. } && fabric.is_bound(
            switch.index(),
            to.addr,
        ) && fabric.inbox_of(switch.index(), to.addr) == to.inbox(),
        fabric.has_channel(to.inbox()),
        fabric.channels[to.inbox()].accepts(),
        !fabric.channels[to.inbox()].has_next(),
    ensures
        from.send_result(fabric, to.addr, payload) == Ok::<(), SendError>(()),
        to.recv_result(from.after_send(fabric, to.addr, payload)) == Ok::<
            (TestAddr, Vec<u8>),
            RecvError,
        >((from.addr, payload)),
{
}

/// Unroutable send: a socket in a switch that sends to an address no socket
/// is bound to fails at once with `Unroutable`. Nothing is queued, and the
/// sender is not told to wait.
pub proof fn law_unroutable_send(
    fabric: FabricView,
    from: VirtualSocket,
    destination: TestAddr,
    payload: Vec<u8>,
)
    requires
        from.transport matches Transport::Switched { switch, .. } && !fabric.is_bound(
            switch.index(),
            destination,
        ),
    ensures
        from.send_result(fabric, destination, payload) == Err::<(), SendError>(
            SendError::Unroutable,
        ),
        from.after_send(fabric, destination, payload) == fabric,
{
}

/// Teardown: once a socket on a wire is closed, its peer is never told to
/// wait again. A receive hands out what is still queued, oldest first, and
/// then says `Closed`; a send says `Closed` at once.
pub proof fn law_peer_closed(
    fabric: FabricView,
    gone: VirtualSocket,
    peer: VirtualSocket,
    destination: TestAddr,
    payload: Vec<u8>,
)
    requires
        gone.transport matches Transport::Wired(near) && peer.transport matches Transport::Wired(
            far,
        ) && near.sender.index() == far.receiver.index() && near.receiver.index()
            == far.sender.index() && near.sender.index() != near.receiver.index(),
        fabric.has_channel(peer.inbox()),
        fabric.has_channel(gone.inbox()),
    ensures
        peer.recv_result(gone.after_close(fabric)) == if fabric.channels[peer.inbox()].has_next() {
            peer.recv_result(fabric)
        } else {
            Err::<(TestAddr, Vec<u8>), RecvError>(RecvError::Closed)
        },
        peer.send_result(gone.after_close(fabric), destination, payload) == Err::<(), SendError>(
            SendError::Closed,
        ),
        gone.after_close(fabric).channels[peer.inbox()].queue
            == fabric.channels[peer.inbox()].queue,
        gone.after_close(fabric).channels[peer.inbox()].is_closed(),
{
}

} // verus!
