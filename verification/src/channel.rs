//! One direction of a link: a bounded first-in-first-out queue of transmits
//! with explicit close semantics on either side.
//!
//! The queue itself is a bounded channel of the async runtime, used without
//! waiting: both of its halves are kept in one place, and offering and taking
//! go through `try_send` and `try_recv`. Which side of a link is still there
//! is the channel's own business, decided here.

use vstd::prelude::*;
use crate::OwnedTransmit;

verus! {

/// What a channel holds, as a mathematical value.
pub struct ChannelView {
    /// The transmits in flight, oldest first.
    pub queue: Seq<OwnedTransmit>,
    /// The most transmits the queue may hold.
    pub capacity: nat,
    /// Whether the send-handle is still held.
    pub sender_open: bool,
    /// Whether the receive-handle is still held.
    pub receiver_open: bool,
}

/// Why a transmit was not accepted. The transmit comes back to the caller.
#[derive(Debug, PartialEq, Eq)]
pub enum TrySendError {
    /// The queue is at capacity: the sender has to wait.
    Full(OwnedTransmit),
    /// One side of the channel is gone: no transmit will be accepted again.
    Closed(OwnedTransmit),
}

/// Why no transmit was handed out.
#[derive(Clone, Copy, Debug, PartialEq, Eq, Structural)]
pub enum TryRecvError {
    /// Nothing is queued, but the sender is still there: the receiver has to
    /// wait.
    Empty,
    /// Nothing is queued and nothing will be: end of stream.
    Disconnected,
}

impl ChannelView {
    /// A channel as `Channel::new` makes it.
    pub open spec fn fresh(capacity: nat) -> ChannelView {
        ChannelView { queue: Seq::empty(), capacity, sender_open: true, receiver_open: true }
    }

    /// What holds of every channel: it is never over its capacity, and
    /// holds nothing once its receiver is gone.
    pub open spec fn wf(self) -> bool {
        &&& self.queue.len() <= self.capacity
        &&& !self.receiver_open ==> self.queue.len() == 0
    }

    /// No transmit will be accepted again.
    pub open spec fn is_closed(self) -> bool {
        !self.sender_open || !self.receiver_open
    }

    /// There is no room for another transmit.
    pub open spec fn is_full(self) -> bool {
        self.queue.len() >= self.capacity
    }

    /// A send succeeds exactly in this state.
    pub open spec fn accepts(self) -> bool {
        !self.is_closed() && !self.is_full()
    }

    /// A receive hands out a transmit exactly in this state.
    pub open spec fn has_next(self) -> bool {
        self.queue.len() > 0
    }

    /// The state after `transmit` was accepted.
    pub open spec fn push(self, transmit: OwnedTransmit) -> ChannelView {
        ChannelView { queue: self.queue.push(transmit), ..self }
    }

    /// The state after the oldest transmit was handed out.
    pub open spec fn pop(self) -> ChannelView {
        ChannelView { queue: self.queue.drop_first(), ..self }
    }

    /// What a send of `transmit` answers in this state.
    pub open spec fn send_result(self, transmit: OwnedTransmit) -> Result<(), TrySendError> {
        if self.is_closed() {
            Err(TrySendError::Closed(transmit))
        } else if self.is_full() {
            Err(TrySendError::Full(transmit))
        } else {
            Ok(())
        }
    }

    /// The state a send of `transmit` leaves behind: a refused transmit
    /// changes nothing.
    pub open spec fn after_send(self, transmit: OwnedTransmit) -> ChannelView {
        if self.accepts() {
            self.push(transmit)
        } else {
            self
        }
    }

    /// What a receive answers in this state.
    pub open spec fn recv_result(self) -> Result<OwnedTransmit, TryRecvError> {
        if self.has_next() {
            Ok(self.queue[0])
        } else if self.is_closed() {
            Err(TryRecvError::Disconnected)
        } else {
            Err(TryRecvError::Empty)
        }
    }

    /// The state a receive leaves behind.
    pub open spec fn after_recv(self) -> ChannelView {
        if self.has_next() {
            self.pop()
        } else {
            self
        }
    }

    /// Whether a sender has to wait: the channel is open and has no room.
    pub open spec fn send_waits(self) -> bool {
        !self.is_closed() && self.is_full()
    }

    /// Whether a receiver has to wait: the channel is open and has nothing
    /// queued.
    pub open spec fn recv_waits(self) -> bool {
        !self.is_closed() && !self.has_next()
    }

    /// The state after the send-handle was dropped. What is queued stays.
    pub open spec fn without_sender(self) -> ChannelView {
        ChannelView { sender_open: false, ..self }
    }

    /// The state after the receive-handle was dropped. What was queued is
    /// lost: its consumer is gone.
    pub open spec fn without_receiver(self) -> ChannelView {
        ChannelView { queue: Seq::empty(), receiver_open: false, ..self }
    }
}

/// The most transmits a channel can be made to hold: the largest number of
/// permits the runtime's channel can give out, an eighth of the address
/// space.
pub const MAX_CAPACITY: usize = usize::MAX / 8;

/// The sending half of the bounded channel that stores a queue.
#[verifier::external_type_specification]
#[verifier::external_body]
#[verifier::reject_recursive_types(T)]
pub struct ExSender<T>(tokio::sync::mpsc::Sender<T>);

/// The receiving half of the bounded channel that stores a queue.
#[verifier::external_type_specification]
#[verifier::external_body]
#[verifier::reject_recursive_types(T)]
pub struct ExReceiver<T>(tokio::sync::mpsc::Receiver<T>);

/// The messages buffered in the channel that `receiver` receives from,
/// oldest first.
pub uninterp spec fn queued(receiver: tokio::sync::mpsc::Receiver<OwnedTransmit>) -> Seq<
    OwnedTransmit,
>;

/// The buffer capacity that the channel of `receiver` was made with.
pub uninterp spec fn limit(receiver: tokio::sync::mpsc::Receiver<OwnedTransmit>) -> nat;

/// Both halves of one bounded channel, held together. Nothing else holds a
/// half of the same channel, neither half is ever closed or dropped before
/// the other, and no permit is ever reserved: so the channel is open for as
/// long as the pipe exists, and what it buffers changes through the pipe
/// alone.
struct Pipe {
    sender: tokio::sync::mpsc::Sender<OwnedTransmit>,
    receiver: tokio::sync::mpsc::Receiver<OwnedTransmit>,
}

/// Calls `tokio::sync::mpsc::channel`. Not proved: that the new channel
/// buffers nothing and has the capacity asked for. The call panics on a
/// capacity of 0 and on one above `usize::MAX >> 3`, which is
/// `MAX_CAPACITY`.
#[verifier::external_body]
fn pipe_open(capacity: usize) -> (pipe: Pipe)
    requires
        0 < capacity <= MAX_CAPACITY,
    ensures
        queued(pipe.receiver) == Seq::<OwnedTransmit>::empty(),
        limit(pipe.receiver) == capacity,
{
    let (sender, receiver) = tokio::sync::mpsc::channel(capacity);
    Pipe { sender, receiver }
}

/// Calls `Sender::try_send`. Not proved: that a channel with fewer messages
/// buffered than its capacity takes the message behind the others, and that
/// a channel at capacity takes nothing and hands the message back. The
/// receiving half is in the pipe, so the channel is not closed.
#[verifier::external_body]
fn pipe_try_send(pipe: &mut Pipe, transmit: OwnedTransmit) -> (refused: Option<OwnedTransmit>)
    ensures
        limit(final(pipe).receiver) == limit(old(pipe).receiver),
        refused == if queued(old(pipe).receiver).len() < limit(old(pipe).receiver) {
            None
        } else {
            Some(transmit)
        },
        queued(final(pipe).receiver) == if queued(old(pipe).receiver).len() < limit(
            old(pipe).receiver,
        ) {
            queued(old(pipe).receiver).push(transmit)
        } else {
            queued(old(pipe).receiver)
        },
{
    match pipe.sender.try_send(transmit) {
        Ok(()) => None,
        Err(tokio::sync::mpsc::error::TrySendError::Full(back)) => Some(back),
        Err(tokio::sync::mpsc::error::TrySendError::Closed(back)) => Some(back),
    }
}

/// Calls `Receiver::try_recv`. Not proved: that it hands out the oldest
/// buffered message and takes it off the buffer, and hands out nothing
/// exactly when nothing is buffered. Messages come out in the order they
/// were sent. The sending half is in the pipe, so an empty channel answers
/// that it is empty, not that it is disconnected.
#[verifier::external_body]
fn pipe_try_recv(pipe: &mut Pipe) -> (next: Option<OwnedTransmit>)
    ensures
        limit(final(pipe).receiver) == limit(old(pipe).receiver),
        next == if queued(old(pipe).receiver).len() > 0 {
            Some(queued(old(pipe).receiver)[0])
        } else {
            None
        },
        queued(final(pipe).receiver) == if queued(old(pipe).receiver).len() > 0 {
            queued(old(pipe).receiver).drop_first()
        } else {
            queued(old(pipe).receiver)
        },
{
    match pipe.receiver.try_recv() {
        Ok(transmit) => Some(transmit),
        Err(tokio::sync::mpsc::error::TryRecvError::Empty) => None,
        Err(tokio::sync::mpsc::error::TryRecvError::Disconnected) => None,
    }
}

/// Calls `Receiver::len`. Not proved: that it is the number of messages
/// buffered.
#[verifier::external_body]
fn pipe_len(pipe: &Pipe) -> (len: usize)
    ensures
        len == queued(pipe.receiver).len(),
{
    pipe.receiver.len()
}

/// Calls `Receiver::max_capacity`. Not proved: that it is the capacity the
/// channel was made with.
#[verifier::external_body]
fn pipe_limit(pipe: &Pipe) -> (capacity: usize)
    ensures
        capacity == limit(pipe.receiver),
{
    pipe.receiver.max_capacity()
}

/// A bounded queue of transmits with one sending and one receiving side.
pub struct Channel {
    /// Where the queue is stored, until the receiving side is dropped.
    pipe: Option<Pipe>,
    /// The capacity, kept for when the pipe is gone.
    capacity: usize,
    sender_open: bool,
}

impl View for Channel {
    type V = ChannelView;

    closed spec fn view(&self) -> ChannelView {
        match self.pipe {
            Some(pipe) => ChannelView {
                queue: queued(pipe.receiver),
                capacity: limit(pipe.receiver),
                sender_open: self.sender_open,
                receiver_open: true,
            },
            None => ChannelView {
                queue: Seq::empty(),
                capacity: self.capacity as nat,
                sender_open: self.sender_open,
                receiver_open: false,
            },
        }
    }
}

impl Channel {
    /// An empty channel with both sides open.
    pub fn new(capacity: usize) -> (channel: Channel)
        requires
            0 < capacity <= MAX_CAPACITY,
        ensures
            channel@ == ChannelView::fresh(capacity as nat),
            channel@.wf(),
    {
        Channel { pipe: Some(pipe_open(capacity)), capacity, sender_open: true }
    }

    /// Queues `transmit` behind everything already in flight, unless the
    /// channel is closed or full; then the channel stays as it is and the
    /// transmit comes back.
    pub fn try_send(&mut self, transmit: OwnedTransmit) -> (result: Result<(), TrySendError>)
        ensures
            result == old(self)@.send_result(transmit),
            final(self)@ == old(self)@.after_send(transmit),
            old(self)@.wf() ==> final(self)@.wf(),
    {
        if !self.sender_open {
            return Err(TrySendError::Closed(transmit));
        }
        match &mut self.pipe {
            None => Err(TrySendError::Closed(transmit)),
            Some(pipe) => match pipe_try_send(pipe, transmit) {
                None => Ok(()),
                Some(back) => Err(TrySendError::Full(back)),
            },
        }
    }

    /// Hands out the oldest transmit in flight. With nothing queued the
    /// result tells waiting from end of stream.
    pub fn try_recv(&mut self) -> (result: Result<OwnedTransmit, TryRecvError>)
        ensures
            result == old(self)@.recv_result(),
            final(self)@ == old(self)@.after_recv(),
            old(self)@.wf() ==> final(self)@.wf(),
    {
        let sender_open = self.sender_open;
        match &mut self.pipe {
            None => Err(TryRecvError::Disconnected),
            Some(pipe) => match pipe_try_recv(pipe) {
                Some(transmit) => Ok(transmit),
                None => {
                    if sender_open {
                        Err(TryRecvError::Empty)
                    } else {
                        Err(TryRecvError::Disconnected)
                    }
                },
            },
        }
    }

    /// Whether a send would be told to wait.
    pub fn send_waits(&self) -> (waits: bool)
        ensures
            waits == self@.send_waits(),
    {
        match &self.pipe {
            None => false,
            Some(pipe) => self.sender_open && pipe_len(pipe) >= pipe_limit(pipe),
        }
    }

    /// Whether a receive would be told to wait.
    pub fn recv_waits(&self) -> (waits: bool)
        ensures
            waits == self@.recv_waits(),
    {
        match &self.pipe {
            None => false,
            Some(pipe) => self.sender_open && pipe_len(pipe) == 0,
        }
    }

    /// Drops the send-handle. The receiver still gets what is queued, then
    /// end of stream.
    pub fn close_sender(&mut self)
        ensures
            final(self)@ == old(self)@.without_sender(),
            old(self)@.wf() ==> final(self)@.wf(),
    {
        self.sender_open = false;
    }

    /// Drops the receive-handle, and with it whatever was still queued.
    pub fn close_receiver(&mut self)
        ensures
            final(self)@ == old(self)@.without_receiver(),
            old(self)@.wf() ==> final(self)@.wf(),
    {
        let capacity = match &self.pipe {
            None => self.capacity,
            Some(pipe) => pipe_limit(pipe),
        };
        self.capacity = capacity;
        self.pipe = None;
    }
}

/// One step of a conversation over a channel.
pub enum ChannelOp {
    /// The sender offers a transmit.
    Send(OwnedTransmit),
    /// The receiver asks for the next transmit.
    Recv,
}

/// Where a conversation over a channel has got to.
pub struct Trace {
    /// The channel now.
    pub state: ChannelView,
    /// Every transmit the channel accepted, in the order of the sends.
    pub accepted: Seq<OwnedTransmit>,
    /// Every transmit the channel handed out, in the order of the receives.
    pub delivered: Seq<OwnedTransmit>,
}

/// The conversation `ops`, run on a channel that starts in `start`.
pub open spec fn run(start: ChannelView, ops: Seq<ChannelOp>) -> Trace
    decreases ops.len(),
{
    if ops.len() == 0 {
        Trace { state: start, accepted: Seq::empty(), delivered: Seq::empty() }
    } else {
        let before = run(start, ops.drop_last());
        match ops.last() {
            ChannelOp::Send(transmit) => Trace {
                state: before.state.after_send(transmit),
                accepted: if before.state.accepts() {
                    before.accepted.push(transmit)
                } else {
                    before.accepted
                },
                delivered: before.delivered,
            },
            ChannelOp::Recv => Trace {
                state: before.state.after_recv(),
                accepted: before.accepted,
                delivered: if before.state.has_next() {
                    before.delivered.push(before.state.queue[0])
                } else {
                    before.delivered
                },
            },
        }
    }
}

/// First in, first out: however sends and receives interleave, what was in
/// flight at the start followed by what was accepted since is exactly what
/// was handed out followed by what is in flight now. Nothing is lost,
/// repeated, reordered or changed.
pub proof fn law_fifo(start: ChannelView, ops: Seq<ChannelOp>)
    ensures
        start.queue + run(start, ops).accepted == run(start, ops).delivered + run(
            start,
            ops,
        ).state.queue,
    decreases ops.len(),
{
    if ops.len() == 0 {
        assert(start.queue + Seq::<OwnedTransmit>::empty() =~= Seq::<OwnedTransmit>::empty()
            + start.queue);
    } else {
        law_fifo(start, ops.drop_last());
        let before = run(start, ops.drop_last());
        let after = run(start, ops);
        let whole = start.queue + before.accepted;
        assert(whole == before.delivered + before.state.queue);
        match ops.last() {
            ChannelOp::Send(transmit) => {
                if before.state.accepts() {
                    assert(start.queue + after.accepted =~= whole.push(transmit));
                    assert(after.delivered + after.state.queue =~= whole.push(transmit));
                }
            },
            ChannelOp::Recv => {
                if before.state.has_next() {
                    assert(after.delivered + after.state.queue =~= whole);
                }
            },
        }
    }
}

/// Back-pressure: a conversation never puts more in flight than the capacity
/// allows, and a closed side stays closed.
pub proof fn law_bounded(start: ChannelView, ops: Seq<ChannelOp>)
    requires
        start.wf(),
    ensures
        run(start, ops).state.wf(),
        run(start, ops).state.capacity == start.capacity,
        start.is_closed() ==> run(start, ops).state.is_closed(),
    decreases ops.len(),
{
    if ops.len() > 0 {
        law_bounded(start, ops.drop_last());
    }
}

/// Readiness and the operations are two views of one queue: a send is told
/// to wait exactly when `send_waits` says so, a receive exactly when
/// `recv_waits` says so.
pub proof fn law_readiness(channel: ChannelView, transmit: OwnedTransmit)
    ensures
        channel.send_waits() <==> channel.send_result(transmit) == Err::<(), TrySendError>(
            TrySendError::Full(transmit),
        ),
        channel.recv_waits() <==> channel.recv_result() == Err::<OwnedTransmit, TryRecvError>(
            TryRecvError::Empty,
        ),
{
}

/// A full channel refuses without dropping: the transmit comes back and the
/// queue is as it was. Room made by one receive is room for one send.
pub proof fn law_back_pressure(channel: ChannelView, transmit: OwnedTransmit)
    requires
        channel.wf(),
        !channel.is_closed(),
        channel.is_full(),
        channel.capacity > 0,
    ensures
        channel.send_result(transmit) == Err::<(), TrySendError>(TrySendError::Full(transmit)),
        channel.after_send(transmit) == channel,
        channel.after_recv().send_result(transmit) == Ok::<(), TrySendError>(()),
{
}

/// Once the send-handle is dropped, the receiver is handed what was still
/// queued, oldest first, and then end of stream: it is never told to wait.
pub proof fn law_teardown(channel: ChannelView, taken: nat)
    requires
        taken <= channel.queue.len(),
    ensures
        drain(channel.without_sender(), taken).recv_result() != Err::<
            OwnedTransmit,
            TryRecvError,
        >(TryRecvError::Empty),
        taken < channel.queue.len() ==> drain(channel.without_sender(), taken).recv_result()
            == Ok::<OwnedTransmit, TryRecvError>(channel.queue[taken as int]),
        taken == channel.queue.len() ==> drain(channel.without_sender(), taken).recv_result()
            == Err::<OwnedTransmit, TryRecvError>(TryRecvError::Disconnected),
{
    lemma_drain(channel.without_sender(), taken);
}

/// The channel after `count` receives.
pub open spec fn drain(channel: ChannelView, count: nat) -> ChannelView
    decreases count,
{
    if count == 0 {
        channel
    } else {
        drain(channel, (count - 1) as nat).after_recv()
    }
}

proof fn lemma_drain(channel: ChannelView, count: nat)
    requires
        count <= channel.queue.len(),
    ensures
        drain(channel, count) == (ChannelView {
            queue: channel.queue.skip(count as int),
            ..channel
        }),
    decreases count,
{
    if count == 0 {
        assert(channel.queue.skip(0) =~= channel.queue);
    } else {
        lemma_drain(channel, (count - 1) as nat);
        let before = drain(channel, (count - 1) as nat);
        assert(before.queue.drop_first() =~= channel.queue.skip(count as int));
    }
}

} // verus!
