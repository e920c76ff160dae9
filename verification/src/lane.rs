//! One direction through a connector, seen by itself: the channel a relay
//! takes from, the relay, and the channel it forwards on.
//!
//! Here stand the laws of shaping: that a lane keeps the order of what
//! passes through it, and that nothing comes out of it sooner than the
//! shaping policy allows.

use vstd::prelude::*;
use crate::channel::{ChannelView, TryRecvError, TrySendError};
use crate::fabric::{lemma_relay_step_shape, FabricView};
use crate::relay::{
    lemma_size_in_nanos, lemma_transmission_time, release_time, Rate, RelayState, Shaping,
};
use crate::time::{Duration, Instant, NANOS_PER_SEC};
use crate::OwnedTransmit;

verus! {

/// The state of one lane.
pub struct Lane {
    /// The channel the relay takes from.
    pub input: ChannelView,
    /// The channel the relay forwards on.
    pub output: ChannelView,
    pub shaping: Shaping,
    /// Where the relay is in its cycle.
    pub state: RelayState,
}

impl Lane {
    /// Whether nothing on this lane has been torn down.
    pub open spec fn is_open(self) -> bool {
        &&& !self.input.is_closed()
        &&& !self.output.is_closed()
        &&& !(self.state is Finished)
    }

    /// Whether the far end is still there and the relay has lost nothing:
    /// either the relay is at work between its two channels, whether or not
    /// the near end has hung up, or it has shut down at the end of an input
    /// that was emptied and closed.
    pub open spec fn is_intact(self) -> bool {
        &&& self.output.receiver_open
        &&& if self.state is Finished {
            &&& !self.input.sender_open
            &&& self.input.queue.len() == 0
            &&& !self.output.sender_open
        } else {
            &&& self.input.receiver_open
            &&& self.output.sender_open
        }
    }

    /// The transmit the relay holds, if any, as a sequence.
    pub open spec fn held(self) -> Seq<OwnedTransmit> {
        match self.state {
            RelayState::Holding { transmit, .. } => seq![transmit],
            _ => Seq::empty(),
        }
    }

    /// Everything on its way through the lane, oldest first.
    pub open spec fn in_flight(self) -> Seq<OwnedTransmit> {
        self.output.queue + self.held() + self.input.queue
    }

    /// The lane after its relay shut down.
    pub open spec fn retired(self) -> Lane {
        Lane {
            input: self.input.without_receiver(),
            output: self.output.without_sender(),
            state: RelayState::Finished,
            ..self
        }
    }

    /// One turn of the relay with the clock at `now`.
    pub open spec fn step(self, now: Instant) -> Lane {
        match self.state {
            RelayState::Finished => self,
            RelayState::Idle => match self.input.recv_result() {
                Ok(transmit) => Lane {
                    input: self.input.pop(),
                    state: RelayState::Holding {
                        transmit,
                        release_at: release_time(now, self.shaping, transmit),
                    },
                    ..self
                },
                Err(TryRecvError::Empty) => self,
                Err(TryRecvError::Disconnected) => self.retired(),
            },
            RelayState::Holding { transmit, release_at } => if now.nanos < release_at {
                self
            } else {
                match self.output.send_result(transmit) {
                    Ok(()) => Lane {
                        output: self.output.push(transmit),
                        state: RelayState::Idle,
                        ..self
                    },
                    Err(TrySendError::Full(_)) => self,
                    Err(TrySendError::Closed(_)) => self.retired(),
                }
            },
        }
    }
}

impl FabricView {
    /// The lane of relay `r`, cut out of the fabric.
    pub open spec fn lane_of(self, r: int) -> Lane {
        Lane {
            input: self.channels[self.relays[r].input as int],
            output: self.channels[self.relays[r].output as int],
            shaping: self.relays[r].shaping,
            state: self.relays[r].state,
        }
    }

    /// Whether relay `q` takes from or forwards on channel `c`.
    pub open spec fn touches(self, q: int, c: int) -> bool {
        self.relays[q].input == c || self.relays[q].output == c
    }

    /// Whether relay `r` runs between two different channels of this fabric
    /// that no other relay takes from or forwards on.
    pub open spec fn lane_is_private(self, r: int) -> bool {
        &&& self.is_attached(r)
        &&& self.relays[r].input != self.relays[r].output
        &&& forall|q: int|
            0 <= q < self.relays.len() && q != r ==> {
                &&& !#[trigger] self.touches(q, self.relays[r].input as int)
                &&& !self.touches(q, self.relays[r].output as int)
            }
    }
}

/// Something that happens on a lane.
pub enum LaneEvent {
    /// The near end offers a transmit.
    Send(OwnedTransmit),
    /// The relay gets a turn, with the clock at the given time.
    Poll(Instant),
    /// The far end asks for the next transmit.
    Recv,
    /// The near end drops its send-handle.
    Hangup,
}

/// Where a lane has got to after a run of events.
pub struct LaneTrace {
    pub lane: Lane,
    /// Every transmit the lane accepted, in the order of the sends.
    pub accepted: Seq<OwnedTransmit>,
    /// Every transmit the far end was handed, in the order of the receives.
    pub delivered: Seq<OwnedTransmit>,
    /// The clock at the latest turn of the relay.
    pub clock: Instant,
    /// Whether the clock never ran backwards between two turns.
    pub steady: bool,
}

/// The events `events`, played on the lane `start` from the time `origin`
/// on.
pub open spec fn play(start: Lane, origin: Instant, events: Seq<LaneEvent>) -> LaneTrace
    decreases events.len(),
{
    if events.len() == 0 {
        LaneTrace {
            lane: start,
            accepted: Seq::empty(),
            delivered: Seq::empty(),
            clock: origin,
            steady: true,
        }
    } else {
        let before = play(start, origin, events.drop_last());
        match events.last() {
            LaneEvent::Send(transmit) => LaneTrace {
                lane: Lane { input: before.lane.input.after_send(transmit), ..before.lane },
                accepted: if before.lane.input.accepts() {
                    before.accepted.push(transmit)
                } else {
                    before.accepted
                },
                ..before
            },
            LaneEvent::Poll(now) => LaneTrace {
                lane: before.lane.step(now),
                clock: now,
                steady: before.steady && before.clock.nanos <= now.nanos,
                ..before
            },
            LaneEvent::Recv => LaneTrace {
                lane: Lane { output: before.lane.output.after_recv(), ..before.lane },
                delivered: if before.lane.output.has_next() {
                    before.delivered.push(before.lane.output.queue[0])
                } else {
                    before.delivered
                },
                ..before
            },
            LaneEvent::Hangup => LaneTrace {
                lane: Lane { input: before.lane.input.without_sender(), ..before.lane },
                ..before
            },
        }
    }
}

/// The nanoseconds the relay spends on the first `count` of `items`, one
/// after the other.
pub open spec fn total_delay(shaping: Shaping, items: Seq<OwnedTransmit>, count: int) -> nat
    decreases count,
{
    if count <= 0 {
        0
    } else {
        total_delay(shaping, items, count - 1) + shaping.delay_of(items[count - 1].wire_size())
    }
}

/// The payload bytes of the first `count` of `items`.
pub open spec fn total_bytes(items: Seq<OwnedTransmit>, count: int) -> nat
    decreases count,
{
    if count <= 0 {
        0
    } else {
        total_bytes(items, count - 1) + items[count - 1].wire_size()
    }
}

/// Order is kept through a connector: as long as the far end is there,
/// what was in flight at the start followed by what was accepted since is
/// exactly what was handed out followed by what is in flight now. The relay
/// loses, repeats, reorders and changes nothing, also when the near end
/// hangs up and the relay shuts down after it.
pub proof fn law_lane_fifo(start: Lane, origin: Instant, events: Seq<LaneEvent>)
    requires
        start.is_intact(),
    ensures
        play(start, origin, events).lane.is_intact(),
        play(start, origin, events).lane.shaping == start.shaping,
        start.is_open() && (forall|i: int|
            0 <= i < events.len() ==> !(#[trigger] events[i] is Hangup)) ==> play(
            start,
            origin,
            events,
        ).lane.is_open(),
        start.in_flight() + play(start, origin, events).accepted == play(
            start,
            origin,
            events,
        ).delivered + play(start, origin, events).lane.in_flight(),
    decreases events.len(),
{
    let after = play(start, origin, events);
    if events.len() == 0 {
        assert(start.in_flight() + after.accepted =~= after.delivered + after.lane.in_flight());
    } else {
        let earlier = events.drop_last();
        law_lane_fifo(start, origin, earlier);
        let before = play(start, origin, earlier);
        let whole = start.in_flight() + before.accepted;
        assert(whole == before.delivered + before.lane.in_flight());
        assert(forall|i: int| 0 <= i < earlier.len() ==> earlier[i] == events[i]);
        match events.last() {
            LaneEvent::Send(transmit) => {
                if before.lane.input.accepts() {
                    assert(start.in_flight() + after.accepted =~= whole.push(transmit));
                    assert(after.delivered + after.lane.in_flight() =~= whole.push(transmit));
                }
            },
            LaneEvent::Poll(now) => {
                assert(after.lane.in_flight() =~= before.lane.in_flight());
            },
            LaneEvent::Recv => {
                if before.lane.output.has_next() {
                    assert(after.delivered + after.lane.in_flight() =~= whole);
                }
            },
            LaneEvent::Hangup => {
                assert(after.lane.in_flight() =~= before.lane.in_flight());
            },
        }
    }
}

/// Teardown passes through a connector, in order. Whatever happened on a
/// lane whose far end is there: the far end is told that the stream has
/// ended only when it has been handed everything the lane ever accepted, in
/// the order of the sends. Once the near end has hung up nothing more is
/// accepted; and when nothing is in flight any more, one turn of the relay
/// is enough for the far end's next receive to say end of stream rather
/// than to wait.
pub proof fn law_lane_end_of_stream(
    start: Lane,
    origin: Instant,
    events: Seq<LaneEvent>,
    transmit: OwnedTransmit,
    now: Instant,
)
    requires
        start.is_intact(),
    ensures
        play(start, origin, events).lane.output.recv_result() == Err::<
            OwnedTransmit,
            TryRecvError,
        >(TryRecvError::Disconnected) ==> play(start, origin, events).delivered
            == start.in_flight() + play(start, origin, events).accepted,
        !play(start, origin, events).lane.input.sender_open ==> play(
            start,
            origin,
            events,
        ).lane.input.send_result(transmit) == Err::<(), TrySendError>(
            TrySendError::Closed(transmit),
        ),
        !play(start, origin, events).lane.input.sender_open && play(
            start,
            origin,
            events,
        ).lane.in_flight().len() == 0 ==> play(start, origin, events).lane.step(
            now,
        ).output.recv_result() == Err::<OwnedTransmit, TryRecvError>(TryRecvError::Disconnected),
{
    law_lane_fifo(start, origin, events);
    let after = play(start, origin, events);
    let whole = start.in_flight() + after.accepted;
    if after.lane.output.recv_result() == Err::<OwnedTransmit, TryRecvError>(
        TryRecvError::Disconnected,
    ) {
        assert(after.lane.in_flight() =~= Seq::empty());
        assert(after.delivered + after.lane.in_flight() =~= after.delivered);
    }
}

/// The release time is the pick-up time plus the delay: the sum always fits.
pub proof fn lemma_release_time(now: Instant, shaping: Shaping, transmit: OwnedTransmit)
    requires
        shaping.wf(),
    ensures
        release_time(now, shaping, transmit) == now.nanos + shaping.delay_of(
            transmit.wire_size(),
        ),
{
    let size = transmit.contents.len();
    assert(size == transmit.wire_size());
    match shaping {
        Shaping::FixedDelay(delay) => {},
        Shaping::Throughput(rate) => {
            lemma_transmission_time(size as nat, rate@ as nat);
            lemma_size_in_nanos(size as nat);
        },
    }
}

proof fn lemma_total_delay_push(
    shaping: Shaping,
    items: Seq<OwnedTransmit>,
    extra: OwnedTransmit,
    count: int,
)
    requires
        count <= items.len(),
    ensures
        total_delay(shaping, items.push(extra), count) == total_delay(shaping, items, count),
    decreases count,
{
    if count > 0 {
        lemma_total_delay_push(shaping, items, extra, count - 1);
    }
}

/// What holds all along a steady run on a lane that started idle with
/// nothing on its far side.
spec fn on_pace(start: Lane, origin: Instant, trace: LaneTrace) -> bool {
    let whole = start.input.queue + trace.accepted;
    let gone = (trace.delivered.len() + trace.lane.output.queue.len()) as int;
    &&& trace.lane.is_intact()
    &&& trace.lane.shaping == start.shaping
    &&& whole == trace.delivered + trace.lane.in_flight()
    &&& origin.nanos <= trace.clock.nanos
    &&& forall|n: int|
        1 <= n <= gone ==> origin.nanos + #[trigger] total_delay(start.shaping, whole, n)
            <= trace.clock.nanos
    &&& trace.lane.state matches RelayState::Holding { release_at, .. } ==> release_at
        >= origin.nanos + total_delay(start.shaping, whole, gone + 1)
}

proof fn lemma_pace(start: Lane, origin: Instant, events: Seq<LaneEvent>)
    requires
        start.is_open(),
        start.shaping.wf(),
        start.state is Idle,
        start.output.queue.len() == 0,
        play(start, origin, events).steady,
    ensures
        on_pace(start, origin, play(start, origin, events)),
    decreases events.len(),
{
    let after = play(start, origin, events);
    let shaping = start.shaping;
    if events.len() == 0 {
        assert(start.input.queue + after.accepted =~= after.delivered + after.lane.in_flight());
    } else {
        lemma_pace(start, origin, events.drop_last());
        let before = play(start, origin, events.drop_last());
        let whole = start.input.queue + before.accepted;
        let gone = (before.delivered.len() + before.lane.output.queue.len()) as int;
        let next = start.input.queue + after.accepted;
        assert(whole == before.delivered + before.lane.in_flight());
        assert(whole.len() == gone + before.lane.held().len() + before.lane.input.queue.len());
        match events.last() {
            LaneEvent::Send(transmit) => {
                if before.lane.input.accepts() {
                    assert(next =~= whole.push(transmit));
                    assert(after.delivered + after.lane.in_flight() =~= whole.push(transmit));
                    assert forall|n: int| 1 <= n <= gone implies origin.nanos
                        + #[trigger] total_delay(shaping, next, n) <= after.clock.nanos by {
                        lemma_total_delay_push(shaping, whole, transmit, n);
                    }
                    if before.lane.state is Holding {
                        lemma_total_delay_push(shaping, whole, transmit, gone + 1);
                    }
                }
            },
            LaneEvent::Poll(now) => {
                assert(after.lane.in_flight() =~= before.lane.in_flight());
                match before.lane.state {
                    RelayState::Finished => {},
                    RelayState::Idle => {
                        if before.lane.input.has_next() {
                            let taken = before.lane.input.queue[0];
                            assert(whole[gone] == taken);
                            lemma_release_time(now, shaping, taken);
                            if gone > 0 {
                                assert(origin.nanos + total_delay(shaping, whole, gone)
                                    <= before.clock.nanos);
                            }
                        }
                    },
                    RelayState::Holding { transmit, release_at } => {},
                }
            },
            LaneEvent::Recv => {
                if before.lane.output.has_next() {
                    assert(after.delivered + after.lane.in_flight() =~= whole);
                }
            },
            LaneEvent::Hangup => {
                assert(after.lane.in_flight() =~= before.lane.in_flight());
            },
        }
    }
}

/// Pace: on a lane that starts idle with nothing on its far side, the
/// transmits come out in the order they went in, and the first `count` of
/// them have all come out only when the clock has moved on from `origin` by
/// the sum of their delays. The relay serves one transmit at a time.
pub proof fn law_pace(start: Lane, origin: Instant, events: Seq<LaneEvent>, count: int)
    requires
        start.is_open(),
        start.shaping.wf(),
        start.state is Idle,
        start.output.queue.len() == 0,
        play(start, origin, events).steady,
        0 <= count <= play(start, origin, events).delivered.len(),
    ensures
        play(start, origin, events).delivered == (start.input.queue + play(
            start,
            origin,
            events,
        ).accepted).take(play(start, origin, events).delivered.len() as int),
        origin.nanos + total_delay(
            start.shaping,
            start.input.queue + play(start, origin, events).accepted,
            count,
        ) <= play(start, origin, events).clock.nanos,
{
    lemma_pace(start, origin, events);
    let after = play(start, origin, events);
    let whole = start.input.queue + after.accepted;
    assert(after.delivered =~= whole.take(after.delivered.len() as int));
}

/// Under a fixed delay every transmit costs the same.
pub proof fn lemma_total_fixed_delay(delay: Duration, items: Seq<OwnedTransmit>, count: int)
    requires
        0 <= count,
    ensures
        total_delay(Shaping::FixedDelay(delay), items, count) == count * delay.nanos,
    decreases count,
{
    if count > 0 {
        lemma_total_fixed_delay(delay, items, count - 1);
        assert(count * delay.nanos == (count - 1) * delay.nanos + delay.nanos)
            by (nonlinear_arith);
    } else {
        assert(count * delay.nanos == 0) by (nonlinear_arith)
            requires
                count == 0,
        ;
    }
}

/// Under a rate the cost of a run of transmits is never less than the time
/// all their payload bytes take at that rate: each transmit costs its own
/// time rounded up.
pub proof fn lemma_total_throughput(rate: Rate, items: Seq<OwnedTransmit>, count: int)
    requires
        rate@ > 0,
    ensures
        total_delay(Shaping::Throughput(rate), items, count) * rate@ >= total_bytes(items, count)
            * NANOS_PER_SEC,
    decreases count,
{
    if count > 0 {
        lemma_total_throughput(rate, items, count - 1);
        let cost_before = total_delay(Shaping::Throughput(rate), items, count - 1);
        let bytes_before = total_bytes(items, count - 1);
        let size = items[count - 1].wire_size();
        let cost = Shaping::Throughput(rate).delay_of(size);
        lemma_transmission_time(size, rate@ as nat);
        assert((cost_before + cost) * rate@ == cost_before * rate@ + cost * rate@)
            by (nonlinear_arith);
        assert((bytes_before + size) * NANOS_PER_SEC == bytes_before * NANOS_PER_SEC + size
            * NANOS_PER_SEC) by (nonlinear_arith);
    } else {
        assert(0nat * rate@ == 0 && 0nat * NANOS_PER_SEC == 0) by (nonlinear_arith);
    }
}

/// Fixed delay: on a lane that holds every transmit for `delay`, the first
/// `count` transmits have all reached the far end only when the clock has
/// moved on from `origin` by `count` times the delay. A single transmit is
/// never received sooner than `delay` after it was sent.
pub proof fn law_fixed_delay(
    start: Lane,
    origin: Instant,
    events: Seq<LaneEvent>,
    delay: Duration,
    count: int,
)
    requires
        start.is_open(),
        start.state is Idle,
        start.output.queue.len() == 0,
        start.shaping == Shaping::FixedDelay(delay),
        play(start, origin, events).steady,
        0 <= count <= play(start, origin, events).delivered.len(),
    ensures
        origin.nanos + count * delay.nanos <= play(start, origin, events).clock.nanos,
{
    law_pace(start, origin, events, count);
    lemma_total_fixed_delay(
        delay,
        start.input.queue + play(start, origin, events).accepted,
        count,
    );
}

/// The time that `bytes` payload bytes take at `bytes_per_second`, in
/// nanoseconds: the exact quotient rounded up. It is never less than
/// `bytes / bytes_per_second` seconds, and less than a nanosecond more.
pub proof fn law_transmission_time(bytes_per_second: u32, bytes: nat)
    requires
        bytes_per_second > 0,
    ensures
        Shaping::Throughput(Rate::of(bytes_per_second)).wf(),
        Shaping::Throughput(Rate::of(bytes_per_second)).delay_of(bytes) * bytes_per_second
            >= bytes * NANOS_PER_SEC,
        Shaping::Throughput(Rate::of(bytes_per_second)).delay_of(bytes) * bytes_per_second
            < bytes * NANOS_PER_SEC + bytes_per_second,
{
    Rate::lemma_of(bytes_per_second);
    lemma_transmission_time(bytes, bytes_per_second as nat);
}

/// Bandwidth: on a lane limited to `bytes_per_second`, the first `count`
/// transmits have all reached the far end only when the clock has moved on
/// from `origin` by the time their payload bytes take at that rate. For a
/// single transmit of `L` bytes that is at least `L / bytes_per_second`
/// seconds; for a run of total size `S`, at least `S / bytes_per_second`
/// seconds. Sustained throughput never exceeds the rate.
pub proof fn law_bandwidth(
    start: Lane,
    origin: Instant,
    events: Seq<LaneEvent>,
    bytes_per_second: u32,
    count: int,
)
    requires
        start.is_open(),
        start.state is Idle,
        start.output.queue.len() == 0,
        bytes_per_second > 0,
        start.shaping == Shaping::Throughput(Rate::of(bytes_per_second)),
        play(start, origin, events).steady,
        0 <= count <= play(start, origin, events).delivered.len(),
    ensures
        (play(start, origin, events).clock.nanos - origin.nanos) * bytes_per_second
            >= total_bytes(start.input.queue + play(start, origin, events).accepted, count)
            * NANOS_PER_SEC,
{
    let whole = start.input.queue + play(start, origin, events).accepted;
    let elapsed = play(start, origin, events).clock.nanos - origin.nanos;
    let cost = total_delay(start.shaping, whole, count);
    Rate::lemma_of(bytes_per_second);
    law_pace(start, origin, events, count);
    lemma_total_throughput(Rate::of(bytes_per_second), whole, count);
    assert(elapsed * bytes_per_second >= cost * bytes_per_second) by (nonlinear_arith)
        requires
            elapsed >= cost,
            bytes_per_second > 0,
    ;
}

/// Released on time: a transmit that an idle relay picks up at `picked` is
/// on the far side after the first turn at or after its release time,
/// where the far side has room. For a fixed delay `D` and a turn at
/// `picked + D` the transmit has been held for exactly `D`.
pub proof fn law_released_on_time(start: Lane, picked: Instant, due: Instant)
    requires
        start.is_open(),
        start.shaping.wf(),
        start.state is Idle,
        start.input.has_next(),
        !start.output.is_full(),
        due.nanos >= picked.nanos + start.shaping.delay_of(start.input.queue[0].wire_size()),
    ensures
        start.step(picked).state == (RelayState::Holding {
            transmit: start.input.queue[0],
            release_at: (picked.nanos + start.shaping.delay_of(
                start.input.queue[0].wire_size(),
            )) as u128,
        }),
        start.step(picked).output == start.output,
        start.step(picked).step(due).output == start.output.push(start.input.queue[0]),
        start.step(picked).step(due).input == start.input.pop(),
        start.step(picked).step(due).state is Idle,
{
    lemma_release_time(picked, start.shaping, start.input.queue[0]);
}

/// Nothing leaves early: a relay that holds a transmit does nothing at all
/// before the release time.
pub proof fn law_held_until_due(lane: Lane, now: Instant)
    requires
        lane.state matches RelayState::Holding { release_at, .. } && now.nanos < release_at,
    ensures
        lane.step(now) == lane,
{
}

/// The turn in which a relay shuts down. An idle relay whose input is empty
/// and closed shuts down and drops its own send-handle, leaving what is
/// queued on the far side as it is. A relay that holds a transmit which is
/// due, and whose output is closed, shuts down too and closes its input.
pub proof fn law_lane_teardown(lane: Lane, now: Instant)
    requires
        !(lane.state is Finished),
    ensures
        lane.state is Idle && !lane.input.has_next() && lane.input.is_closed() ==> {
            &&& lane.step(now).state is Finished
            &&& !lane.step(now).output.sender_open
            &&& lane.step(now).output.queue == lane.output.queue
        },
        lane.state matches RelayState::Holding { release_at, .. } && release_at <= now.nanos
            && lane.output.is_closed() ==> {
            &&& lane.step(now).state is Finished
            &&& lane.step(now).input.is_closed()
        },
{
}

/// A relay's turn in the fabric is a turn of its lane.
pub proof fn law_step_moves_lane(fabric: FabricView, r: int, now: Instant)
    requires
        fabric.is_attached(r),
        fabric.relays[r].input != fabric.relays[r].output,
    ensures
        fabric.relay_step(r, now).lane_of(r) == fabric.lane_of(r).step(now),
{
}

/// A lane that is private stays private in a fabric with as many channels
/// and the same relays between the same channels.
proof fn lemma_same_shape_keeps_private(before: FabricView, after: FabricView, r: int)
    requires
        before.lane_is_private(r),
        after.channels.len() == before.channels.len(),
        after.relays.len() == before.relays.len(),
        forall|q: int|
            0 <= q < before.relays.len() ==> {
                &&& (#[trigger] after.relays[q]).input == before.relays[q].input
                &&& after.relays[q].output == before.relays[q].output
            },
    ensures
        after.lane_is_private(r),
{
    assert forall|p: int| 0 <= p < after.relays.len() && p != r implies {
        &&& !#[trigger] after.touches(p, after.relays[r].input as int)
        &&& !after.touches(p, after.relays[r].output as int)
    } by {
        assert(!before.touches(p, before.relays[r].input as int));
    }
}

/// The turn of one relay leaves the private lane of another as it is, and
/// private.
pub proof fn lemma_step_elsewhere(fabric: FabricView, r: int, q: int, now: Instant)
    requires
        fabric.lane_is_private(r),
        q != r,
    ensures
        fabric.relay_step(q, now).lane_of(r) == fabric.lane_of(r),
        fabric.relay_step(q, now).lane_is_private(r),
{
    lemma_relay_step_shape(fabric, q, now);
    if fabric.is_attached(q) {
        assert(!fabric.touches(q, fabric.relays[r].input as int));
        assert(!fabric.touches(q, fabric.relays[r].output as int));
    }
    lemma_same_shape_keeps_private(fabric, fabric.relay_step(q, now), r);
}

proof fn lemma_step_keeps_private(fabric: FabricView, r: int, now: Instant)
    requires
        fabric.lane_is_private(r),
    ensures
        fabric.relay_step(r, now).lane_is_private(r),
{
    lemma_relay_step_shape(fabric, r, now);
    lemma_same_shape_keeps_private(fabric, fabric.relay_step(r, now), r);
}

proof fn lemma_sweep_lane(fabric: FabricView, r: int, from: int, count: nat, now: Instant)
    requires
        fabric.lane_is_private(r),
        0 <= from,
        from + count == fabric.relays.len(),
    ensures
        fabric.sweep(from, count, now).lane_is_private(r),
        fabric.sweep(from, count, now).lane_of(r) == if r < from {
            fabric.lane_of(r)
        } else {
            fabric.lane_of(r).step(now)
        },
    decreases count,
{
    if count > 0 {
        let stepped = fabric.relay_step(from, now);
        lemma_relay_step_shape(fabric, from, now);
        if from == r {
            law_step_moves_lane(fabric, r, now);
            lemma_step_keeps_private(fabric, r, now);
        } else {
            lemma_step_elsewhere(fabric, r, from, now);
        }
        lemma_sweep_lane(stepped, r, from + 1, (count - 1) as nat, now);
    }
}

/// A poll of the fabric gives every private lane exactly one turn: what
/// the other relays do in the same poll does not reach it.
pub proof fn law_poll_moves_lane(fabric: FabricView, r: int, now: Instant)
    requires
        fabric.lane_is_private(r),
    ensures
        fabric.sweep(0, fabric.relays.len(), now).lane_is_private(r),
        fabric.sweep(0, fabric.relays.len(), now).lane_of(r) == fabric.lane_of(r).step(now),
{
    lemma_sweep_lane(fabric, r, 0, fabric.relays.len(), now);
}

/// The fabric after the events `events` on the lane of relay `r`: a send
/// goes into the relay's input channel, a poll sweeps every relay of the
/// fabric, a receive takes from the relay's output channel, a hangup drops
/// the send-handle of the input channel.
pub open spec fn play_in(fabric: FabricView, r: int, events: Seq<LaneEvent>) -> FabricView
    decreases events.len(),
{
    if events.len() == 0 {
        fabric
    } else {
        let before = play_in(fabric, r, events.drop_last());
        match events.last() {
            LaneEvent::Send(transmit) => before.after_send(
                before.relays[r].input as int,
                transmit,
            ),
            LaneEvent::Poll(now) => before.sweep(0, before.relays.len(), now),
            LaneEvent::Recv => before.after_recv(before.relays[r].output as int),
            LaneEvent::Hangup => before.after_drop_sender(before.relays[r].input as int),
        }
    }
}

/// What happens to a private lane inside a fabric is what happens to the
/// lane by itself: after any run of sends into it, polls of the whole fabric
/// and receives from it, the lane is where `play` says. So the laws of order
/// and pace hold of every shaped wire, whatever else the fabric carries.
pub proof fn law_fabric_plays_lane(
    fabric: FabricView,
    r: int,
    origin: Instant,
    events: Seq<LaneEvent>,
)
    requires
        fabric.lane_is_private(r),
    ensures
        play_in(fabric, r, events).lane_is_private(r),
        play_in(fabric, r, events).relays[r].input == fabric.relays[r].input,
        play_in(fabric, r, events).relays[r].output == fabric.relays[r].output,
        play_in(fabric, r, events).lane_of(r) == play(fabric.lane_of(r), origin, events).lane,
    decreases events.len(),
{
    if events.len() > 0 {
        law_fabric_plays_lane(fabric, r, origin, events.drop_last());
        let before = play_in(fabric, r, events.drop_last());
        match events.last() {
            LaneEvent::Send(transmit) => {
                law_ends_move_lane(before, r, transmit);
            },
            LaneEvent::Poll(now) => {
                law_poll_moves_lane(before, r, now);
                lemma_sweep_shape(before, 0, before.relays.len(), now);
            },
            LaneEvent::Recv => {
                law_ends_move_lane(before, r, arbitrary());
            },
            LaneEvent::Hangup => {
                law_ends_move_lane(before, r, arbitrary());
            },
        }
    }
}

proof fn lemma_sweep_shape(fabric: FabricView, from: int, count: nat, now: Instant)
    requires
        0 <= from,
        from + count <= fabric.relays.len(),
    ensures
        fabric.sweep(from, count, now).relays.len() == fabric.relays.len(),
        forall|q: int|
            0 <= q < fabric.relays.len() ==> {
                &&& (#[trigger] fabric.sweep(from, count, now).relays[q]).input
                    == fabric.relays[q].input
                &&& fabric.sweep(from, count, now).relays[q].output == fabric.relays[q].output
            },
    decreases count,
{
    if count > 0 {
        lemma_relay_step_shape(fabric, from, now);
        lemma_sweep_shape(fabric.relay_step(from, now), from + 1, (count - 1) as nat, now);
    }
}

/// A send on a lane's near channel, a hangup there and a receive on its
/// far channel are that lane's send, hangup and receive.
pub proof fn law_ends_move_lane(fabric: FabricView, r: int, transmit: OwnedTransmit)
    requires
        fabric.lane_is_private(r),
    ensures
        fabric.after_send(fabric.relays[r].input as int, transmit).lane_is_private(r),
        fabric.after_send(fabric.relays[r].input as int, transmit).lane_of(r) == (Lane {
            input: fabric.lane_of(r).input.after_send(transmit),
            ..fabric.lane_of(r)
        }),
        fabric.after_drop_sender(fabric.relays[r].input as int).lane_is_private(r),
        fabric.after_drop_sender(fabric.relays[r].input as int).lane_of(r) == (Lane {
            input: fabric.lane_of(r).input.without_sender(),
            ..fabric.lane_of(r)
        }),
        fabric.after_recv(fabric.relays[r].output as int).lane_is_private(r),
        fabric.after_recv(fabric.relays[r].output as int).lane_of(r) == (Lane {
            output: fabric.lane_of(r).output.after_recv(),
            ..fabric.lane_of(r)
        }),
        fabric.recv_result(fabric.relays[r].output as int) == fabric.lane_of(
            r,
        ).output.recv_result(),
        fabric.send_result(fabric.relays[r].input as int, transmit) == fabric.lane_of(
            r,
        ).input.send_result(transmit),
{
    let input = fabric.relays[r].input as int;
    let output = fabric.relays[r].output as int;
    lemma_same_shape_keeps_private(fabric, fabric.after_send(input, transmit), r);
    lemma_same_shape_keeps_private(fabric, fabric.after_drop_sender(input), r);
    lemma_same_shape_keeps_private(fabric, fabric.after_recv(output), r);
}

} // verus!
