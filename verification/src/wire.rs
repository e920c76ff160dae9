//! The wire: a private two-way link between exactly two plugs.

use vstd::prelude::*;
use crate::channel::{ChannelView, MAX_CAPACITY};
use crate::connector::{connector_delay, connector_throughput_limit};
use crate::fabric::{lemma_open_wf, lemma_spawn_wf, Fabric, FabricView};
use crate::lane::Lane;
use crate::relay::{Rate, RelayState, Shaping};
use crate::socket::Plug;
use crate::time::Duration;

verus! {

/// The two ends of a link. What `start` sends, `end` receives, and the
/// other way round.
#[derive(Debug)]
pub struct Wire {
    pub start: Plug,
    pub end: Plug,
}

impl Wire {
    /// Whether `start` sends on channel `out_of_start` and receives from
    /// channel `into_start`, and `end` sends on `out_of_end` and receives
    /// from `into_end`.
    pub open spec fn runs_over(
        self,
        out_of_start: int,
        into_end: int,
        out_of_end: int,
        into_start: int,
    ) -> bool {
        &&& self.start.sender.index() == out_of_start
        &&& self.end.receiver.index() == into_end
        &&& self.end.sender.index() == out_of_end
        &&& self.start.receiver.index() == into_start
    }

    /// Whether this is the plain wire laid when the fabric had `first`
    /// channels: both ends meet in the two channels opened for it.
    pub open spec fn is_plain_at(self, first: int) -> bool {
        self.runs_over(first, first, first + 1, first + 1)
    }

    /// Whether this is the shaped wire laid when the fabric had `first`
    /// channels: of the four channels opened for it, the first two reach
    /// `start`, the last two reach `end`, and the connector joins them.
    pub open spec fn is_shaped_at(self, first: int) -> bool {
        self.runs_over(first, first + 2, first + 3, first + 1)
    }

    /// The fabric after a plain wire was laid: two new channels of the same
    /// capacity, one for each direction.
    pub open spec fn laid(fabric: FabricView, capacity: nat) -> FabricView {
        fabric.after_open(capacity).after_open(capacity)
    }

    /// The fabric after a shaped wire was laid: two plain wires, and a
    /// connector between the end of the first and the start of the second.
    pub open spec fn laid_shaped(fabric: FabricView, capacity: nat, shaping: Shaping) -> FabricView {
        let first = fabric.channels.len() as int;
        Wire::laid(Wire::laid(fabric, capacity), capacity).after_spawn(
            first,
            first + 2,
            shaping,
        ).after_spawn(first + 3, first + 1, shaping)
    }

    /// Lays a wire whose two directions each hold at most `capacity`
    /// transmits in flight.
    pub fn new(fabric: &mut Fabric, capacity: usize) -> (wire: Wire)
        requires
            0 < capacity <= MAX_CAPACITY,
        ensures
            final(fabric)@ == Wire::laid(old(fabric)@, capacity as nat),
            wire.is_plain_at(old(fabric)@.channels.len() as int),
            old(fabric)@.wf() ==> final(fabric)@.wf(),
    {
        // start -> end transmission
        let (start_sender, end_receiver) = fabric.channel(capacity);
        // end -> start transmission
        let (end_sender, start_receiver) = fabric.channel(capacity);
        let start = Plug { sender: start_sender, receiver: start_receiver };
        let end = Plug { sender: end_sender, receiver: end_receiver };
        Wire { start, end }
    }

    /// Lays a wire that holds every transmit for `delay` on its way, in
    /// either direction.
    pub fn new_delayed(fabric: &mut Fabric, capacity: usize, delay: Duration) -> (wire: Wire)
        requires
            0 < capacity <= MAX_CAPACITY,
        ensures
            final(fabric)@ == Wire::laid_shaped(
                old(fabric)@,
                capacity as nat,
                Shaping::FixedDelay(delay),
            ),
            wire.is_shaped_at(old(fabric)@.channels.len() as int),
            old(fabric)@.wf() ==> final(fabric)@.wf(),
    {
        let wire_to_delay = Wire::new(fabric, capacity);
        let wire_from_delay = Wire::new(fabric, capacity);
        connector_delay(fabric, wire_to_delay.end, wire_from_delay.start, delay);
        Wire { start: wire_to_delay.start, end: wire_from_delay.end }
    }

    /// Lays a wire that carries `bytes_per_second` in either direction: it
    /// holds every transmit for as long as its payload takes at that rate.
    pub fn new_limited(fabric: &mut Fabric, capacity: usize, bytes_per_second: u32) -> (wire: Wire)
        requires
            0 < capacity <= MAX_CAPACITY,
            bytes_per_second > 0,
        ensures
            final(fabric)@ == Wire::laid_shaped(
                old(fabric)@,
                capacity as nat,
                Shaping::Throughput(Rate::of(bytes_per_second)),
            ),
            wire.is_shaped_at(old(fabric)@.channels.len() as int),
            old(fabric)@.wf() ==> final(fabric)@.wf(),
    {
        let wire_to_limiter = Wire::new(fabric, capacity);
        let wire_from_limiter = Wire::new(fabric, capacity);
        connector_throughput_limit(
            fabric,
            wire_to_limiter.end,
            wire_from_limiter.start,
            bytes_per_second,
        );
        Wire { start: wire_to_limiter.start, end: wire_from_limiter.end }
    }
}

/// A plain wire is two fresh channels, and each end sends on the channel the
/// other receives from. So whatever holds of one channel holds of each
/// direction of the wire.
pub proof fn law_plain_wire(fabric: FabricView, capacity: nat, wire: Wire)
    requires
        fabric.wf(),
        wire.is_plain_at(fabric.channels.len() as int),
    ensures
        Wire::laid(fabric, capacity).wf(),
        wire.start.sender.index() == wire.end.receiver.index(),
        wire.end.sender.index() == wire.start.receiver.index(),
        wire.start.sender.index() != wire.end.sender.index(),
        Wire::laid(fabric, capacity).channels[wire.start.sender.index()] == ChannelView::fresh(
            capacity,
        ),
        Wire::laid(fabric, capacity).channels[wire.end.sender.index()] == ChannelView::fresh(
            capacity,
        ),
{
    lemma_open_wf(fabric, capacity);
    lemma_open_wf(fabric.after_open(capacity), capacity);
}

/// A shaped wire is two private lanes, one for each direction, both idle
/// and empty when laid: what `start` sends goes into the first and comes out
/// at `end`, what `end` sends goes into the second and comes out at `start`.
/// So whatever holds of a lane holds of each direction of the wire.
pub proof fn law_shaped_wire(fabric: FabricView, capacity: nat, shaping: Shaping, wire: Wire)
    requires
        fabric.wf(),
        fabric.channels.len() + 4 <= usize::MAX,
        wire.is_shaped_at(fabric.channels.len() as int),
    ensures
        ({
            let laid = Wire::laid_shaped(fabric, capacity, shaping);
            let forward = fabric.relays.len() as int;
            let backward = forward + 1;
            let fresh = Lane {
                input: ChannelView::fresh(capacity),
                output: ChannelView::fresh(capacity),
                shaping,
                state: RelayState::Idle,
            };
            &&& laid.wf()
            &&& laid.relays.len() == fabric.relays.len() + 2
            &&& laid.lane_is_private(forward)
            &&& laid.lane_is_private(backward)
            &&& laid.lane_of(forward) == fresh
            &&& laid.lane_of(backward) == fresh
            &&& laid.relays[forward].input == wire.start.sender.index()
            &&& laid.relays[forward].output == wire.end.receiver.index()
            &&& laid.relays[backward].input == wire.end.sender.index()
            &&& laid.relays[backward].output == wire.start.receiver.index()
        }),
{
    let first = fabric.channels.len() as int;
    let forward = fabric.relays.len() as int;
    let one = Wire::laid(fabric, capacity);
    let two = Wire::laid(one, capacity);
    lemma_open_wf(fabric, capacity);
    lemma_open_wf(fabric.after_open(capacity), capacity);
    lemma_open_wf(one, capacity);
    lemma_open_wf(one.after_open(capacity), capacity);
    let three = two.after_spawn(first, first + 2, shaping);
    lemma_spawn_wf(two, first, first + 2, shaping);
    let laid = three.after_spawn(first + 3, first + 1, shaping);
    lemma_spawn_wf(three, first + 3, first + 1, shaping);
    assert(laid == Wire::laid_shaped(fabric, capacity, shaping));
    lemma_new_lane_is_private(fabric, laid, forward, forward + 1);
    lemma_new_lane_is_private(fabric, laid, forward + 1, forward);
}

/// Of the two relays of a connector laid over new channels, each has its
/// lane to itself: the older relays run between older channels, and the
/// other new relay runs the other way.
proof fn lemma_new_lane_is_private(fabric: FabricView, laid: FabricView, r: int, other: int)
    requires
        fabric.wf(),
        laid.relays.len() == fabric.relays.len() + 2,
        fabric.relays.len() <= r < laid.relays.len(),
        fabric.relays.len() <= other < laid.relays.len(),
        r != other,
        forall|q: int| 0 <= q < fabric.relays.len() ==> laid.relays[q] == fabric.relays[q],
        laid.is_attached(r),
        laid.relays[r].input != laid.relays[r].output,
        laid.relays[r].input >= fabric.channels.len(),
        laid.relays[r].output >= fabric.channels.len(),
        !laid.touches(other, laid.relays[r].input as int),
        !laid.touches(other, laid.relays[r].output as int),
    ensures
        laid.lane_is_private(r),
{
    assert forall|q: int| 0 <= q < laid.relays.len() && q != r implies {
        &&& !#[trigger] laid.touches(q, laid.relays[r].input as int)
        &&& !laid.touches(q, laid.relays[r].output as int)
    } by {
        if q < fabric.relays.len() {
            assert(fabric.is_attached(q));
        }
    }
}

} // verus!
