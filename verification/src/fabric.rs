//! The fabric: every channel, relay and switch of one simulated network,
//! owned in one place and reached through handles.

use std::collections::HashMap;
use vstd::prelude::*;
use crate::channel::{Channel, ChannelView, TryRecvError, TrySendError, MAX_CAPACITY};
use crate::relay::{release_time, Progress, Relay, RelayState, Shaping};
use crate::switch::{BindError, RouteError, Switch};
use crate::time::Instant;
use crate::{OwnedTransmit, TestAddr};

verus! {

broadcast use vstd::std_specs::hash::group_hash_axioms;

/// The sending side of one channel of a fabric. Whoever holds it is the only
/// one who can send on that channel.
#[derive(Debug)]
pub struct SendHandle {
    channel: usize,
}

/// The receiving side of one channel of a fabric.
#[derive(Debug)]
pub struct ReceiveHandle {
    channel: usize,
}

impl SendHandle {
    /// Which channel of the fabric this handle sends on.
    pub closed spec fn index(self) -> int {
        self.channel as int
    }
}

impl ReceiveHandle {
    /// Which channel of the fabric this handle receives from.
    pub closed spec fn index(self) -> int {
        self.channel as int
    }
}

/// What a fabric holds, as a mathematical value.
#[verifier::ext_equal]
pub struct FabricView {
    /// Every channel ever opened, in the order of opening.
    pub channels: Seq<ChannelView>,
    /// Every relay ever started, in the order of starting.
    pub relays: Seq<Relay>,
    /// The registry of every switch ever opened: for each bound address, the
    /// index of the channel that is the inbox of the socket bound to it.
    pub switches: Seq<Map<u64, usize>>,
}

impl FabricView {
    /// A fabric with nothing in it.
    pub open spec fn empty() -> FabricView {
        FabricView { channels: Seq::empty(), relays: Seq::empty(), switches: Seq::empty() }
    }

    /// What holds of every fabric: no channel is over its capacity, every
    /// relay runs between two channels of this fabric, and every registry
    /// entry names a channel of this fabric.
    pub open spec fn wf(self) -> bool {
        &&& forall|c: int| 0 <= c < self.channels.len() ==> (#[trigger] self.channels[c]).wf()
        &&& forall|r: int| 0 <= r < self.relays.len() ==> #[trigger] self.is_attached(r)
        &&& forall|s: int, key: u64|
            0 <= s < self.switches.len() && #[trigger] self.switches[s].contains_key(key)
                ==> self.has_channel(self.switches[s][key] as int)
    }

    /// Whether `c` is the index of a channel of this fabric.
    pub open spec fn has_channel(self, c: int) -> bool {
        0 <= c < self.channels.len()
    }

    /// This fabric with channel `c` in the state `channel`.
    pub open spec fn with_channel(self, c: int, channel: ChannelView) -> FabricView {
        FabricView { channels: self.channels.update(c, channel), ..self }
    }

    /// The fabric after a channel of the given capacity was opened. The new
    /// channel's index is the number of channels there were.
    pub open spec fn after_open(self, capacity: nat) -> FabricView {
        FabricView { channels: self.channels.push(ChannelView::fresh(capacity)), ..self }
    }

    /// What a send on channel `c` answers. A channel the fabric does not
    /// have is a closed one.
    pub open spec fn send_result(self, c: int, transmit: OwnedTransmit) -> Result<
        (),
        TrySendError,
    > {
        if self.has_channel(c) {
            self.channels[c].send_result(transmit)
        } else {
            Err(TrySendError::Closed(transmit))
        }
    }

    /// The fabric after a send of `transmit` on channel `c`.
    pub open spec fn after_send(self, c: int, transmit: OwnedTransmit) -> FabricView {
        if self.has_channel(c) {
            self.with_channel(c, self.channels[c].after_send(transmit))
        } else {
            self
        }
    }

    /// What a receive on channel `c` answers. A channel the fabric does not
    /// have is at its end.
    pub open spec fn recv_result(self, c: int) -> Result<OwnedTransmit, TryRecvError> {
        if self.has_channel(c) {
            self.channels[c].recv_result()
        } else {
            Err(TryRecvError::Disconnected)
        }
    }

    /// The fabric after a receive on channel `c`.
    pub open spec fn after_recv(self, c: int) -> FabricView {
        if self.has_channel(c) {
            self.with_channel(c, self.channels[c].after_recv())
        } else {
            self
        }
    }

    /// The fabric after the send-handle of channel `c` was dropped.
    pub open spec fn after_drop_sender(self, c: int) -> FabricView {
        if self.has_channel(c) {
            self.with_channel(c, self.channels[c].without_sender())
        } else {
            self
        }
    }

    /// The fabric after the receive-handle of channel `c` was dropped.
    pub open spec fn after_drop_receiver(self, c: int) -> FabricView {
        if self.has_channel(c) {
            self.with_channel(c, self.channels[c].without_receiver())
        } else {
            self
        }
    }

    /// Whether a send on channel `c` has to wait for room.
    pub open spec fn send_waits(self, c: int) -> bool {
        self.has_channel(c) && self.channels[c].send_waits()
    }

    /// Whether a receive on channel `c` has to wait for a transmit.
    pub open spec fn recv_waits(self, c: int) -> bool {
        self.has_channel(c) && self.channels[c].recv_waits()
    }

    /// Whether a transmit for `addr` has to wait in switch `s`: a socket is
    /// bound to the address, and its inbox has no room.
    pub open spec fn route_waits(self, s: int, addr: TestAddr) -> bool {
        self.is_bound(s, addr) && self.send_waits(self.inbox_of(s, addr))
    }

    /// Whether `r` is the index of a relay of this fabric.
    pub open spec fn has_relay(self, r: int) -> bool {
        0 <= r < self.relays.len()
    }

    /// Whether relay `r` exists and both its channels are channels of this
    /// fabric. Only such a relay ever moves.
    pub open spec fn is_attached(self, r: int) -> bool {
        &&& self.has_relay(r)
        &&& self.has_channel(self.relays[r].input as int)
        &&& self.has_channel(self.relays[r].output as int)
    }

    /// The fabric after a relay from channel `input` to channel `output` was
    /// started. Where one of the two is no channel of this fabric, no relay
    /// is started and the handles are dropped.
    pub open spec fn after_spawn(self, input: int, output: int, shaping: Shaping) -> FabricView {
        if self.has_channel(input) && self.has_channel(output) {
            FabricView {
                relays: self.relays.push(
                    Relay {
                        input: input as usize,
                        output: output as usize,
                        shaping,
                        state: RelayState::Idle,
                    },
                ),
                ..self
            }
        } else {
            self.after_drop_receiver(input).after_drop_sender(output)
        }
    }

    /// This fabric with relay `r` in the state `state`.
    pub open spec fn with_relay_state(self, r: int, state: RelayState) -> FabricView {
        FabricView { relays: self.relays.update(r, self.relays[r].with_state(state)), ..self }
    }

    /// The fabric after relay `r` shut down: it lets go of both its handles,
    /// so its input refuses further transmits and its output comes to an
    /// end.
    pub open spec fn after_retire(self, r: int) -> FabricView {
        self.after_drop_receiver(self.relays[r].input as int).after_drop_sender(
            self.relays[r].output as int,
        ).with_relay_state(r, RelayState::Finished)
    }

    /// One turn of relay `r` with the clock at `now`.
    ///
    /// An idle relay takes the oldest transmit waiting on its input and
    /// starts to hold it; when the input has ended it shuts down. A holding
    /// relay does nothing before the release time; from then on it forwards
    /// the transmit as soon as the output has room, and shuts down if the
    /// output was torn down.
    pub open spec fn relay_step(self, r: int, now: Instant) -> FabricView {
        if !self.is_attached(r) {
            self
        } else {
            let relay = self.relays[r];
            match relay.state {
                RelayState::Finished => self,
                RelayState::Idle => match self.channels[relay.input as int].recv_result() {
                    Ok(transmit) => self.after_recv(relay.input as int).with_relay_state(
                        r,
                        RelayState::Holding {
                            transmit,
                            release_at: release_time(now, relay.shaping, transmit),
                        },
                    ),
                    Err(TryRecvError::Empty) => self,
                    Err(TryRecvError::Disconnected) => self.after_retire(r),
                },
                RelayState::Holding { transmit, release_at } => if now.nanos < release_at {
                    self
                } else {
                    match self.channels[relay.output as int].send_result(transmit) {
                        Ok(()) => self.after_send(relay.output as int, transmit).with_relay_state(
                            r,
                            RelayState::Idle,
                        ),
                        Err(TrySendError::Full(_)) => self,
                        Err(TrySendError::Closed(_)) => self.after_retire(r),
                    }
                },
            }
        }
    }

    /// What the turn `relay_step(r, now)` tells the driver.
    pub open spec fn relay_progress(self, r: int, now: Instant) -> Progress {
        if !self.is_attached(r) {
            Progress::Done
        } else {
            let relay = self.relays[r];
            match relay.state {
                RelayState::Finished => Progress::Done,
                RelayState::Idle => match self.channels[relay.input as int].recv_result() {
                    Err(TryRecvError::Empty) => Progress::Parked,
                    _ => Progress::Advanced,
                },
                RelayState::Holding { transmit, release_at } => if now.nanos < release_at {
                    Progress::Sleeping { until: release_at }
                } else {
                    match self.channels[relay.output as int].send_result(transmit) {
                        Err(TrySendError::Full(_)) => Progress::Parked,
                        _ => Progress::Advanced,
                    }
                },
            }
        }
    }

    /// One turn each for the `count` relays from `from` on, in order.
    pub open spec fn sweep(self, from: int, count: nat, now: Instant) -> FabricView
        decreases count,
    {
        if count == 0 {
            self
        } else {
            self.relay_step(from, now).sweep(from + 1, (count - 1) as nat, now)
        }
    }

    /// Whether any relay moved on during `sweep(from, count, now)`.
    pub open spec fn sweep_advanced(self, from: int, count: nat, now: Instant) -> bool
        decreases count,
    {
        if count == 0 {
            false
        } else {
            self.relay_progress(from, now) == Progress::Advanced || self.relay_step(
                from,
                now,
            ).sweep_advanced(from + 1, (count - 1) as nat, now)
        }
    }

    /// Whether `s` is the index of a switch of this fabric.
    pub open spec fn has_switch(self, s: int) -> bool {
        0 <= s < self.switches.len()
    }

    /// Whether a socket is bound to `addr` in switch `s`.
    pub open spec fn is_bound(self, s: int, addr: TestAddr) -> bool {
        self.has_switch(s) && self.switches[s].contains_key(addr.0)
    }

    /// The index of the inbox of the socket bound to `addr` in switch `s`.
    pub open spec fn inbox_of(self, s: int, addr: TestAddr) -> int
        recommends
            self.is_bound(s, addr),
    {
        self.switches[s][addr.0] as int
    }

    /// This fabric with the registry of switch `s` replaced.
    pub open spec fn with_switch(self, s: int, registry: Map<u64, usize>) -> FabricView {
        FabricView { switches: self.switches.update(s, registry), ..self }
    }

    /// The fabric after a switch with an empty registry was opened.
    pub open spec fn after_open_switch(self) -> FabricView {
        FabricView { switches: self.switches.push(Map::empty()), ..self }
    }

    /// Why `addr` cannot be bound in switch `s`, if it cannot.
    pub open spec fn bind_refusal(self, s: int, addr: TestAddr) -> Option<BindError> {
        if !self.has_switch(s) {
            Some(BindError::NoSuchSwitch)
        } else if self.is_bound(s, addr) {
            Some(BindError::AddressInUse)
        } else {
            None
        }
    }

    /// The fabric after an attempt to bind `addr` in switch `s`: where the
    /// address is free, a new channel of the given capacity is opened as its
    /// inbox and entered in the registry.
    pub open spec fn after_bind(self, s: int, addr: TestAddr, capacity: nat) -> FabricView {
        if self.bind_refusal(s, addr) is None {
            self.after_open(capacity).with_switch(
                s,
                self.switches[s].insert(addr.0, self.channels.len() as usize),
            )
        } else {
            self
        }
    }

    /// What switch `s` answers when asked to route `transmit` to its
    /// destination.
    pub open spec fn route_result(self, s: int, transmit: OwnedTransmit) -> Result<
        (),
        RouteError,
    > {
        if !self.is_bound(s, transmit.destination) {
            Err(RouteError::Unroutable(transmit))
        } else {
            match self.send_result(self.inbox_of(s, transmit.destination), transmit) {
                Ok(()) => Ok(()),
                Err(TrySendError::Full(back)) => Err(RouteError::Full(back)),
                Err(TrySendError::Closed(back)) => Err(RouteError::Closed(back)),
            }
        }
    }

    /// The fabric after switch `s` was asked to route `transmit`.
    pub open spec fn after_route(self, s: int, transmit: OwnedTransmit) -> FabricView {
        if self.is_bound(s, transmit.destination) {
            self.after_send(self.inbox_of(s, transmit.destination), transmit)
        } else {
            self
        }
    }

    /// The fabric after the socket that receives from `inbox` and was bound
    /// to `addr` in switch `s` was closed: the inbox is torn down, and the
    /// address is free again.
    pub open spec fn after_unbind(self, s: int, addr: TestAddr, inbox: int) -> FabricView {
        let released = self.after_drop_receiver(inbox).after_drop_sender(inbox);
        if self.is_bound(s, addr) && self.inbox_of(s, addr) == inbox {
            released.with_switch(s, self.switches[s].remove(addr.0))
        } else {
            released
        }
    }

    /// Whether every channel that is closed in this fabric is a closed
    /// channel of `later` too.
    pub open spec fn stays_closed_in(self, later: FabricView) -> bool {
        &&& self.channels.len() <= later.channels.len()
        &&& forall|c: int|
            0 <= c < self.channels.len() && self.channels[c].is_closed() ==> (
            #[trigger] later.channels[c]).is_closed()
    }

    /// Whether relay `r` holds a transmit that is not due before `at`, a
    /// point later than `now`.
    pub open spec fn sleeps_until(self, r: int, now: Instant, at: u128) -> bool {
        &&& self.has_relay(r)
        &&& self.relays[r].state matches RelayState::Holding { release_at, .. }
        &&& release_at == at
        &&& now.nanos < at
    }
}

/// Replacing a channel by a well-formed one keeps the fabric well formed.
pub proof fn lemma_with_channel_wf(fabric: FabricView, c: int, channel: ChannelView)
    requires
        fabric.wf(),
        fabric.has_channel(c),
        channel.wf(),
    ensures
        fabric.with_channel(c, channel).wf(),
{
    let after = fabric.with_channel(c, channel);
    assert forall|r: int| 0 <= r < after.relays.len() implies #[trigger] after.is_attached(r) by {
        assert(fabric.is_attached(r));
    }
}

/// Putting a relay into another state keeps the fabric well formed.
pub proof fn lemma_with_relay_state_wf(fabric: FabricView, r: int, state: RelayState)
    requires
        fabric.wf(),
        fabric.has_relay(r),
    ensures
        fabric.with_relay_state(r, state).wf(),
{
    let after = fabric.with_relay_state(r, state);
    assert forall|q: int| 0 <= q < after.relays.len() implies #[trigger] after.is_attached(q) by {
        assert(fabric.is_attached(q));
    }
}

/// No operation on a channel takes a fabric out of its well-formed states.
pub proof fn lemma_channel_ops_wf(fabric: FabricView, c: int, transmit: OwnedTransmit)
    requires
        fabric.wf(),
    ensures
        fabric.after_send(c, transmit).wf(),
        fabric.after_recv(c).wf(),
        fabric.after_drop_sender(c).wf(),
        fabric.after_drop_receiver(c).wf(),
{
    if fabric.has_channel(c) {
        let channel = fabric.channels[c];
        assert(channel.wf());
        lemma_with_channel_wf(fabric, c, channel.after_send(transmit));
        lemma_with_channel_wf(fabric, c, channel.after_recv());
        lemma_with_channel_wf(fabric, c, channel.without_sender());
        lemma_with_channel_wf(fabric, c, channel.without_receiver());
    }
}

/// Opening a channel or a switch keeps the fabric well formed.
pub proof fn lemma_open_wf(fabric: FabricView, capacity: nat)
    requires
        fabric.wf(),
    ensures
        fabric.after_open(capacity).wf(),
        fabric.after_open_switch().wf(),
{
    let opened = fabric.after_open(capacity);
    assert forall|c: int| 0 <= c < opened.channels.len() implies (
    #[trigger] opened.channels[c]).wf() by {
        if c < fabric.channels.len() {
            assert(fabric.channels[c].wf());
        }
    }
    assert forall|r: int| 0 <= r < opened.relays.len() implies #[trigger] opened.is_attached(
        r,
    ) by {
        assert(fabric.is_attached(r));
    }
    let switched = fabric.after_open_switch();
    assert forall|r: int| 0 <= r < switched.relays.len() implies #[trigger] switched.is_attached(
        r,
    ) by {
        assert(fabric.is_attached(r));
    }
}

/// Starting a relay keeps the fabric well formed.
pub proof fn lemma_spawn_wf(fabric: FabricView, input: int, output: int, shaping: Shaping)
    requires
        fabric.wf(),
        input <= usize::MAX,
        output <= usize::MAX,
    ensures
        fabric.after_spawn(input, output, shaping).wf(),
{
    let after = fabric.after_spawn(input, output, shaping);
    if fabric.has_channel(input) && fabric.has_channel(output) {
        assert forall|r: int| 0 <= r < after.relays.len() implies #[trigger] after.is_attached(
            r,
        ) by {
            if r < fabric.relays.len() {
                assert(fabric.is_attached(r));
            }
        }
    } else {
        let transmit = arbitrary::<OwnedTransmit>();
        lemma_channel_ops_wf(fabric, input, transmit);
        lemma_channel_ops_wf(fabric.after_drop_receiver(input), output, transmit);
    }
}

/// A relay's turn keeps the fabric well formed, and neither adds nor
/// removes a channel, a relay or a switch.
pub proof fn lemma_relay_step_wf(fabric: FabricView, r: int, now: Instant)
    requires
        fabric.wf(),
    ensures
        fabric.relay_step(r, now).wf(),
        fabric.relay_step(r, now).channels.len() == fabric.channels.len(),
        fabric.relay_step(r, now).relays.len() == fabric.relays.len(),
        fabric.relay_step(r, now).switches == fabric.switches,
{
    lemma_relay_step_shape(fabric, r, now);
    if fabric.is_attached(r) {
        let relay = fabric.relays[r];
        let input = relay.input as int;
        let output = relay.output as int;
        let transmit = arbitrary::<OwnedTransmit>();
        let dropped = fabric.after_drop_receiver(input);
        lemma_channel_ops_wf(fabric, input, transmit);
        lemma_channel_ops_wf(dropped, output, transmit);
        lemma_with_relay_state_wf(dropped.after_drop_sender(output), r, RelayState::Finished);
        match relay.state {
            RelayState::Finished => {},
            RelayState::Idle => {
                match fabric.channels[input].recv_result() {
                    Ok(taken) => {
                        lemma_with_relay_state_wf(
                            fabric.after_recv(input),
                            r,
                            RelayState::Holding {
                                transmit: taken,
                                release_at: release_time(now, relay.shaping, taken),
                            },
                        );
                    },
                    _ => {},
                }
            },
            RelayState::Holding { transmit: held, release_at } => {
                lemma_channel_ops_wf(fabric, output, held);
                lemma_with_relay_state_wf(fabric.after_send(output, held), r, RelayState::Idle);
            },
        }
    }
}

/// A relay's turn neither adds nor removes a channel, a relay or a switch,
/// and leaves every relay between the channels it ran between.
pub proof fn lemma_relay_step_shape(fabric: FabricView, r: int, now: Instant)
    ensures
        fabric.relay_step(r, now).channels.len() == fabric.channels.len(),
        fabric.relay_step(r, now).relays.len() == fabric.relays.len(),
        fabric.relay_step(r, now).switches == fabric.switches,
        forall|q: int|
            0 <= q < fabric.relays.len() ==> {
                &&& (#[trigger] fabric.relay_step(r, now).relays[q]).input
                    == fabric.relays[q].input
                &&& fabric.relay_step(r, now).relays[q].output == fabric.relays[q].output
                &&& fabric.relay_step(r, now).relays[q].shaping == fabric.relays[q].shaping
            },
{
}

/// A sweep keeps the fabric well formed, and neither adds nor removes a
/// channel, a relay or a switch.
pub proof fn lemma_sweep_wf(fabric: FabricView, from: int, count: nat, now: Instant)
    requires
        fabric.wf(),
    ensures
        fabric.sweep(from, count, now).wf(),
        fabric.sweep(from, count, now).channels.len() == fabric.channels.len(),
        fabric.sweep(from, count, now).relays.len() == fabric.relays.len(),
        fabric.sweep(from, count, now).switches == fabric.switches,
    decreases count,
{
    if count > 0 {
        lemma_relay_step_wf(fabric, from, now);
        lemma_sweep_wf(fabric.relay_step(from, now), from + 1, (count - 1) as nat, now);
    }
}

/// Binding, routing and unbinding keep the fabric well formed.
pub proof fn lemma_switch_ops_wf(
    fabric: FabricView,
    s: int,
    addr: TestAddr,
    capacity: nat,
    transmit: OwnedTransmit,
    inbox: int,
)
    requires
        fabric.wf(),
        fabric.channels.len() <= usize::MAX,
    ensures
        fabric.after_bind(s, addr, capacity).wf(),
        fabric.after_route(s, transmit).wf(),
        fabric.after_unbind(s, addr, inbox).wf(),
{
    lemma_open_wf(fabric, capacity);
    if fabric.bind_refusal(s, addr) is None {
        let opened = fabric.after_open(capacity);
        let bound = fabric.after_bind(s, addr, capacity);
        assert forall|r: int| 0 <= r < bound.relays.len() implies #[trigger] bound.is_attached(
            r,
        ) by {
            assert(opened.is_attached(r));
        }
        assert forall|t: int, key: u64|
            0 <= t < bound.switches.len() && #[trigger] bound.switches[t].contains_key(
                key,
            ) implies bound.has_channel(bound.switches[t][key] as int) by {
            if t != s || key != addr.0 {
                assert(fabric.switches[t].contains_key(key));
            }
        }
    }
    if fabric.is_bound(s, transmit.destination) {
        lemma_channel_ops_wf(fabric, fabric.inbox_of(s, transmit.destination), transmit);
    }
    lemma_channel_ops_wf(fabric, inbox, transmit);
    let released = fabric.after_drop_receiver(inbox);
    lemma_channel_ops_wf(released, inbox, transmit);
    let torn = released.after_drop_sender(inbox);
    if fabric.is_bound(s, addr) && fabric.inbox_of(s, addr) == inbox {
        let unbound = fabric.after_unbind(s, addr, inbox);
        assert forall|r: int|
            0 <= r < unbound.relays.len() implies #[trigger] unbound.is_attached(r) by {
            assert(torn.is_attached(r));
        }
        assert forall|t: int, key: u64|
            0 <= t < unbound.switches.len() && #[trigger] unbound.switches[t].contains_key(
                key,
            ) implies unbound.has_channel(unbound.switches[t][key] as int) by {
            assert(torn.switches[t].contains_key(key));
        }
    }
}

/// Closed is final, on channels: no send, receive or drop opens a channel
/// that was closed.
pub proof fn law_closed_is_final(fabric: FabricView, c: int, transmit: OwnedTransmit)
    ensures
        fabric.stays_closed_in(fabric.after_send(c, transmit)),
        fabric.stays_closed_in(fabric.after_recv(c)),
        fabric.stays_closed_in(fabric.after_drop_sender(c)),
        fabric.stays_closed_in(fabric.after_drop_receiver(c)),
{
}

/// Closed is final, under relays: starting a relay, a relay's turn and a
/// poll of the whole fabric open no channel that was closed.
pub proof fn law_closed_is_final_for_relays(
    fabric: FabricView,
    input: int,
    output: int,
    shaping: Shaping,
    from: int,
    count: nat,
    now: Instant,
)
    ensures
        fabric.stays_closed_in(fabric.after_spawn(input, output, shaping)),
        fabric.stays_closed_in(fabric.relay_step(from, now)),
        fabric.stays_closed_in(fabric.sweep(from, count, now)),
    decreases count,
{
    if count > 0 {
        let stepped = fabric.relay_step(from, now);
        law_closed_is_final_for_relays(
            stepped,
            input,
            output,
            shaping,
            from + 1,
            (count - 1) as nat,
            now,
        );
        let swept = fabric.sweep(from, count, now);
        assert(fabric.stays_closed_in(stepped));
        assert forall|c: int|
            0 <= c < fabric.channels.len() && fabric.channels[c].is_closed() implies (
        #[trigger] swept.channels[c]).is_closed() by {
            assert(stepped.channels[c].is_closed());
        }
    }
}

/// Closed is final, in switches: opening a switch, binding, routing and
/// unbinding open no channel that was closed.
pub proof fn law_closed_is_final_in_switches(
    fabric: FabricView,
    s: int,
    addr: TestAddr,
    capacity: nat,
    transmit: OwnedTransmit,
    inbox: int,
)
    ensures
        fabric.stays_closed_in(fabric.after_open_switch()),
        fabric.stays_closed_in(fabric.after_bind(s, addr, capacity)),
        fabric.stays_closed_in(fabric.after_route(s, transmit)),
        fabric.stays_closed_in(fabric.after_unbind(s, addr, inbox)),
{
}

/// One simulated network.
pub struct Fabric {
    channels: Vec<Channel>,
    relays: Vec<Relay>,
    switches: Vec<HashMap<u64, usize>>,
}

impl View for Fabric {
    type V = FabricView;

    closed spec fn view(&self) -> FabricView {
        FabricView {
            channels: self.channels@.map_values(|c: Channel| c@),
            relays: self.relays@,
            switches: self.switches@.map_values(|m: HashMap<u64, usize>| m@),
        }
    }
}

impl Fabric {
    /// An empty fabric.
    pub fn new() -> (fabric: Fabric)
        ensures
            fabric@ == FabricView::empty(),
            fabric@.wf(),
    {
        let fabric = Fabric { channels: Vec::new(), relays: Vec::new(), switches: Vec::new() };
        assert(fabric@.channels =~= Seq::empty());
        assert(fabric@.switches =~= Seq::empty());
        fabric
    }

    /// Opens a channel that holds at most `capacity` transmits and hands out
    /// its two sides.
    pub fn channel(&mut self, capacity: usize) -> (ends: (SendHandle, ReceiveHandle))
        requires
            0 < capacity <= MAX_CAPACITY,
        ensures
            final(self)@ == old(self)@.after_open(capacity as nat),
            ends.0.index() == old(self)@.channels.len(),
            ends.1.index() == old(self)@.channels.len(),
            old(self)@.wf() ==> final(self)@.wf(),
    {
        let index = self.channels.len();
        self.channels.push(Channel::new(capacity));
        assert(self@.channels =~= old(self)@.after_open(capacity as nat).channels);
        proof {
            if old(self)@.wf() {
                lemma_open_wf(old(self)@, capacity as nat);
            }
        }
        (SendHandle { channel: index }, ReceiveHandle { channel: index })
    }

    /// Sends on the channel behind `sender`, without waiting.
    pub fn try_send(&mut self, sender: &SendHandle, transmit: OwnedTransmit) -> (result: Result<
        (),
        TrySendError,
    >)
        ensures
            result == old(self)@.send_result(sender.index(), transmit),
            final(self)@ == old(self)@.after_send(sender.index(), transmit),
            old(self)@.wf() ==> final(self)@.wf(),
    {
        proof {
            if old(self)@.wf() {
                lemma_channel_ops_wf(old(self)@, sender.index(), transmit);
            }
        }
        if sender.channel >= self.channels.len() {
            return Err(TrySendError::Closed(transmit));
        }
        let result = self.channels[sender.channel].try_send(transmit);
        assert(self@.channels =~= old(self)@.after_send(sender.index(), transmit).channels);
        result
    }

    /// Receives from the channel behind `receiver`, without waiting.
    pub fn try_recv(&mut self, receiver: &ReceiveHandle) -> (result: Result<
        OwnedTransmit,
        TryRecvError,
    >)
        ensures
            result == old(self)@.recv_result(receiver.index()),
            final(self)@ == old(self)@.after_recv(receiver.index()),
            old(self)@.wf() ==> final(self)@.wf(),
    {
        proof {
            if old(self)@.wf() {
                lemma_channel_ops_wf(old(self)@, receiver.index(), arbitrary());
            }
        }
        if receiver.channel >= self.channels.len() {
            return Err(TryRecvError::Disconnected);
        }
        let result = self.channels[receiver.channel].try_recv();
        assert(self@.channels =~= old(self)@.after_recv(receiver.index()).channels);
        result
    }

    /// Whether a send on the channel behind `sender` would be told to wait.
    pub fn send_waits(&self, sender: &SendHandle) -> (waits: bool)
        ensures
            waits == self@.send_waits(sender.index()),
    {
        sender.channel < self.channels.len() && self.channels[sender.channel].send_waits()
    }

    /// Whether a receive on the channel behind `receiver` would be told to
    /// wait.
    pub fn recv_waits(&self, receiver: &ReceiveHandle) -> (waits: bool)
        ensures
            waits == self@.recv_waits(receiver.index()),
    {
        receiver.channel < self.channels.len() && self.channels[receiver.channel].recv_waits()
    }

    /// Gives up a send-handle. The channel's receiver gets what is queued,
    /// then end of stream.
    pub fn drop_sender(&mut self, sender: SendHandle)
        ensures
            final(self)@ == old(self)@.after_drop_sender(sender.index()),
            old(self)@.wf() ==> final(self)@.wf(),
    {
        self.close_sender_at(sender.channel);
    }

    /// Gives up a receive-handle. Whatever was queued is lost with it, and
    /// the channel's sender is refused from now on.
    pub fn drop_receiver(&mut self, receiver: ReceiveHandle)
        ensures
            final(self)@ == old(self)@.after_drop_receiver(receiver.index()),
            old(self)@.wf() ==> final(self)@.wf(),
    {
        self.close_receiver_at(receiver.channel);
    }

    fn close_sender_at(&mut self, channel: usize)
        ensures
            final(self)@ == old(self)@.after_drop_sender(channel as int),
            old(self)@.wf() ==> final(self)@.wf(),
    {
        proof {
            if old(self)@.wf() {
                lemma_channel_ops_wf(old(self)@, channel as int, arbitrary());
            }
        }
        if channel < self.channels.len() {
            self.channels[channel].close_sender();
            assert(self@.channels =~= old(self)@.after_drop_sender(channel as int).channels);
        }
    }

    fn close_receiver_at(&mut self, channel: usize)
        ensures
            final(self)@ == old(self)@.after_drop_receiver(channel as int),
            old(self)@.wf() ==> final(self)@.wf(),
    {
        proof {
            if old(self)@.wf() {
                lemma_channel_ops_wf(old(self)@, channel as int, arbitrary());
            }
        }
        if channel < self.channels.len() {
            self.channels[channel].close_receiver();
            assert(self@.channels =~= old(self)@.after_drop_receiver(channel as int).channels);
        }
    }

    /// Starts a relay that carries transmits from `input` to `output` under
    /// the policy `shaping`. The relay owns both handles from now on; it
    /// moves only when [`Fabric::step`] or [`Fabric::poll`] is called.
    /// Handles of another fabric start no relay and are dropped.
    pub fn spawn(&mut self, input: ReceiveHandle, output: SendHandle, shaping: Shaping)
        ensures
            final(self)@ == old(self)@.after_spawn(input.index(), output.index(), shaping),
            old(self)@.wf() ==> final(self)@.wf(),
    {
        proof {
            if old(self)@.wf() {
                lemma_spawn_wf(old(self)@, input.index(), output.index(), shaping);
            }
        }
        if input.channel < self.channels.len() && output.channel < self.channels.len() {
            self.relays.push(Relay::new(input.channel, output.channel, shaping));
            assert(self@.channels == old(self)@.channels);
        } else {
            self.close_receiver_at(input.channel);
            self.close_sender_at(output.channel);
        }
    }

    /// The number of relays started so far.
    pub fn relay_count(&self) -> (count: usize)
        ensures
            count == self@.relays.len(),
    {
        self.relays.len()
    }

    /// Gives relay `r` one turn with the clock at `now`.
    pub fn step(&mut self, r: usize, now: Instant) -> (progress: Progress)
        ensures
            final(self)@ == old(self)@.relay_step(r as int, now),
            progress == old(self)@.relay_progress(r as int, now),
            old(self)@.wf() ==> final(self)@.wf(),
    {
        proof {
            if old(self)@.wf() {
                lemma_relay_step_wf(old(self)@, r as int, now);
            }
        }
        if r >= self.relays.len() {
            return Progress::Done;
        }
        let input = self.relays[r].input;
        let output = self.relays[r].output;
        let shaping = self.relays[r].shaping;
        if input >= self.channels.len() || output >= self.channels.len() {
            return Progress::Done;
        }
        let state = self.relays[r].take_state();
        match state {
            RelayState::Finished => {
                assert(self@.relays =~= old(self)@.relays);
                Progress::Done
            },
            RelayState::Idle => {
                match self.channels[input].try_recv() {
                    Ok(transmit) => {
                        let release_at = now.after(shaping.delay(transmit.size()));
                        self.relays[r].set_state(RelayState::Holding { transmit, release_at });
                        assert(self@.channels =~= old(self)@.relay_step(r as int, now).channels);
                        assert(self@.relays =~= old(self)@.relay_step(r as int, now).relays);
                        Progress::Advanced
                    },
                    Err(TryRecvError::Empty) => {
                        self.relays[r].set_state(RelayState::Idle);
                        assert(self@.channels =~= old(self)@.channels);
                        assert(self@.relays =~= old(self)@.relays);
                        Progress::Parked
                    },
                    Err(TryRecvError::Disconnected) => {
                        assert(self@.channels =~= old(self)@.channels);
                        self.close_receiver_at(input);
                        self.close_sender_at(output);
                        assert(self@.relays =~= old(self)@.relay_step(r as int, now).relays);
                        Progress::Advanced
                    },
                }
            },
            RelayState::Holding { transmit, release_at } => {
                if !now.has_reached(release_at) {
                    self.relays[r].set_state(RelayState::Holding { transmit, release_at });
                    assert(self@.relays =~= old(self)@.relays);
                    Progress::Sleeping { until: release_at }
                } else {
                    match self.channels[output].try_send(transmit) {
                        Ok(()) => {
                            self.relays[r].set_state(RelayState::Idle);
                            assert(self@.channels =~= old(self)@.relay_step(
                                r as int,
                                now,
                            ).channels);
                            assert(self@.relays =~= old(self)@.relay_step(r as int, now).relays);
                            Progress::Advanced
                        },
                        Err(TrySendError::Full(back)) => {
                            self.relays[r].set_state(
                                RelayState::Holding { transmit: back, release_at },
                            );
                            assert(self@.channels =~= old(self)@.channels);
                            assert(self@.relays =~= old(self)@.relays);
                            Progress::Parked
                        },
                        Err(TrySendError::Closed(_)) => {
                            assert(self@.channels =~= old(self)@.channels);
                            self.close_receiver_at(input);
                            self.close_sender_at(output);
                            assert(self@.relays =~= old(self)@.relay_step(r as int, now).relays);
                            Progress::Advanced
                        },
                    }
                }
            },
        }
    }

    /// Gives every relay one turn, in the order they were started, with the
    /// clock at `now`. Tells whether any of them moved on; a driver polls
    /// again until none does.
    pub fn poll(&mut self, now: Instant) -> (advanced: bool)
        ensures
            final(self)@ == old(self)@.sweep(0, old(self)@.relays.len(), now),
            advanced == old(self)@.sweep_advanced(0, old(self)@.relays.len(), now),
            old(self)@.wf() ==> final(self)@.wf(),
    {
        proof {
            if old(self)@.wf() {
                lemma_sweep_wf(old(self)@, 0, old(self)@.relays.len(), now);
            }
        }
        let count = self.relays.len();
        let mut advanced = false;
        let mut r: usize = 0;
        while r < count
            invariant
                r <= count,
                count == old(self)@.relays.len(),
                self@.relays.len() == count,
                self@.sweep(r as int, (count - r) as nat, now) == old(self)@.sweep(
                    0,
                    count as nat,
                    now,
                ),
                (advanced || self@.sweep_advanced(r as int, (count - r) as nat, now)) == old(
                    self,
                )@.sweep_advanced(0, count as nat, now),
            decreases count - r,
        {
            let progress = self.step(r, now);
            match progress {
                Progress::Advanced => {
                    advanced = true;
                },
                _ => {},
            }
            r += 1;
        }
        advanced
    }

    /// The earliest point after `now` at which a relay's held transmit
    /// falls due, if any relay is waiting for the clock.
    pub fn next_release(&self, now: Instant) -> (next: Option<u128>)
        ensures
            match next {
                Some(at) => {
                    &&& exists|r: int| self@.sleeps_until(r, now, at)
                    &&& forall|r: int, later: u128| #[trigger]
                        self@.sleeps_until(r, now, later) ==> at <= later
                },
                None => forall|r: int, at: u128| !#[trigger] self@.sleeps_until(r, now, at),
            },
    {
        let mut next: Option<u128> = None;
        let ghost mut holder: int = 0;
        let mut r: usize = 0;
        while r < self.relays.len()
            invariant
                r <= self.relays.len(),
                match next {
                    Some(at) => {
                        &&& 0 <= holder < r
                        &&& self@.sleeps_until(holder, now, at)
                        &&& forall|q: int, later: u128|
                            0 <= q < r && #[trigger] self@.sleeps_until(q, now, later) ==> at
                                <= later
                    },
                    None => forall|q: int, at: u128|
                        0 <= q < r ==> !#[trigger] self@.sleeps_until(q, now, at),
                },
            decreases self.relays.len() - r,
        {
            let due = match &self.relays[r].state {
                RelayState::Holding { release_at, .. } => {
                    if now.has_reached(*release_at) {
                        None
                    } else {
                        Some(*release_at)
                    }
                },
                _ => None,
            };
            assert(forall|at: u128| self@.sleeps_until(r as int, now, at) <==> due == Some(at));
            match due {
                Some(release_at) => {
                    let earlier = match next {
                        Some(at) => release_at < at,
                        None => true,
                    };
                    if earlier {
                        next = Some(release_at);
                        proof {
                            holder = r as int;
                        }
                    }
                },
                None => {},
            }
            r += 1;
        }
        next
    }

    /// Opens a switch with an empty registry.
    pub fn open_switch(&mut self) -> (switch: Switch)
        ensures
            final(self)@ == old(self)@.after_open_switch(),
            switch.index() == old(self)@.switches.len(),
            old(self)@.wf() ==> final(self)@.wf(),
    {
        proof {
            if old(self)@.wf() {
                lemma_open_wf(old(self)@, 0);
            }
        }
        let id = self.switches.len();
        self.switches.push(HashMap::new());
        assert(self@.switches =~= old(self)@.after_open_switch().switches);
        assert(self@.channels == old(self)@.channels);
        Switch { id }
    }

    /// Binds `addr` in `switch`: opens an inbox of the given capacity,
    /// enters it in the registry and hands out its receiving side. An
    /// address that is bound already is refused, and nothing changes.
    pub fn bind(&mut self, switch: &Switch, addr: TestAddr, capacity: usize) -> (result: Result<
        ReceiveHandle,
        BindError,
    >)
        requires
            0 < capacity <= MAX_CAPACITY,
        ensures
            match result {
                Ok(inbox) => {
                    &&& old(self)@.bind_refusal(switch.index(), addr) is None
                    &&& inbox.index() == old(self)@.channels.len()
                },
                Err(refusal) => old(self)@.bind_refusal(switch.index(), addr) == Some(refusal),
            },
            final(self)@ == old(self)@.after_bind(switch.index(), addr, capacity as nat),
            old(self)@.wf() ==> final(self)@.wf(),
    {
        proof {
            if old(self)@.wf() {
                assert(old(self)@.channels.len() == old(self).channels.len());
                lemma_switch_ops_wf(
                    old(self)@,
                    switch.index(),
                    addr,
                    capacity as nat,
                    arbitrary(),
                    0,
                );
            }
        }
        if switch.id >= self.switches.len() {
            return Err(BindError::NoSuchSwitch);
        }
        if self.switches[switch.id].contains_key(&addr.0) {
            return Err(BindError::AddressInUse);
        }
        let (sender, receiver) = self.channel(capacity);
        self.switches[switch.id].insert(addr.0, sender.channel);
        assert(self@.switches =~= old(self)@.after_bind(
            switch.index(),
            addr,
            capacity as nat,
        ).switches);
        assert(self@.channels == old(self)@.after_open(capacity as nat).channels);
        Ok(receiver)
    }

    /// Whether a socket is bound to `addr` in `switch`.
    pub fn is_bound(&self, switch: &Switch, addr: TestAddr) -> (bound: bool)
        ensures
            bound == self@.is_bound(switch.index(), addr),
    {
        self.lookup(switch, addr).is_some()
    }

    /// Whether a transmit for `addr` would be told to wait in `switch`.
    pub fn route_waits(&self, switch: &Switch, addr: TestAddr) -> (waits: bool)
        ensures
            waits == self@.route_waits(switch.index(), addr),
    {
        match self.lookup(switch, addr) {
            Some(channel) => self.send_waits(&SendHandle { channel }),
            None => false,
        }
    }

    /// The inbox bound to `addr` in `switch`, if there is one.
    fn lookup(&self, switch: &Switch, addr: TestAddr) -> (inbox: Option<usize>)
        ensures
            match inbox {
                Some(channel) => self@.is_bound(switch.index(), addr) && channel
                    == self@.inbox_of(switch.index(), addr),
                None => !self@.is_bound(switch.index(), addr),
            },
    {
        if switch.id >= self.switches.len() {
            return None;
        }
        match self.switches[switch.id].get(&addr.0) {
            Some(channel) => Some(*channel),
            None => None,
        }
    }

    /// Routes `transmit` through `switch` to the inbox of its destination,
    /// without waiting. With no socket bound to the destination the transmit
    /// is refused at once.
    pub fn route(&mut self, switch: &Switch, transmit: OwnedTransmit) -> (result: Result<
        (),
        RouteError,
    >)
        ensures
            result == old(self)@.route_result(switch.index(), transmit),
            final(self)@ == old(self)@.after_route(switch.index(), transmit),
            old(self)@.wf() ==> final(self)@.wf(),
    {
        proof {
            if old(self)@.wf() {
                assert(old(self)@.channels.len() == old(self).channels.len());
                lemma_switch_ops_wf(old(self)@, switch.index(), transmit.destination, 0, transmit, 0);
            }
        }
        match self.lookup(switch, transmit.destination) {
            None => Err(RouteError::Unroutable(transmit)),
            Some(channel) => {
                let inbox = SendHandle { channel };
                match self.try_send(&inbox, transmit) {
                    Ok(()) => Ok(()),
                    Err(TrySendError::Full(back)) => Err(RouteError::Full(back)),
                    Err(TrySendError::Closed(back)) => Err(RouteError::Closed(back)),
                }
            },
        }
    }

    /// Closes the socket that was bound to `addr` in `switch` and receives
    /// from `inbox`: tears the inbox down and frees the address.
    pub fn unbind(&mut self, switch: &Switch, addr: TestAddr, inbox: ReceiveHandle)
        ensures
            final(self)@ == old(self)@.after_unbind(switch.index(), addr, inbox.index()),
            old(self)@.wf() ==> final(self)@.wf(),
    {
        proof {
            if old(self)@.wf() {
                assert(old(self)@.channels.len() == old(self).channels.len());
                lemma_switch_ops_wf(
                    old(self)@,
                    switch.index(),
                    addr,
                    0,
                    arbitrary(),
                    inbox.index(),
                );
            }
        }
        let bound = self.lookup(switch, addr);
        self.close_receiver_at(inbox.channel);
        self.close_sender_at(inbox.channel);
        match bound {
            Some(channel) => {
                if channel == inbox.channel {
                    self.switches[switch.id].remove(&addr.0);
                    assert(self@.switches =~= old(self)@.after_unbind(
                        switch.index(),
                        addr,
                        inbox.index(),
                    ).switches);
                    assert(self@.channels == old(self)@.after_unbind(
                        switch.index(),
                        addr,
                        inbox.index(),
                    ).channels);
                }
            },
            None => {},
        }
    }
}

} // verus!
