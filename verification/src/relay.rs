//! A shaping relay: one direction of a connector spliced between two links.
//!
//! A relay takes one transmit at a time from its input channel, holds it for
//! the time its shaping policy asks, and then forwards it unchanged on its
//! output channel. It never holds two transmits at once, so it can neither
//! reorder them nor let one overtake another.

use vstd::prelude::*;
use crate::time::{Duration, Instant, NANOS_PER_SEC};
use crate::OwnedTransmit;

verus! {

/// What a link carries: a number of bytes per second, never zero.
#[derive(Clone, Copy, Debug, PartialEq, Eq, Structural)]
pub struct Rate {
    bytes_per_second: u32,
}

impl View for Rate {
    type V = u32;

    /// The bytes per second.
    closed spec fn view(&self) -> u32 {
        self.bytes_per_second
    }
}

impl Rate {
    #[verifier::type_invariant]
    spec fn is_positive(self) -> bool {
        self.bytes_per_second > 0
    }

    /// The rate of `bytes_per_second`.
    pub closed spec fn of(bytes_per_second: u32) -> Rate {
        Rate { bytes_per_second }
    }

    /// The rate of a number has that number as its view.
    pub broadcast proof fn lemma_of(bytes_per_second: u32)
        ensures
            (#[trigger] Rate::of(bytes_per_second))@ == bytes_per_second,
    {
    }

    /// The rate of `bytes_per_second`, which is not zero.
    pub fn new(bytes_per_second: u32) -> (rate: Rate)
        requires
            bytes_per_second > 0,
        ensures
            rate == Rate::of(bytes_per_second),
            rate@ == bytes_per_second,
    {
        Rate { bytes_per_second }
    }

    /// The bytes per second.
    pub fn bytes_per_second(&self) -> (bytes_per_second: u32)
        ensures
            bytes_per_second == self@,
            bytes_per_second > 0,
    {
        proof {
            use_type_invariant(self);
        }
        self.bytes_per_second
    }
}

/// The nanoseconds that `size` bytes take at `rate` bytes per second,
/// rounded up to a whole nanosecond: never less than the exact quotient.
pub open spec fn transmission_time(size: nat, rate: nat) -> nat {
    ((size * NANOS_PER_SEC + rate - 1) / (rate as int)) as nat
}

/// The transmission time is the least whole number of nanoseconds that is
/// no less than `size / rate` seconds.
pub proof fn lemma_transmission_time(size: nat, rate: nat)
    requires
        rate > 0,
    ensures
        transmission_time(size, rate) * rate >= size * NANOS_PER_SEC,
        transmission_time(size, rate) * rate < size * NANOS_PER_SEC + rate,
        transmission_time(size, rate) <= size * NANOS_PER_SEC,
{
    let exact = size * NANOS_PER_SEC;
    let padded = exact + rate - 1;
    let time = padded / (rate as int);
    assert(padded == time * rate + padded % (rate as int) && 0 <= padded % (rate as int) < rate
        && time >= 0) by (nonlinear_arith)
        requires
            rate > 0,
            padded >= 0,
            time == padded / (rate as int),
    ;
    assert(time <= exact) by (nonlinear_arith)
        requires
            rate >= 1,
            time >= 0,
            time * rate < exact + rate,
            exact >= 0,
    ;
}

/// How long a relay holds a transmit.
#[derive(Clone, Copy, Debug, PartialEq, Eq, Structural)]
pub enum Shaping {
    /// Every transmit is held for the same time: latency.
    FixedDelay(Duration),
    /// A transmit is held for as long as its payload takes at this rate:
    /// bandwidth.
    Throughput(Rate),
}

impl Shaping {
    /// What holds of the shaping of every relay: its rate is not zero.
    pub open spec fn wf(self) -> bool {
        self matches Shaping::Throughput(rate) ==> rate@ > 0
    }

    /// The nanoseconds a payload of `size` bytes is held.
    pub open spec fn delay_of(self, size: nat) -> nat {
        match self {
            Shaping::FixedDelay(delay) => delay.nanos as nat,
            Shaping::Throughput(rate) => transmission_time(size, rate@ as nat),
        }
    }

    /// The nanoseconds a payload of `size` bytes is held. Whatever the size
    /// and the rate, the result fits with room to spare.
    pub fn delay(&self, size: usize) -> (nanos: u128)
        ensures
            nanos == self.delay_of(size as nat),
            nanos <= u128::MAX - u64::MAX,
    {
        match self {
            Shaping::FixedDelay(delay) => delay.nanos as u128,
            Shaping::Throughput(rate) => {
                let per_second = rate.bytes_per_second() as u128;
                proof {
                    lemma_transmission_time(size as nat, per_second as nat);
                    lemma_size_in_nanos(size as nat);
                }
                ((size as u128) * (NANOS_PER_SEC as u128) + (per_second - 1)) / per_second
            },
        }
    }
}

/// The nanoseconds of as many seconds as a payload can have bytes fit in
/// 128 bits many times over.
pub proof fn lemma_size_in_nanos(size: nat)
    requires
        size <= usize::MAX,
    ensures
        size * NANOS_PER_SEC <= 0xffff_ffff_ffff_ffff * 1_000_000_000,
{
    assert(size * NANOS_PER_SEC <= 0xffff_ffff_ffff_ffff * 1_000_000_000) by (nonlinear_arith)
        requires
            size <= 0xffff_ffff_ffff_ffff,
            NANOS_PER_SEC == 1_000_000_000,
    ;
}

/// The point in virtual time, in nanoseconds, at which a transmit picked up
/// at `now` may be forwarded.
pub open spec fn release_time(now: Instant, shaping: Shaping, transmit: OwnedTransmit) -> u128 {
    (now.nanos + shaping.delay_of(transmit.wire_size())) as u128
}

/// Where a relay is in its cycle.
#[derive(Debug)]
pub enum RelayState {
    /// Ready to take the next transmit from the input.
    Idle,
    /// Holding one transmit until the clock reaches `release_at` and the
    /// output has room.
    Holding { transmit: OwnedTransmit, release_at: u128 },
    /// Shut down for good: its input ended, or its output was torn down.
    Finished,
}

/// One direction of a connector.
#[derive(Debug)]
pub struct Relay {
    /// The index of the channel the relay takes transmits from.
    pub input: usize,
    /// The index of the channel the relay forwards them on.
    pub output: usize,
    pub shaping: Shaping,
    pub state: RelayState,
}

/// What a driver should do about a relay after stepping it.
#[derive(Clone, Copy, Debug, PartialEq, Eq, Structural)]
pub enum Progress {
    /// The relay moved on: step it again.
    Advanced,
    /// The relay holds a transmit that is not due before `until`.
    Sleeping { until: u128 },
    /// The relay waits for a channel: its input is empty, or its output is
    /// full.
    Parked,
    /// The relay has shut down, or there is no such relay.
    Done,
}

impl Relay {
    /// This relay in another state.
    pub open spec fn with_state(self, state: RelayState) -> Relay {
        Relay { state, ..self }
    }

    /// A relay that has yet to take its first transmit.
    pub fn new(input: usize, output: usize, shaping: Shaping) -> (relay: Relay)
        ensures
            relay == (Relay { input, output, shaping, state: RelayState::Idle }),
    {
        Relay { input, output, shaping, state: RelayState::Idle }
    }

    /// Takes the state out, leaving the relay finished until a state is put
    /// back.
    pub fn take_state(&mut self) -> (state: RelayState)
        ensures
            state == old(self).state,
            *final(self) == old(self).with_state(RelayState::Finished),
    {
        let mut state = RelayState::Finished;
        core::mem::swap(&mut self.state, &mut state);
        state
    }

    /// Puts the relay into `state`.
    pub fn set_state(&mut self, state: RelayState)
        ensures
            *final(self) == old(self).with_state(state),
    {
        self.state = state;
    }
}

} // verus!
