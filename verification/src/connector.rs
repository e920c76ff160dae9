//! Shaping connectors: pairs of relays that splice a latency or bandwidth
//! policy between two links.

use vstd::prelude::*;
use crate::fabric::{Fabric, ReceiveHandle, SendHandle};
use crate::relay::{Rate, Shaping};
use crate::socket::Plug;
use crate::time::Duration;

verus! {

/// Joins the links behind `start` and `end` by two relays, one for each
/// direction, that hold every transmit for `delay` before passing it on.
pub fn connector_delay(fabric: &mut Fabric, start: Plug, end: Plug, delay: Duration)
    ensures
        final(fabric)@ == old(fabric)@.after_spawn(
            start.receiver.index(),
            end.sender.index(),
            Shaping::FixedDelay(delay),
        ).after_spawn(end.receiver.index(), start.sender.index(), Shaping::FixedDelay(delay)),
        old(fabric)@.wf() ==> final(fabric)@.wf(),
{
    let forward_receiver = start.receiver;
    let forward_sender = end.sender;
    let backward_receiver = end.receiver;
    let backward_sender = start.sender;
    connect_delay_oneway(fabric, forward_receiver, forward_sender, delay);
    connect_delay_oneway(fabric, backward_receiver, backward_sender, delay);
}

/// Joins the links behind `start` and `end` by two relays, one for each
/// direction, that hold every transmit for as long as its payload takes at
/// `bytes_per_second`, rounded up to a whole nanosecond.
pub fn connector_throughput_limit(
    fabric: &mut Fabric,
    start: Plug,
    end: Plug,
    bytes_per_second: u32,
)
    requires
        bytes_per_second > 0,
    ensures
        final(fabric)@ == old(fabric)@.after_spawn(
            start.receiver.index(),
            end.sender.index(),
            Shaping::Throughput(Rate::of(bytes_per_second)),
        ).after_spawn(
            end.receiver.index(),
            start.sender.index(),
            Shaping::Throughput(Rate::of(bytes_per_second)),
        ),
        old(fabric)@.wf() ==> final(fabric)@.wf(),
{
    let rate = Rate::new(bytes_per_second);
    let forward_receiver = start.receiver;
    let forward_sender = end.sender;
    let backward_receiver = end.receiver;
    let backward_sender = start.sender;
    connect_throughput_limit_oneway(fabric, forward_receiver, forward_sender, rate);
    connect_throughput_limit_oneway(fabric, backward_receiver, backward_sender, rate);
}

/// Starts the relay for one direction of a delay connector.
fn connect_delay_oneway(fabric: &mut Fabric, receive: ReceiveHandle, send: SendHandle, delay: Duration)
    ensures
        final(fabric)@ == old(fabric)@.after_spawn(
            receive.index(),
            send.index(),
            Shaping::FixedDelay(delay),
        ),
        old(fabric)@.wf() ==> final(fabric)@.wf(),
{
    fabric.spawn(receive, send, Shaping::FixedDelay(delay));
}

/// Starts the relay for one direction of a bandwidth connector.
fn connect_throughput_limit_oneway(
    fabric: &mut Fabric,
    receive: ReceiveHandle,
    send: SendHandle,
    rate: Rate,
)
    ensures
        final(fabric)@ == old(fabric)@.after_spawn(
            receive.index(),
            send.index(),
            Shaping::Throughput(rate),
        ),
        old(fabric)@.wf() ==> final(fabric)@.wf(),
{
    fabric.spawn(receive, send, Shaping::Throughput(rate));
}

} // verus!
