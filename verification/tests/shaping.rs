use virtual_sockets::connector::{connector_delay, connector_throughput_limit};
use virtual_sockets::fabric::Fabric;
use virtual_sockets::relay::{Progress, Shaping};
use virtual_sockets::socket::{RecvError, SendError, VirtualSocket};
use virtual_sockets::time::{Duration, Instant};
use virtual_sockets::wire::Wire;
use virtual_sockets::TestAddr;

/// Polls until no relay moves any more, with the clock standing at `now`.
fn settle(fabric: &mut Fabric, now: Instant) {
    while fabric.poll(now) {}
}

/// Runs the fabric until `socket` has a datagram, moving the clock from one
/// release time to the next. Gives the datagram and the time it arrived at.
fn receive_at(
    fabric: &mut Fabric,
    socket: &mut VirtualSocket,
    mut now: Instant,
) -> ((TestAddr, Vec<u8>), Instant) {
    loop {
        settle(fabric, now);
        match socket.receive_datagram(fabric) {
            Ok(datagram) => return (datagram, now),
            Err(RecvError::WouldBlock) => {
                let next = fabric.next_release(now).expect("a relay is waiting for the clock");
                now = Instant::from_nanos(u64::try_from(next).unwrap());
            }
            Err(RecvError::Closed) => panic!("the transport closed"),
        }
    }
}

#[test]
fn delayed_wire_holds_a_datagram_for_exactly_the_delay() {
    let mut fabric = Fabric::new();
    let wire = Wire::new_delayed(&mut fabric, 1, Duration::from_millis(50));
    let a = VirtualSocket::new(TestAddr(11), wire.start);
    let mut b = VirtualSocket::new(TestAddr(99), wire.end);

    let sent_at = Instant::from_nanos(1_000);
    a.send_datagram(&mut fabric, TestAddr(99), b"Hello, world!".to_vec()).unwrap();
    settle(&mut fabric, sent_at);
    assert_eq!(b.receive_datagram(&mut fabric), Err(RecvError::WouldBlock));
    assert_eq!(fabric.next_release(sent_at), Some(50_001_000));

    settle(&mut fabric, Instant::from_nanos(50_000_999));
    assert_eq!(b.receive_datagram(&mut fabric), Err(RecvError::WouldBlock));

    settle(&mut fabric, Instant::from_nanos(50_001_000));
    assert_eq!(b.receive_datagram(&mut fabric), Ok((TestAddr(11), b"Hello, world!".to_vec())));
    assert_eq!(fabric.next_release(Instant::from_nanos(50_001_000)), None);
}

#[test]
fn delayed_wire_delays_both_directions() {
    let mut fabric = Fabric::new();
    let wire = Wire::new_delayed(&mut fabric, 4, Duration::from_millis(50));
    let mut a = VirtualSocket::new(TestAddr(11), wire.start);
    let mut b = VirtualSocket::new(TestAddr(99), wire.end);

    a.send_datagram(&mut fabric, TestAddr(99), vec![1]).unwrap();
    b.send_datagram(&mut fabric, TestAddr(11), vec![2]).unwrap();
    settle(&mut fabric, Instant::zero());
    settle(&mut fabric, Instant::from_nanos(49_999_999));
    assert_eq!(a.receive_datagram(&mut fabric), Err(RecvError::WouldBlock));
    assert_eq!(b.receive_datagram(&mut fabric), Err(RecvError::WouldBlock));
    settle(&mut fabric, Instant::from_nanos(50_000_000));
    assert_eq!(b.receive_datagram(&mut fabric), Ok((TestAddr(11), vec![1])));
    assert_eq!(a.receive_datagram(&mut fabric), Ok((TestAddr(99), vec![2])));
}

#[test]
fn delay_connector_serves_one_datagram_at_a_time() {
    let mut fabric = Fabric::new();
    let wire = Wire::new_delayed(&mut fabric, 4, Duration::from_millis(50));
    let a = VirtualSocket::new(TestAddr(11), wire.start);
    let mut b = VirtualSocket::new(TestAddr(99), wire.end);

    for tag in 0..3u8 {
        a.send_datagram(&mut fabric, TestAddr(99), vec![tag]).unwrap();
    }
    let mut now = Instant::zero();
    for tag in 0..3u8 {
        let (datagram, arrived) = receive_at(&mut fabric, &mut b, now);
        assert_eq!(datagram, (TestAddr(11), vec![tag]));
        assert_eq!(arrived, Instant::from_nanos(50_000_000 * (tag as u64 + 1)));
        now = arrived;
    }
}

#[test]
fn limited_wire_takes_the_transmission_time_of_the_payload() {
    let mut fabric = Fabric::new();
    let wire = Wire::new_limited(&mut fabric, 1, 10_000);
    let a = VirtualSocket::new(TestAddr(11), wire.start);
    let mut b = VirtualSocket::new(TestAddr(99), wire.end);

    let payload = b"Hello, world!".repeat(1000);
    assert_eq!(payload.len(), 13_000);
    a.send_datagram(&mut fabric, TestAddr(99), payload.clone()).unwrap();
    settle(&mut fabric, Instant::zero());
    assert_eq!(fabric.next_release(Instant::zero()), Some(1_300_000_000));
    settle(&mut fabric, Instant::from_nanos(1_299_999_999));
    assert_eq!(b.receive_datagram(&mut fabric), Err(RecvError::WouldBlock));
    settle(&mut fabric, Instant::from_nanos(1_300_000_000));
    assert_eq!(b.receive_datagram(&mut fabric), Ok((TestAddr(11), payload)));
}

#[test]
fn limited_wire_lets_an_empty_datagram_through_at_once() {
    let mut fabric = Fabric::new();
    let wire = Wire::new_limited(&mut fabric, 1, 10_000);
    let a = VirtualSocket::new(TestAddr(11), wire.start);
    let mut b = VirtualSocket::new(TestAddr(99), wire.end);

    a.send_datagram(&mut fabric, TestAddr(99), Vec::new()).unwrap();
    settle(&mut fabric, Instant::from_nanos(5));
    assert_eq!(b.receive_datagram(&mut fabric), Ok((TestAddr(11), Vec::new())));
}

/// Sends `count` payloads of 13,000 bytes from one end of `wire` to the
/// other, as fast as the wire takes them. Gives the virtual time at which
/// the last one arrived.
fn bulk_transfer(fabric: &mut Fabric, wire: Wire, count: usize) -> Instant {
    let a = VirtualSocket::new(TestAddr(42), wire.start);
    let mut b = VirtualSocket::new(TestAddr(111), wire.end);
    let payload = b"Hello, world!".repeat(1000);
    let mut now = Instant::zero();
    let mut sent = 0;
    let mut received = 0;
    while received < count {
        while sent < count {
            match a.send_datagram(fabric, TestAddr(111), payload.clone()) {
                Ok(()) => sent += 1,
                Err(SendError::WouldBlock(_)) => break,
                Err(other) => panic!("unexpected {other:?}"),
            }
        }
        settle(fabric, now);
        match b.receive_datagram(fabric) {
            Ok((source, contents)) => {
                assert_eq!(source, TestAddr(42));
                assert_eq!(contents, payload);
                received += 1;
            }
            Err(RecvError::WouldBlock) => {
                if let Some(next) = fabric.next_release(now) {
                    now = Instant::from_nanos(u64::try_from(next).unwrap());
                }
            }
            Err(RecvError::Closed) => panic!("the transport closed"),
        }
    }
    now
}

#[test]
fn limited_wire_paces_a_bulk_transfer() {
    let mut fabric = Fabric::new();
    let wire = Wire::new_limited(&mut fabric, 1, 10_000);
    let finished = bulk_transfer(&mut fabric, wire, 1_000);
    // 13 MB at 10,000 bytes per second: 1,300 seconds.
    assert_eq!(finished, Instant::from_nanos(1_300_000_000_000));
    assert!(finished.as_nanos() > Duration::from_millis(100).as_nanos());
}

#[test]
fn plain_wire_adds_no_delay_to_a_bulk_transfer() {
    let mut fabric = Fabric::new();
    let wire = Wire::new(&mut fabric, 1);
    let finished = bulk_transfer(&mut fabric, wire, 1_000);
    assert_eq!(finished, Instant::zero());
    assert!(finished.as_nanos() < Duration::from_millis(10).as_nanos());
}

#[test]
fn delayed_wire_delays_a_bulk_transfer_once_for_each_datagram() {
    let mut fabric = Fabric::new();
    let wire = Wire::new_delayed(&mut fabric, 1, Duration::from_millis(50));
    let finished = bulk_transfer(&mut fabric, wire, 10);
    assert_eq!(finished, Instant::from_nanos(500_000_000));
}

#[test]
fn shaped_wire_keeps_the_order_of_datagrams() {
    let mut fabric = Fabric::new();
    let wire = Wire::new_limited(&mut fabric, 2, 1_000_000);
    let a = VirtualSocket::new(TestAddr(1), wire.start);
    let mut b = VirtualSocket::new(TestAddr(2), wire.end);

    let mut now = Instant::zero();
    let mut next: u8 = 0;
    let mut received = Vec::new();
    while received.len() < 12 {
        while next < 12 {
            // Sizes that shrink: a later, smaller datagram must not overtake.
            match a.send_datagram(&mut fabric, TestAddr(2), vec![next; 12 - next as usize]) {
                Ok(()) => next += 1,
                Err(SendError::WouldBlock(_)) => break,
                Err(other) => panic!("unexpected {other:?}"),
            }
        }
        let ((_, payload), arrived) = receive_at(&mut fabric, &mut b, now);
        received.push(payload);
        now = arrived;
    }
    let expected: Vec<Vec<u8>> = (0..12u8).map(|tag| vec![tag; 12 - tag as usize]).collect();
    assert_eq!(received, expected);
}

#[test]
fn relay_waits_while_the_far_side_is_full() {
    let mut fabric = Fabric::new();
    let wire = Wire::new_delayed(&mut fabric, 1, Duration::from_nanos(10));
    let a = VirtualSocket::new(TestAddr(1), wire.start);
    let mut b = VirtualSocket::new(TestAddr(2), wire.end);

    // One on the far side, one held by the relay, one on the near side.
    a.send_datagram(&mut fabric, TestAddr(2), vec![0]).unwrap();
    settle(&mut fabric, Instant::from_nanos(0));
    settle(&mut fabric, Instant::from_nanos(10));
    a.send_datagram(&mut fabric, TestAddr(2), vec![1]).unwrap();
    settle(&mut fabric, Instant::from_nanos(10));
    a.send_datagram(&mut fabric, TestAddr(2), vec![2]).unwrap();
    settle(&mut fabric, Instant::from_nanos(1_000));
    assert_eq!(
        a.send_datagram(&mut fabric, TestAddr(2), vec![3]),
        Err(SendError::WouldBlock(vec![3]))
    );
    // The forward relay is the first of the two.
    assert_eq!(fabric.step(0, Instant::from_nanos(1_000)), Progress::Parked);
    assert_eq!(fabric.next_release(Instant::from_nanos(1_000)), None);

    assert_eq!(b.receive_datagram(&mut fabric), Ok((TestAddr(1), vec![0])));
    assert_eq!(fabric.step(0, Instant::from_nanos(1_000)), Progress::Advanced);
    assert_eq!(b.receive_datagram(&mut fabric), Ok((TestAddr(1), vec![1])));
    // The relay takes the next one, and the near side has room again.
    assert_eq!(fabric.step(0, Instant::from_nanos(1_000)), Progress::Advanced);
    assert_eq!(a.send_datagram(&mut fabric, TestAddr(2), vec![3]), Ok(()));
}

#[test]
fn relay_reports_what_it_waits_for() {
    let mut fabric = Fabric::new();
    let wire = Wire::new_delayed(&mut fabric, 1, Duration::from_millis(50));
    let a = VirtualSocket::new(TestAddr(1), wire.start);
    assert_eq!(fabric.relay_count(), 2);

    assert_eq!(fabric.step(0, Instant::zero()), Progress::Parked);
    a.send_datagram(&mut fabric, TestAddr(2), vec![0]).unwrap();
    assert_eq!(fabric.step(0, Instant::zero()), Progress::Advanced);
    assert_eq!(
        fabric.step(0, Instant::from_nanos(49_999_999)),
        Progress::Sleeping { until: 50_000_000 }
    );
    assert_eq!(fabric.step(0, Instant::from_nanos(50_000_000)), Progress::Advanced);
    assert_eq!(fabric.step(0, Instant::from_nanos(50_000_000)), Progress::Parked);
    assert_eq!(fabric.step(2, Instant::zero()), Progress::Done);
    assert!(!fabric.poll(Instant::from_nanos(50_000_000)));
}

#[test]
fn next_release_is_the_earliest_one_still_to_come() {
    let mut fabric = Fabric::new();
    let slow = Wire::new_delayed(&mut fabric, 1, Duration::from_millis(80));
    let fast = Wire::new_delayed(&mut fabric, 1, Duration::from_millis(20));
    let a = VirtualSocket::new(TestAddr(1), slow.start);
    let c = VirtualSocket::new(TestAddr(3), fast.start);

    assert_eq!(fabric.next_release(Instant::zero()), None);
    a.send_datagram(&mut fabric, TestAddr(2), vec![0]).unwrap();
    c.send_datagram(&mut fabric, TestAddr(4), vec![0]).unwrap();
    assert!(fabric.poll(Instant::zero()));
    assert_eq!(fabric.next_release(Instant::zero()), Some(20_000_000));
    assert_eq!(fabric.next_release(Instant::from_nanos(19_999_999)), Some(20_000_000));
    assert_eq!(fabric.next_release(Instant::from_nanos(20_000_000)), Some(80_000_000));
    assert_eq!(fabric.next_release(Instant::from_nanos(80_000_000)), None);
}

#[test]
fn closing_the_near_socket_ends_the_stream_at_the_far_end() {
    let mut fabric = Fabric::new();
    let wire = Wire::new_delayed(&mut fabric, 4, Duration::from_millis(50));
    let a = VirtualSocket::new(TestAddr(1), wire.start);
    let mut b = VirtualSocket::new(TestAddr(2), wire.end);

    a.send_datagram(&mut fabric, TestAddr(2), vec![7]).unwrap();
    a.close(&mut fabric);

    // What was sent before the close still arrives, after its delay.
    let (datagram, arrived) = receive_at(&mut fabric, &mut b, Instant::zero());
    assert_eq!(datagram, (TestAddr(1), vec![7]));
    assert_eq!(arrived, Instant::from_nanos(50_000_000));
    settle(&mut fabric, arrived);
    assert_eq!(b.receive_datagram(&mut fabric), Err(RecvError::Closed));

    // The other way the relay is still there to take a datagram. It finds
    // the wire broken when it forwards, and shuts down.
    assert_eq!(b.send_datagram(&mut fabric, TestAddr(1), vec![8]), Ok(()));
    settle(&mut fabric, arrived);
    settle(&mut fabric, Instant::from_nanos(100_000_000));
    assert_eq!(fabric.step(1, Instant::from_nanos(100_000_000)), Progress::Done);
    assert_eq!(b.send_datagram(&mut fabric, TestAddr(1), vec![9]), Err(SendError::Closed));
}

#[test]
fn closing_the_far_socket_shuts_the_relay_down() {
    let mut fabric = Fabric::new();
    let wire = Wire::new_delayed(&mut fabric, 4, Duration::from_millis(50));
    let mut a = VirtualSocket::new(TestAddr(1), wire.start);
    let b = VirtualSocket::new(TestAddr(2), wire.end);

    a.send_datagram(&mut fabric, TestAddr(2), vec![7]).unwrap();
    settle(&mut fabric, Instant::zero());
    b.close(&mut fabric);
    settle(&mut fabric, Instant::from_nanos(50_000_000));

    assert_eq!(fabric.step(0, Instant::from_nanos(50_000_000)), Progress::Done);
    assert_eq!(a.send_datagram(&mut fabric, TestAddr(2), vec![8]), Err(SendError::Closed));
    assert_eq!(a.receive_datagram(&mut fabric), Err(RecvError::Closed));
}

#[test]
fn delay_connector_joins_two_wires() {
    let mut fabric = Fabric::new();
    let near = Wire::new(&mut fabric, 2);
    let far = Wire::new(&mut fabric, 2);
    connector_delay(&mut fabric, near.end, far.start, Duration::from_micros(3));
    let mut a = VirtualSocket::new(TestAddr(1), near.start);
    let mut b = VirtualSocket::new(TestAddr(2), far.end);

    a.send_datagram(&mut fabric, TestAddr(2), vec![1]).unwrap();
    let (datagram, arrived) = receive_at(&mut fabric, &mut b, Instant::zero());
    assert_eq!(datagram, (TestAddr(1), vec![1]));
    assert_eq!(arrived, Instant::from_nanos(3_000));

    b.send_datagram(&mut fabric, TestAddr(1), vec![2]).unwrap();
    let (datagram, back) = receive_at(&mut fabric, &mut a, arrived);
    assert_eq!(datagram, (TestAddr(2), vec![2]));
    assert_eq!(back, Instant::from_nanos(6_000));
}

#[test]
fn throughput_connector_joins_two_wires() {
    let mut fabric = Fabric::new();
    let near = Wire::new(&mut fabric, 2);
    let far = Wire::new(&mut fabric, 2);
    connector_throughput_limit(&mut fabric, near.end, far.start, 1_000);
    let a = VirtualSocket::new(TestAddr(1), near.start);
    let mut b = VirtualSocket::new(TestAddr(2), far.end);

    a.send_datagram(&mut fabric, TestAddr(2), vec![0; 250]).unwrap();
    let (datagram, arrived) = receive_at(&mut fabric, &mut b, Instant::zero());
    assert_eq!(datagram, (TestAddr(1), vec![0; 250]));
    assert_eq!(arrived, Instant::from_nanos(250_000_000));
}

#[test]
fn rate_above_a_byte_per_nanosecond_is_not_exceeded() {
    let mut fabric = Fabric::new();
    let wire = Wire::new_limited(&mut fabric, 1, 2_000_000_000);
    let a = VirtualSocket::new(TestAddr(1), wire.start);
    let mut b = VirtualSocket::new(TestAddr(2), wire.end);
    a.send_datagram(&mut fabric, TestAddr(2), vec![0; 1_000]).unwrap();
    let (_, arrived) = receive_at(&mut fabric, &mut b, Instant::from_nanos(77));
    assert_eq!(arrived, Instant::from_nanos(577));
}

#[test]
fn three_bytes_at_three_bytes_per_second_take_a_second() {
    let mut fabric = Fabric::new();
    let near = Wire::new(&mut fabric, 1);
    let far = Wire::new(&mut fabric, 1);
    connector_throughput_limit(&mut fabric, near.end, far.start, 3);
    let a = VirtualSocket::new(TestAddr(1), near.start);
    let mut b = VirtualSocket::new(TestAddr(2), far.end);

    a.send_datagram(&mut fabric, TestAddr(2), vec![1, 2, 3]).unwrap();
    settle(&mut fabric, Instant::zero());
    settle(&mut fabric, Instant::from_nanos(999_999_999));
    assert_eq!(b.receive_datagram(&mut fabric), Err(RecvError::WouldBlock));
    settle(&mut fabric, Instant::from_nanos(1_000_000_000));
    assert_eq!(b.receive_datagram(&mut fabric), Ok((TestAddr(1), vec![1, 2, 3])));
}

#[test]
fn back_to_back_payloads_never_exceed_the_rate() {
    let mut fabric = Fabric::new();
    let wire = Wire::new_limited(&mut fabric, 2, 3);
    let a = VirtualSocket::new(TestAddr(1), wire.start);
    let mut b = VirtualSocket::new(TestAddr(2), wire.end);

    a.send_datagram(&mut fabric, TestAddr(2), vec![0; 3]).unwrap();
    a.send_datagram(&mut fabric, TestAddr(2), vec![1; 3]).unwrap();
    let (first, first_at) = receive_at(&mut fabric, &mut b, Instant::zero());
    let (second, second_at) = receive_at(&mut fabric, &mut b, first_at);
    assert_eq!(first, (TestAddr(1), vec![0; 3]));
    assert_eq!(second, (TestAddr(1), vec![1; 3]));
    assert_eq!(first_at, Instant::from_nanos(1_000_000_000));
    assert_eq!(second_at, Instant::from_nanos(2_000_000_000));
}

#[test]
fn single_bytes_each_take_their_time_rounded_up() {
    let mut fabric = Fabric::new();
    let wire = Wire::new_limited(&mut fabric, 3, 3);
    let a = VirtualSocket::new(TestAddr(1), wire.start);
    let mut b = VirtualSocket::new(TestAddr(2), wire.end);

    for tag in 0..3u8 {
        a.send_datagram(&mut fabric, TestAddr(2), vec![tag]).unwrap();
    }
    let mut now = Instant::zero();
    for tag in 0..3u64 {
        let (datagram, arrived) = receive_at(&mut fabric, &mut b, now);
        assert_eq!(datagram, (TestAddr(1), vec![tag as u8]));
        assert_eq!(arrived, Instant::from_nanos(333_333_334 * (tag + 1)));
        now = arrived;
    }
    // Three bytes in all, and not before a second has passed.
    assert!(now.as_nanos() >= 1_000_000_000);
}

#[test]
fn relay_between_handles_of_another_fabric_is_not_started() {
    let mut one = Fabric::new();
    let mut other = Fabric::new();
    let wire = Wire::new(&mut one, 1);
    other.spawn(
        wire.start.receiver,
        wire.start.sender,
        Shaping::FixedDelay(Duration::from_nanos(1)),
    );
    assert_eq!(other.relay_count(), 0);
}
