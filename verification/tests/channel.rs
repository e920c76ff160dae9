use virtual_sockets::channel::{Channel, TryRecvError, TrySendError, MAX_CAPACITY};
use virtual_sockets::{OwnedTransmit, TestAddr};

fn transmit(tag: u8) -> OwnedTransmit {
    OwnedTransmit { destination: TestAddr(2), source: TestAddr(1), contents: vec![tag; 3] }
}

#[test]
fn channel_hands_out_in_order() {
    let mut channel = Channel::new(4);
    for tag in 0..4 {
        assert_eq!(channel.try_send(transmit(tag)), Ok(()));
    }
    for tag in 0..4 {
        assert_eq!(channel.try_recv(), Ok(transmit(tag)));
    }
    assert_eq!(channel.try_recv(), Err(TryRecvError::Empty));
}

#[test]
fn channel_keeps_order_when_sends_and_receives_interleave() {
    let mut channel = Channel::new(2);
    let mut received = Vec::new();
    let mut next_to_send = 0u8;
    while received.len() < 10 {
        while next_to_send < 10 {
            match channel.try_send(transmit(next_to_send)) {
                Ok(()) => next_to_send += 1,
                Err(TrySendError::Full(back)) => {
                    assert_eq!(back, transmit(next_to_send));
                    break;
                }
                Err(other) => panic!("unexpected {other:?}"),
            }
        }
        received.push(channel.try_recv().unwrap());
    }
    let expected: Vec<OwnedTransmit> = (0..10).map(transmit).collect();
    assert_eq!(received, expected);
}

#[test]
fn full_channel_gives_the_transmit_back() {
    let mut channel = Channel::new(1);
    assert_eq!(channel.try_send(transmit(1)), Ok(()));
    assert!(channel.send_waits());
    assert_eq!(channel.try_send(transmit(2)), Err(TrySendError::Full(transmit(2))));
    assert_eq!(channel.try_recv(), Ok(transmit(1)));
    assert!(!channel.send_waits());
    assert_eq!(channel.try_send(transmit(2)), Ok(()));
    assert_eq!(channel.try_recv(), Ok(transmit(2)));
}

#[test]
fn channel_holds_as_many_as_its_capacity() {
    let mut channel = Channel::new(3);
    for tag in 0..3 {
        assert!(!channel.send_waits());
        assert_eq!(channel.try_send(transmit(tag)), Ok(()));
    }
    assert!(channel.send_waits());
    assert_eq!(channel.try_send(transmit(3)), Err(TrySendError::Full(transmit(3))));
    assert_eq!(channel.try_recv(), Ok(transmit(0)));
    assert_eq!(channel.try_recv(), Ok(transmit(1)));
    assert_eq!(channel.try_send(transmit(3)), Ok(()));
    assert_eq!(channel.try_send(transmit(4)), Ok(()));
    assert_eq!(channel.try_send(transmit(5)), Err(TrySendError::Full(transmit(5))));
    for tag in 2..5 {
        assert_eq!(channel.try_recv(), Ok(transmit(tag)));
    }
    assert_eq!(channel.try_recv(), Err(TryRecvError::Empty));
}

#[test]
fn largest_capacity_is_accepted() {
    assert_eq!(MAX_CAPACITY, usize::MAX >> 3);
    let mut channel = Channel::new(MAX_CAPACITY);
    assert_eq!(channel.try_send(transmit(1)), Ok(()));
    assert!(!channel.send_waits());
    assert_eq!(channel.try_recv(), Ok(transmit(1)));
}

#[test]
fn dropped_sender_ends_the_stream_after_what_is_queued() {
    let mut channel = Channel::new(4);
    assert_eq!(channel.try_send(transmit(1)), Ok(()));
    assert_eq!(channel.try_send(transmit(2)), Ok(()));
    channel.close_sender();
    assert!(!channel.recv_waits());
    assert_eq!(channel.try_recv(), Ok(transmit(1)));
    assert_eq!(channel.try_recv(), Ok(transmit(2)));
    assert_eq!(channel.try_recv(), Err(TryRecvError::Disconnected));
    assert_eq!(channel.try_recv(), Err(TryRecvError::Disconnected));
    assert_eq!(channel.try_send(transmit(3)), Err(TrySendError::Closed(transmit(3))));
}

#[test]
fn dropped_receiver_refuses_every_send() {
    let mut channel = Channel::new(4);
    assert_eq!(channel.try_send(transmit(1)), Ok(()));
    channel.close_receiver();
    assert_eq!(channel.try_send(transmit(2)), Err(TrySendError::Closed(transmit(2))));
    assert!(!channel.send_waits());
    assert_eq!(channel.try_recv(), Err(TryRecvError::Disconnected));
}

#[test]
fn empty_open_channel_tells_the_receiver_to_wait() {
    let mut channel = Channel::new(1);
    assert!(channel.recv_waits());
    assert_eq!(channel.try_recv(), Err(TryRecvError::Empty));
    assert_eq!(channel.try_send(transmit(9)), Ok(()));
    assert!(!channel.recv_waits());
}
