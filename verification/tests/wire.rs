use virtual_sockets::fabric::Fabric;
use virtual_sockets::socket::{Backing, RecvError, SendError, VirtualSocket};
use virtual_sockets::wire::Wire;
use virtual_sockets::TestAddr;

#[test]
fn test_wire_plugging() {
    let mut fabric = Fabric::new();
    let wire = Wire::new(&mut fabric, 64);
    let socket0 = VirtualSocket::new(TestAddr(11), wire.start);
    let mut socket1 = VirtualSocket::new(TestAddr(99), wire.end);

    let contents = b"Hello, world!".to_vec();
    socket0.send_datagram(&mut fabric, socket1.addr, contents.clone()).unwrap();

    let (source_addr, received) = socket1.receive_datagram(&mut fabric).unwrap();

    assert_eq!(source_addr, socket0.addr);
    assert_eq!(received, contents);
}

#[test]
fn test_wire_plugging_reverse() {
    let mut fabric = Fabric::new();
    let wire = Wire::new(&mut fabric, 64);
    let socket0 = VirtualSocket::new(TestAddr(11), wire.end); // switch start and end
    let mut socket1 = VirtualSocket::new(TestAddr(99), wire.start);

    let contents = b"Hello, world!".to_vec();
    socket0.send_datagram(&mut fabric, socket1.addr, contents.clone()).unwrap();

    let (source_addr, received) = socket1.receive_datagram(&mut fabric).unwrap();

    assert_eq!(source_addr, socket0.addr);
    assert_eq!(received, contents);
}

#[test]
fn wire_of_capacity_one_carries_hello_world() {
    let mut fabric = Fabric::new();
    let wire = Wire::new(&mut fabric, 1);
    let a = VirtualSocket::new(TestAddr(11), wire.start);
    let mut b = VirtualSocket::new(TestAddr(99), wire.end);

    assert_eq!(a.send_datagram(&mut fabric, TestAddr(99), b"Hello, world!".to_vec()), Ok(()));
    assert_eq!(b.receive_datagram(&mut fabric), Ok((TestAddr(11), b"Hello, world!".to_vec())));
    assert_eq!(b.receive_datagram(&mut fabric), Err(RecvError::WouldBlock));
}

#[test]
fn wire_of_capacity_one_carries_hello_world_the_other_way() {
    let mut fabric = Fabric::new();
    let wire = Wire::new(&mut fabric, 1);
    let a = VirtualSocket::new(TestAddr(11), wire.end);
    let mut b = VirtualSocket::new(TestAddr(99), wire.start);

    assert_eq!(a.send_datagram(&mut fabric, TestAddr(99), b"Hello, world!".to_vec()), Ok(()));
    assert_eq!(b.receive_datagram(&mut fabric), Ok((TestAddr(11), b"Hello, world!".to_vec())));
    assert_eq!(b.receive_datagram(&mut fabric), Err(RecvError::WouldBlock));
}

#[test]
fn what_a_socket_sends_does_not_come_back_to_it() {
    let mut fabric = Fabric::new();
    let wire = Wire::new(&mut fabric, 4);
    let mut a = VirtualSocket::new(TestAddr(11), wire.start);
    let mut b = VirtualSocket::new(TestAddr(99), wire.end);

    a.send_datagram(&mut fabric, TestAddr(99), vec![1]).unwrap();
    assert_eq!(a.receive_datagram(&mut fabric), Err(RecvError::WouldBlock));
    b.send_datagram(&mut fabric, TestAddr(11), vec![2]).unwrap();
    assert_eq!(a.receive_datagram(&mut fabric), Ok((TestAddr(99), vec![2])));
    assert_eq!(b.receive_datagram(&mut fabric), Ok((TestAddr(11), vec![1])));
}

#[test]
fn plain_wire_keeps_the_order_of_datagrams() {
    let mut fabric = Fabric::new();
    let wire = Wire::new(&mut fabric, 3);
    let a = VirtualSocket::new(TestAddr(1), wire.start);
    let mut b = VirtualSocket::new(TestAddr(2), wire.end);

    let mut received = Vec::new();
    let mut next: u8 = 0;
    while received.len() < 20 {
        while next < 20 {
            match a.send_datagram(&mut fabric, TestAddr(2), vec![next; 5]) {
                Ok(()) => next += 1,
                Err(SendError::WouldBlock(back)) => {
                    assert_eq!(back, vec![next; 5]);
                    break;
                }
                Err(other) => panic!("unexpected {other:?}"),
            }
        }
        let (source, payload) = b.receive_datagram(&mut fabric).unwrap();
        assert_eq!(source, TestAddr(1));
        received.push(payload);
    }
    let expected: Vec<Vec<u8>> = (0..20u8).map(|tag| vec![tag; 5]).collect();
    assert_eq!(received, expected);
}

#[test]
fn full_wire_pushes_back_without_dropping() {
    let mut fabric = Fabric::new();
    let wire = Wire::new(&mut fabric, 1);
    let a = VirtualSocket::new(TestAddr(1), wire.start);
    let mut b = VirtualSocket::new(TestAddr(2), wire.end);

    assert!(a.poll_send(&fabric, TestAddr(2)));
    assert_eq!(a.send_datagram(&mut fabric, TestAddr(2), vec![1]), Ok(()));
    assert!(!a.poll_send(&fabric, TestAddr(2)));
    assert_eq!(
        a.send_datagram(&mut fabric, TestAddr(2), vec![2]),
        Err(SendError::WouldBlock(vec![2]))
    );
    assert_eq!(b.receive_datagram(&mut fabric), Ok((TestAddr(1), vec![1])));
    assert!(a.poll_send(&fabric, TestAddr(2)));
    assert_eq!(a.send_datagram(&mut fabric, TestAddr(2), vec![2]), Ok(()));
    assert_eq!(b.receive_datagram(&mut fabric), Ok((TestAddr(1), vec![2])));
}

#[test]
fn the_two_directions_of_a_wire_have_room_of_their_own() {
    let mut fabric = Fabric::new();
    let wire = Wire::new(&mut fabric, 1);
    let a = VirtualSocket::new(TestAddr(1), wire.start);
    let b = VirtualSocket::new(TestAddr(2), wire.end);

    assert_eq!(a.send_datagram(&mut fabric, TestAddr(2), vec![1]), Ok(()));
    assert_eq!(b.send_datagram(&mut fabric, TestAddr(1), vec![2]), Ok(()));
    assert!(!a.poll_send(&fabric, TestAddr(2)));
    assert!(!b.poll_send(&fabric, TestAddr(1)));
}

#[test]
fn wired_socket_reaches_its_peer_whatever_the_destination() {
    let mut fabric = Fabric::new();
    let wire = Wire::new(&mut fabric, 2);
    let a = VirtualSocket::new(TestAddr(1), wire.start);
    let mut b = VirtualSocket::new(TestAddr(2), wire.end);

    assert_eq!(a.send_datagram(&mut fabric, TestAddr(777), vec![5]), Ok(()));
    assert_eq!(b.receive_datagram(&mut fabric), Ok((TestAddr(1), vec![5])));
}

#[test]
fn readiness_to_receive_follows_the_inbox() {
    let mut fabric = Fabric::new();
    let wire = Wire::new(&mut fabric, 2);
    let a = VirtualSocket::new(TestAddr(1), wire.start);
    let mut b = VirtualSocket::new(TestAddr(2), wire.end);

    assert!(!b.poll_recv(&fabric));
    a.send_datagram(&mut fabric, TestAddr(2), vec![1]).unwrap();
    assert!(b.poll_recv(&fabric));
    b.receive_datagram(&mut fabric).unwrap();
    assert!(!b.poll_recv(&fabric));
    a.close(&mut fabric);
    assert!(b.poll_recv(&fabric));
    assert_eq!(b.receive_datagram(&mut fabric), Err(RecvError::Closed));
}

#[test]
fn closed_peer_ends_the_stream_after_what_is_queued() {
    let mut fabric = Fabric::new();
    let wire = Wire::new(&mut fabric, 4);
    let a = VirtualSocket::new(TestAddr(1), wire.start);
    let mut b = VirtualSocket::new(TestAddr(2), wire.end);

    a.send_datagram(&mut fabric, TestAddr(2), vec![1]).unwrap();
    a.send_datagram(&mut fabric, TestAddr(2), vec![2]).unwrap();
    a.close(&mut fabric);

    assert_eq!(b.receive_datagram(&mut fabric), Ok((TestAddr(1), vec![1])));
    assert_eq!(b.receive_datagram(&mut fabric), Ok((TestAddr(1), vec![2])));
    assert_eq!(b.receive_datagram(&mut fabric), Err(RecvError::Closed));
    assert_eq!(b.receive_datagram(&mut fabric), Err(RecvError::Closed));
}

#[test]
fn closed_peer_refuses_every_send() {
    let mut fabric = Fabric::new();
    let wire = Wire::new(&mut fabric, 4);
    let a = VirtualSocket::new(TestAddr(1), wire.start);
    let b = VirtualSocket::new(TestAddr(2), wire.end);

    b.close(&mut fabric);
    assert!(a.poll_send(&fabric, TestAddr(2)));
    assert_eq!(a.send_datagram(&mut fabric, TestAddr(2), vec![1]), Err(SendError::Closed));
    assert_eq!(a.send_datagram(&mut fabric, TestAddr(2), vec![2]), Err(SendError::Closed));
}

#[test]
fn sockets_of_another_fabric_find_the_transport_closed() {
    let mut one = Fabric::new();
    let mut other = Fabric::new();
    let wire = Wire::new(&mut one, 4);
    let a = VirtualSocket::new(TestAddr(1), wire.start);
    let mut b = VirtualSocket::new(TestAddr(2), wire.end);

    assert_eq!(a.send_datagram(&mut other, TestAddr(2), vec![1]), Err(SendError::Closed));
    assert_eq!(b.receive_datagram(&mut other), Err(RecvError::Closed));
}

#[test]
fn binding_to_a_plug_is_the_same_as_new() {
    let mut fabric = Fabric::new();
    let wire = Wire::new(&mut fabric, 1);
    let a = VirtualSocket::bind(&mut fabric, TestAddr(11), Backing::Plug(wire.start)).unwrap();
    let mut b = VirtualSocket::bind(&mut fabric, TestAddr(99), Backing::Plug(wire.end)).unwrap();
    assert_eq!(a.addr, TestAddr(11));
    a.send_datagram(&mut fabric, b.addr, vec![7, 7]).unwrap();
    assert_eq!(b.receive_datagram(&mut fabric), Ok((TestAddr(11), vec![7, 7])));
}

#[test]
fn two_wires_in_one_fabric_do_not_mix() {
    let mut fabric = Fabric::new();
    let first = Wire::new(&mut fabric, 2);
    let second = Wire::new(&mut fabric, 2);
    let a = VirtualSocket::new(TestAddr(1), first.start);
    let mut b = VirtualSocket::new(TestAddr(2), first.end);
    let c = VirtualSocket::new(TestAddr(3), second.start);
    let mut d = VirtualSocket::new(TestAddr(4), second.end);

    a.send_datagram(&mut fabric, TestAddr(2), vec![1]).unwrap();
    c.send_datagram(&mut fabric, TestAddr(4), vec![3]).unwrap();
    assert_eq!(d.receive_datagram(&mut fabric), Ok((TestAddr(3), vec![3])));
    assert_eq!(d.receive_datagram(&mut fabric), Err(RecvError::WouldBlock));
    assert_eq!(b.receive_datagram(&mut fabric), Ok((TestAddr(1), vec![1])));
}
