use virtual_sockets::{TestAddr, ADDR_PORT, ADDR_PREFIX};

#[test]
fn address_fills_the_last_four_groups() {
    assert_eq!(TestAddr(42).to_groups(), [0xfd00, 0, 0, 0, 0, 0, 0, 42]);
    assert_eq!(
        TestAddr(0x0123_4567_89ab_cdef).to_groups(),
        [0xfd00, 0, 0, 0, 0x0123, 0x4567, 0x89ab, 0xcdef]
    );
    assert_eq!(TestAddr(u64::MAX).to_groups(), [0xfd00, 0, 0, 0, 0xffff, 0xffff, 0xffff, 0xffff]);
    assert_eq!(TestAddr(0).to_groups(), [ADDR_PREFIX, 0, 0, 0, 0, 0, 0, 0]);
}

#[test]
fn groups_give_the_address_back() {
    for addr in [TestAddr(0), TestAddr(11), TestAddr(99), TestAddr(1 << 16), TestAddr(u64::MAX)] {
        assert_eq!(TestAddr::from_groups(addr.to_groups(), ADDR_PORT), Some(addr));
    }
    assert_eq!(
        TestAddr::from_groups([0xfd00, 0, 0, 0, 0x0123, 0x4567, 0x89ab, 0xcdef], 443),
        Some(TestAddr(0x0123_4567_89ab_cdef))
    );
}

#[test]
fn other_socket_addresses_stand_for_no_address() {
    let groups = TestAddr(42).to_groups();
    assert_eq!(TestAddr::from_groups(groups, 444), None);
    assert_eq!(TestAddr::from_groups([0xfe80, 0, 0, 0, 0, 0, 0, 42], ADDR_PORT), None);
    assert_eq!(TestAddr::from_groups([0xfd00, 1, 0, 0, 0, 0, 0, 42], ADDR_PORT), None);
    assert_eq!(TestAddr::from_groups([0xfd00, 0, 1, 0, 0, 0, 0, 42], ADDR_PORT), None);
    assert_eq!(TestAddr::from_groups([0xfd00, 0, 0, 1, 0, 0, 0, 42], ADDR_PORT), None);
    assert_eq!(TestAddr::from_groups([0; 8], ADDR_PORT), None);
}
