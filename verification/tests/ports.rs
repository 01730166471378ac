use proofhub::allocator::PortAllocator;
use proofhub::digits::u64_to_string;

fn pools() -> (Vec<u16>, Vec<u16>) {
    (vec![8081, 8082, 8083, 8084, 8085], vec![8086, 8087, 8088, 8089, 8090])
}

#[test]
fn five_element_pool_allocates_in_order_then_fails() {
    let (instantiated, uninstantiated) = pools();
    let mut allocator = PortAllocator::new(instantiated, uninstantiated);
    let mut seen: Vec<(u16, u16)> = Vec::new();
    for k in 0..5u16 {
        let pair = allocator.allocate().expect("allocation within the pool must succeed");
        assert_eq!(pair, (8081 + k, 8086 + k));
        assert!(!seen.contains(&pair), "a pair must never repeat within a round");
        seen.push(pair);
    }
    // The sixth call reports failure and resets the cursor.
    assert!(allocator.allocate().is_none());
    // The allocator is cyclic: the next call starts over at the front.
    assert_eq!(allocator.allocate(), Some((8081, 8086)));
}

#[test]
fn two_consecutive_allocations_differ() {
    // Two concurrent callers are serialised by the lock into two
    // consecutive calls; on a five-element pool they never see the same
    // pair.
    let (instantiated, uninstantiated) = pools();
    let mut allocator = PortAllocator::new(instantiated, uninstantiated);
    let first = allocator.allocate().unwrap();
    let second = allocator.allocate().unwrap();
    assert_ne!(first, second);
}

#[test]
fn ping_reports_allocated_pair_in_decimal() {
    let (instantiated, uninstantiated) = pools();
    let mut allocator = PortAllocator::new(instantiated, uninstantiated);
    let ping = allocator.ping_response();
    assert!(ping.success);
    assert_eq!(ping.rust_port, "8081");
    assert_eq!(ping.uinit_port, "8086");
}

#[test]
fn ping_reports_failure_after_exhaustion() {
    let mut allocator = PortAllocator::new(vec![9000], vec![9001]);
    let first = allocator.ping_response();
    assert!(first.success);
    assert_eq!(first.rust_port, "9000");
    assert_eq!(first.uinit_port, "9001");
    let exhausted = allocator.ping_response();
    assert!(!exhausted.success);
    assert_eq!(exhausted.rust_port, "No more ports");
    assert_eq!(exhausted.uinit_port, "No more ports");
}

#[test]
fn empty_pool_never_succeeds() {
    let mut allocator = PortAllocator::new(Vec::new(), Vec::new());
    assert!(allocator.allocate().is_none());
    assert!(allocator.allocate().is_none());
}

#[test]
fn decimal_rendering_is_exact() {
    assert_eq!(u64_to_string(0), "0");
    assert_eq!(u64_to_string(7), "7");
    assert_eq!(u64_to_string(10), "10");
    assert_eq!(u64_to_string(8081), "8081");
    assert_eq!(u64_to_string(65535), "65535");
    assert_eq!(u64_to_string(18446744073709551615), "18446744073709551615");
}
