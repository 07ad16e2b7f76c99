use canopus::error::CoreError;
use canopus::port::{
    after_attempt, clear_reservations, get_reservations, release_port, BindOutcome, PortAllocator,
    ReservationMeta,
    ReservationTable, DEFAULT_PORT_RANGE_END, DEFAULT_PORT_RANGE_START, MAX_ALLOCATION_ATTEMPTS,
};

#[test]
fn test_port_allocator_creation() {
    let allocator = PortAllocator::new();
    assert_eq!(allocator.range_start(), DEFAULT_PORT_RANGE_START);
    assert_eq!(allocator.range_end(), DEFAULT_PORT_RANGE_END);

    let allocator = PortAllocator::with_range(8000, 9000);
    assert_eq!(allocator.range_start(), 8000);
    assert_eq!(allocator.range_end(), 9000);
}

#[test]
fn test_deterministic_sequence() {
    let allocator = PortAllocator::with_range(45000, 45010);
    let seed = PortAllocator::calculate_deterministic_seed(4242, 0);

    let seq1: Vec<u16> = allocator.generate_port_sequence(seed).into_iter().take(10).collect();
    let seq2: Vec<u16> = allocator.generate_port_sequence(seed).into_iter().take(10).collect();

    assert_eq!(seq1, seq2);
    assert!(!seq1.is_empty());
    for port in seq1 {
        assert!((45000..45010).contains(&port));
    }
}

#[test]
fn sequence_starts_at_seed_offset_and_wraps() {
    let allocator = PortAllocator::with_range(100, 105);
    assert_eq!(allocator.generate_port_sequence(7), vec![102, 103, 104, 100, 101]);
    assert_eq!(allocator.generate_port_sequence(0), vec![100, 101, 102, 103, 104]);
}

#[test]
fn deterministic_seed_mixes_pid_and_thread() {
    assert_eq!(PortAllocator::calculate_deterministic_seed(2, 5), 67);
    assert_eq!(
        PortAllocator::calculate_deterministic_seed(u32::MAX, u64::MAX),
        (u32::MAX as u64).wrapping_mul(31).wrapping_add(u64::MAX)
    );
}

#[test]
fn candidates_put_preferred_first_and_respect_budget() {
    let allocator = PortAllocator::with_range(100, 105);
    assert_eq!(allocator.candidate_ports(Some(7000), 0), vec![7000, 100, 101, 102, 103, 104]);
    assert_eq!(allocator.candidate_ports(None, 1), vec![101, 102, 103, 104, 100]);

    let wide = PortAllocator::new();
    let with_pref = wide.candidate_ports(Some(1234), 3);
    assert_eq!(with_pref.len(), MAX_ALLOCATION_ATTEMPTS);
    assert_eq!(with_pref[0], 1234);
    assert_eq!(with_pref[1], DEFAULT_PORT_RANGE_START + 3);
    assert_eq!(wide.candidate_ports(None, 3).len(), MAX_ALLOCATION_ATTEMPTS);
}

fn meta(pid: u32) -> ReservationMeta {
    ReservationMeta { pid, thread_id: 1, timestamp: 10 }
}

#[test]
fn test_explicit_release() {
    let mut table = ReservationTable::new();
    table.reserve(45126, meta(1)).expect("free port");
    assert!(table.is_reserved(45126));
    release_port(&mut table, 45126);
    assert!(!table.is_reserved(45126));
    release_port(&mut table, 45126);
    assert!(!table.is_reserved(45126));
}

#[test]
fn test_port_collision() {
    let mut table = ReservationTable::new();
    table.reserve(45124, meta(1)).expect("free port");
    match table.reserve(45124, meta(2)) {
        Err(CoreError::PortInUse(port)) => assert_eq!(port, 45124),
        other => panic!("Expected port collision error, got {other:?}"),
    }
    let entries = get_reservations(&table);
    assert_eq!(entries.len(), 1);
    assert_eq!(entries[0], (45124, meta(1)));
}

#[test]
fn reservations_listed_and_cleared() {
    let mut table = ReservationTable::new();
    table.reserve(1, meta(1)).unwrap();
    table.reserve(2, meta(2)).unwrap();
    let mut entries = get_reservations(&table);
    entries.sort_by_key(|e| e.0);
    assert_eq!(entries, vec![(1, meta(1)), (2, meta(2))]);
    clear_reservations(&mut table);
    assert!(get_reservations(&table).is_empty());
    assert!(!table.is_reserved(1));
}

#[test]
fn bound_port_is_claimed_unless_taken() {
    let mut table = ReservationTable::new();
    assert!(table.claim_bound_port(40001, meta(1), BindOutcome::Bound).is_ok());
    assert!(table.is_reserved(40001));
    match table.claim_bound_port(40001, meta(2), BindOutcome::Bound) {
        Err(CoreError::PortInUse(p)) => assert_eq!(p, 40001),
        other => panic!("unexpected {other:?}"),
    }
    match table.claim_bound_port(40002, meta(2), BindOutcome::AddrInUse) {
        Err(CoreError::PortInUse(p)) => assert_eq!(p, 40002),
        other => panic!("unexpected {other:?}"),
    }
    let failure = std::io::Error::new(std::io::ErrorKind::PermissionDenied, "denied");
    match table.claim_bound_port(80, meta(3), BindOutcome::Failed(failure)) {
        Err(CoreError::IoError(e)) => assert_eq!(e.kind(), std::io::ErrorKind::PermissionDenied),
        other => panic!("unexpected {other:?}"),
    }
    assert!(!table.is_reserved(40002));
    assert!(!table.is_reserved(80));
}

#[test]
fn test_fallback_to_sequence() {
    // A preferred port in use moves on to the sequence; the last port in
    // use ends the allocation with the number of ports tried.
    assert!(after_attempt(0, 3, Err(CoreError::PortInUse(45200))).is_none());
    assert!(matches!(after_attempt(1, 3, Ok(45201)), Some(Ok(45201))));
    match after_attempt(2, 3, Err(CoreError::PortInUse(45202))) {
        Some(Err(CoreError::NoAvailablePort { tried })) => assert_eq!(tried, 3),
        other => panic!("unexpected {other:?}"),
    }
    assert!(matches!(
        after_attempt(0, 3, Err(CoreError::Other("x".to_string()))),
        Some(Err(CoreError::Other(_)))
    ));
}

#[test]
fn candidates_are_preferred_or_in_range_and_distinct() {
    let allocator = PortAllocator::with_range(3000, 3010);
    let c = allocator.candidate_ports(Some(80), 12345);
    assert_eq!(c[0], 80);
    assert!(c[1..].iter().all(|p| (3000..3010).contains(p)));
    let mut rest: Vec<u16> = c[1..].to_vec();
    rest.sort_unstable();
    rest.dedup();
    assert_eq!(rest.len(), c.len() - 1);
}
