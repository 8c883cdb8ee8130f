use satstone::scanner::{AddressStats, GapScan, ScanProgress, GAP_LIMIT};

fn stats(index: u32, tx_count: u64, balance_sats: u64) -> AddressStats {
    AddressStats { address: format!("addr{}", index), balance_sats, tx_count }
}

/// Runs a walk against a stub; returns the walk and the indices looked up.
fn run(stub: impl Fn(u32) -> (u64, u64)) -> (GapScan, Vec<u32>) {
    let mut scan = GapScan::new();
    let mut queried = Vec::new();
    while let Some(index) = scan.next_query() {
        queried.push(index);
        let (tx_count, balance) = stub(index);
        scan.record(&stats(index, tx_count, balance));
    }
    (scan, queried)
}

#[test]
fn idle_chain_visits_exactly_the_gap_limit() {
    let (scan, queried) = run(|_| (0, 0));
    assert_eq!(queried.len(), GAP_LIMIT as usize);
    assert_eq!(queried, (0..20).collect::<Vec<u32>>());
    assert_eq!(scan.total_sats(), 0);
    assert!(scan.used_addresses().is_empty());
    assert!(scan.is_finished());
}

#[test]
fn activity_beyond_a_full_gap_is_never_reached() {
    let (scan, queried) = run(|i| if i == 0 || i == 25 { (3, if i == 0 { 5_000 } else { 7_000 }) } else { (0, 0) });
    // Index 0 is used; indices 1..=20 make a full gap, so the walk stops there.
    assert_eq!(queried, (0..=20).collect::<Vec<u32>>());
    assert!(!queried.contains(&25));
    assert_eq!(scan.total_sats(), 5_000);
    assert_eq!(scan.used_addresses(), &vec!["addr0".to_string()]);
    assert_eq!(scan.progress(), ScanProgress { next_index: 21, consecutive_empty: 20, total_sats: 5_000 });
}

#[test]
fn activity_inside_the_gap_extends_the_walk() {
    let (scan, queried) = run(|i| if i == 0 || i == 19 { (1, 100) } else { (0, 0) });
    assert_eq!(queried.len(), 40);
    assert_eq!(scan.total_sats(), 200);
    assert_eq!(scan.used_addresses(), &vec!["addr0".to_string(), "addr19".to_string()]);
}

#[test]
fn used_address_with_zero_balance_still_resets_the_gap() {
    let (scan, queried) = run(|i| if i == 10 { (2, 0) } else { (0, 0) });
    assert_eq!(queried.len(), 31);
    assert_eq!(scan.total_sats(), 0);
    assert_eq!(scan.used_addresses().len(), 1);
}

#[test]
fn walk_stops_at_the_index_ceiling() {
    let (scan, queried) = run(|_| (1, u64::MAX));
    assert_eq!(queried.len(), 1001);
    assert_eq!(*queried.last().unwrap(), 1000);
    assert_eq!(scan.total_sats(), 1001u128 * u64::MAX as u128);
}

#[test]
fn balance_is_funded_less_spent_never_negative() {
    let s = AddressStats::from_chain_stats("a".to_string(), 10_000, 4_000, 3);
    assert_eq!(s.balance_sats, 6_000);
    assert_eq!(s.tx_count, 3);
    assert_eq!(s.address, "a");
    let s = AddressStats::from_chain_stats("a".to_string(), 4_000, 10_000, 3);
    assert_eq!(s.balance_sats, 0);
}
