use cyborg_workers::period::PeriodWindowManager;
use cyborg_workers::weights::{RuntimeDbWeight, SubstrateWeight, Weight, WeightInfo};

#[test]
fn period_is_height_divided_by_window() {
    let m = PeriodWindowManager::new(10);
    assert_eq!(m.current_period(0), 0);
    assert_eq!(m.current_period(9), 0);
    assert_eq!(m.current_period(10), 1);
    assert_eq!(m.current_period(55), 5);
    assert_eq!(m.current_period(u64::MAX), u64::MAX / 10);
}

#[test]
fn rollover_detection() {
    let m = PeriodWindowManager::new(10);
    assert!(!m.has_rolled_over(5, 55));
    assert!(!m.has_rolled_over(5, 59));
    assert!(m.has_rolled_over(5, 60));
    assert!(m.has_rolled_over(5, 49));
}

#[test]
fn weight_arithmetic_saturates() {
    let a = Weight::from_parts(u64::MAX - 1, 10);
    let b = Weight::from_parts(5, 7);
    let c = a.saturating_add(b);
    assert_eq!(c.ref_time, u64::MAX);
    assert_eq!(c.proof_size, 17);

    let db = RuntimeDbWeight { read: u64::MAX, write: 1 };
    assert_eq!(db.reads(2).ref_time, u64::MAX);
    assert_eq!(db.writes(3).ref_time, 3);
    assert_eq!(db.reads(2).proof_size, 0);
}

#[test]
fn sudo_weights_from_db_costs() {
    let w = SubstrateWeight { db: RuntimeDbWeight { read: 25_000_000, write: 100_000_000 } };
    let set_key = w.set_key();
    assert_eq!(set_key.ref_time, 8_000_000 + 25_000_000 + 100_000_000);
    assert_eq!(set_key.proof_size, 1517);

    let sudo = w.sudo();
    assert_eq!(sudo.ref_time, 9_000_000 + 25_000_000);
    assert_eq!(sudo.proof_size, 1517);

    let sudo_as = w.sudo_as();
    assert_eq!(sudo_as.ref_time, sudo.ref_time);

    let remove_key = w.remove_key();
    assert_eq!(remove_key.ref_time, 7_000_000 + 25_000_000 + 100_000_000);
    assert_eq!(remove_key.proof_size, 1517);
}
