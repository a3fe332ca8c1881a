use cyborg_workers::aggregator::StatusAggregator;
use cyborg_workers::oracle::{DummyCombineData, MostRecentCombineData, ProcessStatus};
use cyborg_workers::worker::WorkerKey;

#[test]
fn distinct_reporters_recorded_once_each() {
    // Window size 1: block height 5 lies in period 5.
    let mut agg = StatusAggregator::new(1);
    let a: u64 = 100;
    let key = WorkerKey { owner: a, id: 1 };
    let r1: u64 = 201;
    let r2: u64 = 202;

    let s1 = ProcessStatus { online: true, available: false };
    let s2 = ProcessStatus { online: false, available: true };

    agg.on_new_data::<DummyCombineData>(&r1, &key, &s1, 5);
    agg.on_new_data::<DummyCombineData>(&r2, &key, &s2, 5);

    // Both reporters have distinct submissions for (A, 1) in period 5.
    assert!(agg.submitted_in_current_period(&r1, &key));
    assert!(agg.submitted_in_current_period(&r2, &key));
    assert!(agg.has_status_entry(&key));

    // A repeated call by R1 in the same period adds nothing new.
    agg.on_new_data::<DummyCombineData>(&r1, &key, &s1, 5);
    assert!(agg.submitted_in_current_period(&r1, &key));
    assert!(agg.submitted_in_current_period(&r2, &key));

    // The dummy policy discards every update: no aggregate materialises.
    assert_eq!(agg.aggregate_for(&key, 5), None);
}

#[test]
fn most_recent_policy_aggregates() {
    // Window size 10: heights 50..59 lie in period 5.
    let mut agg = StatusAggregator::new(10);
    let key = WorkerKey { owner: 1, id: 0 };
    let r1: u64 = 301;
    let r2: u64 = 302;

    let s1 = ProcessStatus { online: true, available: false };
    let s2 = ProcessStatus { online: false, available: true };

    agg.on_new_data::<MostRecentCombineData>(&r1, &key, &s1, 52);
    assert_eq!(agg.aggregate_for(&key, 5), Some(s1));

    // A later observation in the same period supersedes the aggregate.
    agg.on_new_data::<MostRecentCombineData>(&r2, &key, &s2, 57);
    assert_eq!(agg.aggregate_for(&key, 5), Some(s2));

    // A duplicate submission by R1 changes nothing.
    agg.on_new_data::<MostRecentCombineData>(&r1, &key, &s1, 58);
    assert_eq!(agg.aggregate_for(&key, 5), Some(s2));

    // Reads for another period see no aggregate.
    assert_eq!(agg.aggregate_for(&key, 4), None);
}

#[test]
fn rollover_clears_period_tables() {
    let mut agg = StatusAggregator::new(10);
    let key = WorkerKey { owner: 2, id: 0 };
    let r1: u64 = 401;
    let s1 = ProcessStatus { online: true, available: true };

    agg.on_new_data::<MostRecentCombineData>(&r1, &key, &s1, 55);
    assert!(agg.submitted_in_current_period(&r1, &key));
    assert_eq!(agg.aggregate_for(&key, 5), Some(s1));

    // The first observation of period 6 resets the tables: the old
    // submission and aggregate are gone, and R1 may submit afresh.
    let other = WorkerKey { owner: 2, id: 1 };
    agg.on_new_data::<MostRecentCombineData>(&r1, &other, &s1, 60);
    assert!(!agg.submitted_in_current_period(&r1, &key));
    assert!(agg.submitted_in_current_period(&r1, &other));
    assert_eq!(agg.aggregate_for(&key, 5), None);
    assert_eq!(agg.aggregate_for(&key, 6), None);
    assert_eq!(agg.aggregate_for(&other, 6), Some(s1));

    agg.on_new_data::<MostRecentCombineData>(&r1, &key, &s1, 61);
    assert!(agg.submitted_in_current_period(&r1, &key));
    assert_eq!(agg.aggregate_for(&key, 6), Some(s1));
}

#[test]
fn most_recent_policy_breaks_timestamp_ties_by_arrival_order() {
    let mut agg = StatusAggregator::new(10);
    let key = WorkerKey { owner: 4, id: 0 };
    let r1: u64 = 601;
    let r2: u64 = 602;

    let s1 = ProcessStatus { online: true, available: true };
    let s2 = ProcessStatus { online: false, available: true };

    // Two observations at the same height: the later arrival wins the tie.
    agg.on_new_data::<MostRecentCombineData>(&r1, &key, &s1, 55);
    agg.on_new_data::<MostRecentCombineData>(&r2, &key, &s2, 55);
    assert_eq!(agg.aggregate_for(&key, 5), Some(s2));
}

#[test]
fn duplicate_submission_does_not_change_aggregate_inputs() {
    // With the most-recent policy, a duplicate call carrying a different
    // status must not sneak a second observation in.
    let mut agg = StatusAggregator::new(10);
    let key = WorkerKey { owner: 3, id: 0 };
    let r1: u64 = 501;

    let s1 = ProcessStatus { online: true, available: true };
    let s2 = ProcessStatus { online: false, available: false };

    agg.on_new_data::<MostRecentCombineData>(&r1, &key, &s1, 50);
    agg.on_new_data::<MostRecentCombineData>(&r1, &key, &s2, 59);
    assert_eq!(agg.aggregate_for(&key, 5), Some(s1));
}
