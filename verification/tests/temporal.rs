use etwin::temporal::{Snapshot, SnapshotFrom, Temporal};
use etwin::time::{FinitePeriod, Period, PeriodFrom};

fn periods<T>(snaps: &[Snapshot<&T>]) -> Vec<Period> {
    snaps.iter().map(|s| s.period()).collect()
}

#[test]
fn test_temporal_new() {
    let t = Temporal::new(10, "a".to_string());
    assert_eq!(t.time(), 10);
    assert_eq!(t.value(), "a");
    let at = t.at(None).unwrap();
    assert_eq!(at.start_time(), 10);
    assert_eq!(*at.record(), "a");
}

#[test]
fn test_temporal_set_changes_value() {
    let mut t = Temporal::new(10, 1u32);
    t.set(20, 2);
    assert_eq!(*t.value(), 2);
    assert_eq!(t.time(), 20);
    let snaps = t.iter();
    assert_eq!(
        periods(&snaps),
        vec![
            Period::From(PeriodFrom { start: 10 }),
            Period::Finite(FinitePeriod { start: 20, end: 10 }),
        ]
    );
    assert_eq!(**snaps[0].record(), 1);
    assert_eq!(**snaps[1].record(), 2);
    assert_eq!(snaps[0].end_time(), None);
    assert_eq!(snaps[1].end_time(), Some(10));
    assert_eq!(snaps[1].start_time(), 20);
}

#[test]
fn test_temporal_set_same_value_is_noop() {
    let mut t = Temporal::new(10, 1u32);
    t.set(20, 1);
    assert_eq!(t.time(), 10);
    assert_eq!(t.iter().len(), 1);
}

#[test]
fn test_temporal_at() {
    let mut t = Temporal::new(10, 'a');
    t.set(20, 'b');
    t.set(30, 'c');
    assert!(t.at(Some(5)).is_none());
    assert_eq!(*t.at(Some(10)).unwrap().into_record(), 'a');
    assert_eq!(*t.at(Some(19)).unwrap().into_record(), 'a');
    let s = t.at(Some(25)).unwrap();
    assert_eq!(s.period(), PeriodFrom { start: 20 });
    assert_eq!(*s.into_record(), 'b');
    assert_eq!(*t.at(Some(30)).unwrap().into_record(), 'c');
    assert_eq!(*t.at(Some(1000)).unwrap().into_record(), 'c');
    assert_eq!(t.at(None).unwrap().start_time(), 30);
}

#[test]
fn test_temporal_map_merges_equal_results() {
    let mut t = Temporal::new(0, 1u32);
    t.set(10, 2);
    t.set(20, 3);
    t.set(30, 4);
    let parity = t.map(|s: Snapshot<&u32>| **s.record() % 2);
    let snaps = parity.iter();
    assert_eq!(snaps.len(), 4);
    let odd_even = t.map(|s: Snapshot<&u32>| **s.record() > 2);
    let snaps = odd_even.iter();
    assert_eq!(
        periods(&snaps),
        vec![
            Period::From(PeriodFrom { start: 0 }),
            Period::Finite(FinitePeriod { start: 20, end: 0 }),
        ]
    );
    assert_eq!(*odd_even.value(), true);
}

#[test]
fn test_temporal_map_sees_periods() {
    let mut t = Temporal::new(0, 1u32);
    t.set(10, 2);
    let ends = t.map(|s: Snapshot<&u32>| s.end_time());
    let snaps = ends.iter();
    assert_eq!(**snaps[0].record(), Some(10));
    assert_eq!(**snaps[1].record(), None);
}

#[test]
fn test_temporal_from_values() {
    let t = Temporal::from_values(vec![(5, "x".to_string())]);
    assert_eq!(t.time(), 5);
    assert_eq!(t.into_value(), "x");
}

#[test]
fn test_snapshot_from_accessors() {
    let s = SnapshotFrom::new(3, 7u8);
    assert_eq!(s.period(), PeriodFrom { start: 3 });
    assert_eq!(s.start_time(), 3);
    assert_eq!(*s.value(), 7);
    assert_eq!(*s.record(), 7);
    assert_eq!(s.into_value(), 7);
    assert_eq!(SnapshotFrom::new(3, 9u8).into_record(), 9);
}

#[test]
fn test_snapshot_value() {
    let t = Temporal::new(1, 4u64);
    let snaps = t.iter();
    let s = snaps[0];
    assert_eq!(**s.value(), 4);
    assert_eq!(*s.into_value(), 4);
}

#[test]
fn test_temporal_map_at_each_instant() {
    let mut t = Temporal::new(0, 1u32);
    t.set(10, 2);
    t.set(20, 3);
    t.set(30, 4);
    let big = t.map(|s: Snapshot<&u32>| **s.record() > 2);
    assert!(big.at(Some(-1)).is_none());
    for x in [0, 5, 10, 19] {
        assert_eq!(*big.at(Some(x)).unwrap().into_record(), false);
    }
    for x in [20, 29, 30, 100] {
        assert_eq!(*big.at(Some(x)).unwrap().into_record(), true);
    }
    assert_eq!(big.at(Some(25)).unwrap().start_time(), 20);
    assert_eq!(big.time(), 20);
}

#[test]
fn test_temporal_iter_lists_history() {
    let mut t = Temporal::new(1, 'a');
    t.set(4, 'b');
    t.set(9, 'c');
    let snaps = t.iter();
    assert_eq!(snaps.len(), 3);
    for (i, s) in snaps.iter().enumerate() {
        if i + 1 < snaps.len() {
            assert!(s.start_time() < snaps[i + 1].start_time());
        }
        let at = t.at(Some(s.start_time())).unwrap();
        assert_eq!(at.start_time(), s.start_time());
        assert_eq!(*at.into_record(), **s.record());
    }
    assert_eq!(snaps[2].start_time(), t.time());
    assert_eq!(**snaps[2].record(), *t.value());
}

#[test]
fn test_temporal_set_time() {
    let mut t = Temporal::new(1, 'a');
    t.set(4, 'a');
    assert_eq!(t.time(), 1);
    t.set(6, 'b');
    assert_eq!(t.time(), 6);
}
