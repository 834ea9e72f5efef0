use raid_tracker::ledger::CompletionLedger;

#[test]
fn toggle_on_records_a_clear() {
    let mut ledger = CompletionLedger::new();
    ledger.toggle(10, 1, 100, true);
    let snap = ledger.snapshot_for(1);
    assert_eq!(snap, vec![100]);
    assert_eq!(ledger.records().len(), 1);
    assert_eq!(ledger.records()[0].user_id, 10);
    assert_eq!(ledger.records()[0].character_id, 1);
    assert_eq!(ledger.records()[0].raid_id, 100);
}

#[test]
fn toggle_on_twice_equals_once() {
    let mut once = CompletionLedger::new();
    once.toggle(10, 1, 100, true);
    let mut twice = CompletionLedger::new();
    twice.toggle(10, 1, 100, true);
    twice.toggle(10, 1, 100, true);
    assert_eq!(once.records().as_slice(), twice.records().as_slice());
    assert_eq!(twice.snapshot_for(1), vec![100]);
}

#[test]
fn toggle_round_trip_returns_to_empty() {
    let mut ledger = CompletionLedger::new();
    ledger.toggle(10, 1, 100, true);
    ledger.toggle(10, 1, 100, false);
    assert_eq!(ledger.records().len(), 0);
    assert_eq!(ledger.snapshot_for(1), Vec::<i32>::new());
}

#[test]
fn toggle_off_when_absent_is_a_noop() {
    let mut ledger = CompletionLedger::new();
    ledger.toggle(10, 1, 100, false);
    assert_eq!(ledger.records().len(), 0);
    ledger.toggle(10, 1, 100, true);
    ledger.toggle(10, 2, 100, false);
    ledger.toggle(10, 1, 101, false);
    assert_eq!(ledger.snapshot_for(1), vec![100]);
}

#[test]
fn snapshot_separates_characters() {
    let mut ledger = CompletionLedger::new();
    ledger.toggle(10, 1, 100, true);
    ledger.toggle(10, 1, 101, true);
    ledger.toggle(10, 2, 102, true);
    ledger.toggle(11, 3, 100, true);
    let mut snap1 = ledger.snapshot_for(1);
    snap1.sort();
    assert_eq!(snap1, vec![100, 101]);
    assert_eq!(ledger.snapshot_for(2), vec![102]);
    assert_eq!(ledger.snapshot_for(3), vec![100]);
    assert_eq!(ledger.snapshot_for(4), Vec::<i32>::new());
}
