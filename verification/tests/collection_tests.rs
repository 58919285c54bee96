use stopwatches::collection::StopwatchCollection;

#[test]
fn empty_collection_assigns_zero() {
    let mut c = StopwatchCollection::new();
    assert_eq!(c.len(), 0);
    assert_eq!(c.add_new(), 0);
    assert_eq!(c.len(), 1);
}

#[test]
fn identifiers_are_never_reused_after_removal() {
    let mut c = StopwatchCollection::new();
    assert_eq!(c.add_new(), 0);
    assert_eq!(c.add_new(), 1);
    assert_eq!(c.add_new(), 2);
    c.remove(1);
    assert_eq!(c.add_new(), 3);
    let ids: Vec<u8> = c.iterate().iter().map(|e| e.0).collect();
    assert_eq!(ids, vec![0, 2, 3]);
}

#[test]
fn emptied_collection_restarts_at_zero() {
    let mut c = StopwatchCollection::new();
    c.add_new();
    c.add_new();
    c.add_new();
    c.remove(0);
    c.remove(1);
    c.remove(2);
    assert_eq!(c.len(), 0);
    assert_eq!(c.add_new(), 0);
}

#[test]
fn remove_unknown_identifier_is_noop() {
    let mut c = StopwatchCollection::new();
    c.add_new();
    c.add_new();
    c.remove(9);
    assert_eq!(c.len(), 2);
    let ids: Vec<u8> = c.iterate().iter().map(|e| e.0).collect();
    assert_eq!(ids, vec![0, 1]);
}

#[test]
fn iteration_order_is_ascending_by_identifier() {
    let mut c = StopwatchCollection::new();
    for _ in 0..5 {
        c.add_new();
    }
    c.remove(2);
    c.remove(0);
    c.add_new();
    c.add_new();
    let ids: Vec<u8> = c.iterate().iter().map(|e| e.0).collect();
    assert_eq!(ids, vec![1, 3, 4, 5, 6]);
    for pair in ids.windows(2) {
        assert!(pair[0] < pair[1]);
    }
}

#[test]
fn get_finds_the_stored_stopwatch() {
    let mut c = StopwatchCollection::new();
    c.add_new();
    c.add_new();
    let w = c.get(1).expect("identifier 1 was added");
    assert_eq!(w.id, 1);
    assert!(!w.is_running);
    assert!(c.get(9).is_none());
}

#[test]
fn start_and_pause_reach_the_right_entry() {
    let mut c = StopwatchCollection::new();
    c.add_new();
    c.add_new();
    c.start(1);
    assert!(c.get(1).unwrap().is_running);
    assert!(!c.get(0).unwrap().is_running);
    c.pause(1);
    let w = c.get(1).unwrap();
    assert!(!w.is_running);
    assert!(w.elapsed_time.is_some());
    assert!(c.get(0).unwrap().elapsed_time.is_none());
}

#[test]
fn start_unknown_identifier_is_noop() {
    let mut c = StopwatchCollection::new();
    c.add_new();
    c.start(9);
    c.pause(9);
    assert_eq!(c.len(), 1);
    assert!(!c.get(0).unwrap().is_running);
    assert!(c.get(0).unwrap().elapsed_time.is_none());
}

#[test]
fn can_add_until_identifiers_run_out() {
    let mut c = StopwatchCollection::new();
    assert!(c.can_add());
    for expected in 0..=255u8 {
        assert_eq!(c.try_add_new(), Some(expected));
    }
    assert!(!c.can_add());
    assert_eq!(c.try_add_new(), None);
    assert_eq!(c.len(), 256);
}

#[test]
fn iterate_is_restartable_and_read_only() {
    let mut c = StopwatchCollection::new();
    c.add_new();
    c.add_new();
    let first: Vec<u8> = c.iterate().iter().map(|e| e.0).collect();
    let second: Vec<u8> = c.iterate().iter().map(|e| e.0).collect();
    assert_eq!(first, second);
    assert_eq!(c.len(), 2);
}
