use silk::hash::{hash, Sha256Hash};
use silk::ledger::{next_ticks, verify_slice};
use silk::log::{create_ticks, Entry};

#[test]
fn ledger_test_verify_slice() {
    let zero = Sha256Hash::default();
    let one = hash(&zero);
    assert!(verify_slice(&vec![], &zero)); // base case
    assert!(verify_slice(&vec![Entry::new_tick(0, &zero)], &zero)); // singleton
    assert!(!verify_slice(&vec![Entry::new_tick(0, &zero)], &one)); // singleton, bad
    assert!(verify_slice(&next_ticks(&zero, 0, 2), &zero)); // inductive step

    let mut bad_ticks = next_ticks(&zero, 0, 2);
    bad_ticks[1].end_hash = one;
    assert!(!verify_slice(&bad_ticks, &zero)); // inductive step, bad
}

#[test]
fn next_ticks_threads_the_running_hash() {
    let zero = Sha256Hash::default();
    let ticks = next_ticks(&zero, 2, 3);
    assert_eq!(ticks.len(), 3);
    let mut running = zero;
    for tick in &ticks {
        running = hash(&hash(&running));
        assert_eq!(tick.num_hashes, 2);
        assert_eq!(tick.end_hash, running);
        assert_eq!(tick.event, silk::event::Event::Tick);
    }
}

#[test]
fn next_ticks_agrees_with_create_ticks() {
    let start = hash(b"ledger");
    assert_eq!(next_ticks(&start, 3, 5), create_ticks(&start, 3, 5));
    assert_eq!(next_ticks(&start, 3, 0), Vec::new());
}
