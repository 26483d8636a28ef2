use silk::event::{transfer_hash, Event};
use silk::hash::{hash, Sha256Hash};
use silk::historian::{Action, Historian, Input};
use silk::log::{next_hash, verify_slice, verify_slice_seq, Entry};
use silk::signature::{get_pubkey, Keypair};

fn drive(historian: &mut Historian, inputs: &[Input]) -> Vec<Entry> {
    let mut entries = Vec::new();
    for input in inputs {
        match historian.step(*input) {
            Action::Emit(entry) => entries.push(entry),
            Action::Continue => {}
            Action::Stop => break,
        }
    }
    entries
}

fn transfer() -> Event {
    let keypair = Keypair::from_seed([7u8; 32]);
    let to = get_pubkey(&Keypair::from_seed([8u8; 32]));
    transfer_hash(&Sha256Hash::default(), &keypair, to)
}

#[test]
fn new_historian_starts_at_the_start_hash() {
    let start = hash(b"start");
    let historian = Historian::new(&start, Some(10));
    assert_eq!(historian.running_hash(), start);
    assert_eq!(historian.num_hashes(), 0);
    assert_eq!(historian.tick_interval_hashes(), Some(10));
    assert_eq!(Historian::new(&start, None).tick_interval_hashes(), None);
}

#[test]
fn idle_hashing_emits_a_tick_every_interval() {
    let zero = Sha256Hash::default();
    let mut historian = Historian::new(&zero, Some(3));
    assert_eq!(historian.step(Input::Empty), Action::Continue);
    assert_eq!(historian.num_hashes(), 1);
    assert_eq!(historian.running_hash(), hash(&zero));
    assert_eq!(historian.step(Input::Empty), Action::Continue);
    let third = hash(&hash(&hash(&zero)));
    assert_eq!(
        historian.step(Input::Empty),
        Action::Emit(Entry { num_hashes: 3, end_hash: third, event: Event::Tick })
    );
    assert_eq!(historian.num_hashes(), 0);
    assert_eq!(historian.running_hash(), third);
    assert_eq!(historian.idle(), None);
    assert_eq!(historian.idle(), None);
    assert_eq!(
        historian.idle(),
        Some(Entry { num_hashes: 3, end_hash: hash(&hash(&hash(&third))), event: Event::Tick })
    );
}

#[test]
fn interval_of_one_ticks_on_every_idle_hash() {
    let zero = Sha256Hash::default();
    let mut historian = Historian::new(&zero, Some(1));
    let entries = drive(&mut historian, &[Input::Empty; 4]);
    assert_eq!(entries.len(), 4);
    assert!(entries.iter().all(|entry| entry.num_hashes == 1 && entry.event == Event::Tick));
    assert!(verify_slice(&entries, &zero));
}

#[test]
fn without_an_interval_no_tick_is_emitted() {
    let zero = Sha256Hash::default();
    let mut historian = Historian::new(&zero, None);
    let entries = drive(&mut historian, &[Input::Empty; 25]);
    assert!(entries.is_empty());
    assert_eq!(historian.num_hashes(), 25);
    let event = Event::Discovery { data: hash(b"data") };
    let entry = historian.record(event);
    assert_eq!(entry, Entry { num_hashes: 25, end_hash: next_hash(&zero, 25, &event), event });
    assert_eq!(historian.num_hashes(), 0);
    assert_eq!(historian.running_hash(), entry.end_hash);
    assert!(verify_slice(&[entry], &zero));
}

#[test]
fn an_event_snaps_the_count_and_resets_it() {
    let zero = Sha256Hash::default();
    let mut historian = Historian::new(&zero, Some(10));
    drive(&mut historian, &[Input::Empty; 4]);
    let event = Event::Discovery { data: hash(b"data") };
    let action = historian.step(Input::Event(event));
    let expected = Entry { num_hashes: 4, end_hash: next_hash(&zero, 4, &event), event };
    assert_eq!(action, Action::Emit(expected));
    assert_eq!(historian.num_hashes(), 0);
    assert_eq!(historian.running_hash(), expected.end_hash);

    let again = historian.step(Input::Event(event));
    let expected_again =
        Entry { num_hashes: 0, end_hash: next_hash(&expected.end_hash, 0, &event), event };
    assert_eq!(again, Action::Emit(expected_again));
    assert!(verify_slice(&[expected, expected_again], &zero));
}

#[test]
fn closed_input_stops_without_a_tick() {
    let zero = Sha256Hash::default();
    let mut historian = Historian::new(&zero, Some(2));
    assert_eq!(historian.step(Input::Empty), Action::Continue);
    let running = historian.running_hash();
    assert_eq!(historian.step(Input::Closed), Action::Stop);
    assert_eq!(historian.running_hash(), running);
    assert_eq!(historian.num_hashes(), 1);
}

#[test]
fn historian_end_to_end() {
    let zero = Sha256Hash::default();
    let mut historian = Historian::new(&zero, Some(10));
    let submitted = transfer();
    let mut inputs = vec![Input::Empty; 37];
    inputs.push(Input::Event(submitted));
    inputs.extend(vec![Input::Empty; 25]);
    inputs.push(Input::Closed);
    inputs.extend(vec![Input::Empty; 30]);
    let entries = drive(&mut historian, &inputs);

    assert!(verify_slice(&entries, &zero));
    assert!(verify_slice_seq(&entries, &zero));
    let recorded: Vec<usize> =
        (0..entries.len()).filter(|i| entries[*i].event == submitted).collect();
    assert_eq!(recorded, vec![3]);
    assert_eq!(entries.len(), 6);
    assert_eq!(entries[3].num_hashes, 7);
    for (i, entry) in entries.iter().enumerate() {
        if i != 3 {
            assert_eq!(entry.event, Event::Tick);
            assert_eq!(entry.num_hashes, 10);
        }
    }
    assert_eq!(historian.running_hash(), hash(&hash(&hash(&hash(&hash(&entries[5].end_hash))))));
    assert_eq!(historian.num_hashes(), 5);
}

#[test]
fn every_prefix_of_the_emitted_entries_verifies() {
    let start = hash(b"start");
    let mut historian = Historian::new(&start, Some(4));
    let first = Event::Discovery { data: hash(b"first") };
    let second = transfer();
    let mut inputs = vec![Input::Empty; 6];
    inputs.push(Input::Event(first));
    inputs.push(Input::Event(second));
    inputs.extend(vec![Input::Empty; 9]);
    inputs.push(Input::Event(Event::Tick));
    inputs.push(Input::Closed);
    let entries = drive(&mut historian, &inputs);
    for k in 0..=entries.len() {
        assert!(verify_slice(&entries[..k], &start));
    }
    let events: Vec<Event> =
        entries.iter().map(|entry| entry.event).filter(|event| *event != Event::Tick).collect();
    assert_eq!(events, vec![first, second]);
    let total: u64 = entries.iter().map(|entry| entry.num_hashes).sum();
    assert_eq!(total + historian.num_hashes(), 15);
}

#[test]
fn an_unsigned_event_is_recorded_and_fails_verification() {
    let zero = Sha256Hash::default();
    let mut historian = Historian::new(&zero, Some(10));
    let forged = Event::Claim { key: [1u8; 32], data: zero, sig: [0u8; 64] };
    let entries = drive(&mut historian, &[Input::Empty, Input::Event(forged), Input::Closed]);
    assert_eq!(entries.len(), 1);
    assert_eq!(entries[0].event, forged);
    assert_eq!(entries[0].end_hash, next_hash(&zero, 1, &forged));
    assert!(!verify_slice(&entries, &zero));
}
