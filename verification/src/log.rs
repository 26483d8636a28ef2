//! The log: entries chained by hash, the functions that extend a chain, and
//! the verifiers that check one.
//!
//! An entry records how many hashes were performed since the previous entry,
//! the running hash that resulted, and the event that was mixed into it.
//! Because every entry carries that running hash, each entry can be checked
//! against its predecessor alone, in any order.

use crate::event::{hash_event, verify_event, Event, EventView};
use crate::hash::{hash, hash_eq, hash_n, Sha256Hash};
use crate::laws::{law_parallel_matches_sequential, law_signed_entries_verify, law_ticks_verify};
use rayon::iter::{IndexedParallelIterator, IntoParallelRefIterator, ParallelIterator};
use vstd::prelude::*;

verus! {

/// One step of the chain.
#[derive(Debug, PartialEq, Eq, Clone, Copy)]
pub struct Entry {
    pub num_hashes: u64,
    pub end_hash: Sha256Hash,
    pub event: Event,
}

/// The mathematical value of an `Entry`.
pub struct EntryView {
    pub num_hashes: nat,
    pub end_hash: Seq<u8>,
    pub event: EventView,
}

impl View for Entry {
    type V = EntryView;

    open spec fn view(&self) -> EntryView {
        EntryView {
            num_hashes: self.num_hashes as nat,
            end_hash: self.end_hash@,
            event: self.event@,
        }
    }
}

/// The running hash reached from `start` by hashing `n` times and then
/// mixing in `event`.
pub open spec fn hash_after(start: Seq<u8>, n: nat, event: EventView) -> Seq<u8> {
    event.mix(hash_n(start, n))
}

impl EntryView {
    /// The entry's `end_hash` is the one reached from `prev` by its
    /// `num_hashes` and its event.
    pub open spec fn links_to(self, prev: Seq<u8>) -> bool {
        self.end_hash == hash_after(prev, self.num_hashes, self.event)
    }

    /// The entry is a valid step after the running hash `prev`: its
    /// signature, if any, is valid, and it links to `prev`.
    pub open spec fn valid_after(self, prev: Seq<u8>) -> bool {
        self.event.signature_ok() && self.links_to(prev)
    }
}

/// The values of a sequence of events.
pub open spec fn event_views(events: Seq<Event>) -> Seq<EventView> {
    events.map_values(|e: Event| e@)
}

/// The values of a sequence of entries.
pub open spec fn chain_view(entries: Seq<Entry>) -> Seq<EntryView> {
    entries.map_values(|e: Entry| e@)
}

/// The events of the entries of `chain`, in order.
pub open spec fn events_of(chain: Seq<EntryView>) -> Seq<EventView> {
    chain.map_values(|entry: EntryView| entry.event)
}

/// Every event of `events` is a tick, a discovery, or a claim or transaction
/// whose signature is valid.
pub open spec fn all_signed(events: Seq<EventView>) -> bool {
    forall|i: int| 0 <= i < events.len() ==> (#[trigger] events[i]).signature_ok()
}

/// The running hash that entry `i` of `chain` starts from: `start` for the
/// first entry, the previous entry's `end_hash` for the others.
pub open spec fn prev_hash(chain: Seq<EntryView>, start: Seq<u8>, i: int) -> Seq<u8> {
    if i <= 0 {
        start
    } else {
        chain[i - 1].end_hash
    }
}

/// The running hash at the end of `chain`.
pub open spec fn last_hash(chain: Seq<EntryView>, start: Seq<u8>) -> Seq<u8> {
    prev_hash(chain, start, chain.len() as int)
}

/// Every entry of `chain` links to the one before it, the first to `start`.
pub open spec fn chain_linked(chain: Seq<EntryView>, start: Seq<u8>) -> bool {
    forall|i: int|
        0 <= i < chain.len() ==> (#[trigger] chain[i]).links_to(prev_hash(chain, start, i))
}

/// `chain` is valid from `start`: every entry is a valid step after the one
/// before it, the first after `start`. Each entry is judged on its own and its
/// predecessor's fields alone.
pub open spec fn chain_valid(chain: Seq<EntryView>, start: Seq<u8>) -> bool {
    forall|i: int|
        0 <= i < chain.len() ==> (#[trigger] chain[i]).valid_after(prev_hash(chain, start, i))
}

/// `chain` is valid from `start`, judged front to back with the running hash
/// threaded through.
pub open spec fn chain_valid_seq(chain: Seq<EntryView>, start: Seq<u8>) -> bool
    decreases chain.len(),
{
    if chain.len() == 0 {
        true
    } else {
        chain[0].valid_after(start) && chain_valid_seq(chain.drop_first(), chain[0].end_hash)
    }
}

/// The chain that starts at `start` and records `events` in order, each
/// `n` hashes after the one before.
pub open spec fn entries_from(start: Seq<u8>, n: nat, events: Seq<EventView>) -> Seq<EntryView>
    decreases events.len(),
{
    if events.len() == 0 {
        Seq::empty()
    } else {
        let before = entries_from(start, n, events.drop_last());
        before.push(
            EntryView {
                num_hashes: n,
                end_hash: hash_after(last_hash(before, start), n, events.last()),
                event: events.last(),
            },
        )
    }
}

/// `len` ticks.
pub open spec fn ticks(len: nat) -> Seq<EventView> {
    Seq::new(len, |i: int| EventView::Tick)
}

impl Entry {
    /// Creates a tick entry from the number of hashes `num_hashes` since the
    /// previous entry and the resulting `end_hash`.
    pub fn new_tick(num_hashes: u64, end_hash: &Sha256Hash) -> (entry: Entry)
        ensures
            entry == (Entry { num_hashes, end_hash: *end_hash, event: Event::Tick }),
    {
        Entry { num_hashes, end_hash: *end_hash, event: Event::Tick }
    }

    /// Checks that the event's signature is valid and that `self.end_hash` is
    /// the result of hashing `start_hash` `self.num_hashes` times and mixing in
    /// the event.
    pub fn verify(&self, start_hash: &Sha256Hash) -> (ok: bool)
        ensures
            ok == self@.valid_after(start_hash@),
    {
        if !verify_event(&self.event) {
            return false;
        }
        let expected = next_hash(start_hash, self.num_hashes, &self.event);
        hash_eq(&self.end_hash, &expected)
    }
}

/// Hashes `start_hash` `num_hashes` times and mixes in `event`.
pub fn next_hash(start_hash: &Sha256Hash, num_hashes: u64, event: &Event) -> (digest: Sha256Hash)
    ensures
        digest@ == hash_after(start_hash@, num_hashes as nat, event@),
{
    let mut end_hash = *start_hash;
    let mut i: u64 = 0;
    while i < num_hashes
        invariant
            i <= num_hashes,
            end_hash@ == hash_n(start_hash@, i as nat),
        decreases num_hashes - i,
    {
        end_hash = hash(end_hash.as_slice());
        i += 1;
    }
    hash_event(&end_hash, event)
}

/// Creates the entry that records `event` `num_hashes` hashes after `start_hash`.
pub fn next_entry(start_hash: &Sha256Hash, num_hashes: u64, event: Event) -> (entry: Entry)
    ensures
        entry.num_hashes == num_hashes,
        entry.event == event,
        entry.end_hash@ == hash_after(start_hash@, num_hashes as nat, event@),
{
    Entry { num_hashes, end_hash: next_hash(start_hash, num_hashes, &event), event }
}

/// Creates the entry that records `event` `num_hashes` hashes after
/// `start_hash`, and moves `start_hash` on to the entry's `end_hash`.
pub fn next_entry_mut(start_hash: &mut Sha256Hash, num_hashes: u64, event: Event) -> (entry: Entry)
    ensures
        entry.num_hashes == num_hashes,
        entry.event == event,
        entry.end_hash@ == hash_after(old(start_hash)@, num_hashes as nat, event@),
        *final(start_hash) == entry.end_hash,
{
    let entry = next_entry(start_hash, num_hashes, event);
    *start_hash = entry.end_hash;
    entry
}

/// Creates the tick entry `num_hashes` hashes after `start_hash`.
pub fn next_tick(start_hash: &Sha256Hash, num_hashes: u64) -> (entry: Entry)
    ensures
        entry.num_hashes == num_hashes,
        entry.event == Event::Tick,
        entry.end_hash@ == hash_n(start_hash@, num_hashes as nat),
{
    next_entry(start_hash, num_hashes, Event::Tick)
}

/// Checks every entry of `entries` against the item at its own index in
/// `genesis` followed by `entries`, on rayon's thread pool:
/// `par_iter().chain(..)` lays `genesis` before `entries`, `zip(entries)`
/// pairs the items of that sequence with the entries index by index, as far
/// as the entries go, and `all` is true when `Entry::verify` accepts every
/// pair. The contract claims that conjunction, with `Entry::verify`'s own
/// verdict for each pair.
#[verifier::external_body]
fn par_verify_pairs(genesis: &[Entry], entries: &[Entry]) -> (ok: bool)
    ensures
        ok == (forall|i: int|
            0 <= i < entries@.len() ==> (#[trigger] entries@[i])@.valid_after(
                (genesis@ + entries@)[i].end_hash@,
            )),
{
    genesis.par_iter().chain(entries).zip(entries).all(|(x0, x1)| x1.verify(&x0.end_hash))
}

/// Verifies that the hashes, counts and signatures of a slice of entries are
/// all consistent, starting from `start_hash`. The entries are checked in
/// parallel. An empty slice is valid.
pub fn verify_slice(events: &[Entry], start_hash: &Sha256Hash) -> (ok: bool)
    ensures
        ok == chain_valid(chain_view(events@), start_hash@),
{
    let genesis = [Entry::new_tick(0, start_hash)];
    let ok = par_verify_pairs(genesis.as_slice(), events);
    proof {
        let chain = chain_view(events@);
        // The item paired with entry `i` carries the hash that entry `i` starts from.
        assert forall|i: int| 0 <= i < events@.len() implies (genesis@ + events@)[i].end_hash@
            == prev_hash(chain, start_hash@, i) by {}
        if ok {
            assert forall|i: int| 0 <= i < chain.len() implies (#[trigger] chain[i]).valid_after(
                prev_hash(chain, start_hash@, i),
            ) by {
                assert(events@[i]@.valid_after((genesis@ + events@)[i].end_hash@));
            }
        } else {
            let i = choose|i: int|
                0 <= i < events@.len() && !(#[trigger] events@[i])@.valid_after(
                    (genesis@ + events@)[i].end_hash@,
                );
            assert(!chain[i].valid_after(prev_hash(chain, start_hash@, i)));
        }
    }
    ok
}

/// Verifies the entries one after the other, threading the running hash
/// through. Exists for reference: its verdict is that of `verify_slice`.
pub fn verify_slice_seq(events: &[Entry], start_hash: &Sha256Hash) -> (ok: bool)
    ensures
        ok == chain_valid_seq(chain_view(events@), start_hash@),
        ok == chain_valid(chain_view(events@), start_hash@),
{
    let ghost chain = chain_view(events@);
    proof {
        law_parallel_matches_sequential(chain, start_hash@);
    }
    let mut prev = *start_hash;
    let mut i: usize = 0;
    assert(chain.skip(0) == chain);
    while i < events.len()
        invariant
            i <= events.len(),
            chain == chain_view(events@),
            chain_valid(chain, start_hash@) == chain_valid_seq(chain, start_hash@),
            chain_valid_seq(chain, start_hash@) == chain_valid_seq(chain.skip(i as int), prev@),
        decreases events.len() - i,
    {
        let ghost rest = chain.skip(i as int);
        assert(rest.drop_first() == chain.skip(i + 1));
        if !events[i].verify(&prev) {
            return false;
        }
        prev = events[i].end_hash;
        i += 1;
    }
    true
}

/// Creates the chain that starts at `start_hash` and records `events` in
/// order, each `num_hashes` hashes after the one before.
pub fn create_entries(start_hash: &Sha256Hash, num_hashes: u64, events: &[Event]) -> (entries: Vec<
    Entry,
>)
    ensures
        chain_view(entries@) == entries_from(
            start_hash@,
            num_hashes as nat,
            event_views(events@),
        ),
        chain_valid(chain_view(entries@), start_hash@) <==> all_signed(event_views(events@)),
{
    let ghost views = event_views(events@);
    proof {
        law_signed_entries_verify(start_hash@, num_hashes as nat, views);
    }
    let mut end_hash = *start_hash;
    let mut entries: Vec<Entry> = Vec::new();
    let mut i: usize = 0;
    while i < events.len()
        invariant
            i <= events.len(),
            views == event_views(events@),
            chain_view(entries@) == entries_from(
                start_hash@,
                num_hashes as nat,
                views.take(i as int),
            ),
            end_hash@ == last_hash(chain_view(entries@), start_hash@),
        decreases events.len() - i,
    {
        let entry = next_entry_mut(&mut end_hash, num_hashes, events[i]);
        entries.push(entry);
        i += 1;
        assert(views.take(i as int).drop_last() == views.take(i - 1));
    }
    assert(views.take(events@.len() as int) == views);
    entries
}

/// Creates a chain of `len` ticks from `start_hash`, each `num_hashes` hashes
/// after the one before.
pub fn create_ticks(start_hash: &Sha256Hash, num_hashes: u64, len: usize) -> (entries: Vec<Entry>)
    ensures
        chain_view(entries@) == entries_from(start_hash@, num_hashes as nat, ticks(len as nat)),
        chain_valid(chain_view(entries@), start_hash@),
{
    proof {
        law_ticks_verify(start_hash@, num_hashes as nat, len as nat);
    }
    let mut end_hash = *start_hash;
    let mut entries: Vec<Entry> = Vec::new();
    let mut i: usize = 0;
    while i < len
        invariant
            i <= len,
            chain_view(entries@) == entries_from(start_hash@, num_hashes as nat, ticks(i as nat)),
            end_hash@ == last_hash(chain_view(entries@), start_hash@),
        decreases len - i,
    {
        let entry = next_entry_mut(&mut end_hash, num_hashes, Event::Tick);
        entries.push(entry);
        i += 1;
        assert(ticks(i as nat).drop_last() == ticks((i - 1) as nat));
    }
    entries
}

} // verus!
