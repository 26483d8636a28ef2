//! What holds of every chain: constructed chains verify, the two verifiers
//! agree, and a chain does not survive tampering with a hash, reordering of
//! its events, or an event whose signature does not cover it.

use crate::event::EventView;
use crate::hash::hash_n;
use crate::log::{
    all_signed, chain_linked, chain_valid, chain_valid_seq, entries_from, events_of, hash_after,
    last_hash, prev_hash, ticks, EntryView,
};
use crate::signature::ed25519_valid;
use vstd::prelude::*;

verus! {

/// The running hash into which entry `i` of `chain` mixes its event: the
/// hash the entry starts from, hashed `num_hashes` times.
pub open spec fn hash_before_event(chain: Seq<EntryView>, start: Seq<u8>, i: int) -> Seq<u8> {
    hash_n(prev_hash(chain, start, i), chain[i].num_hashes)
}

/// `chain` with the events of entries `i` and `i + 1` exchanged in place.
pub open spec fn swap_events(chain: Seq<EntryView>, i: int) -> Seq<EntryView> {
    chain.update(i, EntryView { event: chain[i + 1].event, ..chain[i] }).update(
        i + 1,
        EntryView { event: chain[i].event, ..chain[i + 1] },
    )
}

/// `chain` with entries `i` and `i + 1` exchanged whole.
pub open spec fn swap_entries(chain: Seq<EntryView>, i: int) -> Seq<EntryView> {
    chain.update(i, chain[i + 1]).update(i + 1, chain[i])
}

/// `chain` with the event of entry `i` replaced by `event`.
pub open spec fn with_event(chain: Seq<EntryView>, i: int, event: EventView) -> Seq<EntryView> {
    chain.update(i, EntryView { event, ..chain[i] })
}

/// A constructed chain records exactly the given events, each with the given
/// hash count, and each entry is linked to the one before.
pub proof fn lemma_entries_from(start: Seq<u8>, n: nat, events: Seq<EventView>)
    ensures
        entries_from(start, n, events).len() == events.len(),
        events_of(entries_from(start, n, events)) == events,
        forall|i: int|
            0 <= i < events.len() ==> (#[trigger] entries_from(start, n, events)[i]).num_hashes
                == n,
        chain_linked(entries_from(start, n, events), start),
    decreases events.len(),
{
    if events.len() > 0 {
        lemma_entries_from(start, n, events.drop_last());
        let before = entries_from(start, n, events.drop_last());
        let chain = entries_from(start, n, events);
        assert forall|i: int| 0 <= i < chain.len() implies (#[trigger] chain[i]).links_to(
            prev_hash(chain, start, i),
        ) && chain[i].event == events[i] by {
            if i < before.len() {
                assert(events_of(before)[i] == events.drop_last()[i]);
            }
        }
    }
}

/// Events with `event` put in front are all signed exactly when `event` is
/// and the rest are.
pub proof fn lemma_all_signed_cons(event: EventView, rest: Seq<EventView>)
    ensures
        all_signed(seq![event] + rest) <==> event.signature_ok() && all_signed(rest),
{
    let all = seq![event] + rest;
    assert(all[0] == event);
    if all_signed(all) {
        assert forall|i: int| 0 <= i < rest.len() implies (#[trigger] rest[i]).signature_ok() by {
            assert(all[i + 1].signature_ok());
        }
    }
}

/// A linked chain is valid exactly when every event in it is signed.
pub proof fn lemma_linked_chain_valid(chain: Seq<EntryView>, start: Seq<u8>)
    requires
        chain_linked(chain, start),
    ensures
        chain_valid(chain, start) <==> all_signed(events_of(chain)),
{
    let events = events_of(chain);
    if all_signed(events) {
        assert forall|i: int| 0 <= i < chain.len() implies (#[trigger] chain[i]).valid_after(
            prev_hash(chain, start, i),
        ) by {
            assert(events[i].signature_ok());
        }
    }
}

/// A chain of ticks constructed from `start` is valid from `start`, for
/// every hash count and every length.
pub proof fn law_ticks_verify(start: Seq<u8>, n: nat, len: nat)
    ensures
        chain_valid(entries_from(start, n, ticks(len)), start),
{
    lemma_entries_from(start, n, ticks(len));
    lemma_linked_chain_valid(entries_from(start, n, ticks(len)), start);
}

/// A chain constructed from `start` over `events` is valid from `start`
/// exactly when every event is a tick, a discovery, or a claim or transaction
/// whose signature is valid.
pub proof fn law_signed_entries_verify(start: Seq<u8>, n: nat, events: Seq<EventView>)
    ensures
        chain_valid(entries_from(start, n, events), start) <==> all_signed(events),
{
    lemma_entries_from(start, n, events);
    lemma_linked_chain_valid(entries_from(start, n, events), start);
}

/// Segmenting: a chain cut in two is valid from `start` exactly when the
/// first piece is valid from `start` and the second from the running hash
/// at the end of the first. The same holds of being linked.
pub proof fn law_split(first: Seq<EntryView>, second: Seq<EntryView>, start: Seq<u8>)
    ensures
        chain_valid(first + second, start) <==> chain_valid(first, start) && chain_valid(
            second,
            last_hash(first, start),
        ),
        chain_linked(first + second, start) <==> chain_linked(first, start) && chain_linked(
            second,
            last_hash(first, start),
        ),
{
    let chain = first + second;
    let mid = last_hash(first, start);
    let n = first.len() as int;
    // Entry `i` of the first piece, and entry `i` of the second, sit in the
    // whole chain with the same predecessor as in their piece.
    assert forall|i: int| 0 <= i < first.len() implies #[trigger] chain[i] == first[i]
        && prev_hash(chain, start, i) == prev_hash(first, start, i) by {}
    assert forall|i: int| 0 <= i < second.len() implies #[trigger] chain[i + n] == second[i]
        && prev_hash(chain, start, i + n) == prev_hash(second, mid, i) by {}
    if chain_valid(chain, start) {
        assert forall|i: int| 0 <= i < first.len() implies (#[trigger] first[i]).valid_after(
            prev_hash(first, start, i),
        ) by {
            assert(chain[i].valid_after(prev_hash(chain, start, i)));
        }
        assert forall|i: int| 0 <= i < second.len() implies (#[trigger] second[i]).valid_after(
            prev_hash(second, mid, i),
        ) by {
            assert(chain[i + n].valid_after(prev_hash(chain, start, i + n)));
        }
    }
    if chain_linked(chain, start) {
        assert forall|i: int| 0 <= i < first.len() implies (#[trigger] first[i]).links_to(
            prev_hash(first, start, i),
        ) by {
            assert(chain[i].links_to(prev_hash(chain, start, i)));
        }
        assert forall|i: int| 0 <= i < second.len() implies (#[trigger] second[i]).links_to(
            prev_hash(second, mid, i),
        ) by {
            assert(chain[i + n].links_to(prev_hash(chain, start, i + n)));
        }
    }
    if chain_linked(first, start) && chain_linked(second, mid) {
        assert forall|i: int| 0 <= i < chain.len() implies (#[trigger] chain[i]).links_to(
            prev_hash(chain, start, i),
        ) by {
            if i >= n {
                assert(chain[(i - n) + n] == second[i - n]);
            }
        }
    }
}

/// A chain with `entry` put in front is valid from `start` exactly when
/// `entry` is a valid step after `start` and the rest is valid from
/// `entry.end_hash`. The same holds of being linked.
pub proof fn lemma_chain_cons(entry: EntryView, rest: Seq<EntryView>, start: Seq<u8>)
    ensures
        chain_valid(seq![entry] + rest, start) <==> entry.valid_after(start) && chain_valid(
            rest,
            entry.end_hash,
        ),
        chain_linked(seq![entry] + rest, start) <==> entry.links_to(start) && chain_linked(
            rest,
            entry.end_hash,
        ),
{
    let single = seq![entry];
    law_split(single, rest, start);
    assert(chain_valid(single, start) <==> entry.valid_after(start));
    assert(chain_linked(single, start) <==> entry.links_to(start));
}

/// Every prefix of a valid chain is valid from the same start.
pub proof fn law_prefix_valid(chain: Seq<EntryView>, start: Seq<u8>, k: int)
    requires
        chain_valid(chain, start),
        0 <= k <= chain.len(),
    ensures
        chain_valid(chain.take(k), start),
{
    law_split(chain.take(k), chain.skip(k), start);
}

/// Judging every entry against its predecessor independently gives the same
/// verdict as walking the chain front to back.
pub proof fn law_parallel_matches_sequential(chain: Seq<EntryView>, start: Seq<u8>)
    ensures
        chain_valid(chain, start) == chain_valid_seq(chain, start),
    decreases chain.len(),
{
    if chain.len() > 0 {
        law_parallel_matches_sequential(chain.drop_first(), chain[0].end_hash);
        lemma_chain_cons(chain[0], chain.drop_first(), start);
        assert(seq![chain[0]] + chain.drop_first() == chain);
    }
}

/// Tamper sensitivity: changing any single byte of any entry's `end_hash`
/// makes a valid chain invalid.
pub proof fn law_tamper_end_hash(chain: Seq<EntryView>, start: Seq<u8>, i: int, j: int, byte: u8)
    requires
        chain_valid(chain, start),
        0 <= i < chain.len(),
        0 <= j < chain[i].end_hash.len(),
        byte != chain[i].end_hash[j],
    ensures
        !chain_valid(
            chain.update(i, EntryView { end_hash: chain[i].end_hash.update(j, byte), ..chain[i] }),
            start,
        ),
{
    let tampered = chain.update(
        i,
        EntryView { end_hash: chain[i].end_hash.update(j, byte), ..chain[i] },
    );
    // The entry before is untouched, so entry `i` still has to end in the old hash.
    assert(chain[i].valid_after(prev_hash(chain, start, i)));
    assert(tampered[i].end_hash[j] != chain[i].end_hash[j]);
    assert(!tampered[i].valid_after(prev_hash(tampered, start, i)));
}

/// Reorder sensitivity: exchanging the events of two adjacent entries makes
/// a valid chain invalid as soon as the two events mix differently into the
/// running hash of either entry. If they mix alike into both, the chain stays
/// valid.
pub proof fn law_swap_events(chain: Seq<EntryView>, start: Seq<u8>, i: int)
    requires
        chain_valid(chain, start),
        0 <= i,
        i + 1 < chain.len(),
    ensures
        chain_valid(swap_events(chain, i), start) <==> {
            &&& chain[i].event.mix(hash_before_event(chain, start, i)) == chain[i + 1].event.mix(
                hash_before_event(chain, start, i),
            )
            &&& chain[i].event.mix(hash_before_event(chain, start, i + 1)) == chain[i
                + 1].event.mix(hash_before_event(chain, start, i + 1))
        },
{
    let swapped = swap_events(chain, i);
    assert(chain[i].valid_after(prev_hash(chain, start, i)));
    assert(chain[i + 1].valid_after(prev_hash(chain, start, i + 1)));
    if chain_valid(swapped, start) {
        assert(swapped[i].valid_after(prev_hash(swapped, start, i)));
        assert(swapped[i + 1].valid_after(prev_hash(swapped, start, i + 1)));
    } else {
        let k = choose|k: int|
            0 <= k < swapped.len() && !(#[trigger] swapped[k]).valid_after(
                prev_hash(swapped, start, k),
            );
        assert(chain[k].valid_after(prev_hash(chain, start, k)));
    }
}

/// Exchanging two adjacent entries whole leaves a valid chain valid only if
/// the hash chain happens to close over the exchange: the second entry must
/// link to where the first started, the first to the second, and the entry
/// after them, if there is one, to the first.
pub proof fn law_swap_entries(chain: Seq<EntryView>, start: Seq<u8>, i: int)
    requires
        chain_valid(chain, start),
        0 <= i,
        i + 1 < chain.len(),
    ensures
        chain_valid(swap_entries(chain, i), start) <==> {
            &&& chain[i + 1].links_to(prev_hash(chain, start, i))
            &&& chain[i].links_to(chain[i + 1].end_hash)
            &&& i + 2 < chain.len() ==> chain[i + 2].links_to(chain[i].end_hash)
        },
{
    let swapped = swap_entries(chain, i);
    assert(chain[i].valid_after(prev_hash(chain, start, i)));
    assert(chain[i + 1].valid_after(prev_hash(chain, start, i + 1)));
    if chain_valid(swapped, start) {
        assert(swapped[i].valid_after(prev_hash(swapped, start, i)));
        assert(swapped[i + 1].valid_after(prev_hash(swapped, start, i + 1)));
        if i + 2 < chain.len() {
            assert(swapped[i + 2].valid_after(prev_hash(swapped, start, i + 2)));
        }
    } else {
        let k = choose|k: int|
            0 <= k < swapped.len() && !(#[trigger] swapped[k]).valid_after(
                prev_hash(swapped, start, k),
            );
        assert(chain[k].valid_after(prev_hash(chain, start, k)));
    }
}

/// An entry whose event carries a signature that does not cover it makes the
/// whole chain invalid.
pub proof fn law_bad_signature_invalidates(chain: Seq<EntryView>, start: Seq<u8>, i: int)
    requires
        0 <= i < chain.len(),
        !chain[i].event.signature_ok(),
    ensures
        !chain_valid(chain, start),
{
    assert(!chain[i].valid_after(prev_hash(chain, start, i)));
}

/// Signature binding for claims: replacing the `data` of a claim while
/// keeping its key and signature makes the chain invalid, unless the old
/// signature also verifies over the new data and the entry's hash still
/// matches.
pub proof fn law_claim_binds_data(chain: Seq<EntryView>, start: Seq<u8>, i: int, data: Seq<u8>)
    requires
        0 <= i < chain.len(),
        chain[i].event is Claim,
        !ed25519_valid(chain[i].event->Claim_key, data, chain[i].event->Claim_sig)
            || chain[i].end_hash != hash_after(
            prev_hash(chain, start, i),
            chain[i].num_hashes,
            EventView::Claim {
                key: chain[i].event->Claim_key,
                data,
                sig: chain[i].event->Claim_sig,
            },
        ),
    ensures
        !chain_valid(
            with_event(
                chain,
                i,
                EventView::Claim {
                    key: chain[i].event->Claim_key,
                    data,
                    sig: chain[i].event->Claim_sig,
                },
            ),
            start,
        ),
{
    let event = EventView::Claim {
        key: chain[i].event->Claim_key,
        data,
        sig: chain[i].event->Claim_sig,
    };
    let changed = with_event(chain, i, event);
    assert(!changed[i].valid_after(prev_hash(changed, start, i)));
}

/// Signature binding for transactions: replacing the `data` or the `to` of a
/// transaction while keeping its sender and signature makes the chain
/// invalid, unless the old signature also verifies over the new `data || to`
/// and the entry's hash still matches.
pub proof fn law_transaction_binds_data_and_recipient(
    chain: Seq<EntryView>,
    start: Seq<u8>,
    i: int,
    data: Seq<u8>,
    to: Seq<u8>,
)
    requires
        0 <= i < chain.len(),
        chain[i].event is Transaction,
        !ed25519_valid(
            chain[i].event->Transaction_from,
            data + to,
            chain[i].event->Transaction_sig,
        ) || chain[i].end_hash != hash_after(
            prev_hash(chain, start, i),
            chain[i].num_hashes,
            EventView::Transaction {
                from: chain[i].event->Transaction_from,
                to,
                data,
                sig: chain[i].event->Transaction_sig,
            },
        ),
    ensures
        !chain_valid(
            with_event(
                chain,
                i,
                EventView::Transaction {
                    from: chain[i].event->Transaction_from,
                    to,
                    data,
                    sig: chain[i].event->Transaction_sig,
                },
            ),
            start,
        ),
{
    let event = EventView::Transaction {
        from: chain[i].event->Transaction_from,
        to,
        data,
        sig: chain[i].event->Transaction_sig,
    };
    let changed = with_event(chain, i, event);
    assert(!changed[i].valid_after(prev_hash(changed, start, i)));
}

} // verus!
