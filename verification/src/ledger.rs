//! The ledger: a log seen as a whole, made of ticks and checked as a slice.

use crate::hash::Sha256Hash;
use crate::laws::law_ticks_verify;
use crate::log::{chain_valid, chain_view, entries_from, last_hash, next_tick, ticks, Entry};
use vstd::prelude::*;

verus! {

/// Verifies that the hashes, counts and signatures of a slice of entries are
/// all consistent, starting from `start_hash`.
pub fn verify_slice(entries: &[Entry], start_hash: &Sha256Hash) -> (ok: bool)
    ensures
        ok == chain_valid(chain_view(entries@), start_hash@),
{
    crate::log::verify_slice(entries, start_hash)
}

/// Creates a vector of `len` ticks from `start_hash`, each `num_hashes`
/// hashes after the one before.
pub fn next_ticks(start_hash: &Sha256Hash, num_hashes: u64, len: usize) -> (entries: Vec<Entry>)
    ensures
        chain_view(entries@) == entries_from(start_hash@, num_hashes as nat, ticks(len as nat)),
        chain_valid(chain_view(entries@), start_hash@),
{
    proof {
        law_ticks_verify(start_hash@, num_hashes as nat, len as nat);
    }
    let mut id = *start_hash;
    let mut entries: Vec<Entry> = Vec::new();
    let mut i: usize = 0;
    while i < len
        invariant
            i <= len,
            chain_view(entries@) == entries_from(start_hash@, num_hashes as nat, ticks(i as nat)),
            id@ == last_hash(chain_view(entries@), start_hash@),
        decreases len - i,
    {
        let entry = next_tick(&id, num_hashes);
        id = entry.end_hash;
        entries.push(entry);
        i += 1;
        assert(ticks(i as nat).drop_last() == ticks((i - 1) as nat));
    }
    entries
}

} // verus!
