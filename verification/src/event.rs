//! The event model: what a log entry can record, how an event is mixed into
//! the running hash, and the event-level signature check.

use crate::hash::{extend, extend_and_hash, Sha256Hash};
use crate::signature::{
    ed25519_public_key, ed25519_signature, ed25519_valid, get_pubkey, verify_signature, Keypair,
    PublicKey, Signature,
};
use vstd::prelude::*;
use vstd::slice::slice_to_vec;

verus! {

/// The domain-separation tag mixed in before a `Discovery` payload.
pub const DISCOVERY_TAG: u8 = 1;

/// The domain-separation tag mixed in before a `Claim` or `Transaction` payload.
pub const SIGNED_TAG: u8 = 2;

/// An event that a log entry records.
///
/// `Tick` carries nothing: it leaves the running hash as it is, so that a log
/// can be cut at ticks and its pieces checked independently.
#[derive(Debug, PartialEq, Eq, Clone, Copy)]
pub enum Event {
    Tick,
    Discovery { data: Sha256Hash },
    Claim { key: PublicKey, data: Sha256Hash, sig: Signature },
    Transaction { from: PublicKey, to: PublicKey, data: Sha256Hash, sig: Signature },
}

/// The mathematical value of an `Event`: its fields as byte sequences.
pub enum EventView {
    Tick,
    Discovery { data: Seq<u8> },
    Claim { key: Seq<u8>, data: Seq<u8>, sig: Seq<u8> },
    Transaction { from: Seq<u8>, to: Seq<u8>, data: Seq<u8>, sig: Seq<u8> },
}

impl View for Event {
    type V = EventView;

    open spec fn view(&self) -> EventView {
        match *self {
            Event::Tick => EventView::Tick,
            Event::Discovery { data } => EventView::Discovery { data: data@ },
            Event::Claim { key, data, sig } => EventView::Claim {
                key: key@,
                data: data@,
                sig: sig@,
            },
            Event::Transaction { from, to, data, sig } => EventView::Transaction {
                from: from@,
                to: to@,
                data: data@,
                sig: sig@,
            },
        }
    }
}

impl EventView {
    /// The running hash `h` after this event is mixed in. A tick leaves `h`
    /// unchanged; every other event extends it with a tag and its fields.
    pub open spec fn mix(self, h: Seq<u8>) -> Seq<u8> {
        match self {
            EventView::Tick => h,
            EventView::Discovery { data } => extend(h, DISCOVERY_TAG, data),
            EventView::Claim { key, data, sig } => extend(h, SIGNED_TAG, data + sig + key),
            EventView::Transaction { from, to, data, sig } => extend(
                h,
                SIGNED_TAG,
                data + sig + from + to,
            ),
        }
    }

    /// Whether the event's embedded signature, if it has one, is valid: a
    /// claim is signed by `key` over `data`, a transaction by `from` over
    /// `data || to`.
    pub open spec fn signature_ok(self) -> bool {
        match self {
            EventView::Tick => true,
            EventView::Discovery { .. } => true,
            EventView::Claim { key, data, sig } => ed25519_valid(key, data, sig),
            EventView::Transaction { from, to, data, sig } => ed25519_valid(from, data + to, sig),
        }
    }

    /// The signature that the event carries, if any.
    pub open spec fn signature(self) -> Option<Seq<u8>> {
        match self {
            EventView::Tick => None,
            EventView::Discovery { .. } => None,
            EventView::Claim { sig, .. } => Some(sig),
            EventView::Transaction { sig, .. } => Some(sig),
        }
    }
}

impl Event {
    /// The claim of `data` by `key`, carrying the signature `sig`.
    pub fn new_claim(key: PublicKey, data: Sha256Hash, sig: Signature) -> (event: Event)
        ensures
            event == (Event::Claim { key, data, sig }),
    {
        Event::Claim { key, data, sig }
    }
}

/// Returns the signature that the event carries, if any.
pub fn get_signature(event: &Event) -> (sig: Option<Signature>)
    ensures
        match sig {
            Some(s) => event@.signature() == Some(s@),
            None => event@.signature() is None,
        },
{
    match event {
        Event::Tick => None,
        Event::Discovery { .. } => None,
        Event::Claim { sig, .. } => Some(*sig),
        Event::Transaction { sig, .. } => Some(*sig),
    }
}

/// Checks the event's embedded signature. Events without one pass.
pub fn verify_event(event: &Event) -> (ok: bool)
    ensures
        ok == event@.signature_ok(),
{
    match event {
        Event::Tick => true,
        Event::Discovery { .. } => true,
        Event::Claim { key, data, sig } => verify_signature(
            key.as_slice(),
            data.as_slice(),
            sig.as_slice(),
        ),
        Event::Transaction { from, to, data, sig } => {
            let mut sign_data: Vec<u8> = slice_to_vec(data.as_slice());
            sign_data.extend_from_slice(to.as_slice());
            assert(sign_data@ == data@ + to@);
            verify_signature(from.as_slice(), sign_data.as_slice(), sig.as_slice())
        },
    }
}

/// Returns the running hash `end_hash` with `event` mixed in.
pub fn hash_event(end_hash: &Sha256Hash, event: &Event) -> (digest: Sha256Hash)
    ensures
        digest@ == event@.mix(end_hash@),
{
    match event {
        Event::Tick => *end_hash,
        Event::Discovery { data } => extend_and_hash(end_hash, DISCOVERY_TAG, data.as_slice()),
        Event::Claim { key, data, sig } => {
            let mut event_data: Vec<u8> = slice_to_vec(data.as_slice());
            event_data.extend_from_slice(sig.as_slice());
            event_data.extend_from_slice(key.as_slice());
            assert(event_data@ == data@ + sig@ + key@);
            extend_and_hash(end_hash, SIGNED_TAG, event_data.as_slice())
        },
        Event::Transaction { from, to, data, sig } => {
            let mut event_data: Vec<u8> = slice_to_vec(data.as_slice());
            event_data.extend_from_slice(sig.as_slice());
            event_data.extend_from_slice(from.as_slice());
            event_data.extend_from_slice(to.as_slice());
            assert(event_data@ == data@ + sig@ + from@ + to@);
            extend_and_hash(end_hash, SIGNED_TAG, event_data.as_slice())
        },
    }
}

/// Returns a `Claim` event for the given hash, signed with the given key pair.
pub fn sign_hash(data: &Sha256Hash, keypair: &Keypair) -> (event: Event)
    ensures
        event@ == (EventView::Claim {
            key: ed25519_public_key(keypair@),
            data: data@,
            sig: ed25519_signature(keypair@, data@),
        }),
        event@.signature_ok(),
{
    let sig = keypair.sign(data.as_slice());
    Event::Claim { key: get_pubkey(keypair), data: *data, sig }
}

/// Returns a `Transaction` event that transfers the given hash from the
/// holder of the key pair to the public key `to`.
pub fn transfer_hash(data: &Sha256Hash, keypair: &Keypair, to: PublicKey) -> (event: Event)
    ensures
        event@ == (EventView::Transaction {
            from: ed25519_public_key(keypair@),
            to: to@,
            data: data@,
            sig: ed25519_signature(keypair@, data@ + to@),
        }),
        event@.signature_ok(),
{
    let mut sign_data: Vec<u8> = slice_to_vec(data.as_slice());
    sign_data.extend_from_slice(to.as_slice());
    assert(sign_data@ == data@ + to@);
    let sig = keypair.sign(sign_data.as_slice());
    Event::Transaction { from: get_pubkey(keypair), to, data: *data, sig }
}

} // verus!
