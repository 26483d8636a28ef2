//! The historian: the producer of a log. It owns the running hash and the
//! count of hashes since the last entry, folds submitted events into the
//! chain, and hashes while it is idle.
//!
//! The historian is a state machine. Whoever drives it polls the input
//! channel without blocking, hands the outcome to `Historian::step`, and
//! carries out the action that comes back: send the entry, go on, or stop.

use crate::event::{hash_event, Event, EventView};
use crate::hash::{hash, hash_n, sha256, Sha256Hash};
use crate::laws::{law_prefix_valid, lemma_all_signed_cons, lemma_chain_cons};
use crate::log::{all_signed, chain_linked, chain_valid, events_of, Entry, EntryView};
use vstd::prelude::*;

verus! {

/// What polling the input channel gave.
#[derive(Debug, PartialEq, Eq, Clone, Copy)]
pub enum Input {
    /// An event was waiting.
    Event(Event),
    /// Nothing was waiting; the channel is still open.
    Empty,
    /// The channel is closed and drained.
    Closed,
}

/// The mathematical value of an `Input`.
pub enum InputView {
    Event(EventView),
    Empty,
    Closed,
}

impl View for Input {
    type V = InputView;

    open spec fn view(&self) -> InputView {
        match *self {
            Input::Event(event) => InputView::Event(event@),
            Input::Empty => InputView::Empty,
            Input::Closed => InputView::Closed,
        }
    }
}

/// What the driver does after a step.
#[derive(Debug, PartialEq, Eq, Clone, Copy)]
pub enum Action {
    /// Send this entry to the output channel, then poll again.
    Emit(Entry),
    /// Poll again.
    Continue,
    /// Close the output channel and stop.
    Stop,
}

/// The mathematical value of an `Action`.
pub enum ActionView {
    Emit(EntryView),
    Continue,
    Stop,
}

impl View for Action {
    type V = ActionView;

    open spec fn view(&self) -> ActionView {
        match *self {
            Action::Emit(entry) => ActionView::Emit(entry@),
            Action::Continue => ActionView::Continue,
            Action::Stop => ActionView::Stop,
        }
    }
}

/// The state of a log run.
pub struct Historian {
    running_hash: Sha256Hash,
    num_hashes: u64,
    tick_interval: Option<u64>,
}

/// The mathematical value of a `Historian`.
pub struct HistorianView {
    /// The current running hash.
    pub running_hash: Seq<u8>,
    /// The hashes performed since the last entry was emitted.
    pub num_hashes: nat,
    /// The number of idle hashes after which a tick is emitted, if any.
    pub tick_interval: Option<nat>,
}

/// The value of an optional tick interval.
pub open spec fn interval_view(tick_interval: Option<u64>) -> Option<nat> {
    match tick_interval {
        Some(n) => Some(n as nat),
        None => None,
    }
}

impl View for Historian {
    type V = HistorianView;

    closed spec fn view(&self) -> HistorianView {
        HistorianView {
            running_hash: self.running_hash@,
            num_hashes: self.num_hashes as nat,
            tick_interval: interval_view(self.tick_interval),
        }
    }
}

impl HistorianView {
    /// The state at the start of a run.
    pub open spec fn start(start_hash: Seq<u8>, tick_interval: Option<nat>) -> HistorianView {
        HistorianView { running_hash: start_hash, num_hashes: 0, tick_interval }
    }

    /// With a tick interval, the count of hashes since the last entry stays
    /// below it (so the interval is positive).
    pub open spec fn wf(self) -> bool {
        self.tick_interval matches Some(n) ==> self.num_hashes < n
    }

    /// The historian can take `input`: an idle hash does not overflow the
    /// 64-bit count. With a tick interval that is always so.
    pub open spec fn accepts(self, input: InputView) -> bool {
        &&& self.wf()
        &&& input is Empty && self.tick_interval is None ==> self.num_hashes < u64::MAX
    }

    /// Folds a submitted event into the chain: the entry snaps the count of
    /// hashes since the last entry and mixes the event into the running hash,
    /// which becomes the entry's `end_hash`.
    pub open spec fn record(self, event: EventView) -> (HistorianView, EntryView) {
        let entry = EntryView {
            num_hashes: self.num_hashes,
            end_hash: event.mix(self.running_hash),
            event,
        };
        (HistorianView { running_hash: entry.end_hash, num_hashes: 0, ..self }, entry)
    }

    /// Hashes once. When that completes the tick interval, a tick entry
    /// with the new running hash is emitted and the count starts again.
    pub open spec fn idle(self) -> (HistorianView, Option<EntryView>) {
        let running_hash = sha256(self.running_hash);
        let num_hashes = self.num_hashes + 1;
        if self.tick_interval == Some(num_hashes) {
            (
                HistorianView { running_hash, num_hashes: 0, ..self },
                Some(EntryView { num_hashes, end_hash: running_hash, event: EventView::Tick }),
            )
        } else {
            (HistorianView { running_hash, num_hashes, ..self }, None)
        }
    }

    /// One turn of the main loop: the state after `input` and what to do.
    pub open spec fn step(self, input: InputView) -> (HistorianView, ActionView) {
        match input {
            InputView::Event(event) => {
                let (next, entry) = self.record(event);
                (next, ActionView::Emit(entry))
            },
            InputView::Empty => {
                let (next, tick) = self.idle();
                match tick {
                    Some(entry) => (next, ActionView::Emit(entry)),
                    None => (next, ActionView::Continue),
                }
            },
            InputView::Closed => (self, ActionView::Stop),
        }
    }

    /// The entries emitted, in order, by a historian in this state that
    /// is fed `inputs` one after the other, up to the first `Closed`.
    pub open spec fn emitted(self, inputs: Seq<InputView>) -> Seq<EntryView>
        decreases inputs.len(),
    {
        if inputs.len() == 0 {
            Seq::empty()
        } else {
            let (next, action) = self.step(inputs[0]);
            match action {
                ActionView::Emit(entry) => seq![entry] + next.emitted(inputs.drop_first()),
                ActionView::Continue => next.emitted(inputs.drop_first()),
                ActionView::Stop => Seq::empty(),
            }
        }
    }

    /// The state of a historian in this state after it is fed `inputs`
    /// one after the other, up to the first `Closed`.
    pub open spec fn after(self, inputs: Seq<InputView>) -> HistorianView
        decreases inputs.len(),
    {
        if inputs.len() == 0 {
            self
        } else {
            let (next, action) = self.step(inputs[0]);
            match action {
                ActionView::Stop => self,
                _ => next.after(inputs.drop_first()),
            }
        }
    }
}

impl Historian {
    /// A historian at the start of a run from `start_hash`. With
    /// `tick_interval_hashes` of `Some(n)` it emits a tick after every `n`
    /// idle hashes; with `None` it emits only when events arrive.
    pub fn new(start_hash: &Sha256Hash, tick_interval_hashes: Option<u64>) -> (historian: Historian)
        requires
            tick_interval_hashes != Some(0u64),
        ensures
            historian@ == HistorianView::start(start_hash@, interval_view(tick_interval_hashes)),
            historian@.wf(),
    {
        Historian { running_hash: *start_hash, num_hashes: 0, tick_interval: tick_interval_hashes }
    }

    /// The current running hash.
    pub fn running_hash(&self) -> (running_hash: Sha256Hash)
        ensures
            running_hash@ == self@.running_hash,
    {
        self.running_hash
    }

    /// The number of hashes performed since the last entry was emitted.
    pub fn num_hashes(&self) -> (num_hashes: u64)
        ensures
            num_hashes == self@.num_hashes,
    {
        self.num_hashes
    }

    /// The tick interval the historian was made with.
    pub fn tick_interval_hashes(&self) -> (tick_interval: Option<u64>)
        ensures
            interval_view(tick_interval) == self@.tick_interval,
    {
        self.tick_interval
    }

    /// Folds a submitted event into the chain and returns its entry. After
    /// it, the running hash is the entry's `end_hash` and the count is zero.
    pub fn record(&mut self, event: Event) -> (entry: Entry)
        requires
            old(self)@.wf(),
        ensures
            (final(self)@, entry@) == old(self)@.record(event@),
            final(self)@.wf(),
    {
        let entry = Entry {
            num_hashes: self.num_hashes,
            end_hash: hash_event(&self.running_hash, &event),
            event,
        };
        self.running_hash = entry.end_hash;
        self.num_hashes = 0;
        entry
    }

    /// Hashes the running hash once. Returns a tick entry when that
    /// completes the tick interval.
    pub fn idle(&mut self) -> (tick: Option<Entry>)
        requires
            old(self)@.accepts(InputView::Empty),
        ensures
            final(self)@ == old(self)@.idle().0,
            match tick {
                Some(entry) => old(self)@.idle().1 == Some(entry@),
                None => old(self)@.idle().1 is None,
            },
            final(self)@.wf(),
    {
        self.running_hash = hash(self.running_hash.as_slice());
        self.num_hashes = self.num_hashes + 1;
        match self.tick_interval {
            Some(n) => {
                if self.num_hashes == n {
                    let entry = Entry::new_tick(n, &self.running_hash);
                    self.num_hashes = 0;
                    Some(entry)
                } else {
                    None
                }
            },
            None => None,
        }
    }

    /// One turn of the main loop. An event is folded into the chain and its
    /// entry emitted; with nothing waiting the historian hashes once and may
    /// emit a tick; with the input closed and drained it stops, and emits no
    /// further tick.
    pub fn step(&mut self, input: Input) -> (action: Action)
        requires
            old(self)@.accepts(input@),
        ensures
            (final(self)@, action@) == old(self)@.step(input@),
            final(self)@.wf(),
    {
        match input {
            Input::Event(event) => Action::Emit(self.record(event)),
            Input::Empty => {
                match self.idle() {
                    Some(entry) => Action::Emit(entry),
                    None => Action::Continue,
                }
            },
            Input::Closed => Action::Stop,
        }
    }
}

/// The number of idle hashes that a historian performs when it is fed
/// `inputs`: one for each `Empty` before the first `Closed`.
pub open spec fn idle_hashes(inputs: Seq<InputView>) -> nat
    decreases inputs.len(),
{
    if inputs.len() == 0 {
        0
    } else {
        match inputs[0] {
            InputView::Event(_) => idle_hashes(inputs.drop_first()),
            InputView::Empty => 1 + idle_hashes(inputs.drop_first()),
            InputView::Closed => 0,
        }
    }
}

/// The events submitted by `inputs`, in order, up to the first `Closed`.
pub open spec fn submitted(inputs: Seq<InputView>) -> Seq<EventView>
    decreases inputs.len(),
{
    if inputs.len() == 0 {
        Seq::empty()
    } else {
        match inputs[0] {
            InputView::Event(event) => seq![event] + submitted(inputs.drop_first()),
            InputView::Empty => submitted(inputs.drop_first()),
            InputView::Closed => Seq::empty(),
        }
    }
}

/// The sum of `num_hashes` over the entries of `chain`.
pub open spec fn total_hashes(chain: Seq<EntryView>) -> nat
    decreases chain.len(),
{
    if chain.len() == 0 {
        0
    } else {
        chain[0].num_hashes + total_hashes(chain.drop_first())
    }
}

/// The events of `events` that are not ticks, in order.
pub open spec fn non_ticks(events: Seq<EventView>) -> Seq<EventView>
    decreases events.len(),
{
    if events.len() == 0 {
        Seq::empty()
    } else if events[0] is Tick {
        non_ticks(events.drop_first())
    } else {
        seq![events[0]] + non_ticks(events.drop_first())
    }
}

/// Every event submitted by `inputs` is a tick, a discovery, or a claim or
/// transaction whose signature is valid.
pub open spec fn inputs_signed(inputs: Seq<InputView>) -> bool {
    all_signed(submitted(inputs))
}

/// A historian whose running hash lies `num_hashes` hashes after `anchor`
/// emits a chain that is linked from `anchor`, and valid from it exactly
/// when every submitted event is signed.
proof fn lemma_emitted_from_anchor(state: HistorianView, anchor: Seq<u8>, inputs: Seq<InputView>)
    requires
        state.running_hash == hash_n(anchor, state.num_hashes),
    ensures
        chain_linked(state.emitted(inputs), anchor),
        chain_valid(state.emitted(inputs), anchor) <==> inputs_signed(inputs),
    decreases inputs.len(),
{
    if inputs.len() > 0 {
        let rest = inputs.drop_first();
        let (next, action) = state.step(inputs[0]);
        match inputs[0] {
            InputView::Event(event) => {
                lemma_all_signed_cons(event, submitted(rest));
            },
            _ => {},
        }
        match action {
            ActionView::Emit(entry) => {
                lemma_emitted_from_anchor(next, entry.end_hash, rest);
                lemma_chain_cons(entry, next.emitted(rest), anchor);
            },
            ActionView::Continue => {
                lemma_emitted_from_anchor(next, anchor, rest);
            },
            ActionView::Stop => {},
        }
    }
}

/// Whatever is submitted, the entries that a historian emits are linked by
/// hash from its start hash.
pub proof fn law_emitted_chain_linked(
    start_hash: Seq<u8>,
    tick_interval: Option<nat>,
    inputs: Seq<InputView>,
)
    ensures
        chain_linked(HistorianView::start(start_hash, tick_interval).emitted(inputs), start_hash),
{
    lemma_emitted_from_anchor(HistorianView::start(start_hash, tick_interval), start_hash, inputs);
}

/// The entries that a historian emits are valid from its start hash exactly
/// when every submitted event is signed.
pub proof fn law_emitted_valid_iff_signed(
    start_hash: Seq<u8>,
    tick_interval: Option<nat>,
    inputs: Seq<InputView>,
)
    ensures
        chain_valid(HistorianView::start(start_hash, tick_interval).emitted(inputs), start_hash)
            <==> inputs_signed(inputs),
{
    lemma_emitted_from_anchor(HistorianView::start(start_hash, tick_interval), start_hash, inputs);
}

/// Chain validity: when every submitted event is signed, any prefix of the
/// entries that a historian emits is valid from its start hash.
pub proof fn law_emitted_prefix_valid(
    start_hash: Seq<u8>,
    tick_interval: Option<nat>,
    inputs: Seq<InputView>,
    k: int,
)
    requires
        inputs_signed(inputs),
        0 <= k <= HistorianView::start(start_hash, tick_interval).emitted(inputs).len(),
    ensures
        chain_valid(
            HistorianView::start(start_hash, tick_interval).emitted(inputs).take(k),
            start_hash,
        ),
{
    let state = HistorianView::start(start_hash, tick_interval);
    lemma_emitted_from_anchor(state, start_hash, inputs);
    law_prefix_valid(state.emitted(inputs), start_hash, k);
}

/// After each emission the running hash is the emitted entry's `end_hash`,
/// and the count of hashes since the last entry is zero.
pub proof fn law_emission_snaps(state: HistorianView, input: InputView)
    ensures
        state.step(input).1 matches ActionView::Emit(entry) ==> {
            &&& state.step(input).0.running_hash == entry.end_hash
            &&& state.step(input).0.num_hashes == 0
        },
        state.step(input).0.tick_interval == state.tick_interval,
        state.wf() ==> state.step(input).0.wf(),
{
}

/// Every idle hash is accounted for: the hashes counted before, plus the
/// idle hashes performed, are the hashes that the emitted entries record
/// plus those not yet emitted at the end.
pub proof fn law_hashes_accounted(state: HistorianView, inputs: Seq<InputView>)
    ensures
        state.num_hashes + idle_hashes(inputs) == total_hashes(state.emitted(inputs))
            + state.after(inputs).num_hashes,
    decreases inputs.len(),
{
    if inputs.len() > 0 {
        let rest = inputs.drop_first();
        let (next, action) = state.step(inputs[0]);
        match action {
            ActionView::Emit(entry) => {
                law_hashes_accounted(next, rest);
                let chain = seq![entry] + next.emitted(rest);
                assert(chain.drop_first() == next.emitted(rest));
            },
            ActionView::Continue => {
                law_hashes_accounted(next, rest);
            },
            ActionView::Stop => {},
        }
    }
}

/// Submission order is kept: leaving ticks aside, the events of the
/// emitted entries are the submitted events, each once and in the order of
/// submission.
pub proof fn law_submission_order_kept(state: HistorianView, inputs: Seq<InputView>)
    ensures
        non_ticks(events_of(state.emitted(inputs))) == non_ticks(submitted(inputs)),
    decreases inputs.len(),
{
    if inputs.len() > 0 {
        let rest = inputs.drop_first();
        let (next, action) = state.step(inputs[0]);
        match action {
            ActionView::Emit(entry) => {
                law_submission_order_kept(next, rest);
                let events = events_of(state.emitted(inputs));
                assert(events.drop_first() == events_of(next.emitted(rest)));
                match inputs[0] {
                    InputView::Event(event) => {
                        let all = submitted(inputs);
                        assert(all.drop_first() == submitted(rest));
                    },
                    _ => {},
                }
            },
            ActionView::Continue => {
                law_submission_order_kept(next, rest);
            },
            ActionView::Stop => {},
        }
    }
}

} // verus!
