//! The ring: slots, a sequencer and a poller, kept in step.
//!
//! The ring behaves as a bounded map from sequence numbers to values.
//! Producers add a value under the next sequence number, consumers take the
//! values out in the order of their sequence numbers, and no more values
//! than the ring has slots are ever held.
use crate::poller::{lemma_poll_target, poll_limit, poll_target, Poller, State};
use crate::sequencer::{is_fresh, is_published, Claim, Sequencer, SequencerState};
use crate::slot_array::{slots_after_drain, SlotArray};
use crate::utils::{
    cell_of, highest_run, is_valid_capacity, lemma_cell_in_range, lemma_cells_after_range,
    lemma_cells_differ_within_lap, lemma_highest_run_agrees,
};
use vstd::prelude::*;

verus! {

/// A value that could not be published yet because its slot is still in use.
pub struct StalledPush<T> {
    /// The sequence that was claimed for the value, where one was.
    pub claim: Option<i64>,
    /// The value.
    pub element: T,
}

/// How an attempt to publish one value ended.
pub enum PushOutcome<T> {
    /// The value was published under this sequence.
    Published(i64),
    /// The slot is still in use. The producer waits as its strategy says and
    /// tries again with [`RingBuffer::retry_push`].
    Stalled(StalledPush<T>),
    /// The claim of a stalled push is not one the ring is waiting for.
    Rejected(T),
}

/// A batch of values that could not be published yet because its slots are
/// still in use.
pub struct StalledBatch<T> {
    /// The last sequence that was claimed for the batch, where one was.
    pub claim: Option<i64>,
    /// The values, in the order they are to be published in.
    pub items: Vec<T>,
}

/// How an attempt to publish a batch of values ended.
pub enum BatchOutcome<T> {
    /// The values were published under the sequences that end with this one.
    Published(i64),
    /// The slots are still in use. The producer waits as its strategy says
    /// and tries again with [`RingBuffer::retry_push_n`].
    Stalled(StalledBatch<T>),
    /// The claim of a stalled batch is not one the ring is waiting for.
    Rejected(Vec<T>),
}

/// What a ring holds, and the counters that say where its producers and
/// consumers are.
pub struct RingView<T> {
    /// The counters of the sequencer.
    pub counters: SequencerState,
    /// The published values that were not consumed yet, by sequence.
    pub contents: Map<i64, T>,
}

impl<T> RingView<T> {
    /// The number of slots.
    pub open spec fn capacity(self) -> int {
        self.counters.capacity()
    }

    /// The counters are in order, and every value held lies after the gating
    /// sequence, not after the cursor and less than a lap ahead of the
    /// consumers. With a single producer every sequence between the gating
    /// sequence and the cursor is held.
    pub open spec fn wf(self) -> bool {
        let c = self.counters;
        &&& c.wf()
        &&& -1 <= c.gating <= c.cursor <= c.claimed
        &&& c.cached_gating <= c.gating
        &&& forall|s: i64| #[trigger]
            self.contents.dom().contains(s) ==> c.gating < s <= c.cursor && s <= c.gating
                + self.capacity()
        &&& !c.multi_producer ==> {
            &&& c.cursor == c.claimed
            &&& c.cursor <= c.gating + self.capacity()
            &&& forall|s: i64| c.gating < s <= c.cursor ==> #[trigger] self.contents.dom().contains(s)
        }
    }

    /// A ring that has not been used.
    pub open spec fn fresh(mask: i64, shift: u32, multi_producer: bool) -> Self {
        RingView {
            counters: SequencerState::fresh(mask, shift, multi_producer),
            contents: Map::empty(),
        }
    }

    /// The sequence the next value is published under.
    pub open spec fn next_sequence(self) -> i64 {
        (self.counters.claimed + 1) as i64
    }

    /// The ring after an attempt to publish `element`. Where the claim is
    /// ready, the value is held under the next sequence. Where it is not,
    /// nothing is held that was not held before, and only several producers
    /// keep their claim.
    pub open spec fn after_push(self, element: T) -> Self {
        if self.counters.claim_is_ready(1) {
            RingView {
                counters: self.counters.after_claim(1).after_publish(self.next_sequence()),
                contents: self.contents.insert(self.next_sequence(), element),
            }
        } else {
            RingView { counters: self.counters.after_claim(1), contents: self.contents }
        }
    }

    /// What an attempt to publish `element` returns.
    pub open spec fn push_outcome(self, element: T) -> PushOutcome<T> {
        if self.counters.claim_is_ready(1) {
            PushOutcome::Published(self.next_sequence())
        } else {
            PushOutcome::Stalled(
                StalledPush {
                    claim: if self.counters.multi_producer {
                        Some(self.next_sequence())
                    } else {
                        None
                    },
                    element,
                },
            )
        }
    }

    /// The sequences `low..=high` lie after the gating sequence and not after
    /// the cursor.
    pub open spec fn is_claimed(self, low: i64, high: i64) -> bool {
        self.counters.gating < low <= high <= self.counters.cursor
    }

    /// The slot of `high` is free: the sequence one lap before it has been
    /// consumed.
    pub open spec fn is_writable(self, high: i64) -> bool {
        high - self.capacity() <= self.counters.gating
    }

    /// None of the sequences `low..=high` is held.
    pub open spec fn is_vacant(self, low: i64, high: i64) -> bool {
        forall|s: i64| low <= s <= high ==> !#[trigger] self.contents.dom().contains(s)
    }

    /// What an attempt to publish a stalled value returns. A value that
    /// stalled without a claim is pushed again. One with a claim is published
    /// under it as soon as the slot is free, if the claim is one of this ring
    /// and nothing is held under it.
    pub open spec fn retry_push_outcome(self, stalled: StalledPush<T>) -> PushOutcome<T> {
        match stalled.claim {
            None => self.push_outcome(stalled.element),
            Some(sequence) => if !self.is_claimed(sequence, sequence) {
                PushOutcome::Rejected(stalled.element)
            } else if !self.is_writable(sequence) {
                PushOutcome::Stalled(stalled)
            } else if !self.is_vacant(sequence, sequence) {
                PushOutcome::Rejected(stalled.element)
            } else {
                PushOutcome::Published(sequence)
            },
        }
    }

    /// The ring after an attempt to publish a stalled value.
    pub open spec fn after_retry_push(self, stalled: StalledPush<T>) -> Self {
        match stalled.claim {
            None => self.after_push(stalled.element),
            Some(sequence) => if self.retry_push_outcome(stalled) == PushOutcome::<
                T,
            >::Published(sequence) {
                RingView {
                    counters: self.counters.after_wait(
                        (sequence - self.capacity()) as i64,
                    ).after_publish(sequence),
                    contents: self.contents.insert(sequence, stalled.element),
                }
            } else {
                self
            },
        }
    }

    /// What is held once `items` are added under the sequences that start at
    /// `low`.
    pub open spec fn contents_with(self, low: i64, items: Seq<T>) -> Map<i64, T> {
        Map::new(
            |s: i64| self.contents.dom().contains(s) || low <= s < low + items.len(),
            |s: i64|
                if low <= s < low + items.len() {
                    items[s - low]
                } else {
                    self.contents[s]
                },
        )
    }

    /// Whether an attempt to publish the batch `items` publishes it: the
    /// batch is empty or its claim is ready.
    pub open spec fn publishes_batch(self, items: Seq<T>) -> bool {
        items.len() == 0 || self.counters.claim_is_ready(items.len() as int)
    }

    /// The ring after an attempt to publish the batch `items`. Where the
    /// claim is ready, the values are held under the next sequences, in
    /// order. Where it is not, nothing is held that was not held before, and
    /// only several producers keep their claim. An empty batch changes
    /// nothing.
    pub open spec fn after_push_n(self, items: Seq<T>) -> Self {
        let n = items.len() as int;
        if n == 0 {
            self
        } else if self.counters.claim_is_ready(n) {
            RingView {
                counters: self.counters.after_claim(n).after_publish(
                    (self.counters.claimed + n) as i64,
                ),
                contents: self.contents_with(self.next_sequence(), items),
            }
        } else {
            RingView { counters: self.counters.after_claim(n), contents: self.contents }
        }
    }

    /// The claim a batch of `n` values keeps when it stalls.
    pub open spec fn stalled_claim(self, n: int) -> Option<i64> {
        if self.counters.multi_producer {
            Some((self.counters.claimed + n) as i64)
        } else {
            None
        }
    }

    /// Whether a stalled batch with the claim `high` is published by the
    /// next attempt: the claim is one of this ring, its slots are free and
    /// nothing is held under it.
    pub open spec fn publishes_claim(self, high: i64, n: int) -> bool {
        &&& 1 <= n <= self.capacity()
        &&& self.is_claimed((high - n + 1) as i64, high)
        &&& self.is_writable(high)
        &&& self.is_vacant((high - n + 1) as i64, high)
    }

    /// Whether a stalled batch with the claim `high` stays stalled: the
    /// claim is one of this ring, and its slots are still in use.
    pub open spec fn keeps_claim(self, high: i64, n: int) -> bool {
        &&& 1 <= n <= self.capacity()
        &&& self.is_claimed((high - n + 1) as i64, high)
        &&& !self.is_writable(high)
    }

    /// The ring after an attempt to publish a stalled batch with the claim
    /// `high`.
    pub open spec fn after_retry_claim(self, high: i64, items: Seq<T>) -> Self {
        if self.publishes_claim(high, items.len() as int) {
            RingView {
                counters: self.counters.after_wait((high - self.capacity()) as i64).after_publish(
                    high,
                ),
                contents: self.contents_with((high - items.len() + 1) as i64, items),
            }
        } else {
            self
        }
    }

    /// The sequence up to which one attempt to consume `batch_size` values
    /// gets: the end of the run of held sequences that follows the gating
    /// sequence, no longer than `batch_size`; the gating sequence where the
    /// sequence after it is not held.
    pub open spec fn poll_target(self, batch_size: int) -> int {
        let limit = poll_limit(self.counters.gating, self.counters.cursor, batch_size as i64);
        if self.counters.gating >= limit {
            self.counters.gating as int
        } else {
            highest_run(
                |s: i64| self.contents.dom().contains(s),
                (self.counters.gating + 1) as i64,
                limit as i64,
            )
        }
    }

    /// The values one attempt to consume `batch_size` values hands to the
    /// handler, in the order of their sequences.
    pub open spec fn delivered(self, batch_size: int) -> Seq<T> {
        Seq::new(
            (self.poll_target(batch_size) - self.counters.gating) as nat,
            |i: int| self.contents[(self.counters.gating + 1 + i) as i64],
        )
    }

    /// The ring after one attempt to consume `batch_size` values: the gating
    /// sequence is at the target, and the values up to it are gone.
    pub open spec fn after_poll(self, batch_size: int) -> Self {
        let target = self.poll_target(batch_size);
        RingView {
            counters: self.counters.after_gating(target as i64),
            contents: Map::new(
                |s: i64| self.contents.dom().contains(s) && s > target,
                |s: i64| self.contents[s],
            ),
        }
    }
}

impl<T> RingView<T> {
    /// The ring never holds more values than it has slots: everything held
    /// lies within one lap after the gating sequence.
    pub proof fn lemma_holds_at_most_capacity(self)
        requires
            self.wf(),
        ensures
            self.contents.dom().finite(),
            0 <= self.contents.dom().len() <= self.capacity(),
            forall|s: i64| #[trigger]
                self.contents.dom().contains(s) ==> self.counters.gating < s
                    <= self.counters.gating + self.capacity(),
    {
        let low = self.counters.gating + 1;
        let high = self.counters.gating + self.capacity() + 1;
        crate::utils::lemma_cell_and_lap(0, self.counters.mask, self.counters.shift);
        let range = vstd::set_lib::set_int_range(low, high);
        let narrow = |i: int| i as i64;
        let window = range.map(narrow);
        vstd::set_lib::lemma_int_range(low, high);
        vstd::set_lib::lemma_map_size_bound(range, window, narrow);
        assert forall|s: i64| self.contents.dom().contains(s) implies window.contains(s) by {
            assert(range.contains(s as int) && narrow(s as int) == s);
        }
        vstd::set_lib::lemma_len_subset(self.contents.dom(), window);
    }

    /// The target of an attempt to consume lies between the gating sequence
    /// and the cursor, no more than `batch_size` after the gating sequence,
    /// and every sequence up to it is held. With a single producer it is the
    /// cursor or `batch_size` after the gating sequence, whichever is less.
    pub proof fn lemma_poll_target(self, batch_size: int)
        requires
            self.wf(),
            0 <= batch_size <= self.capacity(),
        ensures
            self.counters.gating <= self.poll_target(batch_size) <= self.counters.cursor,
            self.poll_target(batch_size) <= self.counters.gating + batch_size,
            forall|s: i64|
                self.counters.gating < s <= self.poll_target(batch_size)
                    ==> #[trigger] self.contents.dom().contains(s),
            self.poll_target(batch_size) < self.counters.cursor && self.poll_target(batch_size)
                < self.counters.gating + batch_size ==> !self.contents.dom().contains(
                (self.poll_target(batch_size) + 1) as i64,
            ),
            !self.counters.multi_producer ==> self.poll_target(batch_size) == poll_limit(
                self.counters.gating,
                self.counters.cursor,
                batch_size as i64,
            ),
    {
        crate::utils::lemma_cell_and_lap(0, self.counters.mask, self.counters.shift);
        let limit = poll_limit(self.counters.gating, self.counters.cursor, batch_size as i64);
        if self.counters.gating < limit {
            let held = |s: i64| self.contents.dom().contains(s);
            crate::utils::lemma_highest_run(held, (self.counters.gating + 1) as i64, limit as i64);
            assert forall|s: i64|
                self.counters.gating < s <= self.poll_target(
                    batch_size,
                ) implies #[trigger] self.contents.dom().contains(s) by {
                assert(held(s));
            }
            if !self.counters.multi_producer {
                assert forall|s: i64| self.counters.gating + 1 <= s <= limit implies #[trigger] held(
                    s,
                ) by {
                    assert(self.contents.dom().contains(s));
                }
                crate::utils::lemma_highest_run_is(
                    held,
                    (self.counters.gating + 1) as i64,
                    limit as i64,
                    limit,
                );
            }
        }
    }

    /// Pushing keeps the ring in order.
    pub proof fn lemma_push_keeps_wf(self, element: T)
        requires
            self.wf(),
            self.counters.claimed < i64::MAX,
        ensures
            self.after_push(element).wf(),
    {
        crate::utils::lemma_cell_and_lap(0, self.counters.mask, self.counters.shift);
    }

    /// Trying a stalled value again keeps the ring in order.
    pub proof fn lemma_retry_push_keeps_wf(self, stalled: StalledPush<T>)
        requires
            self.wf(),
            stalled.claim.is_none() ==> self.counters.claimed < i64::MAX,
        ensures
            self.after_retry_push(stalled).wf(),
    {
        crate::utils::lemma_cell_and_lap(0, self.counters.mask, self.counters.shift);
        match stalled.claim {
            None => {},
            Some(sequence) => {
                if self.is_claimed(sequence, sequence) && self.is_vacant(sequence, sequence) {
                    assert(!self.contents.dom().contains(sequence));
                }
            },
        }
    }

    /// Pushing a batch keeps the ring in order.
    pub proof fn lemma_push_n_keeps_wf(self, items: Seq<T>)
        requires
            self.wf(),
            items.len() <= self.capacity(),
            self.counters.claimed + items.len() <= i64::MAX,
        ensures
            self.after_push_n(items).wf(),
    {
        crate::utils::lemma_cell_and_lap(0, self.counters.mask, self.counters.shift);
    }

    /// Trying a stalled batch again keeps the ring in order.
    pub proof fn lemma_retry_claim_keeps_wf(self, high: i64, items: Seq<T>)
        requires
            self.wf(),
        ensures
            self.after_retry_claim(high, items).wf(),
    {
        crate::utils::lemma_cell_and_lap(0, self.counters.mask, self.counters.shift);
        if self.publishes_claim(high, items.len() as int) {
            assert(!self.contents.dom().contains(high));
        }
    }

    /// Consuming keeps the ring in order.
    pub proof fn lemma_poll_keeps_wf(self, batch_size: int)
        requires
            self.wf(),
            0 <= batch_size <= self.capacity(),
        ensures
            self.after_poll(batch_size).wf(),
    {
        self.lemma_poll_target(batch_size);
    }

    /// A published value is held under a sequence under which nothing was
    /// held, and what was held stays as it was: pushing loses nothing and
    /// overwrites nothing.
    pub proof fn lemma_push_holds_one_more(self, element: T)
        requires
            self.wf(),
            self.counters.claimed < i64::MAX,
            self.push_outcome(element) is Published,
        ensures
            !self.contents.dom().contains(self.next_sequence()),
            self.after_push(element).contents.dom() == self.contents.dom().insert(
                self.next_sequence(),
            ),
            self.after_push(element).contents[self.next_sequence()] == element,
            forall|s: i64| #[trigger]
                self.contents.dom().contains(s) ==> self.after_push(element).contents[s]
                    == self.contents[s],
    {
    }

    /// A published batch is held under sequences under which nothing was
    /// held, each value under its own sequence in the order of the batch,
    /// and what was held stays as it was.
    pub proof fn lemma_push_n_holds_the_batch(self, items: Seq<T>)
        requires
            self.wf(),
            1 <= items.len() <= self.capacity(),
            self.counters.claimed + items.len() <= i64::MAX,
            self.publishes_batch(items),
        ensures
            forall|i: int|
                0 <= i < items.len() ==> !self.contents.dom().contains(
                    #[trigger] ((self.next_sequence() + i) as i64),
                ) && self.after_push_n(items).contents.dom().contains(
                    (self.next_sequence() + i) as i64,
                ) && self.after_push_n(items).contents[(self.next_sequence() + i) as i64]
                    == items[i],
            forall|s: i64| #[trigger]
                self.contents.dom().contains(s) ==> self.after_push_n(items).contents.dom().contains(
                    s,
                ) && self.after_push_n(items).contents[s] == self.contents[s],
            forall|s: i64| #[trigger]
                self.after_push_n(items).contents.dom().contains(s) ==> self.contents.dom().contains(
                    s,
                ) || self.next_sequence() <= s < self.next_sequence() + items.len(),
    {
        assert forall|i: int| 0 <= i < items.len() implies !self.contents.dom().contains(
            #[trigger] ((self.next_sequence() + i) as i64),
        ) by {
            let s = (self.next_sequence() + i) as i64;
            if self.contents.dom().contains(s) {
                assert(s <= self.counters.cursor);
            }
        }
    }

    /// Every value that was held is handed to the handler by this attempt
    /// or is still held after it, never both, and the handler is given
    /// nothing that was not held: consuming loses nothing, makes nothing up
    /// and hands nothing out twice.
    pub proof fn lemma_poll_hands_out_or_keeps(self, batch_size: int)
        requires
            self.wf(),
            0 <= batch_size <= self.capacity(),
        ensures
            self.delivered(batch_size).len() == self.poll_target(batch_size)
                - self.counters.gating,
            forall|i: int|
                0 <= i < self.delivered(batch_size).len() ==> self.contents.dom().contains(
                    (self.counters.gating + 1 + i) as i64,
                ) && #[trigger] self.delivered(batch_size)[i] == self.contents[(
                self.counters.gating + 1 + i) as i64],
            forall|s: i64| #[trigger]
                self.contents.dom().contains(s) ==> if s <= self.poll_target(batch_size) {
                    &&& !self.after_poll(batch_size).contents.dom().contains(s)
                    &&& self.delivered(batch_size)[s - self.counters.gating - 1]
                        == self.contents[s]
                } else {
                    &&& self.after_poll(batch_size).contents.dom().contains(s)
                    &&& self.after_poll(batch_size).contents[s] == self.contents[s]
                },
            forall|s: i64| #[trigger]
                self.after_poll(batch_size).contents.dom().contains(s)
                    ==> self.contents.dom().contains(s),
    {
        self.lemma_poll_target(batch_size);
        assert forall|i: int|
            0 <= i < self.delivered(batch_size).len() implies self.contents.dom().contains(
            (self.counters.gating + 1 + i) as i64,
        ) && #[trigger] self.delivered(batch_size)[i] == self.contents[(self.counters.gating + 1
            + i) as i64] by {
            let s = (self.counters.gating + 1 + i) as i64;
            assert(self.contents.dom().contains(s));
        }
    }

    /// With a single producer the cursor moves forward by one with each
    /// published value, and by the length of each published batch.
    pub proof fn lemma_cursor_increases(self, items: Seq<T>)
        requires
            self.wf(),
            !self.counters.multi_producer,
            1 <= items.len() <= self.capacity(),
            self.counters.claimed + items.len() <= i64::MAX,
        ensures
            self.push_outcome(items[0]) is Published ==> self.after_push(
                items[0],
            ).counters.cursor == self.counters.cursor + 1,
            self.push_outcome(items[0]) is Stalled ==> self.after_push(items[0]).counters.cursor
                == self.counters.cursor,
            self.publishes_batch(items) ==> self.after_push_n(items).counters.cursor
                == self.counters.cursor + items.len(),
            !self.publishes_batch(items) ==> self.after_push_n(items).counters.cursor
                == self.counters.cursor,
    {
    }

    /// The gating sequence never moves back when values are consumed. It
    /// moves forward exactly where the sequence after it is held and
    /// `batch_size` is not 0, and it never passes the cursor.
    pub proof fn lemma_gating_increases(self, batch_size: int)
        requires
            self.wf(),
            0 <= batch_size <= self.capacity(),
        ensures
            self.counters.gating <= self.after_poll(batch_size).counters.gating
                <= self.counters.cursor,
            self.after_poll(batch_size).counters.gating > self.counters.gating <==> batch_size
                > 0 && self.contents.dom().contains((self.counters.gating + 1) as i64),
    {
        self.lemma_poll_target(batch_size);
        if batch_size > 0 && self.contents.dom().contains((self.counters.gating + 1) as i64) {
            let limit = poll_limit(self.counters.gating, self.counters.cursor, batch_size as i64);
            assert(self.counters.gating < limit);
        }
        if self.poll_target(batch_size) > self.counters.gating {
            assert(self.contents.dom().contains((self.counters.gating + 1) as i64));
        }
    }

    /// Sequences are handed out in increasing order: a value that is pushed
    /// gets a sequence above every sequence claimed before it, whether it is
    /// published at once or stalls with its claim. Values are handed to the
    /// handler in the order of their sequences, and after everything that
    /// was consumed before. So what one producer sends one after the other
    /// is received in that order.
    pub proof fn lemma_first_in_first_out(self, element: T, batch_size: int)
        requires
            self.wf(),
            self.counters.claimed < i64::MAX,
            0 <= batch_size <= self.capacity(),
        ensures
            self.push_outcome(element) matches PushOutcome::Published(sequence) ==> sequence
                > self.counters.claimed && self.after_push(element).counters.claimed
                == sequence,
            self.push_outcome(element) matches PushOutcome::Stalled(stalled) ==> (
            stalled.claim matches Some(sequence) ==> sequence > self.counters.claimed
                && self.after_push(element).counters.claimed == sequence),
            forall|i: int, j: int|
                0 <= i < j < self.delivered(batch_size).len() ==> self.counters.gating < (
                self.counters.gating + 1 + i) < (self.counters.gating + 1 + j)
                    && #[trigger] self.delivered(batch_size)[i] == self.contents[(
                self.counters.gating + 1 + i) as i64] && #[trigger] self.delivered(batch_size)[j]
                    == self.contents[(self.counters.gating + 1 + j) as i64],
    {
    }

    /// A value that is published goes into a slot that no held value is in:
    /// the slot of a published sequence is not written again before the
    /// sequence was consumed, and then only for a sequence at least a lap
    /// later.
    pub proof fn lemma_slot_not_rewritten(self, element: T, held: i64)
        requires
            self.wf(),
            self.counters.claimed < i64::MAX,
            self.contents.dom().contains(held),
            self.push_outcome(element) is Published,
        ensures
            cell_of(self.next_sequence(), self.counters.mask) != cell_of(
                held,
                self.counters.mask,
            ),
            forall|later: i64|
                later > held && #[trigger] cell_of(later, self.counters.mask) == cell_of(
                    held,
                    self.counters.mask,
                ) ==> later >= held + self.capacity(),
    {
        crate::utils::lemma_cell_and_lap(0, self.counters.mask, self.counters.shift);
        lemma_cells_differ_within_lap(
            held,
            self.next_sequence(),
            self.counters.mask,
            self.counters.shift,
        );
        assert forall|later: i64|
            later > held && #[trigger] cell_of(later, self.counters.mask) == cell_of(
                held,
                self.counters.mask,
            ) implies later >= held + self.capacity() by {
            if later < held + self.capacity() {
                lemma_cells_differ_within_lap(
                    held,
                    later,
                    self.counters.mask,
                    self.counters.shift,
                );
            }
        }
    }
}

/// A ring of slots with the sequencer that orders its producers and the
/// poller that orders its consumers.
pub struct RingBuffer<T, S, P> {
    buffer: SlotArray<T>,
    sequencer: S,
    poller: P,
    mask: i64,
    buffer_size: usize,
}

impl<T, S: Sequencer, P: Poller> RingBuffer<T, S, P> {
    /// The sequencer of the ring.
    pub closed spec fn sequencer(&self) -> S {
        self.sequencer
    }

    /// The poller of the ring.
    pub closed spec fn poller(&self) -> P {
        self.poller
    }

    /// The slots of the ring.
    pub closed spec fn buffer(&self) -> SlotArray<T> {
        self.buffer
    }

    /// `sequence` lies after the gating sequence and less than a lap ahead
    /// of it: its slot is not needed by an earlier sequence any more.
    pub open spec fn in_window(&self, sequence: i64) -> bool {
        let c = self.sequencer().state();
        c.gating < sequence <= c.gating + c.capacity()
    }

    /// The ring holds a value for `sequence`.
    pub open spec fn holds(&self, sequence: i64) -> bool {
        self.in_window(sequence) && is_published(&self.sequencer(), sequence)
    }

    /// What the ring holds, and its counters.
    pub open spec fn view(&self) -> RingView<T> {
        RingView {
            counters: self.sequencer().state(),
            contents: Map::new(
                |s: i64| self.holds(s),
                |s: i64| self.buffer().value(s).unwrap(),
            ),
        }
    }

    /// The parts of the ring fit together while a single producer holds a
    /// claim of `pending` sequences that it has not published.
    pub closed spec fn inv(&self, pending: int) -> bool {
        let c = self.sequencer.state();
        &&& self.sequencer.wf()
        &&& self.buffer.wf()
        &&& self.poller.wf()
        &&& self.buffer.mask() == c.mask
        &&& self.buffer.shift() == c.shift
        &&& self.mask == c.mask
        &&& self.buffer_size == c.mask + 1
        &&& self.poller.position(c.gating) == c.gating
        &&& -1 <= c.gating <= c.cursor <= c.claimed
        &&& c.cached_gating <= c.gating
        &&& forall|s: i64|
            c.gating < s <= c.gating + c.capacity() ==> ((#[trigger] self.buffer.value(
                s,
            )).is_some() <==> is_published(&self.sequencer, s))
        &&& c.multi_producer ==> forall|s: i64|
            c.gating < s <= c.gating + c.capacity() && #[trigger] self.sequencer.is_available(s)
                ==> s <= c.cursor
        &&& !c.multi_producer ==> c.claimed == c.cursor + pending && c.claimed <= c.gating
            + c.capacity()
    }

    /// The parts of the ring fit together.
    pub open spec fn wf(&self) -> bool {
        self.inv(0)
    }

    /// What a well-formed ring holds is well-formed.
    pub proof fn lemma_view_wf(&self)
        requires
            self.wf(),
        ensures
            self@.wf(),
            self@.capacity() >= 1,
    {
        self.sequencer.lemma_wf();
        crate::utils::lemma_cell_and_lap(0, self@.counters.mask, self@.counters.shift);
    }

    /// A ring of `buffer_size` slots around a sequencer and a poller that
    /// have not been used.
    pub fn new(buffer_size: usize, sequencer: S, poller: P) -> (r: Self)
        requires
            is_valid_capacity(buffer_size),
            sequencer.wf(),
            is_fresh(&sequencer),
            sequencer.state().capacity() == buffer_size,
            poller.wf(),
            poller.position(-1i64) == -1,
        ensures
            r.wf(),
            r@ == RingView::<T>::fresh(
                (buffer_size - 1) as i64,
                sequencer.state().shift,
                sequencer.state().multi_producer,
            ),
            r.sequencer() == sequencer,
            r.poller() == poller,
    {
        proof {
            crate::utils::lemma_valid_capacity(buffer_size);
        }
        let r = RingBuffer {
            buffer: SlotArray::new(buffer_size),
            sequencer,
            poller,
            mask: (buffer_size - 1) as i64,
            buffer_size,
        };
        proof {
            r.sequencer.lemma_wf();
            r.buffer.lemma_wf();
            crate::utils::lemma_geometry_by_mask(
                r.buffer.mask(),
                r.buffer.shift(),
                r.sequencer.state().shift,
            );
            assert forall|s: i64|
                -1 < s <= -1 + r.sequencer.state().capacity() implies (#[trigger] r.buffer.value(
                s,
            )).is_none() by {
                lemma_cell_in_range(s, r.buffer.mask());
            }
            assert(r@.contents =~= Map::<i64, T>::empty());
        }
        r
    }
    /// The number of slots.
    pub fn capacity(&self) -> (capacity: usize)
        requires
            self.wf(),
        ensures
            capacity == self@.capacity(),
    {
        self.buffer_size
    }

    /// The highest sequence that was claimed. No more than `i64::MAX` less
    /// this many sequences can still be claimed.
    pub fn claimed(&self) -> (claimed: i64)
        requires
            self.wf(),
        ensures
            claimed == self@.counters.claimed,
    {
        proof {
            self.sequencer.lemma_wf();
        }
        self.sequencer.get_cursor_sequence_acquire()
    }

    /// The highest sequence that was consumed.
    pub fn gating(&self) -> (gating: i64)
        requires
            self.wf(),
        ensures
            gating == self@.counters.gating,
    {
        self.sequencer.get_gating_sequence_relaxed()
    }

    /// The number of sequences a single producer has claimed and not
    /// published while it writes a claim of `n`.
    spec fn pending(&self, n: int) -> int {
        if self.sequencer().state().multi_producer {
            0
        } else {
            n
        }
    }

    /// Writes `element` into the slot of the claimed `sequence` and
    /// publishes the sequence.
    fn commit(&mut self, sequence: i64, element: T)
        requires
            old(self).inv(old(self).pending(1)),
            old(self).in_window(sequence),
            sequence <= old(self).sequencer().state().claimed,
            !old(self).sequencer().state().multi_producer ==> sequence == old(
                self,
            ).sequencer().state().claimed,
            old(self).sequencer().state().multi_producer ==> !old(self).sequencer().is_available(
                sequence,
            ),
        ensures
            final(self).wf(),
            final(self)@.counters == old(self)@.counters.after_publish(sequence),
            final(self)@.contents == old(self)@.contents.insert(sequence, element),
            final(self).poller() == old(self).poller(),
    {
        proof {
            self.sequencer.lemma_wf();
            self.buffer.lemma_wf();
        }
        let ghost mask = self.mask;
        let ghost shift = self.buffer.shift();
        self.buffer.write(sequence, element);
        self.sequencer.publish_cursor_sequence(sequence);
        proof {
            self.sequencer.lemma_wf();
            let c = self.sequencer.state();
            lemma_cell_in_range(sequence, mask);
            assert forall|t: i64|
                c.gating < t <= c.gating + c.capacity() && t != sequence implies cell_of(t, mask)
                != cell_of(sequence, mask) by {
                if t < sequence {
                    lemma_cells_differ_within_lap(t, sequence, mask, shift);
                } else {
                    lemma_cells_differ_within_lap(sequence, t, mask, shift);
                }
            }
            assert forall|t: i64| c.gating < t <= c.gating + c.capacity() implies (
            #[trigger] self.sequencer.is_available(t)) == (t == sequence || old(
                self,
            ).sequencer.is_available(t)) by {
                assert(t != sequence ==> cell_of(t, mask) != cell_of(sequence, mask));
            }
            assert forall|t: i64| c.gating < t <= c.gating + c.capacity() implies (
            #[trigger] self.buffer.value(t)) == (if t == sequence {
                Some(element)
            } else {
                old(self).buffer.value(t)
            }) by {
                lemma_cell_in_range(t, mask);
                assert(t != sequence ==> cell_of(t, mask) != cell_of(sequence, mask));
            }
            assert forall|t: i64| c.gating < t <= c.gating + c.capacity() implies ((
            #[trigger] self.buffer.value(t)).is_some() <==> is_published(&self.sequencer, t)) by {
                assert(self.sequencer.is_available(t) == (t == sequence || old(
                    self,
                ).sequencer.is_available(t)));
                assert(old(self).buffer.value(t).is_some() <==> is_published(
                    &old(self).sequencer,
                    t,
                ));
            }
            assert forall|t: i64| #[trigger] self.holds(t) == (old(self).holds(t) || t == sequence) by {
                if c.gating < t <= c.gating + c.capacity() {
                    assert(self.sequencer.is_available(t) == (t == sequence || old(
                        self,
                    ).sequencer.is_available(t)));
                    assert(old(self).buffer.value(t).is_some() <==> is_published(
                        &old(self).sequencer,
                        t,
                    ));
                }
            }
            assert forall|t: i64| #[trigger] self.holds(t) && t != sequence implies self.buffer.value(
                t,
            ) == old(self).buffer.value(t) by {}
            assert(self@.contents =~= old(self)@.contents.insert(sequence, element));
        }
    }

    /// Claims the next sequence for `element` and publishes it there, if the
    /// slot of that sequence is free.
    ///
    /// The slot is free where the sequence one lap before has been consumed.
    /// Where it is not, the value comes back with the claim that was made
    /// for it, and nothing is held that was not held before.
    pub fn push(&mut self, element: T) -> (outcome: PushOutcome<T>)
        requires
            old(self).wf(),
            old(self)@.counters.claimed < i64::MAX,
        ensures
            final(self).wf(),
            final(self)@ == old(self)@.after_push(element),
            outcome == old(self)@.push_outcome(element),
            final(self).poller() == old(self).poller(),
    {
        proof {
            self.sequencer.lemma_wf();
        }
        let claim = self.sequencer.next();
        proof {
            self.sequencer.lemma_wf();
            assert(self@.contents =~= old(self)@.contents);
        }
        match claim {
            Claim::Ready(sequence) => {
                self.commit(sequence, element);
                PushOutcome::Published(sequence)
            },
            Claim::Pending(sequence) => PushOutcome::Stalled(
                StalledPush { claim: Some(sequence), element },
            ),
            Claim::Full => PushOutcome::Stalled(StalledPush { claim: None, element }),
        }
    }
    /// The availability scan of the sequencer and the scan of what the ring
    /// holds stop at the same sequence.
    proof fn lemma_poll_target_of_view(&self, batch_size: i64)
        requires
            self.wf(),
            0 <= batch_size <= self@.capacity(),
        ensures
            poll_target(&self.sequencer(), self@.counters.gating, batch_size)
                == self@.poll_target(batch_size as int),
            self@.counters.gating <= self@.poll_target(batch_size as int) <= self@.counters.cursor,
            self@.poll_target(batch_size as int) <= self@.counters.gating + batch_size,
            forall|s: i64|
                self@.counters.gating < s <= self@.poll_target(batch_size as int)
                    ==> #[trigger] self.holds(s) && self.buffer().value(s).is_some()
                    && self.sequencer().is_available(s),
    {
        let c = self.sequencer.state();
        let limit = poll_limit(c.gating, c.cursor, batch_size);
        lemma_poll_target(&self.sequencer, c.gating, batch_size);
        if c.gating < limit {
            assert forall|s: i64| c.gating + 1 <= s <= limit implies (
            #[trigger] self.sequencer.is_available(s)) == self@.contents.dom().contains(s) by {
                assert(self.holds(s) == self@.contents.dom().contains(s));
            }
            lemma_highest_run_agrees(
                |s: i64| self.sequencer.is_available(s),
                |s: i64| self@.contents.dom().contains(s),
                (c.gating + 1) as i64,
                limit as i64,
            );
        }
        assert forall|s: i64|
            c.gating < s <= self@.poll_target(batch_size as int) implies #[trigger] self.holds(s)
            && self.buffer.value(s).is_some() && self.sequencer.is_available(s) by {
            assert(self.sequencer.is_available(s));
            assert(self.buffer.value(s).is_some() <==> is_published(&self.sequencer, s));
        }
    }

    /// Makes one attempt to consume up to `batch_size` values.
    ///
    /// The values of the run of held sequences that follows the gating
    /// sequence are handed to `handler`, their slots are left empty, and the
    /// gating sequence moves to the last of them. Where the sequence after
    /// the gating sequence is not held, nothing changes.
    pub fn poll<H: Fn(T)>(&mut self, batch_size: usize, handler: &H) -> (state: State)
        requires
            old(self).wf(),
            batch_size <= old(self)@.capacity(),
            forall|element: T| handler.requires((element,)),
        ensures
            final(self).wf(),
            final(self)@ == old(self)@.after_poll(batch_size as int),
            final(self).poller().multi_consumer() == old(self).poller().multi_consumer(),
            state == if old(self)@.poll_target(batch_size as int) > old(self)@.counters.gating {
                State::Processing
            } else {
                State::Idle
            },
            forall|i: int|
                0 <= i < old(self)@.delivered(batch_size as int).len() ==> handler.ensures(
                    (#[trigger] old(self)@.delivered(batch_size as int)[i],),
                    (),
                ),
    {
        proof {
            self.sequencer.lemma_wf();
            self.buffer.lemma_wf();
            crate::utils::lemma_cell_and_lap(0, self.mask, self.buffer.shift());
            self.lemma_poll_target_of_view(batch_size as i64);
            assert forall|s: i64|
                self@.counters.gating < s <= self@.poll_target(batch_size as int) implies (
            #[trigger] self.buffer.value(s)).is_some() by {
                assert(self.holds(s));
            }
        }
        let ghost gating = self.sequencer.state().gating;
        let ghost target = self@.poll_target(batch_size as int);
        let ghost mask = self.mask;
        let ghost shift = self.buffer.shift();
        let state = self.poller.poll(
            &mut self.sequencer,
            &mut self.buffer,
            batch_size as i64,
            handler,
        );
        proof {
            self.sequencer.lemma_wf();
            self.buffer.lemma_wf();
            let c = self.sequencer.state();
            let before = old(self).sequencer.state();
            if target > gating {
                lemma_cells_after_range(
                    old(self).buffer.slots(),
                    mask,
                    shift,
                    (gating + 1) as i64,
                    target as i64,
                    |s: i64| None::<T>,
                );
                assert forall|t: i64| target < t <= gating + before.capacity() implies (
                #[trigger] self.buffer.value(t)) == old(self).buffer.value(t) by {
                    lemma_cell_in_range(t, mask);
                }
                assert forall|t: i64|
                    gating + before.capacity() < t <= target + before.capacity() implies (
                #[trigger] self.buffer.value(t)).is_none() && !is_published(&self.sequencer, t) && (
                before.multi_producer ==> !self.sequencer.is_available(t)) by {
                    let earlier = (t - before.capacity()) as i64;
                    crate::utils::lemma_next_lap(earlier, mask, shift);
                    lemma_cell_in_range(earlier, mask);
                    assert(old(self).holds(earlier));
                    assert(self.buffer.value(earlier).is_none());
                    if before.multi_producer {
                        old(self).sequencer.lemma_one_lap_available(earlier);
                        assert(old(self).sequencer.is_available(earlier));
                        assert(self.sequencer.is_available(t) == old(self).sequencer.is_available(
                            t,
                        ));
                    }
                }
                assert forall|t: i64| c.gating < t <= c.gating + c.capacity() implies ((
                #[trigger] self.buffer.value(t)).is_some() <==> is_published(&self.sequencer, t)) by {
                    if t <= gating + before.capacity() {
                        assert(self.buffer.value(t) == old(self).buffer.value(t));
                        assert(old(self).buffer.value(t).is_some() <==> is_published(
                            &old(self).sequencer,
                            t,
                        ));
                        assert(self.sequencer.is_available(t) == old(self).sequencer.is_available(
                            t,
                        ));
                    }
                }
                assert forall|t: i64|
                    c.multi_producer && c.gating < t <= c.gating + c.capacity()
                        && #[trigger] self.sequencer.is_available(t) implies t <= c.cursor by {
                    if t <= gating + before.capacity() {
                        assert(old(self).sequencer.is_available(t));
                    } else {
                        assert(self.buffer.value(t).is_none());
                    }
                }
                assert forall|t: i64| #[trigger]
                    self.holds(t) == (old(self).holds(t) && t > target) by {
                    if c.gating < t <= c.gating + c.capacity() {
                        if t <= gating + before.capacity() {
                            assert(self.sequencer.is_available(t) == old(
                                self,
                            ).sequencer.is_available(t));
                        } else {
                            assert(self.buffer.value(t).is_none());
                        }
                    }
                }
                assert forall|t: i64| #[trigger] self.holds(t) implies self.buffer.value(t) == old(
                    self,
                ).buffer.value(t) by {}
                assert forall|i: int|
                    0 <= i < old(self)@.delivered(batch_size as int).len() implies handler.ensures(
                    (#[trigger] old(self)@.delivered(batch_size as int)[i],),
                    (),
                ) by {
                    let s = (gating + 1 + i) as i64;
                    assert(old(self).holds(s));
                    assert(old(self).buffer.value(s).is_some());
                }
            } else {
                assert forall|t: i64| #[trigger]
                    self.holds(t) == (old(self).holds(t) && t > target) by {
                    assert(self.sequencer.is_available(t) == old(self).sequencer.is_available(t));
                }
                assert forall|t: i64| c.gating < t <= c.gating + c.capacity() implies ((
                #[trigger] self.buffer.value(t)).is_some() <==> is_published(&self.sequencer, t)) by {
                    assert(old(self).buffer.value(t).is_some() <==> is_published(
                        &old(self).sequencer,
                        t,
                    ));
                    assert(self.sequencer.is_available(t) == old(self).sequencer.is_available(t));
                }
                assert forall|t: i64|
                    c.multi_producer && c.gating < t <= c.gating + c.capacity()
                        && #[trigger] self.sequencer.is_available(t) implies t <= c.cursor by {
                    assert(old(self).sequencer.is_available(t));
                }
            }
            assert(self@.contents =~= old(self)@.after_poll(batch_size as int).contents);
        }
        state
    }
    /// Whether none of the claimed sequences `low..=high`, whose slots are
    /// free, is held.
    fn is_vacant(&self, low: i64, high: i64) -> (vacant: bool)
        requires
            self.wf(),
            self@.is_claimed(low, high),
            self@.is_writable(high),
        ensures
            vacant == self@.is_vacant(low, high),
    {
        let mut sequence = low;
        while sequence <= high
            invariant
                self.wf(),
                self@.is_claimed(low, high),
                self@.is_writable(high),
                low <= sequence <= high,
                forall|s: i64| low <= s < sequence ==> !#[trigger] self@.contents.dom().contains(s),
            decreases high - sequence,
        {
            proof {
                assert(self.holds(sequence) == self@.contents.dom().contains(sequence));
            }
            if self.sequencer.get_highest(sequence, sequence) == sequence {
                return false;
            }
            if sequence == high {
                return true;
            }
            sequence = sequence + 1;
        }
        true
    }

    /// Makes one more attempt to publish a value that stalled.
    ///
    /// A value without a claim is pushed as by [`Self::push`]. A value with a
    /// claim is written and published once the sequence one lap before the
    /// claim has been consumed, and stays stalled until then. A claim that is
    /// not between the gating sequence and the cursor, or under which a value
    /// is held already, is rejected.
    pub fn retry_push(&mut self, stalled: StalledPush<T>) -> (outcome: PushOutcome<T>)
        requires
            old(self).wf(),
            stalled.claim.is_none() ==> old(self)@.counters.claimed < i64::MAX,
        ensures
            final(self).wf(),
            final(self)@ == old(self)@.after_retry_push(stalled),
            outcome == old(self)@.retry_push_outcome(stalled),
            final(self).poller() == old(self).poller(),
    {
        let StalledPush { claim, element } = stalled;
        match claim {
            None => self.push(element),
            Some(sequence) => {
                proof {
                    self.sequencer.lemma_wf();
                    crate::utils::lemma_cell_and_lap(0, self.mask, self.buffer.shift());
                }
                let gating = self.sequencer.get_gating_sequence_relaxed();
                let cursor = self.sequencer.get_cursor_sequence_acquire();
                if sequence <= gating || sequence > cursor {
                    return PushOutcome::Rejected(element);
                }
                let wrap_point = sequence - self.buffer_size as i64;
                if wrap_point > gating {
                    return PushOutcome::Stalled(StalledPush { claim: Some(sequence), element });
                }
                if !self.is_vacant(sequence, sequence) {
                    return PushOutcome::Rejected(element);
                }
                proof {
                    assert(self.holds(sequence) == self@.contents.dom().contains(sequence));
                    assert(self.buffer.value(sequence).is_some() <==> is_published(
                        &self.sequencer,
                        sequence,
                    ));
                }
                let _ = self.sequencer.wait(wrap_point);
                proof {
                    self.lemma_same_ring(old(self));
                }
                self.commit(sequence, element);
                PushOutcome::Published(sequence)
            },
        }
    }

    /// A ring whose slots, poller and availability are those of a
    /// well-formed ring, and whose counters differ from its counters only in
    /// the cached gating sequence, is well-formed and holds the same.
    proof fn lemma_same_ring(&self, before: &Self)
        requires
            before.wf(),
            self.sequencer.wf(),
            self.buffer == before.buffer,
            self.poller == before.poller,
            self.mask == before.mask,
            self.buffer_size == before.buffer_size,
            self.sequencer.state() == (SequencerState {
                cached_gating: self.sequencer.state().cached_gating,
                ..before.sequencer.state()
            }),
            self.sequencer.state().cached_gating <= self.sequencer.state().gating,
            forall|t: i64| #[trigger]
                self.sequencer.is_available(t) == before.sequencer.is_available(t),
        ensures
            self.wf(),
            self@.contents == before@.contents,
    {
        let c = self.sequencer.state();
        assert forall|t: i64| c.gating < t <= c.gating + c.capacity() implies ((
        #[trigger] self.buffer.value(t)).is_some() <==> is_published(&self.sequencer, t)) by {
            assert(before.buffer.value(t).is_some() <==> is_published(&before.sequencer, t));
            assert(self.sequencer.is_available(t) == before.sequencer.is_available(t));
        }
        assert forall|t: i64|
            c.multi_producer && c.gating < t <= c.gating + c.capacity()
                && #[trigger] self.sequencer.is_available(t) implies t <= c.cursor by {
            assert(before.sequencer.is_available(t));
        }
        assert forall|t: i64| #[trigger] self.holds(t) == before.holds(t) by {
            assert(self.sequencer.is_available(t) == before.sequencer.is_available(t));
        }
        assert(self@.contents =~= before@.contents);
    }
    /// Writes `items` into the slots of the claimed sequences that end with
    /// `high` and publishes the sequences.
    fn commit_n(&mut self, high: i64, items: Vec<T>)
        requires
            old(self).inv(old(self).pending(items@.len() as int)),
            1 <= items@.len() <= old(self).sequencer().state().capacity(),
            old(self).in_window((high - items@.len() + 1) as i64),
            old(self).in_window(high),
            high <= old(self).sequencer().state().claimed,
            !old(self).sequencer().state().multi_producer ==> high == old(
                self,
            ).sequencer().state().claimed,
            old(self).sequencer().state().multi_producer ==> forall|s: i64|
                high - items@.len() < s <= high ==> !#[trigger] old(self).sequencer().is_available(
                    s,
                ),
        ensures
            final(self).wf(),
            final(self)@.counters == old(self)@.counters.after_publish(high),
            final(self)@.contents == old(self)@.contents_with(
                (high - items@.len() + 1) as i64,
                items@,
            ),
            final(self).poller() == old(self).poller(),
    {
        proof {
            self.sequencer.lemma_wf();
            self.buffer.lemma_wf();
            crate::utils::lemma_cell_and_lap(0, self.mask, self.buffer.shift());
        }
        let ghost mask = self.mask;
        let ghost shift = self.buffer.shift();
        let ghost gating = self.sequencer.state().gating;
        let ghost capacity = self.sequencer.state().capacity();
        let ghost count = items@.len() as int;
        let ghost low = (high - count + 1) as i64;
        let mut remaining = items;
        let mut sequence = high;
        while remaining.len() > 0
            invariant
                self.sequencer == old(self).sequencer,
                self.poller == old(self).poller,
                self.mask == old(self).mask,
                self.buffer_size == old(self).buffer_size,
                self.buffer.wf(),
                self.buffer.mask() == mask,
                self.buffer.shift() == shift,
                crate::utils::is_geometry(mask, shift),
                capacity == mask + 1,
                -1 <= gating < low <= high <= gating + capacity,
                count == items@.len(),
                low == high - count + 1,
                remaining@ == items@.subrange(0, remaining@.len() as int),
                remaining@.len() <= count,
                sequence == low + remaining@.len() - 1,
                forall|t: i64|
                    gating < t <= gating + capacity ==> (#[trigger] self.buffer.value(t)) == (if low
                        + remaining@.len() <= t <= high {
                        Some(items@[t - low])
                    } else {
                        old(self).buffer.value(t)
                    }),
            decreases remaining@.len(),
        {
            let ghost before = self.buffer;
            let ghost longer = remaining@;
            proof {
                self.buffer.lemma_wf();
            }
            let item = remaining.pop().unwrap();
            self.buffer.write(sequence, item);
            proof {
                lemma_cell_in_range(sequence, mask);
                assert(item == longer[longer.len() - 1]);
                assert(item == items@[sequence - low]);
                assert(remaining@ =~= items@.subrange(0, remaining@.len() as int));
                assert forall|t: i64| gating < t <= gating + capacity implies (
                #[trigger] self.buffer.value(t)) == (if low + remaining@.len() <= t <= high {
                    Some(items@[t - low])
                } else {
                    old(self).buffer.value(t)
                }) by {
                    lemma_cell_in_range(t, mask);
                    if t < sequence {
                        lemma_cells_differ_within_lap(t, sequence, mask, shift);
                    } else if t > sequence {
                        lemma_cells_differ_within_lap(sequence, t, mask, shift);
                    }
                    assert(before.value(t) == (if low + longer.len() <= t <= high {
                        Some(items@[t - low])
                    } else {
                        old(self).buffer.value(t)
                    }));
                }
            }
            sequence = sequence - 1;
        }
        self.sequencer.publish_cursor_sequence_range(sequence + 1, high);
        proof {
            self.sequencer.lemma_wf();
            let c = self.sequencer.state();
            assert forall|t: i64| c.gating < t <= c.gating + c.capacity() implies (
            #[trigger] self.sequencer.is_available(t)) == (low <= t <= high || old(
                self,
            ).sequencer.is_available(t)) by {
                old(self).sequencer.lemma_wf();
            }
            assert forall|t: i64| c.gating < t <= c.gating + c.capacity() implies ((
            #[trigger] self.buffer.value(t)).is_some() <==> is_published(&self.sequencer, t)) by {
                assert(self.sequencer.is_available(t) == (low <= t <= high || old(
                    self,
                ).sequencer.is_available(t)));
                assert(old(self).buffer.value(t).is_some() <==> is_published(
                    &old(self).sequencer,
                    t,
                ));
            }
            assert forall|t: i64|
                c.multi_producer && c.gating < t <= c.gating + c.capacity()
                    && #[trigger] self.sequencer.is_available(t) implies t <= c.cursor by {
                assert(self.sequencer.is_available(t) == (low <= t <= high || old(
                    self,
                ).sequencer.is_available(t)));
            }
            assert forall|t: i64| #[trigger]
                self.holds(t) == (old(self).holds(t) || low <= t <= high) by {
                if c.gating < t <= c.gating + c.capacity() {
                    assert(self.sequencer.is_available(t) == (low <= t <= high || old(
                        self,
                    ).sequencer.is_available(t)));
                    assert(old(self).buffer.value(t).is_some() <==> is_published(
                        &old(self).sequencer,
                        t,
                    ));
                }
            }
            assert forall|t: i64| #[trigger] self.holds(t) implies self.buffer.value(t) == (if low
                <= t <= high {
                Some(items@[t - low])
            } else {
                old(self).buffer.value(t)
            }) by {}
            assert(self@.contents =~= old(self)@.contents_with(low, items@));
        }
    }

    /// Claims the next sequences for `items` and publishes the values there,
    /// in order, if the slots of those sequences are free.
    ///
    /// The slots are free where the sequence one lap before the last of them
    /// has been consumed. Where it has not, the values come back with the
    /// claim that was made for them, and nothing is held that was not held
    /// before. An empty batch is published without a claim.
    pub fn push_n(&mut self, items: Vec<T>) -> (outcome: BatchOutcome<T>)
        requires
            old(self).wf(),
            items@.len() <= old(self)@.capacity(),
            old(self)@.counters.claimed + items@.len() <= i64::MAX,
        ensures
            final(self).wf(),
            final(self)@ == old(self)@.after_push_n(items@),
            final(self).poller() == old(self).poller(),
            match outcome {
                BatchOutcome::Published(high) => old(self)@.publishes_batch(items@) && high == old(
                    self,
                )@.counters.claimed + items@.len(),
                BatchOutcome::Stalled(stalled) => !old(self)@.publishes_batch(items@)
                    && stalled.claim == old(self)@.stalled_claim(items@.len() as int)
                    && stalled.items@ == items@,
                BatchOutcome::Rejected(_) => false,
            },
    {
        proof {
            self.sequencer.lemma_wf();
        }
        let length = items.len();
        if length == 0 {
            return BatchOutcome::Published(self.sequencer.get_cursor_sequence_acquire());
        }
        let claim = self.sequencer.next_n(length);
        proof {
            self.sequencer.lemma_wf();
            assert forall|t: i64| #[trigger] self.holds(t) == old(self).holds(t) by {
                assert(self.sequencer.is_available(t) == old(self).sequencer.is_available(t));
                if old(self).in_window(t) {
                    assert(old(self).buffer.value(t).is_some() <==> is_published(
                        &old(self).sequencer,
                        t,
                    ));
                }
            }
            assert(self@.contents =~= old(self)@.contents);
        }
        match claim {
            Claim::Ready(high) => {
                self.commit_n(high, items);
                BatchOutcome::Published(high)
            },
            Claim::Pending(high) => BatchOutcome::Stalled(StalledBatch { claim: Some(high), items }),
            Claim::Full => BatchOutcome::Stalled(StalledBatch { claim: None, items }),
        }
    }

    /// Makes one more attempt to publish a batch that stalled.
    ///
    /// A batch without a claim is pushed as by [`Self::push_n`]. A batch with
    /// a claim is written and published once the sequence one lap before the
    /// claim has been consumed, and stays stalled until then. A claim that
    /// does not fit the batch, that is not between the gating sequence and
    /// the cursor, or under which a value is held already, is rejected.
    pub fn retry_push_n(&mut self, stalled: StalledBatch<T>) -> (outcome: BatchOutcome<T>)
        requires
            old(self).wf(),
            stalled.claim.is_none() ==> stalled.items@.len() <= old(self)@.capacity() && old(
                self,
            )@.counters.claimed + stalled.items@.len() <= i64::MAX,
        ensures
            final(self).wf(),
            final(self)@ == match stalled.claim {
                None => old(self)@.after_push_n(stalled.items@),
                Some(high) => old(self)@.after_retry_claim(high, stalled.items@),
            },
            final(self).poller() == old(self).poller(),
            match stalled.claim {
                None => match outcome {
                    BatchOutcome::Published(high) => old(self)@.publishes_batch(stalled.items@)
                        && high == old(self)@.counters.claimed + stalled.items@.len(),
                    BatchOutcome::Stalled(again) => !old(self)@.publishes_batch(stalled.items@)
                        && again.claim == old(self)@.stalled_claim(stalled.items@.len() as int)
                        && again.items@ == stalled.items@,
                    BatchOutcome::Rejected(_) => false,
                },
                Some(claimed) => match outcome {
                    BatchOutcome::Published(high) => high == claimed && old(
                        self,
                    )@.publishes_claim(claimed, stalled.items@.len() as int),
                    BatchOutcome::Stalled(again) => again.claim == Some(claimed) && again.items@
                        == stalled.items@ && old(self)@.keeps_claim(
                        claimed,
                        stalled.items@.len() as int,
                    ),
                    BatchOutcome::Rejected(items) => items@ == stalled.items@ && !old(
                        self,
                    )@.publishes_claim(claimed, stalled.items@.len() as int) && !old(
                        self,
                    )@.keeps_claim(claimed, stalled.items@.len() as int),
                },
            },
    {
        let StalledBatch { claim, items } = stalled;
        match claim {
            None => self.push_n(items),
            Some(high) => {
                proof {
                    self.sequencer.lemma_wf();
                    crate::utils::lemma_cell_and_lap(0, self.mask, self.buffer.shift());
                }
                let gating = self.sequencer.get_gating_sequence_relaxed();
                let cursor = self.sequencer.get_cursor_sequence_acquire();
                let length = items.len();
                if length == 0 || length > self.buffer_size || high <= gating || high > cursor {
                    return BatchOutcome::Rejected(items);
                }
                let low = high - (length - 1) as i64;
                if low <= gating {
                    return BatchOutcome::Rejected(items);
                }
                let wrap_point = high - self.buffer_size as i64;
                if wrap_point > gating {
                    return BatchOutcome::Stalled(StalledBatch { claim: Some(high), items });
                }
                if !self.is_vacant(low, high) {
                    return BatchOutcome::Rejected(items);
                }
                proof {
                    self.lemma_view_wf();
                    assert(!self@.contents.dom().contains(low));
                    assert forall|s: i64| low <= s <= high implies !#[trigger] self.sequencer.is_available(
                        s,
                    ) by {
                        assert(self.holds(s) == self@.contents.dom().contains(s));
                    }
                }
                let _ = self.sequencer.wait(wrap_point);
                proof {
                    self.lemma_same_ring(old(self));
                    assert forall|s: i64| low <= s <= high implies !#[trigger] self.sequencer.is_available(
                        s,
                    ) by {
                        assert(!old(self).sequencer.is_available(s));
                    }
                }
                self.commit_n(high, items);
                BatchOutcome::Published(high)
            },
        }
    }
}

} // verus!
