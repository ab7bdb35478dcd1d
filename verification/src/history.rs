//! Runs of a ring: what was sent into it and what came out of it.
//!
//! A run is a sequence of steps taken on one ring, in the order in which
//! they took effect. Beside the ring, a history keeps a record of every
//! value that was published and of every value that was handed to a
//! handler, each under its sequence.
use crate::ring_buffer::{PushOutcome, RingView, StalledPush};
use vstd::prelude::*;

verus! {

/// One step on a ring.
pub enum Step<T> {
    /// An attempt to publish a value.
    Push(T),
    /// One more attempt to publish a value that stalled.
    RetryPush(StalledPush<T>),
    /// An attempt to publish a batch of values.
    PushN(Seq<T>),
    /// One more attempt to publish a batch that stalled with the given claim.
    RetryPushN(i64, Seq<T>),
    /// An attempt to consume up to the given number of values.
    Poll(int),
}

/// A ring, with what was published into it and what was handed out of it
/// since the history began.
pub struct History<T> {
    /// The ring as it is now.
    pub ring: RingView<T>,
    /// Every value that was published, under its sequence.
    pub sent: Map<i64, T>,
    /// Every value that was handed to a handler, under its sequence.
    pub received: Map<i64, T>,
}

impl<T> History<T> {
    /// The history of a ring that has not been used.
    pub open spec fn fresh(mask: i64, shift: u32, multi_producer: bool) -> Self {
        History {
            ring: RingView::fresh(mask, shift, multi_producer),
            sent: Map::empty(),
            received: Map::empty(),
        }
    }

    /// Whether `step` may be taken now: sequence numbers do not run out, and
    /// no batch is longer than the ring.
    pub open spec fn admits(self, step: Step<T>) -> bool {
        match step {
            Step::Push(_) => self.ring.counters.claimed < i64::MAX,
            Step::RetryPush(stalled) => stalled.claim.is_none() ==> self.ring.counters.claimed
                < i64::MAX,
            Step::PushN(items) => items.len() <= self.ring.capacity() && self.ring.counters.claimed
                + items.len() <= i64::MAX,
            Step::RetryPushN(_, _) => true,
            Step::Poll(batch_size) => 0 <= batch_size <= self.ring.capacity(),
        }
    }

    /// The history after `step`. A step records what it publishes as sent
    /// and what it hands to the handler as received.
    pub open spec fn after(self, step: Step<T>) -> Self {
        match step {
            Step::Push(element) => History {
                ring: self.ring.after_push(element),
                sent: if self.ring.push_outcome(element) is Published {
                    self.sent.insert(self.ring.next_sequence(), element)
                } else {
                    self.sent
                },
                ..self
            },
            Step::RetryPush(stalled) => History {
                ring: self.ring.after_retry_push(stalled),
                sent: match self.ring.retry_push_outcome(stalled) {
                    PushOutcome::Published(sequence) => self.sent.insert(
                        sequence,
                        stalled.element,
                    ),
                    _ => self.sent,
                },
                ..self
            },
            Step::PushN(items) => History {
                ring: self.ring.after_push_n(items),
                sent: if items.len() > 0 && self.ring.publishes_batch(items) {
                    with_batch(self.sent, self.ring.next_sequence(), items)
                } else {
                    self.sent
                },
                ..self
            },
            Step::RetryPushN(high, items) => History {
                ring: self.ring.after_retry_claim(high, items),
                sent: if self.ring.publishes_claim(high, items.len() as int) {
                    with_batch(self.sent, (high - items.len() + 1) as i64, items)
                } else {
                    self.sent
                },
                ..self
            },
            Step::Poll(batch_size) => History {
                ring: self.ring.after_poll(batch_size),
                received: Map::new(
                    |s: i64|
                        self.received.dom().contains(s) || self.ring.counters.gating < s
                            <= self.ring.poll_target(batch_size),
                    |s: i64|
                        if self.received.dom().contains(s) {
                            self.received[s]
                        } else {
                            self.ring.contents[s]
                        },
                ),
                ..self
            },
        }
    }

    /// Whether the steps of `run` may be taken one after the other from
    /// here.
    pub open spec fn admits_run(self, run: Seq<Step<T>>) -> bool
        decreases run.len(),
    {
        run.len() > 0 ==> self.admits(run[0]) && self.after(run[0]).admits_run(run.skip(1))
    }

    /// The history after the steps of `run` were taken one after the other.
    pub open spec fn after_run(self, run: Seq<Step<T>>) -> Self
        decreases run.len(),
    {
        if run.len() == 0 {
            self
        } else {
            self.after(run[0]).after_run(run.skip(1))
        }
    }

    /// The record is complete and holds nothing twice: a value was sent
    /// exactly where it was received or is still held, with the same value;
    /// what was received lies at or before the gating sequence and what is
    /// held lies after it, so nothing is both.
    pub open spec fn balanced(self) -> bool {
        &&& self.ring.wf()
        &&& forall|s: i64| #[trigger]
            self.sent.dom().contains(s) <==> self.received.dom().contains(s)
                || self.ring.contents.dom().contains(s)
        &&& forall|s: i64| #[trigger]
            self.received.dom().contains(s) ==> s <= self.ring.counters.gating
                && self.received[s] == self.sent[s]
        &&& forall|s: i64| #[trigger]
            self.ring.contents.dom().contains(s) ==> self.ring.counters.gating < s
                && self.ring.contents[s] == self.sent[s]
    }

    /// A fresh history is balanced.
    pub proof fn lemma_fresh_is_balanced(mask: i64, shift: u32, multi_producer: bool)
        requires
            crate::utils::is_geometry(mask, shift),
        ensures
            Self::fresh(mask, shift, multi_producer).balanced(),
    {
        crate::utils::lemma_cell_and_lap(0, mask, shift);
    }

    /// A step keeps a balanced history balanced. A step that consumes hands
    /// out only sequences that were not received before.
    pub proof fn lemma_step_keeps_balance(self, step: Step<T>)
        requires
            self.balanced(),
            self.admits(step),
        ensures
            self.after(step).balanced(),
            forall|s: i64| #[trigger]
                self.sent.dom().contains(s) ==> self.after(step).sent.dom().contains(s)
                    && self.after(step).sent[s] == self.sent[s],
            forall|s: i64| #[trigger]
                self.received.dom().contains(s) ==> self.after(step).received.dom().contains(s),
            forall|s: i64|
                !self.received.dom().contains(s) && #[trigger] self.after(
                    step,
                ).received.dom().contains(s) ==> self.ring.contents.dom().contains(s),
    {
        crate::utils::lemma_cell_and_lap(0, self.ring.counters.mask, self.ring.counters.shift);
        match step {
            Step::Push(element) => {
                self.ring.lemma_push_keeps_wf(element);
                if self.ring.push_outcome(element) is Published {
                    self.ring.lemma_push_holds_one_more(element);
                    assert(!self.sent.dom().contains(self.ring.next_sequence()));
                }
            },
            Step::RetryPush(stalled) => {
                self.ring.lemma_retry_push_keeps_wf(stalled);
                match stalled.claim {
                    None => {
                        if self.ring.push_outcome(stalled.element) is Published {
                            self.ring.lemma_push_holds_one_more(stalled.element);
                            assert(!self.sent.dom().contains(self.ring.next_sequence()));
                        }
                    },
                    Some(sequence) => {
                        if self.ring.is_claimed(sequence, sequence) && self.ring.is_vacant(
                            sequence,
                            sequence,
                        ) {
                            assert(!self.ring.contents.dom().contains(sequence));
                            assert(!self.sent.dom().contains(sequence));
                        }
                    },
                }
            },
            Step::PushN(items) => {
                self.ring.lemma_push_n_keeps_wf(items);
                if items.len() > 0 && self.ring.publishes_batch(items) {
                    self.ring.lemma_push_n_holds_the_batch(items);
                    assert forall|s: i64|
                        self.ring.next_sequence() <= s < self.ring.next_sequence()
                            + items.len() implies !#[trigger] self.sent.dom().contains(s) by {
                        if self.ring.contents.dom().contains(s) {
                            assert(s <= self.ring.counters.cursor);
                        }
                    }
                }
            },
            Step::RetryPushN(high, items) => {
                self.ring.lemma_retry_claim_keeps_wf(high, items);
                if self.ring.publishes_claim(high, items.len() as int) {
                    assert forall|s: i64|
                        high - items.len() < s <= high implies !#[trigger] self.sent.dom().contains(
                        s,
                    ) by {
                        assert(!self.ring.contents.dom().contains(s));
                    }
                }
            },
            Step::Poll(batch_size) => {
                self.ring.lemma_poll_keeps_wf(batch_size);
                self.ring.lemma_poll_target(batch_size);
                let next = self.after(step);
                let target = self.ring.poll_target(batch_size);
                assert forall|s: i64| #[trigger]
                    next.sent.dom().contains(s) <==> next.received.dom().contains(s)
                        || next.ring.contents.dom().contains(s) by {
                    assert(self.sent.dom().contains(s) <==> self.received.dom().contains(s)
                        || self.ring.contents.dom().contains(s));
                    if self.ring.counters.gating < s <= target {
                        assert(self.ring.contents.dom().contains(s));
                    }
                }
                assert forall|s: i64| #[trigger]
                    next.received.dom().contains(s) implies s <= next.ring.counters.gating
                    && next.received[s] == next.sent[s] by {
                    if !self.received.dom().contains(s) {
                        assert(self.ring.contents.dom().contains(s));
                    }
                }
                assert forall|s: i64| #[trigger]
                    next.ring.contents.dom().contains(s) implies next.ring.counters.gating < s
                    && next.ring.contents[s] == next.sent[s] by {
                    assert(self.ring.contents.dom().contains(s));
                }
            },
        }
    }

    /// Sequences are claimed in the order of sending: the sequence a push
    /// claims, whether it is published at once or stalls with its claim,
    /// lies above every sequence that was sent before the push.
    pub proof fn lemma_claimed_after_all_sent(self, element: T)
        requires
            self.balanced(),
            self.ring.counters.claimed < i64::MAX,
        ensures
            self.ring.push_outcome(element) matches PushOutcome::Published(sequence)
                ==> forall|s: i64| #[trigger] self.sent.dom().contains(s) ==> s < sequence,
            self.ring.push_outcome(element) matches PushOutcome::Stalled(stalled) ==> (
            stalled.claim matches Some(sequence) ==> forall|s: i64| #[trigger]
                self.sent.dom().contains(s) ==> s < sequence),
    {
        assert forall|s: i64| #[trigger] self.sent.dom().contains(s) implies s
            <= self.ring.counters.claimed by {
            if self.received.dom().contains(s) {
            } else {
                assert(self.ring.contents.dom().contains(s));
            }
        }
    }

    /// Values are received in the order of their sequences: what an attempt
    /// to consume hands out lies after everything that was received before
    /// it.
    pub proof fn lemma_received_in_order(self, batch_size: int)
        requires
            self.balanced(),
            0 <= batch_size <= self.ring.capacity(),
        ensures
            forall|earlier: i64, later: i64|
                #[trigger] self.received.dom().contains(earlier) && !self.received.dom().contains(
                    later,
                ) && #[trigger] self.after(Step::Poll(batch_size)).received.dom().contains(later)
                    ==> earlier < later,
    {
    }

    /// Along every run from a balanced history, nothing is lost, nothing is
    /// made up and nothing is handed out twice: the history stays balanced,
    /// and what was sent or received stays so.
    pub proof fn lemma_run_keeps_balance(self, run: Seq<Step<T>>)
        requires
            self.balanced(),
            self.admits_run(run),
        ensures
            self.after_run(run).balanced(),
            forall|s: i64| #[trigger]
                self.sent.dom().contains(s) ==> self.after_run(run).sent.dom().contains(s)
                    && self.after_run(run).sent[s] == self.sent[s],
            forall|s: i64| #[trigger]
                self.received.dom().contains(s) ==> self.after_run(run).received.dom().contains(
                    s,
                ),
        decreases run.len(),
    {
        if run.len() > 0 {
            self.lemma_step_keeps_balance(run[0]);
            self.after(run[0]).lemma_run_keeps_balance(run.skip(1));
        }
    }
}

/// The record `sent` with the values of `items` added under the sequences
/// that start at `low`.
pub open spec fn with_batch<T>(sent: Map<i64, T>, low: i64, items: Seq<T>) -> Map<i64, T> {
    Map::new(
        |s: i64| sent.dom().contains(s) || low <= s < low + items.len(),
        |s: i64|
            if low <= s < low + items.len() {
                items[s - low]
            } else {
                sent[s]
            },
    )
}

} // verus!
