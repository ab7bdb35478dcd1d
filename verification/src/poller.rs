//! The consumer side of a ring: claiming published sequences, handing their
//! values to a handler and releasing their slots.
use crate::sequence::Sequence;
use crate::sequencer::Sequencer;
use crate::slot_array::{slots_after_drain, SlotArray};
use crate::utils::{highest_run, lemma_highest_run};
use vstd::prelude::*;

verus! {

/// How an attempt to consume ended.
#[derive(Copy, Clone, Debug, PartialEq, Eq, Structural)]
pub enum State {
    /// Nothing was there to be consumed.
    Idle,
    /// One or more values were handed to the handler.
    Processing,
}

/// The highest sequence a consumer at `current` may look at: the cursor, or
/// `batch_size` sequences on from `current` where that is less.
pub open spec fn poll_limit(current: i64, cursor: i64, batch_size: i64) -> int {
    if cursor <= current + batch_size {
        cursor as int
    } else {
        current + batch_size
    }
}

/// The sequence up to which a consumer at `current` consumes in one attempt:
/// the end of the run of available sequences that follows `current` and does
/// not pass the limit, and `current` itself where there is no such run.
pub open spec fn poll_target<S: Sequencer>(sequencer: &S, current: i64, batch_size: i64) -> int {
    let limit = poll_limit(current, sequencer.state().cursor, batch_size);
    if current >= limit {
        current as int
    } else {
        highest_run(|s: i64| sequencer.is_available(s), (current + 1) as i64, limit as i64)
    }
}

/// The target of an attempt is not before `current` and not past the limit,
/// and everything from `current` up to it is available.
pub proof fn lemma_poll_target<S: Sequencer>(sequencer: &S, current: i64, batch_size: i64)
    requires
        0 <= batch_size,
    ensures
        current <= poll_target(sequencer, current, batch_size),
        current < poll_target(sequencer, current, batch_size) ==> poll_target(
            sequencer,
            current,
            batch_size,
        ) <= poll_limit(current, sequencer.state().cursor, batch_size),
        poll_target(sequencer, current, batch_size) <= current + batch_size,
        forall|s: i64|
            current < s <= poll_target(sequencer, current, batch_size)
                ==> #[trigger] sequencer.is_available(s) && s <= sequencer.state().cursor,
{
    let limit = poll_limit(current, sequencer.state().cursor, batch_size);
    if current < limit {
        let available = |s: i64| sequencer.is_available(s);
        lemma_highest_run(available, (current + 1) as i64, limit as i64);
        assert forall|s: i64|
            current < s <= poll_target(
                sequencer,
                current,
                batch_size,
            ) implies #[trigger] sequencer.is_available(s) && s <= sequencer.state().cursor by {
            assert(available(s));
        }
    }
}

/// One attempt to consume from a ring.
pub trait Poller: Sized {
    /// The parts of the poller fit together.
    spec fn wf(&self) -> bool;

    /// Whether several consumers may poll through this poller.
    spec fn multi_consumer(&self) -> bool;

    /// The sequence up to which consumers have claimed values, in a ring
    /// whose gating sequence is `gating`.
    spec fn position(&self, gating: i64) -> i64;

    /// Consumes the run of available sequences that follows the position of
    /// the consumers, up to `batch_size` of them: hands each value to
    /// `handler`, lowest sequence first, leaves the slots empty and sets the
    /// gating sequence to the last of them. Where there is no such run,
    /// nothing changes.
    fn poll<T, S: Sequencer, H: Fn(T)>(
        &mut self,
        sequencer: &mut S,
        buffer: &mut SlotArray<T>,
        batch_size: i64,
        handler: &H,
    ) -> (state: State)
        requires
            old(self).wf(),
            old(sequencer).wf(),
            old(buffer).wf(),
            old(buffer).mask() == old(sequencer).state().mask,
            0 <= batch_size <= old(sequencer).state().capacity(),
            forall|s: i64|
                old(self).position(old(sequencer).state().gating) < s <= poll_target(
                    old(sequencer),
                    old(self).position(old(sequencer).state().gating),
                    batch_size,
                ) ==> (#[trigger] old(buffer).value(s)).is_some(),
            forall|element: T| handler.requires((element,)),
        ensures
            final(self).wf(),
            final(self).multi_consumer() == old(self).multi_consumer(),
            final(sequencer).wf(),
            final(buffer).wf(),
            final(buffer).mask() == old(buffer).mask(),
            final(buffer).shift() == old(buffer).shift(),
            forall|t: i64| #[trigger] final(sequencer).is_available(t) == old(sequencer).is_available(t),
            ({
                let current = old(self).position(old(sequencer).state().gating);
                let target = poll_target(old(sequencer), current, batch_size);
                if target > current {
                    &&& state == State::Processing
                    &&& final(sequencer).state() == old(sequencer).state().after_gating(
                        target as i64,
                    )
                    &&& final(self).position(target as i64) == target
                    &&& final(buffer).slots() == slots_after_drain(
                        old(buffer).slots(),
                        old(buffer).mask(),
                        (current + 1) as i64,
                        target as i64,
                    )
                    &&& forall|s: i64|
                        current < s <= target ==> handler.ensures(
                            ((#[trigger] old(buffer).value(s)).unwrap(),),
                            (),
                        )
                } else {
                    &&& state == State::Idle
                    &&& final(sequencer).state() == old(sequencer).state()
                    &&& final(self).position(old(sequencer).state().gating) == current
                    &&& final(buffer).slots() == old(buffer).slots()
                }
            }),
    ;
}

/// The sequences a consumer at `current` may consume in one attempt, as the
/// first and the last of them, or `None` where there are none.
fn window<S: Sequencer>(sequencer: &S, current: i64, batch_size: i64) -> (range: Option<
    (i64, i64),
>)
    requires
        sequencer.wf(),
        0 <= batch_size,
    ensures
        range == if poll_target(sequencer, current, batch_size) > current {
            Some(((current + 1) as i64, poll_target(sequencer, current, batch_size) as i64))
        } else {
            None
        },
{
    let cursor = sequencer.get_cursor_sequence_acquire();
    let available = match current.checked_add(batch_size) {
        Some(reach) => if cursor <= reach {
            cursor
        } else {
            reach
        },
        None => cursor,
    };
    if current >= available {
        return None;
    }
    let next = current + 1;
    let highest = sequencer.get_highest(next, available);
    if highest < next {
        return None;
    }
    Some((next, highest))
}

/// Poller for a ring with one consumer. The consumer's position is the
/// gating sequence.
pub struct SingleConsumerPoller {}

impl SingleConsumerPoller {
    /// A poller for a single consumer.
    pub fn new() -> (r: Self)
        ensures
            r.wf(),
    {
        SingleConsumerPoller {  }
    }
}

impl Poller for SingleConsumerPoller {
    open spec fn wf(&self) -> bool {
        true
    }

    open spec fn multi_consumer(&self) -> bool {
        false
    }

    open spec fn position(&self, gating: i64) -> i64 {
        gating
    }

    fn poll<T, S: Sequencer, H: Fn(T)>(
        &mut self,
        sequencer: &mut S,
        buffer: &mut SlotArray<T>,
        batch_size: i64,
        handler: &H,
    ) -> (state: State) {
        let current = sequencer.get_gating_sequence_relaxed();
        proof {
            lemma_poll_target(&*sequencer, current, batch_size);
        }
        match window(&*sequencer, current, batch_size) {
            None => State::Idle,
            Some((next, highest)) => {
                buffer.drain(next, highest, handler);
                sequencer.publish_gating_sequence(highest);
                State::Processing
            },
        }
    }
}

/// Poller for a ring with several consumers. The consumers share a claim
/// counter, and each attempt moves it past the sequences it takes.
pub struct MultiConsumerPoller {
    sequence: Sequence,
}

impl MultiConsumerPoller {
    /// A poller for several consumers that has claimed nothing.
    pub fn new() -> (r: Self)
        ensures
            r.wf(),
            r.claimed() == -1,
    {
        MultiConsumerPoller { sequence: Sequence::default() }
    }

    /// The highest sequence that a consumer has claimed.
    pub closed spec fn claimed(&self) -> i64 {
        self.sequence@
    }

    /// Claims the run of available sequences that follows the last claim, up
    /// to `batch_size` of them, and returns its first and last sequence.
    /// Where there is no such run, nothing is claimed.
    ///
    /// The claim is made by compare-and-exchange on the claim counter from
    /// the value that was read, so no sequence is ever part of two claims.
    ///
    /// A consumer that claims here moves the values out of the slots and
    /// releases them with [`Sequencer::publish_gating_sequence`]. Claims have
    /// to be released in the order in which they were made: the gating
    /// sequence is set without a check, so the release of a later claim
    /// frees the slots of an earlier one, read or not, and the release of
    /// the earlier one moves the gating sequence back. [`Poller::poll`]
    /// claims and releases in one step.
    pub fn claim<S: Sequencer>(&mut self, sequencer: &S, batch_size: i64) -> (range: Option<
        (i64, i64),
    >)
        requires
            sequencer.wf(),
            0 <= batch_size,
        ensures
            range == if poll_target(sequencer, old(self).claimed(), batch_size) > old(
                self,
            ).claimed() {
                Some(
                    (
                        (old(self).claimed() + 1) as i64,
                        poll_target(sequencer, old(self).claimed(), batch_size) as i64,
                    ),
                )
            } else {
                None
            },
            final(self).claimed() == poll_target(sequencer, old(self).claimed(), batch_size),
    {
        let current = self.sequence.get_acquire();
        proof {
            lemma_poll_target(sequencer, current, batch_size);
        }
        match window(sequencer, current, batch_size) {
            None => None,
            Some((next, highest)) => {
                let exchanged = self.sequence.compare_and_exchange_weak_volatile(current, highest);
                assert(exchanged);
                Some((next, highest))
            },
        }
    }
}

impl Poller for MultiConsumerPoller {
    open spec fn wf(&self) -> bool {
        true
    }

    open spec fn multi_consumer(&self) -> bool {
        true
    }

    open spec fn position(&self, gating: i64) -> i64 {
        self.claimed()
    }

    fn poll<T, S: Sequencer, H: Fn(T)>(
        &mut self,
        sequencer: &mut S,
        buffer: &mut SlotArray<T>,
        batch_size: i64,
        handler: &H,
    ) -> (state: State) {
        proof {
            lemma_poll_target(&*sequencer, self.sequence@, batch_size);
        }
        match self.claim(&*sequencer, batch_size) {
            None => State::Idle,
            Some((next, highest)) => {
                buffer.drain(next, highest, handler);
                sequencer.publish_gating_sequence(highest);
                State::Processing
            },
        }
    }
}

/// A poller of either kind.
pub enum PollerKind {
    /// A poller for one consumer.
    SingleConsumer(SingleConsumerPoller),
    /// A poller for several consumers.
    MultiConsumer(MultiConsumerPoller),
}

impl Poller for PollerKind {
    open spec fn wf(&self) -> bool {
        match self {
            PollerKind::SingleConsumer(poller) => poller.wf(),
            PollerKind::MultiConsumer(poller) => poller.wf(),
        }
    }

    open spec fn multi_consumer(&self) -> bool {
        match self {
            PollerKind::SingleConsumer(poller) => poller.multi_consumer(),
            PollerKind::MultiConsumer(poller) => poller.multi_consumer(),
        }
    }

    open spec fn position(&self, gating: i64) -> i64 {
        match self {
            PollerKind::SingleConsumer(poller) => poller.position(gating),
            PollerKind::MultiConsumer(poller) => poller.position(gating),
        }
    }

    fn poll<T, S: Sequencer, H: Fn(T)>(
        &mut self,
        sequencer: &mut S,
        buffer: &mut SlotArray<T>,
        batch_size: i64,
        handler: &H,
    ) -> (state: State) {
        match self {
            PollerKind::SingleConsumer(poller) => poller.poll(
                sequencer,
                buffer,
                batch_size,
                handler,
            ),
            PollerKind::MultiConsumer(poller) => poller.poll(
                sequencer,
                buffer,
                batch_size,
                handler,
            ),
        }
    }
}

} // verus!
