//! Consuming without a batch limit.
use crate::poller::{Poller, State};
use crate::ring_buffer::RingBuffer;
use crate::sequencer::Sequencer;
use vstd::prelude::*;

verus! {

/// How an attempt to consume everything that is there ended.
#[derive(Debug, Copy, Clone, PartialEq, Eq, Structural)]
pub enum EventPollerState {
    /// Nothing was there to be consumed.
    Idle,
    /// One or more values were handed to the handler.
    Processing,
}

/// A consumer that takes, in one attempt, every value up to the first
/// sequence that is not published.
pub struct EventPoller {}

impl EventPoller {
    /// A poller without a batch limit.
    pub fn new() -> Self {
        EventPoller {  }
    }

    /// Makes one attempt to consume every value `ring_buffer` holds up to
    /// the first sequence that is not published: an attempt with a batch as
    /// large as the ring.
    pub fn poll<T, S: Sequencer, P: Poller, H: Fn(T)>(
        &self,
        ring_buffer: &mut RingBuffer<T, S, P>,
        handler: &H,
    ) -> (state: EventPollerState)
        requires
            old(ring_buffer).wf(),
            forall|element: T| handler.requires((element,)),
        ensures
            final(ring_buffer).wf(),
            final(ring_buffer)@ == old(ring_buffer)@.after_poll(old(ring_buffer)@.capacity()),
            state == if old(ring_buffer)@.poll_target(old(ring_buffer)@.capacity()) > old(
                ring_buffer,
            )@.counters.gating {
                EventPollerState::Processing
            } else {
                EventPollerState::Idle
            },
            forall|i: int|
                0 <= i < old(ring_buffer)@.delivered(old(ring_buffer)@.capacity()).len()
                    ==> handler.ensures(
                    (#[trigger] old(ring_buffer)@.delivered(old(ring_buffer)@.capacity())[i],),
                    (),
                ),
    {
        let everything = ring_buffer.capacity();
        match ring_buffer.poll(everything, handler) {
            State::Idle => EventPollerState::Idle,
            State::Processing => EventPollerState::Processing,
        }
    }
}

} // verus!
