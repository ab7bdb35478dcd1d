//! Channels over a ring: the four pairings of one or several producers with
//! one or several consumers.
//!
//! A channel is a ring together with the wait strategies of its two sides.
//! Sending and receiving are single steps. A step that cannot go on says what
//! the calling thread is to do before the next step, as the strategy of its
//! side has it.
use crate::coordinator::{
    ConsumerWaitStrategyKind, Coordinator, CoordinatorView, ProducerWaitStrategyKind, WaitAction,
};
use crate::poller::{MultiConsumerPoller, Poller, PollerKind, SingleConsumerPoller, State};
use crate::ring_buffer::{
    BatchOutcome, PushOutcome, RingBuffer, RingView, StalledBatch, StalledPush,
};
use crate::sequencer::{MultiProducerSequencer, Sequencer, SequencerKind, SingleProducerSequencer};
use crate::utils::{
    assert_buffer_size_is_equal_or_less_than_i64, assert_buffer_size_pow_of_2, is_valid_capacity,
};
use vstd::prelude::*;

verus! {

/// How one step of sending a value ended.
pub enum SendOutcome<T> {
    /// The value was published under `sequence`. Where `notify` is set,
    /// sleeping consumers have to be notified.
    Sent { sequence: i64, notify: bool },
    /// The ring is full. The producer does what `wait` says and tries again
    /// with [`Channel::retry_send`].
    Stalled { stalled: StalledPush<T>, wait: WaitAction },
    /// The claim of a stalled value is not one the ring is waiting for.
    Rejected(T),
}

/// How one step of sending a batch of values ended.
pub enum SendBatchOutcome<T> {
    /// The values were published under the sequences that end with `high`.
    /// Where `notify` is set, sleeping consumers have to be notified.
    Sent { high: i64, notify: bool },
    /// The ring is full. The producer does what `wait` says and tries again
    /// with [`Channel::retry_send_n`].
    Stalled { stalled: StalledBatch<T>, wait: WaitAction },
    /// The claim of a stalled batch is not one the ring is waiting for.
    Rejected(Vec<T>),
}

/// How one step of receiving ended.
#[derive(Copy, Clone, PartialEq, Debug)]
pub enum RecvOutcome {
    /// One or more values were handed to the handler.
    Processed,
    /// Nothing was there. The consumer does what the action says before it
    /// looks again.
    Idle(WaitAction),
}

/// What a channel holds, and where its wait strategies are.
pub struct ChannelView<T> {
    /// The ring.
    pub ring: RingView<T>,
    /// The wait strategies.
    pub coordinator: CoordinatorView,
}

/// A ring and the wait strategies of its producers and consumers.
pub struct Channel<T> {
    buffer: RingBuffer<T, SequencerKind, PollerKind>,
    coordinator: Coordinator,
}

impl<T> View for Channel<T> {
    type V = ChannelView<T>;

    closed spec fn view(&self) -> ChannelView<T> {
        ChannelView { ring: self.buffer@, coordinator: self.coordinator@ }
    }
}

/// A channel around a fresh ring of the given kinds.
fn channel<T>(
    buffer_size: usize,
    sequencer: SequencerKind,
    poller: PollerKind,
    pw: ProducerWaitStrategyKind,
    cw: ConsumerWaitStrategyKind,
) -> (channel: Channel<T>)
    requires
        is_valid_capacity(buffer_size),
        sequencer.wf(),
        crate::sequencer::is_fresh(&sequencer),
        sequencer.state().capacity() == buffer_size,
        poller.wf(),
        poller.position(-1i64) == -1,
    ensures
        channel.wf(),
        channel.multi_consumer() == poller.multi_consumer(),
        channel@ == (ChannelView {
            ring: RingView::<T>::fresh(
                (buffer_size - 1) as i64,
                channel@.ring.counters.shift,
                sequencer.state().multi_producer,
            ),
            coordinator: CoordinatorView { producer: pw, consumer: cw, signalled: false },
        }),
{
    Channel {
        buffer: RingBuffer::new(buffer_size, sequencer, poller),
        coordinator: Coordinator::new(pw, cw),
    }
}

/// A channel for one producer and one consumer, with a ring of
/// `buffer_size` slots.
pub fn spsc<T>(
    buffer_size: usize,
    pw: ProducerWaitStrategyKind,
    cw: ConsumerWaitStrategyKind,
) -> (channel: Channel<T>)
    requires
        is_valid_capacity(buffer_size),
    ensures
        channel.wf(),
        !channel.multi_consumer(),
        channel@ == (ChannelView {
            ring: RingView::<T>::fresh(
                (buffer_size - 1) as i64,
                channel@.ring.counters.shift,
                false,
            ),
            coordinator: CoordinatorView { producer: pw, consumer: cw, signalled: false },
        }),
{
    let _ = assert_buffer_size_is_equal_or_less_than_i64(buffer_size);
    let _ = assert_buffer_size_pow_of_2(buffer_size);

    let sequencer = SequencerKind::SingleProducer(SingleProducerSequencer::new(buffer_size));
    let poller = PollerKind::SingleConsumer(SingleConsumerPoller::new());
    channel(buffer_size, sequencer, poller, pw, cw)
}

/// A channel for several producers and one consumer, with a ring of
/// `buffer_size` slots.
pub fn mpsc<T>(
    buffer_size: usize,
    pw: ProducerWaitStrategyKind,
    cw: ConsumerWaitStrategyKind,
) -> (channel: Channel<T>)
    requires
        is_valid_capacity(buffer_size),
    ensures
        channel.wf(),
        !channel.multi_consumer(),
        channel@ == (ChannelView {
            ring: RingView::<T>::fresh(
                (buffer_size - 1) as i64,
                channel@.ring.counters.shift,
                true,
            ),
            coordinator: CoordinatorView { producer: pw, consumer: cw, signalled: false },
        }),
{
    let _ = assert_buffer_size_is_equal_or_less_than_i64(buffer_size);
    let _ = assert_buffer_size_pow_of_2(buffer_size);

    let sequencer = SequencerKind::MultiProducer(MultiProducerSequencer::new(buffer_size));
    let poller = PollerKind::SingleConsumer(SingleConsumerPoller::new());
    channel(buffer_size, sequencer, poller, pw, cw)
}

/// A channel for one producer and several consumers, with a ring of
/// `buffer_size` slots.
pub fn spmc<T>(
    buffer_size: usize,
    pw: ProducerWaitStrategyKind,
    cw: ConsumerWaitStrategyKind,
) -> (channel: Channel<T>)
    requires
        is_valid_capacity(buffer_size),
    ensures
        channel.wf(),
        channel.multi_consumer(),
        channel@ == (ChannelView {
            ring: RingView::<T>::fresh(
                (buffer_size - 1) as i64,
                channel@.ring.counters.shift,
                false,
            ),
            coordinator: CoordinatorView { producer: pw, consumer: cw, signalled: false },
        }),
{
    let _ = assert_buffer_size_is_equal_or_less_than_i64(buffer_size);
    let _ = assert_buffer_size_pow_of_2(buffer_size);

    let sequencer = SequencerKind::SingleProducer(SingleProducerSequencer::new(buffer_size));
    let poller = PollerKind::MultiConsumer(MultiConsumerPoller::new());
    channel(buffer_size, sequencer, poller, pw, cw)
}

/// A channel for several producers and several consumers, with a ring of
/// `buffer_size` slots.
pub fn mpmc<T>(
    buffer_size: usize,
    pw: ProducerWaitStrategyKind,
    cw: ConsumerWaitStrategyKind,
) -> (channel: Channel<T>)
    requires
        is_valid_capacity(buffer_size),
    ensures
        channel.wf(),
        channel.multi_consumer(),
        channel@ == (ChannelView {
            ring: RingView::<T>::fresh(
                (buffer_size - 1) as i64,
                channel@.ring.counters.shift,
                true,
            ),
            coordinator: CoordinatorView { producer: pw, consumer: cw, signalled: false },
        }),
{
    let _ = assert_buffer_size_is_equal_or_less_than_i64(buffer_size);
    let _ = assert_buffer_size_pow_of_2(buffer_size);

    let sequencer = SequencerKind::MultiProducer(MultiProducerSequencer::new(buffer_size));
    let poller = PollerKind::MultiConsumer(MultiConsumerPoller::new());
    channel(buffer_size, sequencer, poller, pw, cw)
}

impl<T> Channel<T> {
    /// The ring of the channel is well-formed.
    pub closed spec fn wf(&self) -> bool {
        self.buffer.wf()
    }

    /// Whether the consumers of the channel share a claim counter.
    pub closed spec fn multi_consumer(&self) -> bool {
        self.buffer.poller().multi_consumer()
    }

    /// What a well-formed channel holds is well-formed.
    pub proof fn lemma_view_wf(&self)
        requires
            self.wf(),
        ensures
            self@.ring.wf(),
            self@.ring.capacity() >= 1,
    {
        self.buffer.lemma_view_wf();
    }

    /// The number of slots of the ring.
    pub fn capacity(&self) -> (capacity: usize)
        requires
            self.wf(),
        ensures
            capacity == self@.ring.capacity(),
    {
        self.buffer.capacity()
    }

    /// The highest sequence that was claimed.
    pub fn claimed(&self) -> (claimed: i64)
        requires
            self.wf(),
        ensures
            claimed == self@.ring.counters.claimed,
    {
        self.buffer.claimed()
    }

    /// The highest sequence that was consumed.
    pub fn gating(&self) -> (gating: i64)
        requires
            self.wf(),
        ensures
            gating == self@.ring.counters.gating,
    {
        self.buffer.gating()
    }

    /// Tells a producer what to do before it tries again.
    pub fn producer_wait(&self) -> (action: WaitAction)
        ensures
            action == self@.coordinator.producer_action(),
    {
        self.coordinator.producer_wait()
    }

    /// Tells a consumer what to do before it looks again. A consumer that
    /// was told to sleep asks again when it is notified.
    pub fn consumer_wait(&mut self) -> (action: WaitAction)
        ensures
            action == old(self)@.coordinator.consumer_action(),
            final(self)@.coordinator == old(self)@.coordinator.after_consumer_wait(),
            final(self)@.ring == old(self)@.ring,
            final(self).wf() == old(self).wf(),
            final(self).multi_consumer() == old(self).multi_consumer(),
    {
        self.coordinator.consumer_wait()
    }

    /// What a push that ended as `pushed` becomes as a step of sending, and
    /// what it does to the wait strategies: a published value wakes the
    /// consumers, a stalled one asks the producers' strategy how to wait.
    fn sent(&mut self, pushed: PushOutcome<T>) -> (outcome: SendOutcome<T>)
        ensures
            final(self).buffer == old(self).buffer,
            final(self)@.coordinator == match pushed {
                PushOutcome::Published(_) => old(self)@.coordinator.after_wakeup(),
                _ => old(self)@.coordinator,
            },
            outcome == match pushed {
                PushOutcome::Published(sequence) => SendOutcome::Sent {
                    sequence,
                    notify: old(self)@.coordinator.wakeup_notifies(),
                },
                PushOutcome::Stalled(stalled) => SendOutcome::Stalled {
                    stalled,
                    wait: old(self)@.coordinator.producer_action(),
                },
                PushOutcome::Rejected(element) => SendOutcome::Rejected(element),
            },
    {
        match pushed {
            PushOutcome::Published(sequence) => {
                let notify = self.coordinator.wakeup_consumer();
                SendOutcome::Sent { sequence, notify }
            },
            PushOutcome::Stalled(stalled) => SendOutcome::Stalled {
                stalled,
                wait: self.coordinator.producer_wait(),
            },
            PushOutcome::Rejected(element) => SendOutcome::Rejected(element),
        }
    }

    /// One step of sending `value`: pushes it into the ring and, where it
    /// was published, wakes the consumers.
    pub fn send(&mut self, value: T) -> (outcome: SendOutcome<T>)
        requires
            old(self).wf(),
            old(self)@.ring.counters.claimed < i64::MAX,
        ensures
            final(self).wf(),
            final(self).multi_consumer() == old(self).multi_consumer(),
            final(self)@.ring == old(self)@.ring.after_push(value),
            final(self)@.coordinator == match old(self)@.ring.push_outcome(value) {
                PushOutcome::Published(_) => old(self)@.coordinator.after_wakeup(),
                _ => old(self)@.coordinator,
            },
            outcome == match old(self)@.ring.push_outcome(value) {
                PushOutcome::Published(sequence) => SendOutcome::Sent {
                    sequence,
                    notify: old(self)@.coordinator.wakeup_notifies(),
                },
                PushOutcome::Stalled(stalled) => SendOutcome::Stalled {
                    stalled,
                    wait: old(self)@.coordinator.producer_action(),
                },
                PushOutcome::Rejected(element) => SendOutcome::Rejected(element),
            },
    {
        let pushed = self.buffer.push(value);
        self.sent(pushed)
    }

    /// One more step of sending a value that stalled.
    pub fn retry_send(&mut self, stalled: StalledPush<T>) -> (outcome: SendOutcome<T>)
        requires
            old(self).wf(),
            stalled.claim.is_none() ==> old(self)@.ring.counters.claimed < i64::MAX,
        ensures
            final(self).wf(),
            final(self).multi_consumer() == old(self).multi_consumer(),
            final(self)@.ring == old(self)@.ring.after_retry_push(stalled),
            final(self)@.coordinator == match old(self)@.ring.retry_push_outcome(stalled) {
                PushOutcome::Published(_) => old(self)@.coordinator.after_wakeup(),
                _ => old(self)@.coordinator,
            },
            outcome == match old(self)@.ring.retry_push_outcome(stalled) {
                PushOutcome::Published(sequence) => SendOutcome::Sent {
                    sequence,
                    notify: old(self)@.coordinator.wakeup_notifies(),
                },
                PushOutcome::Stalled(again) => SendOutcome::Stalled {
                    stalled: again,
                    wait: old(self)@.coordinator.producer_action(),
                },
                PushOutcome::Rejected(element) => SendOutcome::Rejected(element),
            },
    {
        let pushed = self.buffer.retry_push(stalled);
        self.sent(pushed)
    }

    /// What a batch push that ended as `pushed` becomes as a step of
    /// sending, and what it does to the wait strategies.
    fn sent_n(&mut self, pushed: BatchOutcome<T>) -> (outcome: SendBatchOutcome<T>)
        ensures
            final(self).buffer == old(self).buffer,
            final(self)@.coordinator == match pushed {
                BatchOutcome::Published(_) => old(self)@.coordinator.after_wakeup(),
                _ => old(self)@.coordinator,
            },
            outcome == match pushed {
                BatchOutcome::Published(high) => SendBatchOutcome::Sent {
                    high,
                    notify: old(self)@.coordinator.wakeup_notifies(),
                },
                BatchOutcome::Stalled(stalled) => SendBatchOutcome::Stalled {
                    stalled,
                    wait: old(self)@.coordinator.producer_action(),
                },
                BatchOutcome::Rejected(items) => SendBatchOutcome::Rejected(items),
            },
    {
        match pushed {
            BatchOutcome::Published(high) => {
                let notify = self.coordinator.wakeup_consumer();
                SendBatchOutcome::Sent { high, notify }
            },
            BatchOutcome::Stalled(stalled) => SendBatchOutcome::Stalled {
                stalled,
                wait: self.coordinator.producer_wait(),
            },
            BatchOutcome::Rejected(items) => SendBatchOutcome::Rejected(items),
        }
    }

    /// One step of sending the batch `items`: pushes it into the ring and,
    /// where it was published, wakes the consumers.
    pub fn send_n(&mut self, items: Vec<T>) -> (outcome: SendBatchOutcome<T>)
        requires
            old(self).wf(),
            items@.len() <= old(self)@.ring.capacity(),
            old(self)@.ring.counters.claimed + items@.len() <= i64::MAX,
        ensures
            final(self).wf(),
            final(self).multi_consumer() == old(self).multi_consumer(),
            final(self)@.ring == old(self)@.ring.after_push_n(items@),
            final(self)@.coordinator == if old(self)@.ring.publishes_batch(items@) {
                old(self)@.coordinator.after_wakeup()
            } else {
                old(self)@.coordinator
            },
            match outcome {
                SendBatchOutcome::Sent { high, notify } => old(self)@.ring.publishes_batch(items@)
                    && high == old(self)@.ring.counters.claimed + items@.len() && notify == old(
                    self,
                )@.coordinator.wakeup_notifies(),
                SendBatchOutcome::Stalled { stalled, wait } => !old(self)@.ring.publishes_batch(
                    items@,
                ) && stalled.claim == old(self)@.ring.stalled_claim(items@.len() as int)
                    && stalled.items@ == items@ && wait == old(
                    self,
                )@.coordinator.producer_action(),
                SendBatchOutcome::Rejected(_) => false,
            },
    {
        let pushed = self.buffer.push_n(items);
        self.sent_n(pushed)
    }

    /// One more step of sending a batch that stalled.
    pub fn retry_send_n(&mut self, stalled: StalledBatch<T>) -> (outcome: SendBatchOutcome<T>)
        requires
            old(self).wf(),
            stalled.claim.is_none() ==> stalled.items@.len() <= old(self)@.ring.capacity() && old(
                self,
            )@.ring.counters.claimed + stalled.items@.len() <= i64::MAX,
        ensures
            final(self).wf(),
            final(self).multi_consumer() == old(self).multi_consumer(),
            final(self)@.ring == match stalled.claim {
                None => old(self)@.ring.after_push_n(stalled.items@),
                Some(high) => old(self)@.ring.after_retry_claim(high, stalled.items@),
            },
            final(self)@.coordinator == if outcome is Sent {
                old(self)@.coordinator.after_wakeup()
            } else {
                old(self)@.coordinator
            },
            match stalled.claim {
                None => match outcome {
                    SendBatchOutcome::Sent { high, notify } => old(self)@.ring.publishes_batch(
                        stalled.items@,
                    ) && high == old(self)@.ring.counters.claimed + stalled.items@.len()
                        && notify == old(self)@.coordinator.wakeup_notifies(),
                    SendBatchOutcome::Stalled { stalled: again, wait } => !old(
                        self,
                    )@.ring.publishes_batch(stalled.items@) && again.claim == old(
                        self,
                    )@.ring.stalled_claim(stalled.items@.len() as int) && again.items@
                        == stalled.items@ && wait == old(self)@.coordinator.producer_action(),
                    SendBatchOutcome::Rejected(_) => false,
                },
                Some(claimed) => match outcome {
                    SendBatchOutcome::Sent { high, notify } => high == claimed && old(
                        self,
                    )@.ring.publishes_claim(claimed, stalled.items@.len() as int) && notify
                        == old(self)@.coordinator.wakeup_notifies(),
                    SendBatchOutcome::Stalled { stalled: again, wait } => again.claim == Some(
                        claimed,
                    ) && again.items@ == stalled.items@ && old(self)@.ring.keeps_claim(
                        claimed,
                        stalled.items@.len() as int,
                    ) && wait == old(self)@.coordinator.producer_action(),
                    SendBatchOutcome::Rejected(items) => items@ == stalled.items@ && !old(
                        self,
                    )@.ring.publishes_claim(claimed, stalled.items@.len() as int) && !old(
                        self,
                    )@.ring.keeps_claim(claimed, stalled.items@.len() as int),
                },
            },
    {
        let pushed = self.buffer.retry_push_n(stalled);
        self.sent_n(pushed)
    }

    /// One step of receiving up to `batch_size` values: polls the ring once
    /// and, where nothing was there, asks the consumers' strategy how to
    /// wait.
    pub fn recv<H: Fn(T)>(&mut self, batch_size: usize, handler: &H) -> (outcome: RecvOutcome)
        requires
            old(self).wf(),
            batch_size <= old(self)@.ring.capacity(),
            forall|element: T| handler.requires((element,)),
        ensures
            final(self).wf(),
            final(self).multi_consumer() == old(self).multi_consumer(),
            final(self)@.ring == old(self)@.ring.after_poll(batch_size as int),
            forall|i: int|
                0 <= i < old(self)@.ring.delivered(batch_size as int).len() ==> handler.ensures(
                    (#[trigger] old(self)@.ring.delivered(batch_size as int)[i],),
                    (),
                ),
            old(self)@.ring.poll_target(batch_size as int) > old(self)@.ring.counters.gating ==> {
                &&& outcome == RecvOutcome::Processed
                &&& final(self)@.coordinator == old(self)@.coordinator
            },
            old(self)@.ring.poll_target(batch_size as int) <= old(self)@.ring.counters.gating ==> {
                &&& outcome == RecvOutcome::Idle(old(self)@.coordinator.consumer_action())
                &&& final(self)@.coordinator == old(self)@.coordinator.after_consumer_wait()
            },
    {
        match self.buffer.poll(batch_size, handler) {
            State::Processing => RecvOutcome::Processed,
            State::Idle => RecvOutcome::Idle(self.coordinator.consumer_wait()),
        }
    }
}

} // verus!
