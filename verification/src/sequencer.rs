//! The producer side of a ring: claiming sequences and publishing them.
//!
//! A sequencer hands out sequence numbers, holds producers back while the
//! slowest consumer is a full lap behind, and tells consumers which of the
//! claimed sequences are ready to be read.
use crate::availability_buffer::{
    flag_of, flags_after_range, lemma_flags_after_range, AvailabilityBuffer,
};
use crate::sequence::Sequence;
use crate::utils::{
    capacity_shift, cell_of, highest_run, is_geometry, is_valid_capacity, lemma_cell_and_lap,
    lemma_highest_run_agrees, lemma_highest_run_is,
};
use vstd::prelude::*;

verus! {

/// What a producer got when it asked for sequences.
#[derive(Clone, Copy, PartialEq, Eq, Structural, Debug)]
pub enum Claim {
    /// The sequences up to this one are the producer's, and their slots are
    /// free to be written.
    Ready(i64),
    /// The sequences up to this one are the producer's, but their slots are
    /// still in use. The producer takes [`Sequencer::wait`] steps until the
    /// wrap point of the claim is reached.
    Pending(i64),
    /// Nothing was claimed because the slots are still in use. The producer
    /// asks again later.
    Full,
}

/// The counters of a sequencer.
pub struct SequencerState {
    /// The mask that selects the cell of a sequence: the capacity less one.
    pub mask: i64,
    /// The binary logarithm of the capacity.
    pub shift: u32,
    /// Whether several producers may hold claims at the same time.
    pub multi_producer: bool,
    /// The highest sequence that was handed out to a producer.
    pub claimed: i64,
    /// The sequence up to which consumers look for values.
    pub cursor: i64,
    /// The highest sequence consumers are finished with.
    pub gating: i64,
    /// The gating sequence as the producers last saw it.
    pub cached_gating: i64,
}

impl SequencerState {
    /// The number of slots of the ring.
    pub open spec fn capacity(self) -> int {
        self.mask + 1
    }

    /// The counters belong to a ring of some capacity, claims count up from
    /// -1, and with several producers the cursor is the highest claim.
    pub open spec fn wf(self) -> bool {
        &&& is_geometry(self.mask, self.shift)
        &&& -1 <= self.claimed
        &&& self.multi_producer ==> self.cursor == self.claimed
    }

    /// The counters of a sequencer that has not been used.
    pub open spec fn fresh(mask: i64, shift: u32, multi_producer: bool) -> Self {
        SequencerState {
            mask,
            shift,
            multi_producer,
            claimed: -1i64,
            cursor: -1i64,
            gating: -1i64,
            cached_gating: -1i64,
        }
    }

    /// The gating sequence that must be reached before a claim of `n` more
    /// sequences may be written.
    pub open spec fn wrap_point(self, n: int) -> int {
        self.claimed + n - self.capacity()
    }

    /// Whether a claim of `n` more sequences may be written at once: its wrap
    /// point is not above the cached gating sequence or not above the gating
    /// sequence itself.
    pub open spec fn claim_is_ready(self, n: int) -> bool {
        self.wrap_point(n) <= self.cached_gating || self.wrap_point(n) <= self.gating
    }

    /// What a request for `n` sequences returns.
    pub open spec fn claim(self, n: int) -> Claim {
        if self.claim_is_ready(n) {
            Claim::Ready((self.claimed + n) as i64)
        } else if self.multi_producer {
            Claim::Pending((self.claimed + n) as i64)
        } else {
            Claim::Full
        }
    }

    /// The counters after a request for `n` sequences. The cached gating
    /// sequence is refreshed where it did not suffice and the gating sequence
    /// does. Several producers take the claim in any case, a single producer
    /// only where it is ready.
    pub open spec fn after_claim(self, n: int) -> Self {
        let claimed = if self.claim_is_ready(n) || self.multi_producer {
            (self.claimed + n) as i64
        } else {
            self.claimed
        };
        SequencerState {
            claimed,
            cursor: if self.multi_producer {
                claimed
            } else {
                self.cursor
            },
            cached_gating: if self.wrap_point(n) > self.cached_gating && self.wrap_point(n)
                <= self.gating {
                self.gating
            } else {
                self.cached_gating
            },
            ..self
        }
    }

    /// What one look at the gating sequence returns to a producer that waits
    /// for `wrap_point`.
    pub open spec fn wait_result(self, wrap_point: i64) -> Option<i64> {
        if wrap_point > self.gating {
            None
        } else {
            Some(self.gating)
        }
    }

    /// The counters after one look at the gating sequence: a look that ends
    /// the wait is cached.
    pub open spec fn after_wait(self, wrap_point: i64) -> Self {
        if wrap_point > self.gating {
            self
        } else {
            SequencerState { cached_gating: self.gating, ..self }
        }
    }

    /// The counters after the sequences up to `high` were published: the
    /// cursor of a single producer moves to `high`.
    pub open spec fn after_publish(self, high: i64) -> Self {
        if self.multi_producer {
            self
        } else {
            SequencerState { cursor: high, ..self }
        }
    }

    /// The counters after consumers released the sequences up to `sequence`.
    pub open spec fn after_gating(self, sequence: i64) -> Self {
        SequencerState { gating: sequence, ..self }
    }
}

/// The claiming and publishing steps of a ring, and what consumers may ask
/// about them.
///
/// An implementation is described by its counters and by the test that tells
/// whether a sequence is available to consumers.
pub trait Sequencer: Sized {
    /// The counters of the sequencer.
    spec fn state(&self) -> SequencerState;

    /// The parts of the sequencer fit together.
    spec fn wf(&self) -> bool;

    /// Whether `sequence` passes the availability test.
    spec fn is_available(&self, sequence: i64) -> bool;

    /// The counters of a well-formed sequencer are well-formed, and with a
    /// single producer every sequence passes the availability test.
    proof fn lemma_wf(&self)
        requires
            self.wf(),
        ensures
            self.state().wf(),
            !self.state().multi_producer ==> forall|s: i64| #[trigger] self.is_available(s),
    ;

    /// With several producers, of two sequences one lap apart at most one is
    /// available.
    proof fn lemma_one_lap_available(&self, sequence: i64)
        requires
            self.wf(),
            sequence + self.state().capacity() <= i64::MAX,
        ensures
            self.state().multi_producer ==> !(self.is_available(sequence) && self.is_available(
                (sequence + self.state().capacity()) as i64,
            )),
    ;

    /// Claims the next sequence: [`Sequencer::next_n`] for one sequence.
    fn next(&mut self) -> (claim: Claim)
        requires
            old(self).wf(),
            old(self).state().claimed < i64::MAX,
        ensures
            final(self).wf(),
            final(self).state() == old(self).state().after_claim(1),
            claim == old(self).state().claim(1),
            forall|t: i64| #[trigger] final(self).is_available(t) == old(self).is_available(t),
    ;

    /// Claims the next `n` sequences.
    fn next_n(&mut self, n: usize) -> (claim: Claim)
        requires
            old(self).wf(),
            n <= old(self).state().capacity(),
            old(self).state().claimed + n <= i64::MAX,
        ensures
            final(self).wf(),
            final(self).state() == old(self).state().after_claim(n as int),
            claim == old(self).state().claim(n as int),
            forall|t: i64| #[trigger] final(self).is_available(t) == old(self).is_available(t),
    ;

    /// One look at the gating sequence on behalf of a pending claim: the
    /// gating sequence where it has reached `wrap_point`, and `None` where
    /// the producer has to keep waiting.
    fn wait(&mut self, wrap_point: i64) -> (gating: Option<i64>)
        requires
            old(self).wf(),
        ensures
            final(self).wf(),
            final(self).state() == old(self).state().after_wait(wrap_point),
            gating == old(self).state().wait_result(wrap_point),
            forall|t: i64| #[trigger] final(self).is_available(t) == old(self).is_available(t),
    ;

    /// Publishes `sequence` to the consumers.
    ///
    /// With a single producer the cursor moves to `sequence`. With several,
    /// the cell of `sequence` is flagged with its lap: `sequence` becomes
    /// available, and another sequence of that cell is available exactly
    /// where its flag is the same.
    fn publish_cursor_sequence(&mut self, sequence: i64)
        requires
            old(self).wf(),
        ensures
            final(self).wf(),
            final(self).state() == old(self).state().after_publish(sequence),
            forall|t: i64|
                #[trigger] final(self).is_available(t) == if old(self).state().multi_producer
                    && cell_of(t, old(self).state().mask) == cell_of(
                    sequence,
                    old(self).state().mask,
                ) {
                    flag_of(t, old(self).state().shift) == flag_of(
                        sequence,
                        old(self).state().shift,
                    )
                } else {
                    old(self).is_available(t)
                },
    ;

    /// Publishes the sequences `low..=high` to the consumers.
    ///
    /// With a single producer the cursor moves to `high`. With several, the
    /// cells of `low..=high` are flagged one after the other; where the range
    /// is no longer than a lap, each of its sequences becomes available and
    /// every other sequence less than a lap away from all of them stays as it
    /// was.
    fn publish_cursor_sequence_range(&mut self, low: i64, high: i64)
        requires
            old(self).wf(),
        ensures
            final(self).wf(),
            final(self).state() == old(self).state().after_publish(high),
            !old(self).state().multi_producer || low > high ==> forall|t: i64| #[trigger]
                final(self).is_available(t) == old(self).is_available(t),
            old(self).state().multi_producer && low <= high && high - low <= old(
                self,
            ).state().mask ==> {
                &&& forall|t: i64| low <= t <= high ==> #[trigger] final(self).is_available(t)
                &&& forall|t: i64|
                    (t < low || high < t) && high - old(self).state().mask <= t <= low + old(
                        self,
                    ).state().mask ==> #[trigger] final(self).is_available(t) == old(
                        self,
                    ).is_available(t)
            },
    ;

    /// Sets the gating sequence to `sequence`, whatever it was.
    fn publish_gating_sequence(&mut self, sequence: i64)
        requires
            old(self).wf(),
        ensures
            final(self).wf(),
            final(self).state() == old(self).state().after_gating(sequence),
            forall|t: i64| #[trigger] final(self).is_available(t) == old(self).is_available(t),
    ;

    /// The last sequence of the run of available sequences that starts at
    /// `low` and does not pass `high`; `low - 1` where `low` is not
    /// available, and `high` where `low..=high` is empty.
    fn get_highest(&self, low: i64, high: i64) -> (highest: i64)
        requires
            self.wf(),
            i64::MIN < low,
        ensures
            highest == highest_run(|s: i64| self.is_available(s), low, high),
    ;

    /// The cursor, read as an acquire load.
    fn get_cursor_sequence_acquire(&self) -> (cursor: i64)
        requires
            self.wf(),
        ensures
            cursor == self.state().cursor,
    ;

    /// The gating sequence, read with no ordering.
    fn get_gating_sequence_relaxed(&self) -> (gating: i64)
        requires
            self.wf(),
        ensures
            gating == self.state().gating,
    ;
}

/// `sequence` can be read by consumers: it is not above the cursor and it is
/// available.
pub open spec fn is_published<S: Sequencer>(sequencer: &S, sequence: i64) -> bool {
    sequence <= sequencer.state().cursor && sequencer.is_available(sequence)
}

/// `sequencer` has not been used: its counters are at -1, and with several
/// producers no sequence of the first lap is available.
pub open spec fn is_fresh<S: Sequencer>(sequencer: &S) -> bool {
    &&& sequencer.state() == SequencerState::fresh(
        sequencer.state().mask,
        sequencer.state().shift,
        sequencer.state().multi_producer,
    )
    &&& sequencer.state().multi_producer ==> forall|s: i64|
        0 <= s <= sequencer.state().mask ==> !#[trigger] sequencer.is_available(s)
}

/// Sequencer for a ring with one producer.
///
/// The producer publishes its sequences in the order it claimed them, so the
/// cursor is the last published sequence and every sequence passes the
/// availability test.
pub struct SingleProducerSequencer {
    sequence: Sequence,
    cached: Sequence,
    buffer_size: i64,
    cursor_sequence: Sequence,
    gating_sequence: Sequence,
    shift: Ghost<u32>,
}

impl SingleProducerSequencer {
    /// A sequencer for a ring of `buffer_size` slots in which nothing was
    /// claimed, published or consumed.
    pub fn new(buffer_size: usize) -> (r: Self)
        requires
            is_valid_capacity(buffer_size),
        ensures
            r.wf(),
            r.state() == SequencerState::fresh((buffer_size - 1) as i64, r.state().shift, false),
            is_fresh(&r),
    {
        let shift = capacity_shift(buffer_size).unwrap();
        SingleProducerSequencer {
            sequence: Sequence::default(),
            cached: Sequence::default(),
            buffer_size: crate::utils::assert_buffer_size_is_equal_or_less_than_i64(
                crate::utils::assert_buffer_size_pow_of_2(buffer_size),
            ),
            cursor_sequence: Sequence::default(),
            gating_sequence: Sequence::default(),
            shift: Ghost(shift),
        }
    }
}

impl Sequencer for SingleProducerSequencer {
    closed spec fn state(&self) -> SequencerState {
        SequencerState {
            mask: (self.buffer_size - 1) as i64,
            shift: self.shift@,
            multi_producer: false,
            claimed: self.sequence@,
            cursor: self.cursor_sequence@,
            gating: self.gating_sequence@,
            cached_gating: self.cached@,
        }
    }

    closed spec fn wf(&self) -> bool {
        &&& 1 <= self.buffer_size
        &&& is_geometry((self.buffer_size - 1) as i64, self.shift@)
        &&& -1 <= self.sequence@
    }

    open spec fn is_available(&self, sequence: i64) -> bool {
        true
    }

    proof fn lemma_wf(&self) {
    }

    proof fn lemma_one_lap_available(&self, sequence: i64) {
    }

    fn next(&mut self) -> (claim: Claim) {
        proof {
            lemma_cell_and_lap(0, self.state().mask, self.state().shift);
        }
        self.next_n(1)
    }

    fn next_n(&mut self, n: usize) -> (claim: Claim) {
        proof {
            lemma_cell_and_lap(0, self.state().mask, self.state().shift);
        }
        let next: i64 = self.sequence.get_relaxed() + n as i64;
        let wrap_point: i64 = next - self.buffer_size;

        if wrap_point > self.cached.get_relaxed() {
            if self.wait(wrap_point).is_none() {
                return Claim::Full;
            }
        }
        self.sequence.set_relaxed(next);
        Claim::Ready(next)
    }

    fn wait(&mut self, wrap_point: i64) -> (gating: Option<i64>) {
        let gating = self.gating_sequence.get_acquire();
        if wrap_point > gating {
            None
        } else {
            self.cached.set_relaxed(gating);
            Some(gating)
        }
    }

    fn publish_cursor_sequence(&mut self, sequence: i64) {
        self.cursor_sequence.set_release(sequence);
    }

    fn publish_cursor_sequence_range(&mut self, low: i64, high: i64) {
        self.cursor_sequence.set_release(high);
    }

    fn publish_gating_sequence(&mut self, sequence: i64) {
        self.gating_sequence.set_release(sequence);
    }

    fn get_highest(&self, low: i64, high: i64) -> (highest: i64) {
        proof {
            if low <= high {
                lemma_highest_run_is(|s: i64| self.is_available(s), low, high, high as int);
            }
        }
        high
    }

    fn get_cursor_sequence_acquire(&self) -> (cursor: i64) {
        self.cursor_sequence.get_acquire()
    }

    fn get_gating_sequence_relaxed(&self) -> (gating: i64) {
        self.gating_sequence.get_relaxed()
    }
}

/// Sequencer for a ring with several producers.
///
/// The cursor counts claims. Producers publish in any order, each by flagging
/// the cells of its sequences, and a sequence is available where its cell
/// carries the flag of its lap.
pub struct MultiProducerSequencer {
    buffer_size: i64,
    cached: Sequence,
    cursor_sequence: Sequence,
    gating_sequence: Sequence,
    availability_buffer: AvailabilityBuffer,
}

impl MultiProducerSequencer {
    /// A sequencer for a ring of `buffer_size` slots in which nothing was
    /// claimed, published or consumed.
    pub fn new(buffer_size: usize) -> (r: Self)
        requires
            is_valid_capacity(buffer_size),
        ensures
            r.wf(),
            r.state() == SequencerState::fresh((buffer_size - 1) as i64, r.state().shift, true),
            r.flags() == Seq::new(buffer_size as nat, |i: int| -1i32),
            is_fresh(&r),
    {
        let r = MultiProducerSequencer {
            buffer_size: crate::utils::assert_buffer_size_is_equal_or_less_than_i64(
                crate::utils::assert_buffer_size_pow_of_2(buffer_size),
            ),
            cached: Sequence::default(),
            cursor_sequence: Sequence::default(),
            gating_sequence: Sequence::default(),
            availability_buffer: AvailabilityBuffer::new(buffer_size),
        };
        proof {
            r.availability_buffer.lemma_wf();
            assert forall|s: i64| 0 <= s <= r.state().mask implies !#[trigger] r.is_available(
                s,
            ) by {
                crate::utils::lemma_first_lap(s, r.state().mask, r.state().shift);
            }
        }
        r
    }

    /// The commit flags, the flag of the cell of sequence 0 first.
    pub closed spec fn flags(&self) -> Seq<i32> {
        self.availability_buffer.flags()
    }

    /// A sequence is available where the flag of its cell is the flag of its
    /// lap.
    pub proof fn lemma_is_available(&self, sequence: i64)
        requires
            self.wf(),
        ensures
            self.flags().len() == self.state().capacity(),
            0 <= cell_of(sequence, self.state().mask) < self.state().capacity(),
            self.is_available(sequence) == (self.flags()[cell_of(sequence, self.state().mask)]
                == flag_of(sequence, self.state().shift)),
    {
        self.availability_buffer.lemma_wf();
        crate::utils::lemma_cell_in_range(sequence, self.state().mask);
    }
}

impl Sequencer for MultiProducerSequencer {
    closed spec fn state(&self) -> SequencerState {
        SequencerState {
            mask: self.availability_buffer.mask(),
            shift: self.availability_buffer.shift(),
            multi_producer: true,
            claimed: self.cursor_sequence@,
            cursor: self.cursor_sequence@,
            gating: self.gating_sequence@,
            cached_gating: self.cached@,
        }
    }

    closed spec fn wf(&self) -> bool {
        &&& self.availability_buffer.wf()
        &&& self.buffer_size == self.availability_buffer.capacity()
        &&& -1 <= self.cursor_sequence@
    }

    closed spec fn is_available(&self, sequence: i64) -> bool {
        self.availability_buffer.is_set(sequence)
    }

    proof fn lemma_wf(&self) {
        self.availability_buffer.lemma_wf();
    }

    proof fn lemma_one_lap_available(&self, sequence: i64) {
        let mask = self.state().mask;
        let shift = self.state().shift;
        self.availability_buffer.lemma_wf();
        crate::utils::lemma_next_lap(sequence, mask, shift);
        crate::utils::lemma_consecutive_flags_differ(((sequence >> shift) + 1) as i64);
    }

    fn next(&mut self) -> (claim: Claim) {
        proof {
            self.availability_buffer.lemma_wf();
        }
        self.next_n(1)
    }

    fn next_n(&mut self, n: usize) -> (claim: Claim) {
        proof {
            self.availability_buffer.lemma_wf();
        }
        let n: i64 = n as i64;
        let next: i64 = self.cursor_sequence.fetch_add_volatile(n) + n;
        let wrap_point: i64 = next - self.buffer_size;

        if wrap_point > self.cached.get_relaxed() {
            if self.wait(wrap_point).is_none() {
                return Claim::Pending(next);
            }
        }
        Claim::Ready(next)
    }

    fn wait(&mut self, wrap_point: i64) -> (gating: Option<i64>) {
        let gating = self.gating_sequence.get_acquire();
        if wrap_point > gating {
            None
        } else {
            self.cached.set_relaxed(gating);
            Some(gating)
        }
    }

    fn publish_cursor_sequence(&mut self, sequence: i64)
        ensures
            final(self).flags() == old(self).flags().update(
                cell_of(sequence, old(self).state().mask),
                flag_of(sequence, old(self).state().shift),
            ),
    {
        proof {
            self.availability_buffer.lemma_wf();
            crate::utils::lemma_cell_in_range(sequence, self.state().mask);
        }
        self.availability_buffer.set(sequence);
        proof {
            assert forall|t: i64|
                #[trigger] self.is_available(t) == if cell_of(t, old(self).state().mask)
                    == cell_of(sequence, old(self).state().mask) {
                    flag_of(t, old(self).state().shift) == flag_of(
                        sequence,
                        old(self).state().shift,
                    )
                } else {
                    old(self).is_available(t)
                } by {
                crate::utils::lemma_cell_in_range(t, self.state().mask);
            }
        }
    }

    fn publish_cursor_sequence_range(&mut self, low: i64, high: i64)
        ensures
            final(self).flags() == flags_after_range(
                old(self).flags(),
                old(self).state().mask,
                old(self).state().shift,
                low,
                high,
            ),
    {
        proof {
            self.availability_buffer.lemma_wf();
            if low <= high && high - low <= self.state().mask {
                lemma_flags_after_range(
                    self.flags(),
                    self.state().mask,
                    self.state().shift,
                    low,
                    high,
                );
            }
        }
        self.availability_buffer.set_range(low, high);
    }

    fn publish_gating_sequence(&mut self, sequence: i64) {
        self.gating_sequence.set_release(sequence);
    }

    fn get_highest(&self, low: i64, high: i64) -> (highest: i64) {
        proof {
            lemma_highest_run_agrees(
                |s: i64| self.availability_buffer.is_set(s),
                |s: i64| self.is_available(s),
                low,
                high,
            );
        }
        self.availability_buffer.get_available(low, high)
    }

    fn get_cursor_sequence_acquire(&self) -> (cursor: i64) {
        self.cursor_sequence.get_acquire()
    }

    fn get_gating_sequence_relaxed(&self) -> (gating: i64) {
        self.gating_sequence.get_relaxed()
    }
}

/// A sequencer of either kind.
pub enum SequencerKind {
    /// A sequencer for one producer.
    SingleProducer(SingleProducerSequencer),
    /// A sequencer for several producers.
    MultiProducer(MultiProducerSequencer),
}

impl Sequencer for SequencerKind {
    open spec fn state(&self) -> SequencerState {
        match self {
            SequencerKind::SingleProducer(sequencer) => sequencer.state(),
            SequencerKind::MultiProducer(sequencer) => sequencer.state(),
        }
    }

    open spec fn wf(&self) -> bool {
        match self {
            SequencerKind::SingleProducer(sequencer) => sequencer.wf(),
            SequencerKind::MultiProducer(sequencer) => sequencer.wf(),
        }
    }

    open spec fn is_available(&self, sequence: i64) -> bool {
        match self {
            SequencerKind::SingleProducer(sequencer) => sequencer.is_available(sequence),
            SequencerKind::MultiProducer(sequencer) => sequencer.is_available(sequence),
        }
    }

    proof fn lemma_wf(&self) {
        match self {
            SequencerKind::SingleProducer(sequencer) => sequencer.lemma_wf(),
            SequencerKind::MultiProducer(sequencer) => sequencer.lemma_wf(),
        }
    }

    proof fn lemma_one_lap_available(&self, sequence: i64) {
        match self {
            SequencerKind::SingleProducer(sequencer) => sequencer.lemma_one_lap_available(
                sequence,
            ),
            SequencerKind::MultiProducer(sequencer) => sequencer.lemma_one_lap_available(sequence),
        }
    }

    fn next(&mut self) -> (claim: Claim) {
        match self {
            SequencerKind::SingleProducer(sequencer) => sequencer.next(),
            SequencerKind::MultiProducer(sequencer) => sequencer.next(),
        }
    }

    fn next_n(&mut self, n: usize) -> (claim: Claim) {
        match self {
            SequencerKind::SingleProducer(sequencer) => sequencer.next_n(n),
            SequencerKind::MultiProducer(sequencer) => sequencer.next_n(n),
        }
    }

    fn wait(&mut self, wrap_point: i64) -> (gating: Option<i64>) {
        match self {
            SequencerKind::SingleProducer(sequencer) => sequencer.wait(wrap_point),
            SequencerKind::MultiProducer(sequencer) => sequencer.wait(wrap_point),
        }
    }

    fn publish_cursor_sequence(&mut self, sequence: i64) {
        match self {
            SequencerKind::SingleProducer(sequencer) => sequencer.publish_cursor_sequence(
                sequence,
            ),
            SequencerKind::MultiProducer(sequencer) => sequencer.publish_cursor_sequence(sequence),
        }
    }

    fn publish_cursor_sequence_range(&mut self, low: i64, high: i64)
        ensures
            *old(self) matches SequencerKind::MultiProducer(before) ==> (
            *final(self) matches SequencerKind::MultiProducer(after) && after.flags()
                == flags_after_range(
                before.flags(),
                before.state().mask,
                before.state().shift,
                low,
                high,
            )),
    {
        match self {
            SequencerKind::SingleProducer(sequencer) => sequencer.publish_cursor_sequence_range(
                low,
                high,
            ),
            SequencerKind::MultiProducer(sequencer) => sequencer.publish_cursor_sequence_range(
                low,
                high,
            ),
        }
    }

    fn publish_gating_sequence(&mut self, sequence: i64) {
        match self {
            SequencerKind::SingleProducer(sequencer) => sequencer.publish_gating_sequence(
                sequence,
            ),
            SequencerKind::MultiProducer(sequencer) => sequencer.publish_gating_sequence(sequence),
        }
    }

    fn get_highest(&self, low: i64, high: i64) -> (highest: i64) {
        match self {
            SequencerKind::SingleProducer(sequencer) => {
                proof {
                    lemma_highest_run_agrees(
                        |s: i64| sequencer.is_available(s),
                        |s: i64| self.is_available(s),
                        low,
                        high,
                    );
                }
                sequencer.get_highest(low, high)
            },
            SequencerKind::MultiProducer(sequencer) => {
                proof {
                    lemma_highest_run_agrees(
                        |s: i64| sequencer.is_available(s),
                        |s: i64| self.is_available(s),
                        low,
                        high,
                    );
                }
                sequencer.get_highest(low, high)
            },
        }
    }

    fn get_cursor_sequence_acquire(&self) -> (cursor: i64) {
        match self {
            SequencerKind::SingleProducer(sequencer) => sequencer.get_cursor_sequence_acquire(),
            SequencerKind::MultiProducer(sequencer) => sequencer.get_cursor_sequence_acquire(),
        }
    }

    fn get_gating_sequence_relaxed(&self) -> (gating: i64) {
        match self {
            SequencerKind::SingleProducer(sequencer) => sequencer.get_gating_sequence_relaxed(),
            SequencerKind::MultiProducer(sequencer) => sequencer.get_gating_sequence_relaxed(),
        }
    }
}

} // verus!
