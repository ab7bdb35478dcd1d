//! Commit flags of a ring that several producers publish into.
use crate::constants::ARRAY_PADDING;
use crate::utils::{
    capacity_shift, cell_of, cells_after_range, highest_run, is_geometry, is_valid_capacity,
    lap_of, lemma_cell_in_range, lemma_cells_after_range, lemma_highest_run,
    lemma_valid_capacity, wrap_index,
};
use vstd::prelude::*;

verus! {

/// The flag that marks `sequence` as committed in a ring of capacity
/// `2^shift`: the low 32 bits of its lap.
pub open spec fn flag_of(sequence: i64, shift: u32) -> i32 {
    lap_of(sequence, shift) as i32
}

/// The flags after the sequences `low..=high` were marked one after the
/// other, lowest first.
pub open spec fn flags_after_range(flags: Seq<i32>, mask: i64, shift: u32, low: i64, high: i64) -> Seq<
    i32,
> {
    cells_after_range(flags, mask, low, high, |s: i64| flag_of(s, shift))
}

/// Marking at most one lap of sequences commits each of them and leaves the
/// flag of every other sequence of those laps as it was.
pub proof fn lemma_flags_after_range(flags: Seq<i32>, mask: i64, shift: u32, low: i64, high: i64)
    requires
        is_geometry(mask, shift),
        flags.len() == mask + 1,
        low <= high,
        high - low <= mask,
    ensures
        flags_after_range(flags, mask, shift, low, high).len() == flags.len(),
        forall|s: i64|
            low <= s <= high ==> flags_after_range(flags, mask, shift, low, high)[#[trigger] cell_of(
                s,
                mask,
            )] == flag_of(s, shift),
        forall|t: i64|
            (t < low || high < t) && high - mask <= t <= low + mask ==> flags_after_range(
                flags,
                mask,
                shift,
                low,
                high,
            )[#[trigger] cell_of(t, mask)] == flags[cell_of(t, mask)],
{
    lemma_cells_after_range(flags, mask, shift, low, high, |s: i64| flag_of(s, shift));
}

/// The flags after each sequence of `marks` was marked, in the order of
/// `marks`.
pub open spec fn flags_after_marks(flags: Seq<i32>, mask: i64, shift: u32, marks: Seq<i64>) -> Seq<
    i32,
>
    decreases marks.len(),
{
    if marks.len() == 0 {
        flags
    } else {
        flags_after_marks(flags, mask, shift, marks.drop_last()).update(
            cell_of(marks.last(), mask),
            flag_of(marks.last(), shift),
        )
    }
}

/// The lap of `sequence` can be told from its flag: the sequence is not
/// negative and its lap fits in 31 bits.
pub open spec fn has_plain_flag(sequence: i64, shift: u32) -> bool {
    0 <= lap_of(sequence, shift) <= 0x7fff_ffff
}

/// In a buffer that started with every flag at -1, a sequence carries the
/// flag of its lap only if it was marked, as long as the laps of all
/// sequences involved can be told from their flags.
pub proof fn lemma_committed_only_by_marking(
    mask: i64,
    shift: u32,
    marks: Seq<i64>,
    sequence: i64,
)
    requires
        is_geometry(mask, shift),
        has_plain_flag(sequence, shift),
        forall|i: int| 0 <= i < marks.len() ==> has_plain_flag(#[trigger] marks[i], shift),
        flags_after_marks(Seq::new((mask + 1) as nat, |i: int| -1i32), mask, shift, marks)[cell_of(
            sequence,
            mask,
        )] == flag_of(sequence, shift),
    ensures
        marks.contains(sequence),
    decreases marks.len(),
{
    let fresh = Seq::new((mask + 1) as nat, |i: int| -1i32);
    crate::utils::lemma_cell_and_lap(sequence, mask, shift);
    crate::utils::lemma_flag_of_small_lap(lap_of(sequence, shift));
    lemma_flags_after_marks_len(fresh, mask, shift, marks);
    if marks.len() > 0 {
        let last = marks.last();
        let earlier = marks.drop_last();
        crate::utils::lemma_cell_and_lap(last, mask, shift);
        crate::utils::lemma_flag_of_small_lap(lap_of(last, shift));
        lemma_flags_after_marks_len(fresh, mask, shift, earlier);
        if cell_of(last, mask) == cell_of(sequence, mask) {
            assert(last == sequence) by (nonlinear_arith)
                requires
                    last == (last >> shift) * (mask + 1) + (last & mask),
                    sequence == (sequence >> shift) * (mask + 1) + (sequence & mask),
                    (last >> shift) == (sequence >> shift),
                    (last & mask) == (sequence & mask),
            ;
            assert(marks[marks.len() - 1] == sequence);
        } else {
            assert forall|i: int| 0 <= i < earlier.len() implies has_plain_flag(
                #[trigger] earlier[i],
                shift,
            ) by {
                assert(earlier[i] == marks[i]);
            }
            lemma_committed_only_by_marking(mask, shift, earlier, sequence);
            let i = choose|i: int| 0 <= i < earlier.len() && earlier[i] == sequence;
            assert(marks[i] == sequence);
        }
    }
}

/// Marking changes no length.
pub proof fn lemma_flags_after_marks_len(flags: Seq<i32>, mask: i64, shift: u32, marks: Seq<i64>)
    requires
        is_geometry(mask, shift),
        flags.len() == mask + 1,
    ensures
        flags_after_marks(flags, mask, shift, marks).len() == flags.len(),
    decreases marks.len(),
{
    if marks.len() > 0 {
        lemma_flags_after_marks_len(flags, mask, shift, marks.drop_last());
        crate::utils::lemma_cell_and_lap(marks.last(), mask, shift);
    }
}

/// One flag for each cell of a ring. The flag of a cell names the lap of the
/// last sequence that was committed into it, so a cell need not be cleared
/// before the next lap uses it.
pub struct AvailabilityBuffer {
    mask: i64,
    flag_shift: u32,
    buffer: Vec<i32>,
}

impl AvailabilityBuffer {
    /// The mask that selects the cell of a sequence.
    pub closed spec fn mask(&self) -> i64 {
        self.mask
    }

    /// The number of bits a sequence is shifted by to give its lap.
    pub closed spec fn shift(&self) -> u32 {
        self.flag_shift
    }

    /// The flags of the live cells, the cell of sequence 0 first.
    pub closed spec fn flags(&self) -> Seq<i32> {
        self.buffer@.subrange(ARRAY_PADDING as int, ARRAY_PADDING + self.mask + 1)
    }

    /// The number of live cells.
    pub open spec fn capacity(&self) -> int {
        self.mask() + 1
    }

    /// The buffer is laid out for one capacity, and its padding cells are as
    /// they were made.
    pub closed spec fn wf(&self) -> bool {
        &&& is_geometry(self.mask, self.flag_shift)
        &&& self.buffer@.len() == self.mask + 1 + 2 * ARRAY_PADDING
        &&& self.buffer@.len() <= usize::MAX
        &&& forall|i: int|
            0 <= i < ARRAY_PADDING || self.mask + 1 + ARRAY_PADDING <= i < self.buffer@.len()
                ==> self.buffer@[i] == -1
    }

    /// `sequence` is marked as committed.
    pub open spec fn is_set(&self, sequence: i64) -> bool {
        self.flags()[cell_of(sequence, self.mask())] == flag_of(sequence, self.shift())
    }

    /// What [`Self::get_available`] returns for `low` and `high`.
    pub open spec fn highest_set(&self, low: i64, high: i64) -> int {
        highest_run(|s: i64| self.is_set(s), low, high)
    }

    /// The scan never returns a sequence that was not marked: in a buffer
    /// whose flags are those of a fresh buffer after `marks`, every sequence
    /// from `low` up to what the scan returns is one of `marks`, as long as
    /// the laps of all sequences involved can be told from their flags.
    pub proof fn lemma_scan_returns_marked(&self, marks: Seq<i64>, low: i64, high: i64, sequence: i64)
        requires
            self.wf(),
            self.flags() == flags_after_marks(
                Seq::new(self.capacity() as nat, |i: int| -1i32),
                self.mask(),
                self.shift(),
                marks,
            ),
            forall|i: int| 0 <= i < marks.len() ==> has_plain_flag(#[trigger] marks[i], self.shift()),
            has_plain_flag(sequence, self.shift()),
            low <= sequence <= self.highest_set(low, high),
        ensures
            marks.contains(sequence),
    {
        self.lemma_wf();
        let set = |s: i64| self.is_set(s);
        if low - 1 <= high {
            crate::utils::lemma_highest_run(set, low, high);
            assert(set(sequence));
        }
        lemma_committed_only_by_marking(self.mask(), self.shift(), marks, sequence);
    }

    /// A well-formed buffer has one flag for each cell of its capacity.
    pub proof fn lemma_wf(&self)
        requires
            self.wf(),
        ensures
            is_geometry(self.mask(), self.shift()),
            self.flags().len() == self.capacity(),
            1 <= self.capacity(),
    {
        let mask = self.mask;
        let shift = self.flag_shift;
        assert(mask >= 0) by (bit_vector)
            requires
                shift < 63,
                mask == (1i64 << shift) - 1,
        ;
    }

    /// A buffer for a ring of `buffer_size` cells in which nothing is
    /// committed: every flag is -1.
    pub fn new(buffer_size: usize) -> (r: Self)
        requires
            is_valid_capacity(buffer_size),
        ensures
            r.wf(),
            r.capacity() == buffer_size,
            r.flags() == Seq::new(buffer_size as nat, |i: int| -1i32),
    {
        let shift = capacity_shift(buffer_size).unwrap();
        proof {
            lemma_valid_capacity(buffer_size);
        }
        let buffer = Self::init_buffer(buffer_size);
        let r = AvailabilityBuffer { mask: (buffer_size - 1) as i64, flag_shift: shift, buffer };
        assert(r.flags() =~= Seq::new(buffer_size as nat, |i: int| -1i32));
        r
    }

    /// The cells of a fresh buffer, padding included.
    fn init_buffer(size: usize) -> (buffer: Vec<i32>)
        requires
            size + 2 * ARRAY_PADDING <= usize::MAX,
        ensures
            buffer@.len() == size + 2 * ARRAY_PADDING,
            forall|i: int| 0 <= i < buffer@.len() ==> buffer@[i] == -1,
    {
        let total = size + 2 * ARRAY_PADDING;
        let mut buffer: Vec<i32> = Vec::new();
        let mut filled: usize = 0;
        while filled < total
            invariant
                filled <= total,
                buffer@.len() == filled,
                forall|i: int| 0 <= i < buffer@.len() ==> buffer@[i] == -1,
            decreases total - filled,
        {
            buffer.push(-1);
            filled = filled + 1;
        }
        buffer
    }

    /// The flag that marks `sequence` as committed.
    fn calculate_flag(&self, sequence: i64) -> (flag: i32)
        requires
            self.wf(),
        ensures
            flag == flag_of(sequence, self.shift()),
    {
        (sequence >> self.flag_shift) as i32
    }

    /// The position of the flag of `sequence` in the padded array.
    fn flag_index(&self, sequence: i64) -> (index: usize)
        requires
            self.wf(),
        ensures
            index == cell_of(sequence, self.mask()) + ARRAY_PADDING,
            ARRAY_PADDING <= index < self.buffer@.len() - ARRAY_PADDING,
            self.buffer@[index as int] == self.flags()[cell_of(sequence, self.mask())],
    {
        proof {
            self.lemma_wf();
            lemma_cell_in_range(sequence, self.mask);
        }
        wrap_index(sequence, self.mask, ARRAY_PADDING)
    }

    /// Scans the flags of `low..=high` upwards and returns the last sequence
    /// before the first one that is not committed, or `high` where all are.
    pub fn get_available(&self, low: i64, high: i64) -> (available: i64)
        requires
            self.wf(),
            i64::MIN < low,
        ensures
            available == self.highest_set(low, high),
    {
        let mut sequence = low;
        while sequence <= high
            invariant
                self.wf(),
                i64::MIN < low <= sequence,
                self.highest_set(low, high) == self.highest_set(sequence, high),
            decreases high - sequence,
        {
            let index = self.flag_index(sequence);
            let flag = self.calculate_flag(sequence);
            if self.buffer[index] != flag {
                return sequence - 1;
            }
            if sequence == high {
                return high;
            }
            sequence = sequence + 1;
        }
        high
    }

    /// Marks `sequence` as committed.
    pub fn set(&mut self, sequence: i64)
        requires
            old(self).wf(),
        ensures
            final(self).wf(),
            final(self).mask() == old(self).mask(),
            final(self).shift() == old(self).shift(),
            final(self).flags() == old(self).flags().update(
                cell_of(sequence, old(self).mask()),
                flag_of(sequence, old(self).shift()),
            ),
    {
        let index = self.flag_index(sequence);
        let flag = self.calculate_flag(sequence);
        self.buffer[index] = flag;
        assert(self.flags() =~= old(self).flags().update(
            cell_of(sequence, old(self).mask()),
            flag_of(sequence, old(self).shift()),
        ));
    }

    /// Marks each of `low..=high` as committed, lowest first.
    pub fn set_range(&mut self, low: i64, high: i64)
        requires
            old(self).wf(),
        ensures
            final(self).wf(),
            final(self).mask() == old(self).mask(),
            final(self).shift() == old(self).shift(),
            final(self).flags() == flags_after_range(
                old(self).flags(),
                old(self).mask(),
                old(self).shift(),
                low,
                high,
            ),
    {
        let mut sequence = low;
        while sequence <= high
            invariant
                self.wf(),
                self.mask() == old(self).mask(),
                self.shift() == old(self).shift(),
                low <= sequence,
                flags_after_range(
                    old(self).flags(),
                    old(self).mask(),
                    old(self).shift(),
                    low,
                    high,
                ) == flags_after_range(self.flags(), self.mask(), self.shift(), sequence, high),
            decreases high - sequence,
        {
            self.set(sequence);
            if sequence == high {
                return ;
            }
            sequence = sequence + 1;
        }
    }
}

} // verus!
