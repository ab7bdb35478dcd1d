//! The storage of a ring: one slot for each cell, empty or holding a value.
use crate::constants::ARRAY_PADDING;
use crate::utils::{
    capacity_shift, cell_of, cells_after_range, is_geometry, is_valid_capacity,
    lemma_valid_capacity, lemma_cell_in_range, wrap_index,
};
use vstd::prelude::*;

verus! {

/// The slots after the values of the sequences `low..=high` were moved out
/// one after the other, lowest first.
pub open spec fn slots_after_drain<T>(slots: Seq<Option<T>>, mask: i64, low: i64, high: i64) -> Seq<
    Option<T>,
> {
    cells_after_range(slots, mask, low, high, |s: i64| None::<T>)
}

/// A fixed array of slots, addressed by sequence number.
///
/// A slot is empty from the start, and again after its value was moved out;
/// it holds a value after one was written. The array carries unused cells in
/// front of the first slot and behind the last one, which stay empty.
pub struct SlotArray<T> {
    cells: Vec<Option<T>>,
    mask: i64,
    shift: Ghost<u32>,
}

impl<T> SlotArray<T> {
    /// The mask that selects the cell of a sequence.
    pub closed spec fn mask(&self) -> i64 {
        self.mask
    }

    /// The binary logarithm of the number of slots.
    pub closed spec fn shift(&self) -> u32 {
        self.shift@
    }

    /// The slots, the slot of sequence 0 first.
    pub closed spec fn slots(&self) -> Seq<Option<T>> {
        self.cells@.subrange(ARRAY_PADDING as int, ARRAY_PADDING + self.mask + 1)
    }

    /// The number of slots.
    pub open spec fn capacity(&self) -> int {
        self.mask() + 1
    }

    /// What the slot of `sequence` holds.
    pub open spec fn value(&self, sequence: i64) -> Option<T> {
        self.slots()[cell_of(sequence, self.mask())]
    }

    /// The array is laid out for one capacity, and its padding cells are
    /// empty.
    pub closed spec fn wf(&self) -> bool {
        &&& is_geometry(self.mask, self.shift@)
        &&& self.cells@.len() == self.mask + 1 + 2 * ARRAY_PADDING
        &&& self.cells@.len() <= usize::MAX
        &&& forall|i: int|
            0 <= i < ARRAY_PADDING || self.mask + 1 + ARRAY_PADDING <= i < self.cells@.len()
                ==> self.cells@[i].is_none()
    }

    /// A well-formed array has one slot for each cell of its capacity.
    pub proof fn lemma_wf(&self)
        requires
            self.wf(),
        ensures
            is_geometry(self.mask(), self.shift()),
            self.slots().len() == self.capacity(),
            1 <= self.capacity(),
    {
        crate::utils::lemma_cell_and_lap(0, self.mask, self.shift@);
    }

    /// An array of `buffer_size` empty slots.
    pub fn new(buffer_size: usize) -> (r: Self)
        requires
            is_valid_capacity(buffer_size),
        ensures
            r.wf(),
            r.capacity() == buffer_size,
            forall|i: int| 0 <= i < buffer_size ==> r.slots()[i].is_none(),
    {
        let shift = capacity_shift(buffer_size).unwrap();
        proof {
            lemma_valid_capacity(buffer_size);
        }
        SlotArray {
            cells: Self::create_buffer(buffer_size),
            mask: (buffer_size - 1) as i64,
            shift: Ghost(shift),
        }
    }

    /// The cells of a fresh array, padding included.
    fn create_buffer(buffer_size: usize) -> (cells: Vec<Option<T>>)
        requires
            buffer_size + 2 * ARRAY_PADDING <= usize::MAX,
        ensures
            cells@.len() == buffer_size + 2 * ARRAY_PADDING,
            forall|i: int| 0 <= i < cells@.len() ==> cells@[i].is_none(),
    {
        let total = buffer_size + 2 * ARRAY_PADDING;
        let mut cells: Vec<Option<T>> = Vec::new();
        let mut made: usize = 0;
        while made < total
            invariant
                made <= total,
                cells@.len() == made,
                forall|i: int| 0 <= i < cells@.len() ==> cells@[i].is_none(),
            decreases total - made,
        {
            cells.push(None);
            made = made + 1;
        }
        cells
    }

    /// The position of the slot of `sequence` in the padded array.
    fn slot_index(&self, sequence: i64) -> (index: usize)
        requires
            self.wf(),
        ensures
            index == cell_of(sequence, self.mask()) + ARRAY_PADDING,
            ARRAY_PADDING <= index < self.cells@.len() - ARRAY_PADDING,
            self.cells@[index as int] == self.value(sequence),
    {
        proof {
            self.lemma_wf();
            lemma_cell_in_range(sequence, self.mask);
        }
        wrap_index(sequence, self.mask, ARRAY_PADDING)
    }

    /// Whether the slot of `sequence` holds a value.
    pub fn is_occupied(&self, sequence: i64) -> (occupied: bool)
        requires
            self.wf(),
        ensures
            occupied == self.value(sequence).is_some(),
    {
        let index = self.slot_index(sequence);
        self.cells[index].is_some()
    }

    /// Puts `element` into the slot of `sequence`. What the slot held before
    /// is dropped.
    pub fn write(&mut self, sequence: i64, element: T)
        requires
            old(self).wf(),
        ensures
            final(self).wf(),
            final(self).mask() == old(self).mask(),
            final(self).shift() == old(self).shift(),
            final(self).slots() == old(self).slots().update(
                cell_of(sequence, old(self).mask()),
                Some(element),
            ),
    {
        let index = self.slot_index(sequence);
        self.cells[index] = Some(element);
        assert(self.slots() =~= old(self).slots().update(
            cell_of(sequence, old(self).mask()),
            Some(element),
        ));
    }

    /// Moves the value out of the slot of `sequence` and leaves the slot
    /// empty.
    pub fn dequeue(&mut self, sequence: i64) -> (element: T)
        requires
            old(self).wf(),
            old(self).value(sequence).is_some(),
        ensures
            final(self).wf(),
            final(self).mask() == old(self).mask(),
            final(self).shift() == old(self).shift(),
            Some(element) == old(self).value(sequence),
            final(self).slots() == old(self).slots().update(
                cell_of(sequence, old(self).mask()),
                None,
            ),
    {
        let index = self.slot_index(sequence);
        let element = self.cells[index].take();
        assert(self.slots() =~= old(self).slots().update(
            cell_of(sequence, old(self).mask()),
            None,
        ));
        element.unwrap()
    }

    /// Moves the values of `low..=high` out of their slots, lowest first, and
    /// hands each to `handler`.
    pub fn drain<H: Fn(T)>(&mut self, low: i64, high: i64, handler: &H)
        requires
            old(self).wf(),
            low <= high,
            high - low <= old(self).mask(),
            forall|s: i64| low <= s <= high ==> (#[trigger] old(self).value(s)).is_some(),
            forall|element: T| handler.requires((element,)),
        ensures
            final(self).wf(),
            final(self).mask() == old(self).mask(),
            final(self).shift() == old(self).shift(),
            final(self).slots() == slots_after_drain(
                old(self).slots(),
                old(self).mask(),
                low,
                high,
            ),
            forall|s: i64|
                low <= s <= high ==> handler.ensures(
                    ((#[trigger] old(self).value(s)).unwrap(),),
                    (),
                ),
    {
        let mut sequence = low;
        while sequence <= high
            invariant
                self.wf(),
                self.mask() == old(self).mask(),
                self.shift() == old(self).shift(),
                low <= sequence <= high,
                high - low <= self.mask(),
                forall|element: T| handler.requires((element,)),
                forall|s: i64| sequence <= s <= high ==> #[trigger] self.value(s) == old(self).value(s),
                forall|s: i64| low <= s <= high ==> (#[trigger] old(self).value(s)).is_some(),
                forall|s: i64|
                    low <= s < sequence ==> handler.ensures(
                        ((#[trigger] old(self).value(s)).unwrap(),),
                        (),
                    ),
                slots_after_drain(old(self).slots(), old(self).mask(), low, high)
                    == slots_after_drain(self.slots(), self.mask(), sequence, high),
            decreases high - sequence,
        {
            let ghost before = *self;
            assert(self.value(sequence) == old(self).value(sequence));
            let element = self.dequeue(sequence);
            handler(element);
            proof {
                self.lemma_wf();
                assert forall|s: i64| sequence < s <= high implies #[trigger] self.value(s)
                    == old(self).value(s) by {
                    crate::utils::lemma_cells_differ_within_lap(
                        sequence,
                        s,
                        self.mask(),
                        self.shift(),
                    );
                    lemma_cell_in_range(s, self.mask());
                    lemma_cell_in_range(sequence, self.mask());
                    assert(before.value(s) == old(self).value(s));
                }
            }
            if sequence == high {
                return ;
            }
            sequence = sequence + 1;
        }
    }
}

} // verus!
