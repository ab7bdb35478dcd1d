//! The counter that every cursor of the ring is made of.
use vstd::prelude::*;

verus! {

/// Value of a [`Sequence`] that has not counted anything yet.
pub const INITIAL_VALUE: i64 = -1;

/// A 64-bit signed counter.
///
/// Each operation is one indivisible step on the counter, and its contract is
/// what that step does to the value. The counter has one owner at a time.
/// The names of the operations say which memory ordering the step stands for
/// in a ring that threads share; what is read or written does not depend on
/// it.
pub struct Sequence {
    sequence: i64,
}

impl View for Sequence {
    type V = i64;

    closed spec fn view(&self) -> i64 {
        self.sequence
    }
}

impl Sequence {
    /// A counter that holds `value`.
    pub fn new(value: i64) -> (r: Self)
        ensures
            r@ == value,
    {
        Sequence { sequence: value }
    }

    /// Reads the counter with no ordering.
    pub fn get_relaxed(&self) -> (value: i64)
        ensures
            value == self@,
    {
        self.sequence
    }

    /// Writes the counter with no ordering.
    pub fn set_relaxed(&mut self, value: i64)
        ensures
            final(self)@ == value,
    {
        self.sequence = value;
    }

    /// Reads the counter as an acquire load.
    pub fn get_acquire(&self) -> (value: i64)
        ensures
            value == self@,
    {
        self.sequence
    }

    /// Writes the counter as a release store.
    pub fn set_release(&mut self, value: i64)
        ensures
            final(self)@ == value,
    {
        self.sequence = value;
    }

    /// Adds `value` to the counter, wrapping around on overflow, and returns
    /// what the counter held before.
    pub fn fetch_add_volatile(&mut self, value: i64) -> (previous: i64)
        ensures
            previous == old(self)@,
            final(self)@ == vstd::wrapping::i64_specs::wrapping_add(old(self)@, value),
            i64::MIN <= old(self)@ + value <= i64::MAX ==> final(self)@ == old(self)@ + value,
    {
        let previous = self.sequence;
        self.sequence = previous.wrapping_add(value);
        previous
    }

    /// Replaces the counter by `new` where it holds `current`, and reports
    /// whether it did. A caller must be prepared for `false`.
    pub fn compare_and_exchange_weak_volatile(&mut self, current: i64, new: i64) -> (exchanged:
        bool)
        ensures
            exchanged == (old(self)@ == current),
            final(self)@ == if exchanged {
                new
            } else {
                old(self)@
            },
    {
        if self.sequence == current {
            self.sequence = new;
            true
        } else {
            false
        }
    }
}

impl Default for Sequence {
    /// A counter that holds [`INITIAL_VALUE`].
    fn default() -> (r: Self)
        ensures
            r@ == INITIAL_VALUE,
    {
        Sequence::new(INITIAL_VALUE)
    }
}

} // verus!
