//! Capacity checks and the arithmetic that maps a sequence number to a cell.
//!
//! A ring of capacity `2^k` places sequence `s` in cell `s & (2^k - 1)` and
//! calls `s >> k` the lap of `s`. The lemmas here are the facts about the two
//! that the rest of the crate relies on.
use vstd::prelude::*;

verus! {

/// `n` is `2^k` for some `k` below 64.
pub open spec fn is_power_of_two(n: usize) -> bool {
    exists|k: u32| k < 64 && n as u64 == 1u64 << k
}

/// `n` is a capacity a ring can have: a power of two no larger than
/// `i64::MAX`.
pub open spec fn is_valid_capacity(n: usize) -> bool {
    is_power_of_two(n) && n <= i64::MAX
}

/// `mask` and `shift` describe one capacity: `2^shift`, with `mask` one less.
pub open spec fn is_geometry(mask: i64, shift: u32) -> bool {
    shift < 63 && mask == (1i64 << shift) - 1
}

/// The cell of `sequence` among the live cells of a ring with this mask.
pub open spec fn cell_of(sequence: i64, mask: i64) -> int {
    (sequence & mask) as int
}

/// The lap of `sequence` in a ring of capacity `2^shift`.
pub open spec fn lap_of(sequence: i64, shift: u32) -> i64 {
    sequence >> shift
}

/// The position of `sequence` in an array with `padding` unused cells in
/// front of the live ones.
pub open spec fn spec_wrap_index(sequence: i64, mask: i64, padding: usize) -> int {
    cell_of(sequence, mask) + padding
}

/// A mask that is not negative keeps every sequence inside `0..=mask`.
pub proof fn lemma_cell_in_range(sequence: i64, mask: i64)
    by (bit_vector)
    requires
        0 <= mask,
    ensures
        0 <= sequence & mask <= mask,
{
}

/// The capacity is positive, the cell is the remainder and the lap is the
/// quotient of the sequence by the capacity.
pub proof fn lemma_cell_and_lap(sequence: i64, mask: i64, shift: u32)
    by (bit_vector)
    requires
        shift < 63,
        mask == (1i64 << shift) - 1,
    ensures
        0 <= mask < 0x4000_0000_0000_0000,
        0 <= sequence & mask <= mask,
        sequence == (sequence >> shift) * (mask + 1) + (sequence & mask),
{
}

/// A valid capacity is at least 1, and an array of that many cells and the
/// padding on both sides can be addressed.
pub proof fn lemma_valid_capacity(n: usize)
    requires
        is_valid_capacity(n),
    ensures
        1 <= n <= 0x4000_0000_0000_0000,
        n + 16 <= usize::MAX,
{
    let k = choose|k: u32| k < 64 && n as u64 == 1u64 << k;
    let m = n as u64;
    let limit = usize::MAX as u64;
    assert(1 <= m <= 0x4000_0000_0000_0000 && m + 16 <= limit) by (bit_vector)
        requires
            k < 64,
            m == 1u64 << k,
            m <= 0x7fff_ffff_ffff_ffff,
            m <= limit,
            limit == 0xffff_ffff || limit == 0xffff_ffff_ffff_ffff,
    ;
}

/// A mask belongs to one capacity only.
pub proof fn lemma_geometry_by_mask(mask: i64, first: u32, second: u32)
    by (bit_vector)
    requires
        first < 63,
        second < 63,
        mask == (1i64 << first) - 1,
        mask == (1i64 << second) - 1,
    ensures
        first == second,
{
}

/// A sequence of the first lap is its own cell, and its lap is 0.
pub proof fn lemma_first_lap(sequence: i64, mask: i64, shift: u32)
    by (bit_vector)
    requires
        shift < 63,
        mask == (1i64 << shift) - 1,
        0 <= sequence <= mask,
    ensures
        sequence & mask == sequence,
        sequence >> shift == 0,
{
}

/// One lap later a sequence is in the same cell, and its lap is one more.
pub proof fn lemma_next_lap(sequence: i64, mask: i64, shift: u32)
    by (bit_vector)
    requires
        shift < 63,
        mask == (1i64 << shift) - 1,
        sequence + mask + 1 <= 0x7fff_ffff_ffff_ffff,
    ensures
        ((sequence + mask + 1) as i64) & mask == sequence & mask,
        ((sequence + mask + 1) as i64) >> shift == (sequence >> shift) + 1,
{
}

/// Two sequences less than one lap apart are in different cells.
pub proof fn lemma_cells_differ_within_lap(low: i64, high: i64, mask: i64, shift: u32)
    by (bit_vector)
    requires
        shift < 63,
        mask == (1i64 << shift) - 1,
        low < high,
        high - low <= mask,
    ensures
        low & mask != high & mask,
{
}

/// A lap that fits in 31 bits is its own 32-bit flag.
pub proof fn lemma_flag_of_small_lap(lap: i64)
    by (bit_vector)
    requires
        0 <= lap <= 0x7fff_ffff,
    ensures
        (lap as i32) == lap,
{
}

/// The 32-bit flags of two consecutive laps differ.
pub proof fn lemma_consecutive_flags_differ(lap: i64)
    by (bit_vector)
    requires
        lap > -0x8000_0000_0000_0000,
    ensures
        (lap as i32) != (((lap - 1) as i64) as i32),
{
}

/// The cells of a ring after the cells of the sequences `low..=high` were
/// overwritten one after the other, lowest first, the cell of `s` with
/// `content(s)`.
pub open spec fn cells_after_range<A>(
    cells: Seq<A>,
    mask: i64,
    low: i64,
    high: i64,
    content: spec_fn(i64) -> A,
) -> Seq<A>
    decreases high - low,
{
    if low > high {
        cells
    } else {
        let written = cells.update(cell_of(low, mask), content(low));
        if low == high {
            written
        } else {
            cells_after_range(written, mask, (low + 1) as i64, high, content)
        }
    }
}

/// Overwriting the cells of at most one lap of sequences leaves each of them
/// with its own content, and leaves the cell of every other sequence of
/// those laps as it was.
pub proof fn lemma_cells_after_range<A>(
    cells: Seq<A>,
    mask: i64,
    shift: u32,
    low: i64,
    high: i64,
    content: spec_fn(i64) -> A,
)
    requires
        is_geometry(mask, shift),
        cells.len() == mask + 1,
        low <= high,
        high - low <= mask,
    ensures
        cells_after_range(cells, mask, low, high, content).len() == cells.len(),
        forall|s: i64|
            low <= s <= high ==> cells_after_range(cells, mask, low, high, content)[#[trigger] cell_of(
                s,
                mask,
            )] == content(s),
        forall|t: i64|
            (t < low || high < t) && high - mask <= t <= low + mask ==> cells_after_range(
                cells,
                mask,
                low,
                high,
                content,
            )[#[trigger] cell_of(t, mask)] == cells[cell_of(t, mask)],
    decreases high - low,
{
    let written = cells.update(cell_of(low, mask), content(low));
    let after = cells_after_range(cells, mask, low, high, content);
    lemma_cell_in_range(low, mask);
    lemma_cell_and_lap(low, mask, shift);
    if low < high {
        lemma_cells_after_range(written, mask, shift, (low + 1) as i64, high, content);
        assert forall|s: i64| low <= s <= high implies after[#[trigger] cell_of(s, mask)]
            == content(s) by {
            if s == low {
                assert(after[cell_of(low, mask)] == written[cell_of(low, mask)]);
            }
        }
    }
    assert forall|t: i64|
        (t < low || high < t) && high - mask <= t <= low + mask implies after[#[trigger] cell_of(
        t,
        mask,
    )] == cells[cell_of(t, mask)] by {
        lemma_cell_in_range(t, mask);
        if t < low {
            lemma_cells_differ_within_lap(t, low, mask, shift);
        } else {
            lemma_cells_differ_within_lap(low, t, mask, shift);
        }
        if low < high {
            assert(after[cell_of(t, mask)] == written[cell_of(t, mask)]);
        }
    }
}

/// The last sequence of the longest run of sequences that pass `available`,
/// starting at `low` and not passing `high`: `low - 1` where `low` itself
/// does not pass, and `high` where `low..=high` is empty.
pub open spec fn highest_run(available: spec_fn(i64) -> bool, low: i64, high: i64) -> int
    decreases high - low,
{
    if low > high {
        high as int
    } else if !available(low) {
        low - 1
    } else if low == high {
        high as int
    } else {
        highest_run(available, (low + 1) as i64, high)
    }
}

/// The run ends inside `low - 1 ..= high`, everything up to its end passes,
/// and the sequence after its end does not, unless the run reached `high`.
pub proof fn lemma_highest_run(available: spec_fn(i64) -> bool, low: i64, high: i64)
    requires
        low - 1 <= high,
    ensures
        low - 1 <= highest_run(available, low, high) <= high,
        forall|s: i64| low <= s <= highest_run(available, low, high) ==> #[trigger] available(s),
        highest_run(available, low, high) < high ==> !available(
            (highest_run(available, low, high) + 1) as i64,
        ),
    decreases high - low,
{
    if low <= high && available(low) && low != high {
        lemma_highest_run(available, (low + 1) as i64, high);
    }
}

/// The run ends at `stop` where everything in `low..=stop` passes and
/// `stop + 1` does not or is above `high`.
pub proof fn lemma_highest_run_is(
    available: spec_fn(i64) -> bool,
    low: i64,
    high: i64,
    stop: int,
)
    requires
        low - 1 <= stop <= high,
        forall|s: i64| low <= s <= stop ==> #[trigger] available(s),
        stop < high ==> !available((stop + 1) as i64),
    ensures
        highest_run(available, low, high) == stop,
    decreases high - low,
{
    if low <= high && low <= stop {
        assert(available(low));
        if low != high {
            lemma_highest_run_is(available, (low + 1) as i64, high, stop);
        }
    }
}

/// The run depends only on how the predicate decides the sequences of
/// `low..=high`.
pub proof fn lemma_highest_run_agrees(
    first: spec_fn(i64) -> bool,
    second: spec_fn(i64) -> bool,
    low: i64,
    high: i64,
)
    requires
        forall|s: i64| low <= s <= high ==> #[trigger] first(s) == second(s),
    ensures
        highest_run(first, low, high) == highest_run(second, low, high),
    decreases high - low,
{
    if low <= high {
        assert(first(low) == second(low));
        if first(low) && low != high {
            lemma_highest_run_agrees(first, second, (low + 1) as i64, high);
        }
    }
}

/// The exponent of `n` where `n` is a power of two.
pub fn exact_log2(n: usize) -> (r: Option<u32>)
    ensures
        r.is_some() <==> is_power_of_two(n),
        r matches Some(k) ==> k < 64 && n as u64 == 1u64 << k,
{
    let mut k: u32 = 0;
    while k < 64
        invariant
            k <= 64,
            forall|j: u32| j < k ==> n as u64 != 1u64 << j,
        decreases 64 - k,
    {
        if n as u64 == 1u64 << k {
            return Some(k);
        }
        k = k + 1;
    }
    None
}

/// Whether `buffer_size` is a power of two.
pub fn buffer_size_is_pow_of_2(buffer_size: usize) -> (r: bool)
    ensures
        r == is_power_of_two(buffer_size),
{
    exact_log2(buffer_size).is_some()
}

/// Whether `buffer_size` can be written as an `i64`.
pub fn buffer_size_is_equal_or_less_than_i64(buffer_size: usize) -> (r: bool)
    ensures
        r == (buffer_size <= i64::MAX),
{
    buffer_size as u64 <= i64::MAX as u64
}

/// The exponent of a valid capacity, and `None` for every other size.
pub fn capacity_shift(buffer_size: usize) -> (r: Option<u32>)
    ensures
        r.is_some() <==> is_valid_capacity(buffer_size),
        r matches Some(k) ==> k < 63 && 1 <= buffer_size && buffer_size as u64 == 1u64 << k
            && is_geometry((buffer_size - 1) as i64, k),
{
    if !buffer_size_is_equal_or_less_than_i64(buffer_size) {
        return None;
    }
    match exact_log2(buffer_size) {
        Some(k) => {
            let n: u64 = buffer_size as u64;
            assert(k < 63 && 1 <= n && n as i64 == 1i64 << k) by (bit_vector)
                requires
                    k < 64,
                    n == 1u64 << k,
                    n <= 0x7fff_ffff_ffff_ffff,
            ;
            Some(k)
        },
        None => None,
    }
}

/// Accepts a buffer size that is a power of two and hands it back.
pub fn assert_buffer_size_pow_of_2(buffer_size: usize) -> (r: usize)
    requires
        is_power_of_two(buffer_size),
    ensures
        r == buffer_size,
{
    buffer_size
}

/// Accepts a buffer size that can be written as an `i64`.
pub fn assert_buffer_size_is_equal_or_less_than_i64(buffer_size: usize) -> (r: i64)
    requires
        buffer_size <= i64::MAX,
    ensures
        r == buffer_size,
{
    buffer_size as i64
}

/// The position of `sequence` in an array whose live cells are selected by
/// `mask` and preceded by `padding` unused cells.
pub fn wrap_index(sequence: i64, mask: i64, padding: usize) -> (index: usize)
    requires
        0 <= mask,
        mask + padding <= usize::MAX,
    ensures
        index == spec_wrap_index(sequence, mask, padding),
        padding <= index <= mask + padding,
{
    proof {
        lemma_cell_in_range(sequence, mask);
    }
    (sequence & mask) as usize + padding
}

} // verus!
