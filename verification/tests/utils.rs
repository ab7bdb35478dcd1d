use channels::constants::{ARRAY_PADDING, CACHE_LINE_SIZE, POINTER_SIZE};
use channels::utils::{
    assert_buffer_size_is_equal_or_less_than_i64, assert_buffer_size_pow_of_2,
    buffer_size_is_equal_or_less_than_i64, buffer_size_is_pow_of_2, capacity_shift, exact_log2,
    wrap_index,
};

#[test]
fn padding_is_one_cache_line_of_pointers() {
    assert_eq!(CACHE_LINE_SIZE, 64);
    assert_eq!(POINTER_SIZE, 8);
    assert_eq!(ARRAY_PADDING, 64 / 8);
}

#[test]
fn wrap_index_masks_and_pads() {
    assert_eq!(wrap_index(0, 7, 8), 8);
    assert_eq!(wrap_index(7, 7, 8), 15);
    assert_eq!(wrap_index(8, 7, 8), 8);
    assert_eq!(wrap_index(13, 7, 8), 13);
    assert_eq!(wrap_index(1_000_003, 1023, 8), 1_000_003 % 1024 + 8);
    assert_eq!(wrap_index(5, 0, 8), 8);
    assert_eq!(wrap_index(5, 7, 0), 5);
    assert_eq!(wrap_index(i64::MAX, 15, 8), 23);
}

#[test]
fn wrap_index_of_the_initial_value_is_the_last_cell() {
    assert_eq!(wrap_index(-1, 7, 8), 15);
    assert_eq!(wrap_index(-8, 7, 8), 8);
}

#[test]
fn exact_log2_finds_powers_of_two_only() {
    assert_eq!(exact_log2(1), Some(0));
    assert_eq!(exact_log2(2), Some(1));
    assert_eq!(exact_log2(8), Some(3));
    assert_eq!(exact_log2(1 << 40), Some(40));
    assert_eq!(exact_log2(1 << 63), Some(63));
    assert_eq!(exact_log2(0), None);
    assert_eq!(exact_log2(3), None);
    assert_eq!(exact_log2(12), None);
    assert_eq!(exact_log2(usize::MAX), None);
}

#[test]
fn buffer_sizes_are_checked() {
    assert!(buffer_size_is_pow_of_2(1));
    assert!(buffer_size_is_pow_of_2(1024));
    assert!(!buffer_size_is_pow_of_2(0));
    assert!(!buffer_size_is_pow_of_2(1000));
    assert!(buffer_size_is_equal_or_less_than_i64(0));
    assert!(buffer_size_is_equal_or_less_than_i64(i64::MAX as usize));
    assert!(!buffer_size_is_equal_or_less_than_i64(i64::MAX as usize + 1));
    assert!(!buffer_size_is_equal_or_less_than_i64(usize::MAX));
}

#[test]
fn capacity_shift_accepts_valid_capacities_only() {
    assert_eq!(capacity_shift(1), Some(0));
    assert_eq!(capacity_shift(8), Some(3));
    assert_eq!(capacity_shift(1 << 62), Some(62));
    assert_eq!(capacity_shift(1 << 63), None);
    assert_eq!(capacity_shift(0), None);
    assert_eq!(capacity_shift(24), None);
}

#[test]
fn accepted_sizes_come_back() {
    assert_eq!(assert_buffer_size_pow_of_2(64), 64);
    assert_eq!(assert_buffer_size_is_equal_or_less_than_i64(64), 64i64);
    assert_eq!(assert_buffer_size_is_equal_or_less_than_i64(i64::MAX as usize), i64::MAX);
}
