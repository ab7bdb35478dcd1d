use channels::availability_buffer::AvailabilityBuffer;

#[test]
fn nothing_is_available_in_a_fresh_buffer() {
    let buffer = AvailabilityBuffer::new(8);
    assert_eq!(buffer.get_available(0, 7), -1);
    assert_eq!(buffer.get_available(3, 5), 2);
    assert_eq!(buffer.get_available(8, 15), 7);
}

#[test]
fn an_empty_range_returns_its_upper_end() {
    let buffer = AvailabilityBuffer::new(8);
    assert_eq!(buffer.get_available(5, 4), 4);
    assert_eq!(buffer.get_available(5, 0), 0);
}

#[test]
fn the_scan_stops_at_the_first_gap() {
    let mut buffer = AvailabilityBuffer::new(8);
    buffer.set(0);
    buffer.set(1);
    buffer.set(3);
    assert_eq!(buffer.get_available(0, 7), 1);
    assert_eq!(buffer.get_available(0, 0), 0);
    assert_eq!(buffer.get_available(1, 1), 1);
    assert_eq!(buffer.get_available(2, 7), 1);
    assert_eq!(buffer.get_available(3, 7), 3);
    buffer.set(2);
    assert_eq!(buffer.get_available(0, 7), 3);
    assert_eq!(buffer.get_available(0, 2), 2);
}

#[test]
fn set_range_marks_every_sequence_of_the_range() {
    let mut buffer = AvailabilityBuffer::new(8);
    buffer.set_range(2, 5);
    assert_eq!(buffer.get_available(0, 7), -1);
    assert_eq!(buffer.get_available(2, 7), 5);
    buffer.set_range(0, 1);
    assert_eq!(buffer.get_available(0, 7), 5);
    buffer.set_range(7, 6);
    assert_eq!(buffer.get_available(0, 7), 5);
    buffer.set_range(6, 7);
    assert_eq!(buffer.get_available(0, 7), 7);
}

#[test]
fn the_next_lap_is_told_apart_without_clearing() {
    let mut buffer = AvailabilityBuffer::new(4);
    buffer.set_range(0, 3);
    assert_eq!(buffer.get_available(0, 3), 3);
    // The same cells, one lap later: the flags are those of lap 0.
    assert_eq!(buffer.get_available(4, 7), 3);
    buffer.set(4);
    buffer.set(5);
    assert_eq!(buffer.get_available(4, 7), 5);
    // Marking lap 1 has taken the mark of lap 0 away.
    assert_eq!(buffer.get_available(0, 3), -1);
    assert_eq!(buffer.get_available(2, 3), 3);
}

#[test]
fn publications_may_arrive_out_of_order() {
    let mut buffer = AvailabilityBuffer::new(16);
    buffer.set(2);
    buffer.set(1);
    assert_eq!(buffer.get_available(0, 15), -1);
    buffer.set(0);
    assert_eq!(buffer.get_available(0, 15), 2);
}

#[test]
fn a_ring_of_one_cell_flags_each_sequence_by_itself() {
    let mut buffer = AvailabilityBuffer::new(1);
    assert_eq!(buffer.get_available(0, 0), -1);
    buffer.set(0);
    assert_eq!(buffer.get_available(0, 0), 0);
    assert_eq!(buffer.get_available(0, 1), 0);
    buffer.set(1);
    assert_eq!(buffer.get_available(1, 1), 1);
    assert_eq!(buffer.get_available(0, 1), -1);
}

#[test]
fn a_flag_holds_the_low_32_bits_of_the_lap() {
    // In a ring of one cell the lap of a sequence is the sequence. The lap
    // 2^32 - 1 has the flag -1, which is the flag of a fresh cell.
    let buffer = AvailabilityBuffer::new(1);
    assert_eq!(buffer.get_available(0xffff_ffff, 0xffff_ffff), 0xffff_ffff);
    assert_eq!(buffer.get_available(0xffff_fffe, 0xffff_fffe), 0xffff_fffd);
    // Laps that are 2^32 apart have the same flag.
    let mut buffer = AvailabilityBuffer::new(2);
    buffer.set(3);
    assert_eq!(buffer.get_available(3, 3), 3);
    assert_eq!(buffer.get_available(3 + (1i64 << 33), 3 + (1i64 << 33)), 3 + (1i64 << 33));
    assert_eq!(buffer.get_available(5, 5), 4);
}
