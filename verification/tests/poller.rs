use channels::poller::{
    MultiConsumerPoller, Poller, PollerKind, SingleConsumerPoller, State,
};
use channels::sequencer::{
    Claim, MultiProducerSequencer, Sequencer, SingleProducerSequencer,
};
use channels::slot_array::SlotArray;
use std::cell::RefCell;

#[test]
fn slots_hold_what_was_written_until_it_is_moved_out() {
    let mut slots: SlotArray<String> = SlotArray::new(4);
    assert!(!slots.is_occupied(0));
    slots.write(0, "zero".to_string());
    slots.write(5, "five".to_string());
    assert!(slots.is_occupied(0));
    assert!(slots.is_occupied(1));
    assert!(slots.is_occupied(5));
    assert!(!slots.is_occupied(2));
    assert_eq!(slots.dequeue(1), "five");
    assert!(!slots.is_occupied(5));
    assert_eq!(slots.dequeue(4), "zero");
    assert!(!slots.is_occupied(0));
}

#[test]
fn drain_hands_the_values_over_lowest_sequence_first() {
    let mut slots: SlotArray<i64> = SlotArray::new(8);
    for sequence in 6..=11 {
        slots.write(sequence, sequence * 10);
    }
    let seen = RefCell::new(Vec::new());
    slots.drain(7, 10, &|value: i64| seen.borrow_mut().push(value));
    assert_eq!(*seen.borrow(), vec![70, 80, 90, 100]);
    assert!(slots.is_occupied(6));
    assert!(!slots.is_occupied(7));
    assert!(!slots.is_occupied(10));
    assert!(slots.is_occupied(11));
}

#[test]
fn a_single_consumer_takes_batches_up_to_the_cursor() {
    let mut sequencer = SingleProducerSequencer::new(8);
    let mut slots: SlotArray<char> = SlotArray::new(8);
    let mut poller = SingleConsumerPoller::new();
    let seen = RefCell::new(Vec::new());
    let handler = |value: char| seen.borrow_mut().push(value);

    assert_eq!(poller.poll(&mut sequencer, &mut slots, 8, &handler), State::Idle);
    assert_eq!(sequencer.next_n(3), Claim::Ready(2));
    slots.write(0, 'a');
    slots.write(1, 'b');
    slots.write(2, 'c');
    // Written but not published.
    assert_eq!(poller.poll(&mut sequencer, &mut slots, 8, &handler), State::Idle);
    sequencer.publish_cursor_sequence_range(0, 2);

    assert_eq!(poller.poll(&mut sequencer, &mut slots, 0, &handler), State::Idle);
    assert_eq!(poller.poll(&mut sequencer, &mut slots, 2, &handler), State::Processing);
    assert_eq!(*seen.borrow(), vec!['a', 'b']);
    assert_eq!(sequencer.get_gating_sequence_relaxed(), 1);
    assert_eq!(poller.poll(&mut sequencer, &mut slots, 8, &handler), State::Processing);
    assert_eq!(*seen.borrow(), vec!['a', 'b', 'c']);
    assert_eq!(sequencer.get_gating_sequence_relaxed(), 2);
    assert_eq!(poller.poll(&mut sequencer, &mut slots, 8, &handler), State::Idle);
    assert_eq!(sequencer.get_gating_sequence_relaxed(), 2);
    assert!(!slots.is_occupied(0) && !slots.is_occupied(1) && !slots.is_occupied(2));
}

#[test]
fn a_consumer_stops_at_a_sequence_that_is_not_published() {
    let mut sequencer = MultiProducerSequencer::new(8);
    let mut slots: SlotArray<i64> = SlotArray::new(8);
    let mut poller = SingleConsumerPoller::new();
    let seen = RefCell::new(Vec::new());
    let handler = |value: i64| seen.borrow_mut().push(value);

    assert_eq!(sequencer.next_n(4), Claim::Ready(3));
    slots.write(1, 11);
    sequencer.publish_cursor_sequence(1);
    // Sequence 0 is claimed and not published.
    assert_eq!(poller.poll(&mut sequencer, &mut slots, 8, &handler), State::Idle);
    assert_eq!(sequencer.get_gating_sequence_relaxed(), -1);
    slots.write(0, 10);
    sequencer.publish_cursor_sequence(0);
    slots.write(3, 13);
    sequencer.publish_cursor_sequence(3);
    assert_eq!(poller.poll(&mut sequencer, &mut slots, 8, &handler), State::Processing);
    assert_eq!(*seen.borrow(), vec![10, 11]);
    assert_eq!(sequencer.get_gating_sequence_relaxed(), 1);
    assert_eq!(poller.poll(&mut sequencer, &mut slots, 8, &handler), State::Idle);
    slots.write(2, 12);
    sequencer.publish_cursor_sequence(2);
    assert_eq!(poller.poll(&mut sequencer, &mut slots, 8, &handler), State::Processing);
    assert_eq!(*seen.borrow(), vec![10, 11, 12, 13]);
}

#[test]
fn several_consumers_claim_ranges_that_do_not_overlap() {
    let mut sequencer = SingleProducerSequencer::new(8);
    let mut poller = MultiConsumerPoller::new();
    assert_eq!(poller.claim(&sequencer, 4), None);
    assert_eq!(sequencer.next_n(5), Claim::Ready(4));
    sequencer.publish_cursor_sequence_range(0, 4);
    assert_eq!(poller.claim(&sequencer, 0), None);
    assert_eq!(poller.claim(&sequencer, 2), Some((0, 1)));
    assert_eq!(poller.claim(&sequencer, 2), Some((2, 3)));
    assert_eq!(poller.claim(&sequencer, 2), Some((4, 4)));
    assert_eq!(poller.claim(&sequencer, 2), None);
    // Claiming moves the claim counter only.
    assert_eq!(sequencer.get_gating_sequence_relaxed(), -1);
}

#[test]
fn consumers_that_finish_out_of_order_move_the_gating_sequence_back() {
    let mut sequencer = SingleProducerSequencer::new(8);
    let mut slots: SlotArray<i64> = SlotArray::new(8);
    let mut poller = MultiConsumerPoller::new();
    assert_eq!(sequencer.next_n(4), Claim::Ready(3));
    for sequence in 0..4 {
        slots.write(sequence, sequence);
    }
    sequencer.publish_cursor_sequence_range(0, 3);
    let first = poller.claim(&sequencer, 2).unwrap();
    let second = poller.claim(&sequencer, 2).unwrap();
    assert_eq!((first, second), ((0, 1), (2, 3)));
    let seen = RefCell::new(Vec::new());
    let handler = |value: i64| seen.borrow_mut().push(value);
    // The consumer with the later claim finishes first.
    slots.drain(second.0, second.1, &handler);
    sequencer.publish_gating_sequence(second.1);
    assert_eq!(sequencer.get_gating_sequence_relaxed(), 3);
    slots.drain(first.0, first.1, &handler);
    sequencer.publish_gating_sequence(first.1);
    assert_eq!(sequencer.get_gating_sequence_relaxed(), 1);
    assert_eq!(*seen.borrow(), vec![2, 3, 0, 1]);
}

#[test]
fn several_consumers_poll_from_their_claim_counter() {
    let mut sequencer = SingleProducerSequencer::new(8);
    let mut slots: SlotArray<i64> = SlotArray::new(8);
    let mut poller = PollerKind::MultiConsumer(MultiConsumerPoller::new());
    let seen = RefCell::new(Vec::new());
    let handler = |value: i64| seen.borrow_mut().push(value);
    assert_eq!(sequencer.next_n(3), Claim::Ready(2));
    for sequence in 0..3 {
        slots.write(sequence, 100 + sequence);
    }
    sequencer.publish_cursor_sequence_range(0, 2);
    assert_eq!(poller.poll(&mut sequencer, &mut slots, 1, &handler), State::Processing);
    assert_eq!(sequencer.get_gating_sequence_relaxed(), 0);
    assert_eq!(poller.poll(&mut sequencer, &mut slots, 5, &handler), State::Processing);
    assert_eq!(sequencer.get_gating_sequence_relaxed(), 2);
    assert_eq!(poller.poll(&mut sequencer, &mut slots, 5, &handler), State::Idle);
    assert_eq!(*seen.borrow(), vec![100, 101, 102]);
}

#[test]
fn an_early_release_of_a_later_claim_lets_unread_values_be_overwritten() {
    let mut sequencer = SingleProducerSequencer::new(4);
    let mut slots: SlotArray<i64> = SlotArray::new(4);
    let mut poller = MultiConsumerPoller::new();
    assert_eq!(sequencer.next_n(4), Claim::Ready(3));
    for sequence in 0..4 {
        slots.write(sequence, sequence);
    }
    sequencer.publish_cursor_sequence_range(0, 3);
    let first = poller.claim(&sequencer, 2).unwrap();
    let second = poller.claim(&sequencer, 2).unwrap();
    let seen = RefCell::new(Vec::new());
    let handler = |value: i64| seen.borrow_mut().push(value);
    slots.drain(second.0, second.1, &handler);
    sequencer.publish_gating_sequence(second.1);
    // To the producer the whole ring is free now, though the values of the
    // first claim have not been read.
    assert_eq!(sequencer.next_n(4), Claim::Ready(7));
    for sequence in 4..8 {
        slots.write(sequence, sequence);
    }
    sequencer.publish_cursor_sequence_range(4, 7);
    slots.drain(first.0, first.1, &handler);
    assert_eq!(*seen.borrow(), vec![2, 3, 4, 5]);
}
