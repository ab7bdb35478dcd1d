use channels::event_poller::{EventPoller, EventPollerState};
use channels::poller::{MultiConsumerPoller, PollerKind, SingleConsumerPoller, State};
use channels::ring_buffer::{BatchOutcome, PushOutcome, RingBuffer, StalledBatch, StalledPush};
use channels::sequencer::{MultiProducerSequencer, SequencerKind, SingleProducerSequencer};
use std::cell::RefCell;

type Ring<T> = RingBuffer<T, SequencerKind, PollerKind>;

fn single(buffer_size: usize) -> Ring<i64> {
    RingBuffer::new(
        buffer_size,
        SequencerKind::SingleProducer(SingleProducerSequencer::new(buffer_size)),
        PollerKind::SingleConsumer(SingleConsumerPoller::new()),
    )
}

fn multi(buffer_size: usize) -> Ring<i64> {
    RingBuffer::new(
        buffer_size,
        SequencerKind::MultiProducer(MultiProducerSequencer::new(buffer_size)),
        PollerKind::MultiConsumer(MultiConsumerPoller::new()),
    )
}

fn published(outcome: PushOutcome<i64>) -> i64 {
    match outcome {
        PushOutcome::Published(sequence) => sequence,
        PushOutcome::Stalled(_) => panic!("stalled"),
        PushOutcome::Rejected(_) => panic!("rejected"),
    }
}

fn stalled(outcome: PushOutcome<i64>) -> StalledPush<i64> {
    match outcome {
        PushOutcome::Stalled(stalled) => stalled,
        PushOutcome::Published(_) => panic!("published"),
        PushOutcome::Rejected(_) => panic!("rejected"),
    }
}

fn rejected(outcome: PushOutcome<i64>) -> i64 {
    match outcome {
        PushOutcome::Rejected(element) => element,
        PushOutcome::Published(_) => panic!("published"),
        PushOutcome::Stalled(_) => panic!("stalled"),
    }
}

fn published_batch(outcome: BatchOutcome<i64>) -> i64 {
    match outcome {
        BatchOutcome::Published(high) => high,
        BatchOutcome::Stalled(_) => panic!("stalled"),
        BatchOutcome::Rejected(_) => panic!("rejected"),
    }
}

fn stalled_batch(outcome: BatchOutcome<i64>) -> StalledBatch<i64> {
    match outcome {
        BatchOutcome::Stalled(stalled) => stalled,
        BatchOutcome::Published(_) => panic!("published"),
        BatchOutcome::Rejected(_) => panic!("rejected"),
    }
}

fn rejected_batch(outcome: BatchOutcome<i64>) -> Vec<i64> {
    match outcome {
        BatchOutcome::Rejected(items) => items,
        BatchOutcome::Published(_) => panic!("published"),
        BatchOutcome::Stalled(_) => panic!("stalled"),
    }
}

fn poll(ring: &mut Ring<i64>, batch_size: usize) -> (State, Vec<i64>) {
    let seen = RefCell::new(Vec::new());
    let state = ring.poll(batch_size, &|value: i64| seen.borrow_mut().push(value));
    (state, seen.into_inner())
}

#[test]
fn a_ring_hands_out_what_was_pushed_in_order() {
    let mut ring = single(4);
    assert_eq!(ring.capacity(), 4);
    assert_eq!(poll(&mut ring, 4), (State::Idle, vec![]));
    assert_eq!(published(ring.push(10)), 0);
    assert_eq!(published(ring.push(11)), 1);
    assert_eq!(published(ring.push(12)), 2);
    assert_eq!(poll(&mut ring, 2), (State::Processing, vec![10, 11]));
    assert_eq!(poll(&mut ring, 0), (State::Idle, vec![]));
    assert_eq!(poll(&mut ring, 4), (State::Processing, vec![12]));
    assert_eq!(poll(&mut ring, 4), (State::Idle, vec![]));
}

#[test]
fn a_ring_holds_as_many_values_as_it_has_slots() {
    let mut ring = single(4);
    for value in 0..4 {
        assert_eq!(published(ring.push(value)), value);
    }
    let refused = stalled(ring.push(4));
    assert_eq!(refused.claim, None);
    assert_eq!(refused.element, 4);
    // A retry changes nothing while the ring is full.
    let refused = stalled(ring.retry_push(refused));
    assert_eq!((refused.claim, refused.element), (None, 4));
    assert_eq!(poll(&mut ring, 1), (State::Processing, vec![0]));
    assert_eq!(published(ring.retry_push(refused)), 4);
    let _ = stalled(ring.push(5));
    assert_eq!(poll(&mut ring, 4), (State::Processing, vec![1, 2, 3, 4]));
    assert_eq!(poll(&mut ring, 4), (State::Idle, vec![]));
}

#[test]
fn the_slots_are_used_again_lap_after_lap() {
    let mut ring = multi(2);
    let mut expected = 0;
    for value in 0..1000 {
        assert_eq!(published(ring.push(value)), value);
        if value % 2 == 1 {
            let (state, seen) = poll(&mut ring, 2);
            assert_eq!(state, State::Processing);
            assert_eq!(seen, vec![expected, expected + 1]);
            expected += 2;
        }
    }
}

#[test]
fn producers_that_stall_publish_in_any_order() {
    let mut ring = multi(2);
    assert_eq!(published(ring.push(100)), 0);
    assert_eq!(published(ring.push(101)), 1);
    // Two producers find the ring full. Each keeps the sequence it claimed.
    let first = stalled(ring.push(102));
    let second = stalled(ring.push(103));
    assert_eq!((first.claim, first.element), (Some(2), 102));
    assert_eq!((second.claim, second.element), (Some(3), 103));
    let second = stalled(ring.retry_push(second));
    assert_eq!(poll(&mut ring, 2), (State::Processing, vec![100, 101]));
    // The later claim is published first. The consumer does not get it
    // before the earlier one is published.
    assert_eq!(published(ring.retry_push(second)), 3);
    assert_eq!(poll(&mut ring, 2), (State::Idle, vec![]));
    assert_eq!(published(ring.retry_push(first)), 2);
    assert_eq!(poll(&mut ring, 2), (State::Processing, vec![102, 103]));
}

#[test]
fn a_stalled_claim_waits_for_its_own_slot() {
    let mut ring = multi(2);
    assert_eq!(published(ring.push(0)), 0);
    assert_eq!(published(ring.push(1)), 1);
    let first = stalled(ring.push(2));
    let second = stalled(ring.push(3));
    assert_eq!(poll(&mut ring, 1), (State::Processing, vec![0]));
    // The slot of sequence 3 is that of sequence 1, which is still held.
    let second = stalled(ring.retry_push(second));
    assert_eq!(second.claim, Some(3));
    assert_eq!(published(ring.retry_push(first)), 2);
    assert_eq!(poll(&mut ring, 2), (State::Processing, vec![1, 2]));
    assert_eq!(published(ring.retry_push(second)), 3);
    assert_eq!(poll(&mut ring, 2), (State::Processing, vec![3]));
}

#[test]
fn a_claim_the_ring_does_not_wait_for_is_rejected() {
    let mut ring = multi(4);
    assert_eq!(published(ring.push(0)), 0);
    // Not claimed yet.
    assert_eq!(rejected(ring.retry_push(StalledPush { claim: Some(1), element: 7 })), 7);
    assert_eq!(rejected(ring.retry_push(StalledPush { claim: Some(100), element: 7 })), 7);
    // Published already.
    assert_eq!(rejected(ring.retry_push(StalledPush { claim: Some(0), element: 7 })), 7);
    assert_eq!(poll(&mut ring, 4), (State::Processing, vec![0]));
    // Consumed already.
    assert_eq!(rejected(ring.retry_push(StalledPush { claim: Some(0), element: 7 })), 7);
    assert_eq!(rejected(ring.retry_push(StalledPush { claim: Some(-1), element: 7 })), 7);
    // A single producer has no claims to wait for.
    let mut ring = single(4);
    assert_eq!(published(ring.push(0)), 0);
    assert_eq!(rejected(ring.retry_push(StalledPush { claim: Some(0), element: 7 })), 7);
    assert_eq!(rejected(ring.retry_push(StalledPush { claim: Some(1), element: 7 })), 7);
    assert_eq!(published(ring.retry_push(StalledPush { claim: None, element: 7 })), 1);
    assert_eq!(poll(&mut ring, 4), (State::Processing, vec![0, 7]));
}

#[test]
fn a_batch_is_published_as_a_whole_and_in_order() {
    let mut ring = single(8);
    assert_eq!(published_batch(ring.push_n(vec![1, 2, 3])), 2);
    assert_eq!(published_batch(ring.push_n(vec![4, 5, 6, 7, 8])), 7);
    let refused = stalled_batch(ring.push_n(vec![9]));
    assert_eq!((refused.claim, refused.items), (None, vec![9]));
    assert_eq!(poll(&mut ring, 6), (State::Processing, vec![1, 2, 3, 4, 5, 6]));
    let refused = stalled_batch(ring.push_n(vec![9, 10, 11, 12, 13, 14, 15]));
    assert_eq!(refused.claim, None);
    assert_eq!(published_batch(ring.push_n(vec![9, 10, 11, 12, 13, 14])), 13);
    assert_eq!(poll(&mut ring, 8), (State::Processing, vec![7, 8, 9, 10, 11, 12, 13, 14]));
}

#[test]
fn an_empty_batch_changes_nothing() {
    let mut ring = single(4);
    assert_eq!(published_batch(ring.push_n(vec![])), -1);
    assert_eq!(published(ring.push(1)), 0);
    assert_eq!(published_batch(ring.push_n(vec![])), 0);
    assert_eq!(published(ring.push(2)), 1);
    assert_eq!(poll(&mut ring, 4), (State::Processing, vec![1, 2]));
    let mut ring = multi(4);
    assert_eq!(published_batch(ring.push_n(vec![])), -1);
    assert_eq!(published_batch(ring.push_n(vec![5, 6])), 1);
    assert_eq!(published_batch(ring.push_n(vec![])), 1);
}

#[test]
fn a_batch_that_stalls_keeps_its_claim() {
    let mut ring = multi(4);
    assert_eq!(published_batch(ring.push_n(vec![0, 1, 2])), 2);
    let batch = stalled_batch(ring.push_n(vec![3, 4, 5]));
    assert_eq!((batch.claim, batch.items.clone()), (Some(5), vec![3, 4, 5]));
    let single_value = stalled(ring.push(6));
    assert_eq!(single_value.claim, Some(6));
    let batch = stalled_batch(ring.retry_push_n(batch));
    assert_eq!(poll(&mut ring, 1), (State::Processing, vec![0]));
    let batch = stalled_batch(ring.retry_push_n(batch));
    assert_eq!(batch.claim, Some(5));
    assert_eq!(poll(&mut ring, 1), (State::Processing, vec![1]));
    assert_eq!(published_batch(ring.retry_push_n(batch)), 5);
    assert_eq!(poll(&mut ring, 4), (State::Processing, vec![2, 3, 4, 5]));
    assert_eq!(published(ring.retry_push(single_value)), 6);
    assert_eq!(poll(&mut ring, 4), (State::Processing, vec![6]));
}

#[test]
fn a_batch_claim_that_does_not_fit_is_rejected() {
    let mut ring = multi(4);
    assert_eq!(published_batch(ring.push_n(vec![0, 1])), 1);
    let reject = |ring: &mut Ring<i64>, claim: i64, items: Vec<i64>| {
        rejected_batch(ring.retry_push_n(StalledBatch { claim: Some(claim), items }))
    };
    // No values, too many values, a claim past the cursor, one that starts
    // at or before the gating sequence, and one that is published.
    assert_eq!(reject(&mut ring, 1, vec![]), Vec::<i64>::new());
    assert_eq!(reject(&mut ring, 1, vec![1, 2, 3, 4, 5]), vec![1, 2, 3, 4, 5]);
    assert_eq!(reject(&mut ring, 2, vec![9]), vec![9]);
    assert_eq!(reject(&mut ring, 1, vec![7, 8, 9]), vec![7, 8, 9]);
    assert_eq!(reject(&mut ring, 1, vec![8, 9]), vec![8, 9]);
    assert_eq!(poll(&mut ring, 4), (State::Processing, vec![0, 1]));
    // A batch without a claim is pushed afresh.
    let outcome = ring.retry_push_n(StalledBatch { claim: None, items: vec![2, 3] });
    assert_eq!(published_batch(outcome), 3);
    assert_eq!(poll(&mut ring, 4), (State::Processing, vec![2, 3]));
}

#[test]
fn values_need_not_be_copyable() {
    let mut ring: RingBuffer<String, SingleProducerSequencer, SingleConsumerPoller> =
        RingBuffer::new(2, SingleProducerSequencer::new(2), SingleConsumerPoller::new());
    assert!(matches!(ring.push("one".to_string()), PushOutcome::Published(0)));
    assert!(matches!(ring.push("two".to_string()), PushOutcome::Published(1)));
    match ring.push("three".to_string()) {
        PushOutcome::Stalled(stalled) => assert_eq!(stalled.element, "three"),
        _ => panic!("the ring is full"),
    }
    let seen = RefCell::new(Vec::new());
    let state = ring.poll(2, &|value: String| seen.borrow_mut().push(value));
    assert_eq!(state, State::Processing);
    assert_eq!(*seen.borrow(), vec!["one".to_string(), "two".to_string()]);
}

#[test]
fn an_event_poller_takes_everything_that_is_published() {
    let mut ring = multi(8);
    let poller = EventPoller::new();
    let seen = RefCell::new(Vec::new());
    let handler = |value: i64| seen.borrow_mut().push(value);
    assert_eq!(poller.poll(&mut ring, &handler), EventPollerState::Idle);
    for value in 0..8 {
        assert_eq!(published(ring.push(value)), value);
    }
    let waiting = stalled(ring.push(8));
    assert_eq!(poller.poll(&mut ring, &handler), EventPollerState::Processing);
    assert_eq!(*seen.borrow(), (0..8).collect::<Vec<i64>>());
    assert_eq!(poller.poll(&mut ring, &handler), EventPollerState::Idle);
    assert_eq!(published(ring.retry_push(waiting)), 8);
    assert_eq!(poller.poll(&mut ring, &handler), EventPollerState::Processing);
    assert_eq!(*seen.borrow(), (0..9).collect::<Vec<i64>>());
}

#[test]
fn the_counters_only_move_forward() {
    let mut ring = single(4);
    assert_eq!((ring.claimed(), ring.gating()), (-1, -1));
    let mut claimed = ring.claimed();
    let mut gating = ring.gating();
    for round in 0..50 {
        for value in 0..3 {
            match ring.push(round * 3 + value) {
                PushOutcome::Published(sequence) => {
                    assert_eq!(sequence, claimed + 1);
                    assert_eq!(ring.claimed(), sequence);
                }
                PushOutcome::Stalled(_) => assert_eq!(ring.claimed(), claimed),
                PushOutcome::Rejected(_) => panic!("rejected"),
            }
            assert!(ring.claimed() >= claimed);
            claimed = ring.claimed();
            assert!(claimed - ring.gating() <= 4);
        }
        let (state, seen) = poll(&mut ring, 2);
        assert_eq!(state, State::Processing);
        assert_eq!(ring.gating(), gating + seen.len() as i64);
        assert!(ring.gating() > gating);
        assert!(ring.gating() <= ring.claimed());
        gating = ring.gating();
    }
    let (state, _) = poll(&mut ring, 4);
    assert_eq!(state, State::Processing);
    assert_eq!(ring.gating(), ring.claimed());
    let before = ring.gating();
    assert_eq!(poll(&mut ring, 4), (State::Idle, vec![]));
    assert_eq!(ring.gating(), before);
}
