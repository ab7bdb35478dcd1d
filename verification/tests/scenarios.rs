use channels::prelude::{
    mpmc, mpsc, spmc, spsc, Channel, ConsumerWaitStrategyKind, ProducerWaitStrategyKind,
    RecvOutcome, SendBatchOutcome, SendOutcome, WaitAction,
};
use std::cell::RefCell;

/// Receives until the handler has been given something, as a consumer that
/// blocks does.
fn blocking_recv(channel: &mut Channel<i64>, batch_size: usize, received: &RefCell<Vec<i64>>) {
    let handler = |value: i64| received.borrow_mut().push(value);
    loop {
        match channel.recv(batch_size, &handler) {
            RecvOutcome::Processed => return,
            RecvOutcome::Idle(_) => panic!("nothing to receive"),
        }
    }
}

#[test]
fn spsc_round_trip() {
    let mut channel: Channel<i64> =
        spsc(8, ProducerWaitStrategyKind::Spinning, ConsumerWaitStrategyKind::Spinning);
    let received = RefCell::new(Vec::new());
    let mut next = 0i64;
    let mut stalls = 0;
    while next <= 15 {
        match channel.send(next) {
            SendOutcome::Sent { sequence, notify } => {
                assert_eq!(sequence, next);
                assert!(!notify);
                next += 1;
            }
            SendOutcome::Stalled { stalled, wait } => {
                assert_eq!(wait, WaitAction::Spin);
                assert_eq!(stalled.claim, None);
                assert_eq!(stalled.element, next);
                stalls += 1;
                blocking_recv(&mut channel, 4, &received);
            }
            SendOutcome::Rejected(_) => panic!("a fresh value is never rejected"),
        }
    }
    while received.borrow().len() < 16 {
        blocking_recv(&mut channel, 4, &received);
    }
    assert_eq!(*received.borrow(), (0..=15).collect::<Vec<i64>>());
    assert_eq!(stalls, 2);
}

#[test]
fn spsc_batch() {
    let mut channel: Channel<i64> =
        spsc(16, ProducerWaitStrategyKind::Yielding, ConsumerWaitStrategyKind::Yielding);
    let received = RefCell::new(Vec::new());
    match channel.send_n((0..8).collect()) {
        SendBatchOutcome::Sent { high, .. } => assert_eq!(high, 7),
        _ => panic!("the first batch fits"),
    }
    match channel.send_n((8..16).collect()) {
        SendBatchOutcome::Sent { high, .. } => assert_eq!(high, 15),
        _ => panic!("the second batch fits"),
    }
    let handler = |value: i64| received.borrow_mut().push(value);
    let mut polls = 0;
    while received.borrow().len() < 16 {
        assert_eq!(channel.recv(5, &handler), RecvOutcome::Processed);
        polls += 1;
    }
    assert_eq!(polls, 4);
    assert_eq!(*received.borrow(), (0..16).collect::<Vec<i64>>());
    assert_eq!(channel.recv(5, &handler), RecvOutcome::Idle(WaitAction::Yield));
}

#[test]
fn mpsc_two_producers() {
    let mut channel: Channel<i64> =
        mpsc(1024, ProducerWaitStrategyKind::Spinning, ConsumerWaitStrategyKind::Blocking);
    let received = RefCell::new(Vec::new());
    let handler = |value: i64| received.borrow_mut().push(value);
    let mut a = (0..1000).step_by(2);
    let mut b = (1..1000).step_by(2);
    let mut turn = 0usize;
    let (mut next_a, mut next_b) = (a.next(), b.next());
    while next_a.is_some() || next_b.is_some() {
        // Producer A sends three values for every two of producer B.
        let from_a = next_b.is_none() || (next_a.is_some() && turn % 5 < 3);
        let value = if from_a { next_a.unwrap() } else { next_b.unwrap() };
        match channel.send(value) {
            SendOutcome::Sent { notify, .. } => assert!(notify),
            _ => panic!("a ring of 1024 slots holds 1000 values"),
        }
        if from_a {
            next_a = a.next();
        } else {
            next_b = b.next();
        }
        turn += 1;
        if turn % 100 == 0 {
            assert_eq!(channel.recv(64, &handler), RecvOutcome::Processed);
        }
    }
    while received.borrow().len() < 1000 {
        assert_eq!(channel.recv(64, &handler), RecvOutcome::Processed);
    }
    let got = received.borrow();
    let mut sorted = got.clone();
    sorted.sort();
    assert_eq!(sorted, (0..1000).collect::<Vec<i64>>());
    let from_a: Vec<i64> = got.iter().copied().filter(|v| v % 2 == 0).collect();
    let from_b: Vec<i64> = got.iter().copied().filter(|v| v % 2 == 1).collect();
    assert_eq!(from_a, (0..1000).step_by(2).collect::<Vec<i64>>());
    assert_eq!(from_b, (1..1000).step_by(2).collect::<Vec<i64>>());
}

#[test]
fn spmc_fan_out() {
    let mut channel: Channel<i64> =
        spmc(512, ProducerWaitStrategyKind::Spinning, ConsumerWaitStrategyKind::Spinning);
    let consumers: Vec<RefCell<Vec<i64>>> = (0..4).map(|_| RefCell::new(Vec::new())).collect();
    let mut sent = 0i64;
    let mut turn = 0usize;
    while sent < 10000 {
        match channel.send(sent) {
            SendOutcome::Sent { .. } => sent += 1,
            SendOutcome::Stalled { stalled, .. } => {
                assert_eq!(stalled.claim, None);
                let consumer = &consumers[turn % 4];
                let handler = |value: i64| consumer.borrow_mut().push(value);
                assert_eq!(channel.recv(100 + turn % 7, &handler), RecvOutcome::Processed);
                turn += 1;
            }
            SendOutcome::Rejected(_) => panic!("a fresh value is never rejected"),
        }
    }
    loop {
        let consumer = &consumers[turn % 4];
        let handler = |value: i64| consumer.borrow_mut().push(value);
        turn += 1;
        if channel.recv(128, &handler) != RecvOutcome::Processed {
            break;
        }
    }
    let mut all: Vec<i64> = Vec::new();
    for consumer in &consumers {
        assert!(!consumer.borrow().is_empty());
        all.extend(consumer.borrow().iter());
    }
    assert_eq!(all.len(), 10000);
    all.sort();
    assert_eq!(all, (0..10000).collect::<Vec<i64>>());
}

#[test]
fn mpmc_stress() {
    let mut channel: Channel<i64> =
        mpmc(256, ProducerWaitStrategyKind::Yielding, ConsumerWaitStrategyKind::Yielding);
    let consumers: Vec<RefCell<Vec<i64>>> = (0..3).map(|_| RefCell::new(Vec::new())).collect();
    // What each producer still has to send, and the value it holds while it
    // waits for its slot.
    let mut next: Vec<i64> = vec![0, 0, 0];
    let mut waiting: Vec<Option<channels::prelude::StalledPush<i64>>> = vec![None, None, None];
    let mut turn = 0usize;
    while next.iter().any(|n| *n < 10000) || waiting.iter().any(|w| w.is_some()) {
        let producer = turn % 3;
        let outcome = match waiting[producer].take() {
            Some(stalled) => Some(channel.retry_send(stalled)),
            None if next[producer] < 10000 => {
                let value = producer as i64 * 10000 + next[producer];
                next[producer] += 1;
                Some(channel.send(value))
            }
            None => None,
        };
        match outcome {
            Some(SendOutcome::Sent { .. }) | None => {}
            Some(SendOutcome::Stalled { stalled, wait }) => {
                assert_eq!(wait, WaitAction::Yield);
                assert!(stalled.claim.is_some());
                waiting[producer] = Some(stalled);
            }
            Some(SendOutcome::Rejected(_)) => panic!("the claim of a stalled value is open"),
        }
        if turn % 7 == 0 {
            let consumer = &consumers[(turn / 7) % 3];
            let handler = |value: i64| consumer.borrow_mut().push(value);
            let _ = channel.recv(1 + turn % 64, &handler);
        }
        turn += 1;
    }
    loop {
        let consumer = &consumers[turn % 3];
        let handler = |value: i64| consumer.borrow_mut().push(value);
        turn += 1;
        if channel.recv(64, &handler) != RecvOutcome::Processed {
            break;
        }
    }
    let mut all: Vec<i64> = Vec::new();
    for consumer in &consumers {
        all.extend(consumer.borrow().iter());
    }
    assert_eq!(all.len(), 30000);
    all.sort();
    assert_eq!(all, (0..30000).collect::<Vec<i64>>());
}

#[test]
fn back_pressure() {
    let mut channel: Channel<i64> =
        spsc(8, ProducerWaitStrategyKind::Spinning, ConsumerWaitStrategyKind::Spinning);
    let received = RefCell::new(Vec::new());
    let handler = |value: i64| received.borrow_mut().push(value);
    let mut stalls = 0u64;
    let mut next = 0i64;
    while next < 1_000_000 {
        match channel.send(next) {
            SendOutcome::Sent { .. } => next += 1,
            SendOutcome::Stalled { stalled, .. } => {
                // The consumer is slow: it takes a batch only when the
                // producer has found the ring full.
                assert_eq!(stalled.element, next);
                stalls += 1;
                assert_eq!(channel.recv(8, &handler), RecvOutcome::Processed);
            }
            SendOutcome::Rejected(_) => panic!("a fresh value is never rejected"),
        }
    }
    while channel.recv(8, &handler) == RecvOutcome::Processed {}
    assert_eq!(stalls, 124_999);
    let got = received.borrow();
    assert_eq!(got.len(), 1_000_000);
    assert!(got.iter().enumerate().all(|(i, v)| *v == i as i64));
}
