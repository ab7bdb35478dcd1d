use channels::coordinator::{
    ConsumerBlockingStrategy, ConsumerParkingStrategy, ConsumerSpinningStrategy,
    ConsumerWaitStrategyKind, ConsumerYieldingStrategy, Coordinator, ProducerParkingStrategy,
    ProducerSpinningStrategy, ProducerWaitStrategyKind, ProducerYieldingStrategy, WaitAction,
};
use channels::wait_strategy::WaitStrategy;
use std::time::Duration;

#[test]
fn each_strategy_names_its_own_action() {
    let interval = Duration::from_micros(50);
    assert_eq!(ConsumerSpinningStrategy::new().wait(), WaitAction::Spin);
    assert_eq!(ConsumerYieldingStrategy::new().wait(), WaitAction::Yield);
    assert_eq!(ConsumerParkingStrategy::new(interval).wait(), WaitAction::Park(interval));
    assert_eq!(ProducerSpinningStrategy::new().wait(), WaitAction::Spin);
    assert_eq!(ProducerYieldingStrategy::new().wait(), WaitAction::Yield);
    assert_eq!(ProducerParkingStrategy::new(interval).wait(), WaitAction::Park(interval));
    assert!(!ConsumerSpinningStrategy::new().signal());
    assert!(!ConsumerYieldingStrategy::new().signal());
    assert!(!ConsumerParkingStrategy::new(interval).signal());
}

#[test]
fn a_blocking_consumer_sleeps_until_it_is_signalled() {
    let mut strategy = ConsumerBlockingStrategy::new();
    assert_eq!(strategy.wait(), WaitAction::Block);
    assert_eq!(strategy.wait(), WaitAction::Block);
    assert!(strategy.signal());
    assert_eq!(strategy.wait(), WaitAction::Proceed);
    // The signal was taken.
    assert_eq!(strategy.wait(), WaitAction::Block);
    // Two signals in a row are one.
    assert!(strategy.signal());
    assert!(strategy.signal());
    assert_eq!(strategy.wait(), WaitAction::Proceed);
    assert_eq!(strategy.wait(), WaitAction::Block);
}

#[test]
fn a_coordinator_hands_each_side_its_strategy() {
    let interval = Duration::from_nanos(1);
    let mut coordinator = Coordinator::new(
        ProducerWaitStrategyKind::Parking(interval),
        ConsumerWaitStrategyKind::Yielding,
    );
    assert_eq!(coordinator.producer_wait(), WaitAction::Park(interval));
    assert_eq!(coordinator.consumer_wait(), WaitAction::Yield);
    assert!(!coordinator.wakeup_consumer());
    assert_eq!(coordinator.consumer_wait(), WaitAction::Yield);

    let mut coordinator = Coordinator::new(
        ProducerWaitStrategyKind::Spinning,
        ConsumerWaitStrategyKind::Parking(interval),
    );
    assert_eq!(coordinator.producer_wait(), WaitAction::Spin);
    assert_eq!(coordinator.consumer_wait(), WaitAction::Park(interval));
    assert!(!coordinator.wakeup_consumer());

    let mut coordinator =
        Coordinator::new(ProducerWaitStrategyKind::Yielding, ConsumerWaitStrategyKind::Spinning);
    assert_eq!(coordinator.producer_wait(), WaitAction::Yield);
    assert_eq!(coordinator.consumer_wait(), WaitAction::Spin);
    assert!(!coordinator.wakeup_consumer());
}

#[test]
fn a_wakeup_ends_the_sleep_of_a_blocking_consumer() {
    let mut coordinator =
        Coordinator::new(ProducerWaitStrategyKind::Spinning, ConsumerWaitStrategyKind::Blocking);
    // The consumer goes to sleep.
    assert_eq!(coordinator.consumer_wait(), WaitAction::Block);
    // A value is sent: sleeping consumers are notified, and the consumer
    // that asks again goes on.
    assert!(coordinator.wakeup_consumer());
    assert_eq!(coordinator.consumer_wait(), WaitAction::Proceed);
    assert_eq!(coordinator.consumer_wait(), WaitAction::Block);
    // Producers never sleep.
    assert_eq!(coordinator.producer_wait(), WaitAction::Spin);
}

#[test]
fn the_strategy_kinds_compare_by_what_they_hold() {
    assert_eq!(ConsumerWaitStrategyKind::Blocking, ConsumerWaitStrategyKind::Blocking);
    assert_ne!(ConsumerWaitStrategyKind::Blocking, ConsumerWaitStrategyKind::Spinning);
    assert_eq!(
        ProducerWaitStrategyKind::Parking(Duration::from_millis(1)),
        ProducerWaitStrategyKind::Parking(Duration::from_micros(1000))
    );
    assert_ne!(
        ProducerWaitStrategyKind::Parking(Duration::from_millis(1)),
        ProducerWaitStrategyKind::Parking(Duration::from_millis(2))
    );
    assert_ne!(WaitStrategy::Parking, WaitStrategy::Spinning);
    assert_ne!(WaitStrategy::Spinning, WaitStrategy::Yielding);
}
