//! How producers and consumers pass the time while they cannot go on.
//!
//! A strategy does not wait itself. It tells the thread that asks what to do
//! before it looks at the ring again, and the thread does it.
use std::time::Duration;
use vstd::prelude::*;

verus! {

/// How a consumer waits while there is nothing to consume.
#[derive(Copy, Clone, PartialEq, Debug)]
pub enum ConsumerWaitStrategyKind {
    /// Spin in a busy loop.
    Spinning,
    /// Park the thread for up to the given time.
    Parking(Duration),
    /// Yield the thread to the scheduler.
    Yielding,
    /// Sleep until a producer signals.
    Blocking,
}

/// How a producer waits while the ring is full.
#[derive(Copy, Clone, PartialEq, Debug)]
pub enum ProducerWaitStrategyKind {
    /// Spin in a busy loop.
    Spinning,
    /// Park the thread for up to the given time.
    Parking(Duration),
    /// Yield the thread to the scheduler.
    Yielding,
}

/// What a thread that asked its strategy to wait has to do.
#[derive(Copy, Clone, PartialEq, Debug)]
pub enum WaitAction {
    /// Nothing: the wait is over.
    Proceed,
    /// Give the processor a spin-loop hint; the wait is over then.
    Spin,
    /// Park for up to the given time; the wait is over then.
    Park(Duration),
    /// Yield to the scheduler; the wait is over then.
    Yield,
    /// Sleep until notified, and ask the strategy again.
    Block,
}

/// Consumer strategy that spins.
#[derive(Clone, Copy)]
pub struct ConsumerSpinningStrategy {}

impl ConsumerSpinningStrategy {
    /// A spinning strategy.
    pub fn new() -> Self {
        ConsumerSpinningStrategy {  }
    }

    /// The consumer spins once.
    pub fn wait(&self) -> (action: WaitAction)
        ensures
            action == WaitAction::Spin,
    {
        WaitAction::Spin
    }

    /// Nobody sleeps, so nobody has to be notified.
    pub fn signal(&self) -> (notify: bool)
        ensures
            !notify,
    {
        false
    }
}

/// Consumer strategy that parks for a fixed time.
#[derive(Clone, Copy)]
pub struct ConsumerParkingStrategy {
    duration: Duration,
}

impl ConsumerParkingStrategy {
    /// The time the consumer parks for.
    pub closed spec fn duration(&self) -> Duration {
        self.duration
    }

    /// A strategy that parks for up to `duration`.
    pub fn new(duration: Duration) -> (r: Self)
        ensures
            r.duration() == duration,
    {
        ConsumerParkingStrategy { duration }
    }

    /// The consumer parks once.
    pub fn wait(&self) -> (action: WaitAction)
        ensures
            action == WaitAction::Park(self.duration()),
    {
        WaitAction::Park(self.duration)
    }

    /// A parked consumer wakes by itself, so nobody has to be notified.
    pub fn signal(&self) -> (notify: bool)
        ensures
            !notify,
    {
        false
    }
}

/// Consumer strategy that yields.
#[derive(Clone, Copy)]
pub struct ConsumerYieldingStrategy {}

impl ConsumerYieldingStrategy {
    /// A yielding strategy.
    pub fn new() -> Self {
        ConsumerYieldingStrategy {  }
    }

    /// The consumer yields once.
    pub fn wait(&self) -> (action: WaitAction)
        ensures
            action == WaitAction::Yield,
    {
        WaitAction::Yield
    }

    /// Nobody sleeps, so nobody has to be notified.
    pub fn signal(&self) -> (notify: bool)
        ensures
            !notify,
    {
        false
    }
}

/// Consumer strategy that sleeps until a producer signals.
///
/// The strategy keeps one flag. A signal raises it, and a consumer that
/// finds it raised lowers it and goes on. A consumer that finds it lowered
/// sleeps until it is notified, and looks again.
#[derive(Clone, Copy)]
pub struct ConsumerBlockingStrategy {
    state: bool,
}

impl ConsumerBlockingStrategy {
    /// Whether a signal is waiting to be taken.
    pub closed spec fn signalled(&self) -> bool {
        self.state
    }

    /// A blocking strategy with no signal waiting.
    pub fn new() -> (r: Self)
        ensures
            !r.signalled(),
    {
        ConsumerBlockingStrategy { state: false }
    }

    /// Takes the signal where one is waiting, and tells the consumer to
    /// sleep where none is.
    pub fn wait(&mut self) -> (action: WaitAction)
        ensures
            action == if old(self).signalled() {
                WaitAction::Proceed
            } else {
                WaitAction::Block
            },
            !final(self).signalled(),
    {
        if self.state {
            self.state = false;
            WaitAction::Proceed
        } else {
            WaitAction::Block
        }
    }

    /// Raises the flag. Every sleeping consumer has to be notified.
    pub fn signal(&mut self) -> (notify: bool)
        ensures
            notify,
            final(self).signalled(),
    {
        self.state = true;
        true
    }
}

/// Producer strategy that spins.
#[derive(Clone, Copy)]
pub struct ProducerSpinningStrategy {}

impl ProducerSpinningStrategy {
    /// A spinning strategy.
    pub fn new() -> Self {
        ProducerSpinningStrategy {  }
    }

    /// The producer spins once.
    pub fn wait(&self) -> (action: WaitAction)
        ensures
            action == WaitAction::Spin,
    {
        WaitAction::Spin
    }
}

/// Producer strategy that parks for a fixed time.
#[derive(Clone, Copy)]
pub struct ProducerParkingStrategy {
    duration: Duration,
}

impl ProducerParkingStrategy {
    /// The time the producer parks for.
    pub closed spec fn duration(&self) -> Duration {
        self.duration
    }

    /// A strategy that parks for up to `duration`.
    pub fn new(duration: Duration) -> (r: Self)
        ensures
            r.duration() == duration,
    {
        ProducerParkingStrategy { duration }
    }

    /// The producer parks once.
    pub fn wait(&self) -> (action: WaitAction)
        ensures
            action == WaitAction::Park(self.duration()),
    {
        WaitAction::Park(self.duration)
    }
}

/// Producer strategy that yields.
#[derive(Clone, Copy)]
pub struct ProducerYieldingStrategy {}

impl ProducerYieldingStrategy {
    /// A yielding strategy.
    pub fn new() -> Self {
        ProducerYieldingStrategy {  }
    }

    /// The producer yields once.
    pub fn wait(&self) -> (action: WaitAction)
        ensures
            action == WaitAction::Yield,
    {
        WaitAction::Yield
    }
}

/// The consumer strategy a coordinator was made with.
pub enum ConsumerWaitStrategy {
    /// See [`ConsumerSpinningStrategy`].
    Spinning(ConsumerSpinningStrategy),
    /// See [`ConsumerParkingStrategy`].
    Parking(ConsumerParkingStrategy),
    /// See [`ConsumerYieldingStrategy`].
    Yielding(ConsumerYieldingStrategy),
    /// See [`ConsumerBlockingStrategy`].
    Blocking(ConsumerBlockingStrategy),
}

/// The producer strategy a coordinator was made with.
pub enum ProducerWaitStrategy {
    /// See [`ProducerSpinningStrategy`].
    Spinning(ProducerSpinningStrategy),
    /// See [`ProducerParkingStrategy`].
    Parking(ProducerParkingStrategy),
    /// See [`ProducerYieldingStrategy`].
    Yielding(ProducerYieldingStrategy),
}

/// What a coordinator was made with, and whether a signal is waiting for a
/// blocking consumer.
pub struct CoordinatorView {
    /// How producers wait.
    pub producer: ProducerWaitStrategyKind,
    /// How consumers wait.
    pub consumer: ConsumerWaitStrategyKind,
    /// Whether a signal is waiting to be taken by a blocking consumer.
    pub signalled: bool,
}

impl CoordinatorView {
    /// What a producer that has to wait is told to do.
    pub open spec fn producer_action(self) -> WaitAction {
        match self.producer {
            ProducerWaitStrategyKind::Spinning => WaitAction::Spin,
            ProducerWaitStrategyKind::Parking(duration) => WaitAction::Park(duration),
            ProducerWaitStrategyKind::Yielding => WaitAction::Yield,
        }
    }

    /// What a consumer that has to wait is told to do.
    pub open spec fn consumer_action(self) -> WaitAction {
        match self.consumer {
            ConsumerWaitStrategyKind::Spinning => WaitAction::Spin,
            ConsumerWaitStrategyKind::Parking(duration) => WaitAction::Park(duration),
            ConsumerWaitStrategyKind::Yielding => WaitAction::Yield,
            ConsumerWaitStrategyKind::Blocking => if self.signalled {
                WaitAction::Proceed
            } else {
                WaitAction::Block
            },
        }
    }

    /// The coordinator after a consumer asked to wait: a waiting signal is
    /// taken.
    pub open spec fn after_consumer_wait(self) -> Self {
        CoordinatorView { signalled: false, ..self }
    }

    /// Whether a wake-up has to notify sleeping consumers.
    pub open spec fn wakeup_notifies(self) -> bool {
        self.consumer == ConsumerWaitStrategyKind::Blocking
    }

    /// The coordinator after a wake-up: a blocking strategy has a signal
    /// waiting.
    pub open spec fn after_wakeup(self) -> Self {
        CoordinatorView { signalled: self.wakeup_notifies(), ..self }
    }

    /// Only a blocking strategy ever has a signal waiting.
    pub open spec fn wf(self) -> bool {
        self.signalled ==> self.consumer == ConsumerWaitStrategyKind::Blocking
    }

    /// A consumer that waits after a wake-up, with no other consumer having
    /// waited in between, is never told to sleep: it goes on, or does what
    /// its strategy does once.
    pub proof fn lemma_wakeup_ends_wait(self)
        ensures
            self.after_wakeup().consumer_action() != WaitAction::Block,
            self.wakeup_notifies() ==> self.after_wakeup().consumer_action()
                == WaitAction::Proceed,
    {
    }

    /// A sleeping consumer that is woken without a signal is told to sleep
    /// again, so it goes on only after a wake-up.
    pub proof fn lemma_sleep_lasts_until_wakeup(self)
        requires
            self.consumer_action() == WaitAction::Block,
        ensures
            self.after_consumer_wait().consumer_action() == WaitAction::Block,
            self.after_wakeup().after_consumer_wait().consumer_action() == WaitAction::Block,
    {
    }
}

/// The wait strategies of a channel: one for its producers and one for its
/// consumers.
pub struct Coordinator {
    cw: ConsumerWaitStrategy,
    pw: ProducerWaitStrategy,
}

impl View for Coordinator {
    type V = CoordinatorView;

    closed spec fn view(&self) -> CoordinatorView {
        CoordinatorView {
            producer: match self.pw {
                ProducerWaitStrategy::Spinning(_) => ProducerWaitStrategyKind::Spinning,
                ProducerWaitStrategy::Parking(strategy) => ProducerWaitStrategyKind::Parking(
                    strategy.duration(),
                ),
                ProducerWaitStrategy::Yielding(_) => ProducerWaitStrategyKind::Yielding,
            },
            consumer: match self.cw {
                ConsumerWaitStrategy::Spinning(_) => ConsumerWaitStrategyKind::Spinning,
                ConsumerWaitStrategy::Parking(strategy) => ConsumerWaitStrategyKind::Parking(
                    strategy.duration(),
                ),
                ConsumerWaitStrategy::Yielding(_) => ConsumerWaitStrategyKind::Yielding,
                ConsumerWaitStrategy::Blocking(_) => ConsumerWaitStrategyKind::Blocking,
            },
            signalled: match self.cw {
                ConsumerWaitStrategy::Blocking(strategy) => strategy.signalled(),
                _ => false,
            },
        }
    }
}

impl Coordinator {
    /// A coordinator with the given strategies and no signal waiting.
    pub fn new(pw: ProducerWaitStrategyKind, cw: ConsumerWaitStrategyKind) -> (r: Self)
        ensures
            r@ == (CoordinatorView { producer: pw, consumer: cw, signalled: false }),
    {
        let cw = match cw {
            ConsumerWaitStrategyKind::Spinning => ConsumerWaitStrategy::Spinning(
                ConsumerSpinningStrategy::new(),
            ),
            ConsumerWaitStrategyKind::Parking(duration) => ConsumerWaitStrategy::Parking(
                ConsumerParkingStrategy::new(duration),
            ),
            ConsumerWaitStrategyKind::Yielding => ConsumerWaitStrategy::Yielding(
                ConsumerYieldingStrategy::new(),
            ),
            ConsumerWaitStrategyKind::Blocking => ConsumerWaitStrategy::Blocking(
                ConsumerBlockingStrategy::new(),
            ),
        };

        let pw = match pw {
            ProducerWaitStrategyKind::Spinning => ProducerWaitStrategy::Spinning(
                ProducerSpinningStrategy::new(),
            ),
            ProducerWaitStrategyKind::Parking(duration) => ProducerWaitStrategy::Parking(
                ProducerParkingStrategy::new(duration),
            ),
            ProducerWaitStrategyKind::Yielding => ProducerWaitStrategy::Yielding(
                ProducerYieldingStrategy::new(),
            ),
        };

        Coordinator { cw, pw }
    }

    /// Tells a producer that found the ring full what to do before it tries
    /// again.
    pub fn producer_wait(&self) -> (action: WaitAction)
        ensures
            action == self@.producer_action(),
            action != WaitAction::Block,
            action != WaitAction::Proceed,
    {
        match &self.pw {
            ProducerWaitStrategy::Spinning(strategy) => strategy.wait(),
            ProducerWaitStrategy::Parking(strategy) => strategy.wait(),
            ProducerWaitStrategy::Yielding(strategy) => strategy.wait(),
        }
    }

    /// Tells a consumer that found nothing to consume what to do before it
    /// tries again. A blocking strategy hands out a waiting signal to the
    /// first consumer that asks.
    pub fn consumer_wait(&mut self) -> (action: WaitAction)
        ensures
            action == old(self)@.consumer_action(),
            final(self)@ == old(self)@.after_consumer_wait(),
    {
        match &mut self.cw {
            ConsumerWaitStrategy::Spinning(strategy) => strategy.wait(),
            ConsumerWaitStrategy::Parking(strategy) => strategy.wait(),
            ConsumerWaitStrategy::Yielding(strategy) => strategy.wait(),
            ConsumerWaitStrategy::Blocking(strategy) => strategy.wait(),
        }
    }

    /// Wakes consumers after a value was published. Returns whether sleeping
    /// consumers have to be notified, which is the case with a blocking
    /// strategy only.
    pub fn wakeup_consumer(&mut self) -> (notify: bool)
        ensures
            notify == old(self)@.wakeup_notifies(),
            final(self)@ == old(self)@.after_wakeup(),
    {
        match &mut self.cw {
            ConsumerWaitStrategy::Spinning(strategy) => strategy.signal(),
            ConsumerWaitStrategy::Parking(strategy) => strategy.signal(),
            ConsumerWaitStrategy::Yielding(strategy) => strategy.signal(),
            ConsumerWaitStrategy::Blocking(strategy) => strategy.signal(),
        }
    }
}

} // verus!
