//! The names a user of the channels needs.
pub use crate::channels::{
    mpmc, mpsc, spmc, spsc, Channel, RecvOutcome, SendBatchOutcome, SendOutcome,
};
pub use crate::coordinator::{ConsumerWaitStrategyKind, ProducerWaitStrategyKind, WaitAction};
pub use crate::ring_buffer::{StalledBatch, StalledPush};
