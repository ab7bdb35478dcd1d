//! A bounded ring-buffer channel in the style of the Disruptor, written as a
//! family of sequential state machines.
//!
//! Every operation of the channel is one step of a machine: claiming sequence
//! numbers, marking slots as committed, scanning for the contiguous committed
//! prefix, moving values out and releasing slots. A step never waits. Where
//! the channel would have to wait, the step reports it, and the caller decides
//! how to pass the time before it takes the next step. Callers that share a
//! ring between threads serialise the steps; each step then takes effect at
//! one instant, which is the view the contracts in this crate take.
pub mod availability_buffer;
pub mod channels;
pub mod constants;
pub mod coordinator;
pub mod event_poller;
pub mod history;
pub mod poller;
pub mod prelude;
pub mod ring_buffer;
pub mod sequence;
pub mod sequencer;
pub mod slot_array;
pub mod utils;
pub mod wait_strategy;
