//! A one-shot notification queue.
//!
//! Producers hand the queue wake-up callbacks ([`std::task::Waker`]s) with
//! [`WakerQueue::register`]; a single drain, [`WakerQueue::wake_all`], takes
//! every callback registered so far, invokes each exactly once in
//! registration order, and leaves the queue empty. [`WakerQueue::teardown`]
//! discards the pending callbacks without invoking any of them.
//!
//! The queue's behaviour is stated against the abstract model in [`model`]:
//! a pair of sequences, the callbacks woken so far and the callbacks still
//! pending. Every operation's contract says which model step it performs,
//! and the laws in [`model`] relate the steps to one another.

pub mod model;
pub mod queue;
mod waker;

pub use queue::WakerQueue;
