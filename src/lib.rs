//! A small actor runtime: per-actor FIFO mailboxes, an actor lifecycle,
//! single-shot reply slots for request/response messaging, and
//! subscribe/publish fan-out, all with verified contracts.

pub mod error;
pub mod runtime;
pub mod responder;
pub mod notifier;
pub mod laws;
