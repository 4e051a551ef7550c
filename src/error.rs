use vstd::prelude::*;

verus! {

/// A message could not be enqueued: the target actor is stopping, stopped,
/// or was never started.
#[derive(Debug, Clone, Copy, PartialEq, Eq, Structural)]
pub enum MailboxError {
    MailboxClosed,
}

/// An ask ended without a reply: the target actor stopped first.
#[derive(Debug, Clone, Copy, PartialEq, Eq, Structural)]
pub enum DeliveryError {
    Cancelled,
}

/// A reply could not be stored in an ask's result slot.
#[derive(Debug, Clone, Copy, PartialEq, Eq, Structural)]
pub enum SlotError {
    /// No ask with this id was ever made.
    UnknownAsk,
    /// The slot was already fulfilled, cancelled or read; a slot is written once.
    AlreadyResolved,
}

} // verus!
