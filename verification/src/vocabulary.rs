//! What an operation asks of the shared memory, and what it hears back.
//!
//! The operations of the queue are written as state machines. Each state has
//! one pending request to the memory that the threads share. Every request is
//! at most one atomic access to what other threads can reach at that time, beside
//! accesses to what only its thread can reach then; only the sleep on an event
//! looks at its event more than once. The reply decides the next state. Blocks
//! and waiters are named by handles.

use vstd::prelude::*;

use crate::spin::Backoff;

verus! {

/// What the word of a parker can hold.
#[derive(Clone, Copy, Debug)]
pub enum ParkerWord {
    /// Nobody has arrived yet.
    Empty,
    /// The waker came.
    Notified,
    /// The owner has put its event there and waits on it.
    Armed,
}

/// A request of a producer.
#[derive(Clone, Copy, Debug)]
pub enum Action {
    /// Read the position. Answered by `Reply::Word`.
    LoadPosition,
    /// Move the position from `current` to `new`; may fail for no reason.
    /// Answered by `Reply::Outcome`.
    ClaimPosition { current: usize, new: usize },
    /// Set the position.
    StorePosition { position: usize },
    /// Read which block the producers fill. Answered by `Reply::Link`.
    LoadBlock,
    /// Make `new` the block that the producers fill if they have none yet.
    /// Answered by `Reply::Outcome`.
    InstallBlock { new: usize },
    /// Set the block that the producers fill.
    StoreBlock { block: usize },
    /// Show the consumer its first block.
    PublishBlock { block: usize },
    /// Make a new, empty block. Answered by `Reply::Handle`.
    AllocBlock,
    /// Give a block back.
    FreeBlock { block: usize },
    /// Set the successor of `block`.
    LinkBlock { block: usize, next: usize },
    /// Move the item into a slot.
    WriteValue { block: usize, index: usize },
    /// Mark a slot as filled.
    StoreFlag { block: usize, index: usize },
    /// Back off.
    Pause { pause: Backoff },
    /// Ask whether there is still something to wait for. Answered by
    /// `Reply::Outcome`.
    Evaluate,
    /// Read the top of the wait list. Answered by `Reply::Link`.
    LoadTop,
    /// Put the own waiter on top of `top` if that is still the top; may fail
    /// for no reason. Answered by `Reply::Exchange`.
    PushWaiter { top: Option<usize> },
    /// Take the whole wait list. Answered by `Reply::Link`.
    SwapTop,
    /// Read which waiter lay under `waiter`. Answered by `Reply::Link`.
    ReadNext { waiter: usize },
    /// Read the own parker. Answered by `Reply::Parker`.
    LoadParker,
    /// Put a new event into the own parker if it is empty. Answered by
    /// `Reply::Parker` with what was there.
    ArmParker,
    /// Block until the own event is set.
    AwaitEvent,
    /// Empty the own parker.
    ResetParker,
    /// Mark the parker of `waiter` as notified. Answered by `Reply::Parker`
    /// with what was there.
    NotifyParker { waiter: usize },
    /// Set the event that was in the parker of `waiter`, and wake its thread.
    SetEvent { waiter: usize },
    /// Nothing more to ask.
    Finish,
}

/// A request of the consumer.
#[derive(Clone, Copy, Debug)]
pub enum PopAction {
    /// Read the consumer's block and its place in it. Answered by
    /// `Reply::Consumer`.
    LoadConsumer,
    /// Read the successor of `block`. Answered by `Reply::Link`.
    LoadNext { block: usize },
    /// Give a block back.
    FreeBlock { block: usize },
    /// Go to the first slot of `block`.
    Advance { block: usize },
    /// Read whether a slot is filled. Answered by `Reply::Outcome`.
    LoadFlag { block: usize, index: usize },
    /// Move the item out of a slot and step past it.
    Take { block: usize, index: usize },
    /// Nothing more to ask.
    Finish,
}

/// What the shared memory answers.
#[derive(Clone, Copy, Debug)]
pub enum Reply {
    /// The position.
    Word(usize),
    /// A handle, or none.
    Link(Option<usize>),
    /// The handle of a new block.
    Handle(usize),
    /// A truth value.
    Outcome(bool),
    /// Whether an exchange succeeded, and what was there before it.
    Exchange { ok: bool, current: Option<usize> },
    /// What the parker held.
    Parker(ParkerWord),
    /// The consumer's block and its place in it.
    Consumer { block: Option<usize>, index: usize },
    /// The request was carried out; there is nothing to tell.
    Unit,
}

} // verus!
