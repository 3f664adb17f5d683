//! The consumer on its way through one pop.

use vstd::prelude::*;

use crate::layout::BLOCK_CAP;
use crate::vocabulary::{PopAction, Reply};

verus! {

/// One pop.
#[derive(Clone, Copy, Debug)]
pub enum Pop {
    /// Find out where the consumer stands.
    LoadConsumer,
    /// The block is used up: find its successor.
    LoadNext { block: usize },
    /// Give the used-up block back.
    Free { block: usize, next: usize },
    /// Go on to the successor.
    Advance { next: usize },
    /// Look whether the slot is filled.
    LoadFlag { block: usize, index: usize },
    /// It is: take the item.
    Take { block: usize, index: usize },
    /// Over; `taken` says whether there was an item to take.
    Done { taken: bool },
}

impl Pop {
    /// The request that is pending.
    pub open spec fn spec_action(self) -> PopAction {
        match self {
            Pop::LoadConsumer => PopAction::LoadConsumer,
            Pop::LoadNext { block } => PopAction::LoadNext { block },
            Pop::Free { block, next } => PopAction::FreeBlock { block },
            Pop::Advance { next } => PopAction::Advance { block: next },
            Pop::LoadFlag { block, index } => PopAction::LoadFlag { block, index },
            Pop::Take { block, index } => PopAction::Take { block, index },
            Pop::Done { taken } => PopAction::Finish,
        }
    }

    /// The replies that can be carried on from.
    pub open spec fn accepts(self, reply: Reply) -> bool {
        match self {
            Pop::LoadConsumer => reply is Consumer,
            Pop::LoadNext { block } => reply is Link,
            Pop::LoadFlag { block, index } => reply is Outcome,
            Pop::Done { taken } => false,
            _ => reply is Unit,
        }
    }

    /// The state after `reply`.
    pub open spec fn after(self, reply: Reply) -> Pop {
        match self {
            Pop::LoadConsumer => match reply->Consumer_block {
                None => Pop::Done { taken: false },
                Some(block) => if reply->index == BLOCK_CAP {
                    Pop::LoadNext { block }
                } else {
                    Pop::LoadFlag { block, index: reply->index }
                },
            },
            Pop::LoadNext { block } => match reply->Link_0 {
                None => Pop::Done { taken: false },
                Some(next) => Pop::Free { block, next },
            },
            Pop::Free { block, next } => Pop::Advance { next },
            Pop::Advance { next } => Pop::LoadFlag { block: next, index: 0 },
            Pop::LoadFlag { block, index } => if reply->Outcome_0 {
                Pop::Take { block, index }
            } else {
                Pop::Done { taken: false }
            },
            Pop::Take { block, index } => Pop::Done { taken: true },
            Pop::Done { taken } => self,
        }
    }

    /// A pop that is about to begin.
    pub fn new() -> (pop: Pop)
        ensures
            pop is LoadConsumer,
    {
        Pop::LoadConsumer
    }

    /// Whether the pop is over.
    pub fn is_done(&self) -> (done: bool)
        ensures
            done == self is Done,
    {
        matches!(self, Pop::Done { .. })
    }

    /// The request that is pending.
    pub fn action(&self) -> (action: PopAction)
        ensures
            action == self.spec_action(),
    {
        match *self {
            Pop::LoadConsumer => PopAction::LoadConsumer,
            Pop::LoadNext { block } => PopAction::LoadNext { block },
            Pop::Free { block, .. } => PopAction::FreeBlock { block },
            Pop::Advance { next } => PopAction::Advance { block: next },
            Pop::LoadFlag { block, index } => PopAction::LoadFlag { block, index },
            Pop::Take { block, index } => PopAction::Take { block, index },
            Pop::Done { .. } => PopAction::Finish,
        }
    }

    /// Whether `reply` can be carried on from.
    pub fn can_resume(&self, reply: &Reply) -> (possible: bool)
        ensures
            possible == self.accepts(*reply),
    {
        match (*self, *reply) {
            (Pop::LoadConsumer, Reply::Consumer { .. }) => true,
            (Pop::LoadNext { .. }, Reply::Link(_)) => true,
            (Pop::LoadFlag { .. }, Reply::Outcome(_)) => true,
            (Pop::Free { .. }, Reply::Unit) => true,
            (Pop::Advance { .. }, Reply::Unit) => true,
            (Pop::Take { .. }, Reply::Unit) => true,
            (_, _) => false,
        }
    }

    /// Carries on from the reply to the pending request.
    pub fn resume(self, reply: Reply) -> (next: Pop)
        requires
            self.accepts(reply),
        ensures
            next == self.after(reply),
    {
        match (self, reply) {
            (Pop::LoadConsumer, Reply::Consumer { block: Some(block), index }) => {
                if index == BLOCK_CAP {
                    Pop::LoadNext { block }
                } else {
                    Pop::LoadFlag { block, index }
                }
            },
            (Pop::LoadNext { block }, Reply::Link(Some(next))) => Pop::Free { block, next },
            (Pop::Free { next, .. }, _) => Pop::Advance { next },
            (Pop::Advance { next }, _) => Pop::LoadFlag { block: next, index: 0 },
            (Pop::LoadFlag { block, index }, Reply::Outcome(true)) => Pop::Take { block, index },
            (Pop::Take { .. }, _) => Pop::Done { taken: true },
            (_, _) => Pop::Done { taken: false },
        }
    }
}

/// The last owner of a queue on its way through taking it down.
#[derive(Clone, Copy, Debug)]
pub enum Drain {
    /// Pop; what comes out is dropped.
    Popping { pop: Pop },
    /// Nothing came out any more: find the block that is left.
    LoadLast,
    /// Give it back.
    FreeLast { block: usize },
    /// Nothing is left.
    Done,
}

impl Drain {
    /// The request that is pending.
    pub open spec fn spec_action(self) -> PopAction {
        match self {
            Drain::Popping { pop } => pop.spec_action(),
            Drain::LoadLast => PopAction::LoadConsumer,
            Drain::FreeLast { block } => PopAction::FreeBlock { block },
            Drain::Done => PopAction::Finish,
        }
    }

    /// The replies that can be carried on from.
    pub open spec fn accepts(self, reply: Reply) -> bool {
        match self {
            Drain::Popping { pop } => pop.accepts(reply),
            Drain::LoadLast => reply is Consumer,
            Drain::FreeLast { block } => reply is Unit,
            Drain::Done => false,
        }
    }

    /// The state after `reply`.
    pub open spec fn after(self, reply: Reply) -> Drain {
        match self {
            Drain::Popping { pop } => match pop.after(reply) {
                Pop::Done { taken } => if taken {
                    Drain::Popping { pop: Pop::LoadConsumer }
                } else {
                    Drain::LoadLast
                },
                pop => Drain::Popping { pop },
            },
            Drain::LoadLast => match reply->Consumer_block {
                Some(block) => Drain::FreeLast { block },
                None => Drain::Done,
            },
            _ => Drain::Done,
        }
    }

    /// Taking down that is about to begin.
    pub fn new() -> (drain: Drain)
        ensures
            drain == (Drain::Popping { pop: Pop::LoadConsumer }),
    {
        Drain::Popping { pop: Pop::new() }
    }

    /// Whether nothing is left.
    pub fn is_done(&self) -> (done: bool)
        ensures
            done == self is Done,
    {
        matches!(self, Drain::Done)
    }

    /// The request that is pending.
    pub fn action(&self) -> (action: PopAction)
        ensures
            action == self.spec_action(),
    {
        match *self {
            Drain::Popping { pop } => pop.action(),
            Drain::LoadLast => PopAction::LoadConsumer,
            Drain::FreeLast { block } => PopAction::FreeBlock { block },
            Drain::Done => PopAction::Finish,
        }
    }

    /// Whether `reply` can be carried on from.
    pub fn can_resume(&self, reply: &Reply) -> (possible: bool)
        ensures
            possible == self.accepts(*reply),
    {
        match (*self, *reply) {
            (Drain::Popping { pop }, _) => pop.can_resume(reply),
            (Drain::LoadLast, Reply::Consumer { .. }) => true,
            (Drain::FreeLast { .. }, Reply::Unit) => true,
            (_, _) => false,
        }
    }

    /// Carries on from the reply to the pending request.
    pub fn resume(self, reply: Reply) -> (next: Drain)
        requires
            self.accepts(reply),
        ensures
            next == self.after(reply),
    {
        match (self, reply) {
            (Drain::Popping { pop }, _) => {
                match pop.resume(reply) {
                    Pop::Done { taken: true } => Drain::new(),
                    Pop::Done { taken: false } => Drain::LoadLast,
                    pop => Drain::Popping { pop },
                }
            },
            (Drain::LoadLast, Reply::Consumer { block: Some(block), .. }) => {
                Drain::FreeLast { block }
            },
            (_, _) => Drain::Done,
        }
    }
}

} // verus!
