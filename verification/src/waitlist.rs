//! The list of threads that wait, and how they get on and off it.

use vstd::prelude::*;

use crate::parker::{Event, Park, Parker};
use crate::spin::SpinWait;
use crate::vocabulary::{Action, ParkerWord, Reply};

verus! {

/// A thread on the wait list.
#[derive(Clone, Copy, Debug)]
pub struct Waiter {
    /// The waiter that lies under this one.
    pub next: Option<usize>,
    pub parker: Parker,
}

impl Default for Waiter {
    /// A waiter that is on no list.
    fn default() -> (fresh: Self)
        ensures
            fresh.next is None,
            fresh.parker.word is Empty,
            fresh.parker.event == Event::vacant(),
    {
        Waiter { next: None, parker: Parker::default() }
    }
}

/// The threads that wait, stacked one on the other.
pub struct WaitList {
    pub top: Option<usize>,
}

impl Default for WaitList {
    /// Nobody waits.
    fn default() -> (list: Self)
        ensures
            list.top is None,
    {
        WaitList { top: None }
    }
}

impl WaitList {
    /// Puts `waiter` on top if the top is still `expected`; says whether it
    /// was, and what the top was.
    pub fn exchange(&mut self, expected: Option<usize>, waiter: usize) -> (result: (
        bool,
        Option<usize>,
    ))
        ensures
            result.0 == (old(self).top == expected),
            result.1 == old(self).top,
            final(self).top == if result.0 {
                Some(waiter)
            } else {
                old(self).top
            },
    {
        let current = self.top;
        let ok = match (current, expected) {
            (Some(a), Some(b)) => a == b,
            (None, None) => true,
            (_, _) => false,
        };
        if ok {
            self.top = Some(waiter);
        }
        (ok, current)
    }

    /// Takes the whole list.
    pub fn take(&mut self) -> (top: Option<usize>)
        ensures
            top == old(self).top,
            final(self).top is None,
    {
        let top = self.top;
        self.top = None;
        top
    }
}

/// A thread that takes the whole wait list and wakes everyone on it, from the
/// top down.
#[derive(Clone, Copy, Debug)]
pub enum Wake {
    /// Take the list.
    Swap,
    /// Find out who comes after `waiter`, while `waiter` still sleeps.
    ReadNext { waiter: usize },
    /// Leave word for `waiter`.
    Notify { waiter: usize, next: Option<usize> },
    /// `waiter` sleeps on its event: set it.
    SetEvent { waiter: usize, next: Option<usize> },
    /// Nobody is left.
    Done,
}

impl Wake {
    /// Turns to the next waiter, if there is one.
    pub open spec fn at(next: Option<usize>) -> Wake {
        match next {
            Some(waiter) => Wake::ReadNext { waiter },
            None => Wake::Done,
        }
    }

    /// The request that is pending.
    pub open spec fn spec_action(self) -> Action {
        match self {
            Wake::Swap => Action::SwapTop,
            Wake::ReadNext { waiter } => Action::ReadNext { waiter },
            Wake::Notify { waiter, next } => Action::NotifyParker { waiter },
            Wake::SetEvent { waiter, next } => Action::SetEvent { waiter },
            Wake::Done => Action::Finish,
        }
    }

    /// The replies that can be carried on from. Nobody else has left word for
    /// the same waiter.
    pub open spec fn accepts(self, reply: Reply) -> bool {
        match self {
            Wake::Swap => reply is Link,
            Wake::ReadNext { waiter } => reply is Link,
            Wake::Notify { waiter, next } => reply matches Reply::Parker(word) && !(
            word is Notified),
            Wake::SetEvent { waiter, next } => reply is Unit,
            Wake::Done => false,
        }
    }

    /// The state after `reply`.
    pub open spec fn after(self, reply: Reply) -> Wake {
        match self {
            Wake::Swap => Wake::at(reply->Link_0),
            Wake::ReadNext { waiter } => Wake::Notify { waiter, next: reply->Link_0 },
            Wake::Notify { waiter, next } => if reply->Parker_0 is Armed {
                Wake::SetEvent { waiter, next }
            } else {
                Wake::at(next)
            },
            Wake::SetEvent { waiter, next } => Wake::at(next),
            Wake::Done => Wake::Done,
        }
    }

    /// Turns to the next waiter, if there is one.
    fn turn_to(next: Option<usize>) -> (wake: Wake)
        ensures
            wake == Wake::at(next),
    {
        match next {
            Some(waiter) => Wake::ReadNext { waiter },
            None => Wake::Done,
        }
    }

    /// The request that is pending.
    pub fn action(&self) -> (action: Action)
        ensures
            action == self.spec_action(),
    {
        match *self {
            Wake::Swap => Action::SwapTop,
            Wake::ReadNext { waiter } => Action::ReadNext { waiter },
            Wake::Notify { waiter, .. } => Action::NotifyParker { waiter },
            Wake::SetEvent { waiter, .. } => Action::SetEvent { waiter },
            Wake::Done => Action::Finish,
        }
    }

    /// Whether `reply` can be carried on from.
    pub fn can_resume(&self, reply: &Reply) -> (possible: bool)
        ensures
            possible == self.accepts(*reply),
    {
        match (*self, *reply) {
            (Wake::Swap, Reply::Link(_)) => true,
            (Wake::ReadNext { .. }, Reply::Link(_)) => true,
            (Wake::Notify { .. }, Reply::Parker(ParkerWord::Notified)) => false,
            (Wake::Notify { .. }, Reply::Parker(_)) => true,
            (Wake::SetEvent { .. }, Reply::Unit) => true,
            (_, _) => false,
        }
    }

    /// Carries on from the reply to the pending request.
    pub fn resume(self, reply: Reply) -> (next: Wake)
        requires
            self.accepts(reply),
        ensures
            next == self.after(reply),
    {
        match (self, reply) {
            (Wake::Swap, Reply::Link(top)) => Self::turn_to(top),
            (Wake::ReadNext { waiter }, Reply::Link(next)) => Wake::Notify { waiter, next },
            (Wake::Notify { waiter, next }, Reply::Parker(ParkerWord::Armed)) => {
                Wake::SetEvent { waiter, next }
            },
            (Wake::Notify { next, .. }, _) => Self::turn_to(next),
            (Wake::SetEvent { next, .. }, _) => Self::turn_to(next),
            (_, _) => Wake::Done,
        }
    }
}

/// Where a waiting thread stands.
#[derive(Clone, Copy, Debug)]
pub enum WaitStage {
    /// Read the top of the list.
    LoadTop,
    /// Is there still something to wait for? `top` is the list as last seen.
    Check { top: Option<usize> },
    /// Get on the list, on top of `top`.
    Enlist { top: Option<usize> },
    /// On the list. Is there still something to wait for?
    Recheck,
    /// There is not: nobody may come any more, so wake everyone.
    WakeAll { wake: Wake },
    /// Sleep until woken.
    Sleep { park: Park },
    /// There is nothing to wait for.
    Done,
}

/// A thread that waits while a condition holds.
#[derive(Clone, Copy, Debug)]
pub struct WaitWhile {
    pub spin: SpinWait,
    pub stage: WaitStage,
}

impl WaitWhile {
    /// A wait that is about to begin.
    pub open spec fn fresh() -> WaitWhile {
        WaitWhile { spin: SpinWait { counter: 0 }, stage: WaitStage::LoadTop }
    }

    /// This wait, moved to `stage`.
    pub open spec fn moved(self, stage: WaitStage) -> WaitWhile {
        WaitWhile { spin: self.spin, stage }
    }

    /// The request that is pending.
    pub open spec fn spec_action(self) -> Action {
        match self.stage {
            WaitStage::LoadTop => Action::LoadTop,
            WaitStage::Check { top } => Action::Evaluate,
            WaitStage::Enlist { top } => Action::PushWaiter { top },
            WaitStage::Recheck => Action::Evaluate,
            WaitStage::WakeAll { wake } => wake.spec_action(),
            WaitStage::Sleep { park } => park.spec_action(),
            WaitStage::Done => Action::Finish,
        }
    }

    /// The replies that can be carried on from.
    pub open spec fn accepts(self, reply: Reply) -> bool {
        match self.stage {
            WaitStage::LoadTop => reply is Link,
            WaitStage::Check { top } => reply is Outcome,
            WaitStage::Enlist { top } => reply is Exchange,
            WaitStage::Recheck => reply is Outcome,
            WaitStage::WakeAll { wake } => wake.accepts(reply),
            WaitStage::Sleep { park } => park.accepts(reply),
            WaitStage::Done => false,
        }
    }

    /// The state after `reply`.
    pub open spec fn after(self, reply: Reply) -> WaitWhile {
        self.moved(
            match self.stage {
                WaitStage::LoadTop => WaitStage::Check { top: reply->Link_0 },
                WaitStage::Check { top } => if reply->Outcome_0 {
                    WaitStage::Enlist { top }
                } else {
                    WaitStage::Done
                },
                WaitStage::Enlist { top } => if reply->ok {
                    WaitStage::Recheck
                } else {
                    WaitStage::Check { top: reply->current }
                },
                WaitStage::Recheck => if reply->Outcome_0 {
                    WaitStage::Sleep { park: Park::Load }
                } else {
                    WaitStage::WakeAll { wake: Wake::Swap }
                },
                WaitStage::WakeAll { wake } => match wake.after(reply) {
                    Wake::Done => WaitStage::Sleep { park: Park::Load },
                    wake => WaitStage::WakeAll { wake },
                },
                WaitStage::Sleep { park } => match park.after(reply) {
                    Park::Done => WaitStage::LoadTop,
                    park => WaitStage::Sleep { park },
                },
                WaitStage::Done => WaitStage::Done,
            },
        )
    }

    /// A wait that is about to begin.
    pub fn new() -> (wait: WaitWhile)
        ensures
            wait == WaitWhile::fresh(),
    {
        WaitWhile { spin: SpinWait::default(), stage: WaitStage::LoadTop }
    }

    /// The request that is pending.
    pub fn action(&self) -> (action: Action)
        ensures
            action == self.spec_action(),
    {
        match self.stage {
            WaitStage::LoadTop => Action::LoadTop,
            WaitStage::Check { .. } | WaitStage::Recheck => Action::Evaluate,
            WaitStage::Enlist { top } => Action::PushWaiter { top },
            WaitStage::WakeAll { wake } => wake.action(),
            WaitStage::Sleep { park } => park.action(),
            WaitStage::Done => Action::Finish,
        }
    }

    /// Whether `reply` can be carried on from.
    pub fn can_resume(&self, reply: &Reply) -> (possible: bool)
        ensures
            possible == self.accepts(*reply),
    {
        match (self.stage, *reply) {
            (WaitStage::LoadTop, Reply::Link(_)) => true,
            (WaitStage::Check { .. }, Reply::Outcome(_)) => true,
            (WaitStage::Enlist { .. }, Reply::Exchange { .. }) => true,
            (WaitStage::Recheck, Reply::Outcome(_)) => true,
            (WaitStage::WakeAll { wake }, _) => wake.can_resume(reply),
            (WaitStage::Sleep { park }, _) => park.can_resume(reply),
            (_, _) => false,
        }
    }

    /// Carries on from the reply to the pending request.
    pub fn resume(self, reply: Reply) -> (next: WaitWhile)
        requires
            self.accepts(reply),
        ensures
            next == self.after(reply),
    {
        let mut spin = self.spin;
        let stage = match (self.stage, reply) {
            (WaitStage::LoadTop, Reply::Link(top)) => WaitStage::Check { top },
            (WaitStage::Check { top }, Reply::Outcome(should_wait)) => {
                if !should_wait {
                    WaitStage::Done
                } else if top.is_none() && spin.try_yield_now() {
                    WaitStage::LoadTop
                } else {
                    WaitStage::Enlist { top }
                }
            },
            (WaitStage::Enlist { .. }, Reply::Exchange { ok, current }) => {
                if ok {
                    WaitStage::Recheck
                } else {
                    WaitStage::Check { top: current }
                }
            },
            (WaitStage::Recheck, Reply::Outcome(should_wait)) => {
                if should_wait {
                    WaitStage::Sleep { park: Park::Load }
                } else {
                    WaitStage::WakeAll { wake: Wake::Swap }
                }
            },
            (WaitStage::WakeAll { wake }, _) => {
                match wake.resume(reply) {
                    Wake::Done => WaitStage::Sleep { park: Park::Load },
                    wake => WaitStage::WakeAll { wake },
                }
            },
            (WaitStage::Sleep { park }, _) => {
                match park.resume(reply) {
                    Park::Done => WaitStage::LoadTop,
                    park => WaitStage::Sleep { park },
                }
            },
            (_, _) => WaitStage::Done,
        };
        WaitWhile { spin, stage }
    }
}

} // verus!
