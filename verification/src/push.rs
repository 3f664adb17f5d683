//! A producer on its way through one push.

use vstd::prelude::*;

use crate::layout::{BLOCK_CAP, LAP};
use crate::spin::{backoff_at, Backoff, SpinWait};
use crate::vocabulary::{Action, Reply};
use crate::waitlist::{WaitStage, WaitWhile, Wake};

verus! {

/// Where a producer stands.
#[derive(Clone, Copy, Debug)]
pub enum PushStage {
    /// Read the position.
    LoadPosition,
    /// The block is full and its successor not linked yet: wait for that.
    Wait { wait: WaitWhile },
    /// The last slot of the block is next: have its successor ready.
    AllocNext,
    /// Read which block to fill.
    LoadBlock,
    /// There is none: make the first one.
    AllocFirst,
    /// Offer `new` as the first block.
    Install { new: usize },
    /// Another producer was faster: `new` is not needed.
    Discard { new: usize },
    /// Show the first block to the consumer.
    Publish { block: usize },
    /// Claim the slot at the position.
    Claim { block: usize },
    /// Somebody else moved the position: back off, then start over.
    Backoff { pause: Backoff },
    /// The last slot of `block` is claimed: let the producers go on to `next`.
    StoreBlock { block: usize, next: usize },
    /// Let the consumer go on from `block` to `next`.
    Link { block: usize, next: usize },
    /// Open the first slot of the successor.
    StorePosition { block: usize },
    /// Wake those who waited for that.
    WakeAll { block: usize, wake: Wake },
    /// Move the item into the claimed slot.
    Write { block: usize },
    /// Mark the slot as filled.
    Flag { block: usize },
    /// Give back a successor that was made ready and not needed.
    DropNext { unused: usize },
    /// The item is in the queue.
    Done,
}

/// One push.
#[derive(Clone, Copy, Debug)]
pub struct Push {
    pub spin: SpinWait,
    /// A block made ready as the successor of the current one.
    pub next_block: Option<usize>,
    /// The position as last read.
    pub position: usize,
    pub stage: PushStage,
}

impl Push {
    /// A push that is about to begin.
    pub open spec fn fresh() -> Push {
        Push {
            spin: SpinWait { counter: 0 },
            next_block: None,
            position: 0,
            stage: PushStage::LoadPosition,
        }
    }

    /// The slot of the block that the position stands for.
    pub open spec fn index(self) -> usize {
        self.position % LAP
    }

    /// This push, moved to `stage`.
    pub open spec fn moved(self, stage: PushStage) -> Push {
        Push { stage, ..self }
    }

    /// A wait for the position to move asks whether it has.
    pub open spec fn asks_position(wait: WaitWhile) -> bool {
        wait.stage is Check || wait.stage is Recheck
    }

    /// What a reply to this push tells its wait: there is something to wait
    /// for as long as the position is the one last read.
    pub open spec fn told(self, wait: WaitWhile, reply: Reply) -> Reply {
        if Push::asks_position(wait) {
            Reply::Outcome(reply->Word_0 == self.position)
        } else {
            reply
        }
    }

    /// The request that is pending.
    pub open spec fn spec_action(self) -> Action {
        match self.stage {
            PushStage::LoadPosition => Action::LoadPosition,
            PushStage::Wait { wait } => if Push::asks_position(wait) {
                Action::LoadPosition
            } else {
                wait.spec_action()
            },
            PushStage::AllocNext => Action::AllocBlock,
            PushStage::LoadBlock => Action::LoadBlock,
            PushStage::AllocFirst => Action::AllocBlock,
            PushStage::Install { new } => Action::InstallBlock { new },
            PushStage::Discard { new } => Action::FreeBlock { block: new },
            PushStage::Publish { block } => Action::PublishBlock { block },
            PushStage::Claim { block } => Action::ClaimPosition {
                current: self.position,
                new: self.position.wrapping_add(1),
            },
            PushStage::Backoff { pause } => Action::Pause { pause },
            PushStage::StoreBlock { block, next } => Action::StoreBlock { block: next },
            PushStage::Link { block, next } => Action::LinkBlock { block, next },
            PushStage::StorePosition { block } => Action::StorePosition {
                position: self.position.wrapping_add(1).wrapping_add(1),
            },
            PushStage::WakeAll { block, wake } => wake.spec_action(),
            PushStage::Write { block } => Action::WriteValue { block, index: self.index() },
            PushStage::Flag { block } => Action::StoreFlag { block, index: self.index() },
            PushStage::DropNext { unused } => Action::FreeBlock { block: unused },
            PushStage::Done => Action::Finish,
        }
    }

    /// The replies that can be carried on from. A producer that claims the
    /// last slot of a block has the successor ready, and one that fails to
    /// claim a slot can count that.
    pub open spec fn accepts(self, reply: Reply) -> bool {
        match self.stage {
            PushStage::LoadPosition => reply is Word,
            PushStage::Wait { wait } => {
                &&& Push::asks_position(wait) ==> reply is Word
                &&& wait.accepts(self.told(wait, reply))
            },
            PushStage::AllocNext => reply is Handle,
            PushStage::LoadBlock => reply is Link,
            PushStage::AllocFirst => reply is Handle,
            PushStage::Install { new } => reply is Outcome,
            PushStage::Claim { block } => reply matches Reply::Outcome(ok) && if ok {
                self.index() + 1 == BLOCK_CAP ==> self.next_block is Some
            } else {
                self.spin.counter < usize::MAX
            },
            PushStage::WakeAll { block, wake } => wake.accepts(reply),
            PushStage::Done => false,
            _ => reply is Unit,
        }
    }

    /// The state after `reply`.
    pub open spec fn after(self, reply: Reply) -> Push {
        match self.stage {
            PushStage::LoadPosition => {
                let position = reply->Word_0;
                let index = position % LAP;
                let stage = if index == BLOCK_CAP {
                    PushStage::Wait { wait: WaitWhile::fresh() }
                } else if index + 1 == BLOCK_CAP && self.next_block is None {
                    PushStage::AllocNext
                } else {
                    PushStage::LoadBlock
                };
                Push { position, stage, ..self }
            },
            PushStage::Wait { wait } => {
                let wait = wait.after(self.told(wait, reply));
                self.moved(
                    if wait.stage is Done {
                        PushStage::LoadPosition
                    } else {
                        PushStage::Wait { wait }
                    },
                )
            },
            PushStage::AllocNext => Push {
                next_block: Some(reply->Handle_0),
                stage: PushStage::LoadBlock,
                ..self
            },
            PushStage::LoadBlock => match reply->Link_0 {
                Some(block) => self.moved(PushStage::Claim { block }),
                None => self.moved(PushStage::AllocFirst),
            },
            PushStage::AllocFirst => self.moved(PushStage::Install { new: reply->Handle_0 }),
            PushStage::Install { new } => if reply->Outcome_0 {
                self.moved(PushStage::Publish { block: new })
            } else {
                self.moved(PushStage::Discard { new })
            },
            PushStage::Discard { new } => self.moved(PushStage::LoadPosition),
            PushStage::Publish { block } => self.moved(PushStage::Claim { block }),
            PushStage::Claim { block } => if !reply->Outcome_0 {
                Push {
                    spin: SpinWait { counter: (self.spin.counter + 1) as usize },
                    stage: PushStage::Backoff { pause: backoff_at(self.spin.counter + 1) },
                    ..self
                }
            } else if self.index() + 1 == BLOCK_CAP {
                Push {
                    next_block: None,
                    stage: PushStage::StoreBlock { block, next: self.next_block->0 },
                    ..self
                }
            } else {
                self.moved(PushStage::Write { block })
            },
            PushStage::Backoff { pause } => self.moved(PushStage::LoadPosition),
            PushStage::StoreBlock { block, next } => self.moved(PushStage::Link { block, next }),
            PushStage::Link { block, next } => self.moved(PushStage::StorePosition { block }),
            PushStage::StorePosition { block } => self.moved(
                PushStage::WakeAll { block, wake: Wake::Swap },
            ),
            PushStage::WakeAll { block, wake } => match wake.after(reply) {
                Wake::Done => self.moved(PushStage::Write { block }),
                wake => self.moved(PushStage::WakeAll { block, wake }),
            },
            PushStage::Write { block } => self.moved(PushStage::Flag { block }),
            PushStage::Flag { block } => match self.next_block {
                Some(unused) => Push {
                    next_block: None,
                    stage: PushStage::DropNext { unused },
                    ..self
                },
                None => self.moved(PushStage::Done),
            },
            PushStage::DropNext { unused } => self.moved(PushStage::Done),
            PushStage::Done => self,
        }
    }

    /// A push that is about to begin.
    pub fn new() -> (push: Push)
        ensures
            push == Push::fresh(),
    {
        Push {
            spin: SpinWait::default(),
            next_block: None,
            position: 0,
            stage: PushStage::LoadPosition,
        }
    }

    /// Whether the item is in the queue and the push over.
    pub fn is_done(&self) -> (done: bool)
        ensures
            done == self.stage is Done,
    {
        matches!(self.stage, PushStage::Done)
    }

    /// The request that is pending.
    pub fn action(&self) -> (action: Action)
        ensures
            action == self.spec_action(),
    {
        match self.stage {
            PushStage::LoadPosition => Action::LoadPosition,
            PushStage::Wait { wait } => {
                match wait.stage {
                    WaitStage::Check { .. } | WaitStage::Recheck => Action::LoadPosition,
                    _ => wait.action(),
                }
            },
            PushStage::AllocNext | PushStage::AllocFirst => Action::AllocBlock,
            PushStage::LoadBlock => Action::LoadBlock,
            PushStage::Install { new } => Action::InstallBlock { new },
            PushStage::Discard { new } => Action::FreeBlock { block: new },
            PushStage::Publish { block } => Action::PublishBlock { block },
            PushStage::Claim { .. } => Action::ClaimPosition {
                current: self.position,
                new: self.position.wrapping_add(1),
            },
            PushStage::Backoff { pause } => Action::Pause { pause },
            PushStage::StoreBlock { next, .. } => Action::StoreBlock { block: next },
            PushStage::Link { block, next } => Action::LinkBlock { block, next },
            PushStage::StorePosition { .. } => Action::StorePosition {
                position: self.position.wrapping_add(1).wrapping_add(1),
            },
            PushStage::WakeAll { wake, .. } => wake.action(),
            PushStage::Write { block } => Action::WriteValue { block, index: self.position % LAP },
            PushStage::Flag { block } => Action::StoreFlag { block, index: self.position % LAP },
            PushStage::DropNext { unused } => Action::FreeBlock { block: unused },
            PushStage::Done => Action::Finish,
        }
    }

    /// Whether `reply` can be carried on from.
    pub fn can_resume(&self, reply: &Reply) -> (possible: bool)
        ensures
            possible == self.accepts(*reply),
    {
        match (self.stage, *reply) {
            (PushStage::LoadPosition, Reply::Word(_)) => true,
            (PushStage::Wait { wait }, _) => {
                match wait.stage {
                    WaitStage::Check { .. } | WaitStage::Recheck => matches!(reply, Reply::Word(_)),
                    _ => wait.can_resume(reply),
                }
            },
            (PushStage::AllocNext, Reply::Handle(_)) => true,
            (PushStage::AllocFirst, Reply::Handle(_)) => true,
            (PushStage::LoadBlock, Reply::Link(_)) => true,
            (PushStage::Install { .. }, Reply::Outcome(_)) => true,
            (PushStage::Claim { .. }, Reply::Outcome(ok)) => {
                if ok {
                    self.position % LAP + 1 != BLOCK_CAP || self.next_block.is_some()
                } else {
                    self.spin.counter < usize::MAX
                }
            },
            (PushStage::WakeAll { wake, .. }, _) => wake.can_resume(reply),
            (PushStage::Discard { .. }, Reply::Unit) => true,
            (PushStage::Publish { .. }, Reply::Unit) => true,
            (PushStage::Backoff { .. }, Reply::Unit) => true,
            (PushStage::StoreBlock { .. }, Reply::Unit) => true,
            (PushStage::Link { .. }, Reply::Unit) => true,
            (PushStage::StorePosition { .. }, Reply::Unit) => true,
            (PushStage::Write { .. }, Reply::Unit) => true,
            (PushStage::Flag { .. }, Reply::Unit) => true,
            (PushStage::DropNext { .. }, Reply::Unit) => true,
            (_, _) => false,
        }
    }

    /// Carries on from the reply to the pending request.
    pub fn resume(self, reply: Reply) -> (next: Push)
        requires
            self.accepts(reply),
        ensures
            next == self.after(reply),
    {
        let mut push = self;
        match (self.stage, reply) {
            (PushStage::LoadPosition, Reply::Word(position)) => {
                let index: usize = position % LAP;
                push.position = position;
                push.stage = if index == BLOCK_CAP {
                    PushStage::Wait { wait: WaitWhile::new() }
                } else if index + 1 == BLOCK_CAP && self.next_block.is_none() {
                    PushStage::AllocNext
                } else {
                    PushStage::LoadBlock
                };
            },
            (PushStage::Wait { wait }, _) => {
                let told = match (wait.stage, reply) {
                    (WaitStage::Check { .. }, Reply::Word(current)) => {
                        Reply::Outcome(current == self.position)
                    },
                    (WaitStage::Recheck, Reply::Word(current)) => {
                        Reply::Outcome(current == self.position)
                    },
                    (_, _) => reply,
                };
                let wait = wait.resume(told);
                push.stage = match wait.stage {
                    WaitStage::Done => PushStage::LoadPosition,
                    _ => PushStage::Wait { wait },
                };
            },
            (PushStage::AllocNext, Reply::Handle(next)) => {
                push.next_block = Some(next);
                push.stage = PushStage::LoadBlock;
            },
            (PushStage::LoadBlock, Reply::Link(Some(block))) => {
                push.stage = PushStage::Claim { block };
            },
            (PushStage::LoadBlock, _) => {
                push.stage = PushStage::AllocFirst;
            },
            (PushStage::AllocFirst, Reply::Handle(new)) => {
                push.stage = PushStage::Install { new };
            },
            (PushStage::Install { new }, Reply::Outcome(ok)) => {
                push.stage = if ok {
                    PushStage::Publish { block: new }
                } else {
                    PushStage::Discard { new }
                };
            },
            (PushStage::Publish { block }, _) => {
                push.stage = PushStage::Claim { block };
            },
            (PushStage::Claim { block }, Reply::Outcome(ok)) => {
                if !ok {
                    let pause = push.spin.yield_now();
                    push.stage = PushStage::Backoff { pause };
                } else if self.position % LAP + 1 == BLOCK_CAP {
                    let next: usize = self.next_block.unwrap();
                    push.next_block = None;
                    push.stage = PushStage::StoreBlock { block, next };
                } else {
                    push.stage = PushStage::Write { block };
                }
            },
            (PushStage::Backoff { .. }, _) | (PushStage::Discard { .. }, _) => {
                push.stage = PushStage::LoadPosition;
            },
            (PushStage::StoreBlock { block, next }, _) => {
                push.stage = PushStage::Link { block, next };
            },
            (PushStage::Link { block, .. }, _) => {
                push.stage = PushStage::StorePosition { block };
            },
            (PushStage::StorePosition { block }, _) => {
                push.stage = PushStage::WakeAll { block, wake: Wake::Swap };
            },
            (PushStage::WakeAll { block, wake }, _) => {
                push.stage = match wake.resume(reply) {
                    Wake::Done => PushStage::Write { block },
                    wake => PushStage::WakeAll { block, wake },
                };
            },
            (PushStage::Write { block }, _) => {
                push.stage = PushStage::Flag { block };
            },
            (PushStage::Flag { .. }, _) => {
                match self.next_block {
                    Some(unused) => {
                        push.next_block = None;
                        push.stage = PushStage::DropNext { unused };
                    },
                    None => {
                        push.stage = PushStage::Done;
                    },
                }
            },
            (_, _) => {
                push.stage = PushStage::Done;
            },
        }
        push
    }
}

} // verus!
