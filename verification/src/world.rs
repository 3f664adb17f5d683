//! Producers and a consumer at work on one queue, in any interleaving.
//!
//! A world is the shared memory together with every producer that is in the
//! middle of a push and the consumer's pop, if one is under way. It moves by
//! one request of one of them at a time, and which one moves next is open, so
//! whatever is shown of every world that can come about holds of every
//! interleaving of their requests.
//!
//! Beside the memory a world carries its history: which items were claimed in
//! which order, which items were handed out, which blocks have been in use.
//! No request is answered by the history, with one exception: a producer is
//! taken not to find the position unchanged after the counter has gone all the
//! way round and come back to the value that the producer read (`deceived`).

use vstd::prelude::*;

use crate::layout::{slots_before, BLOCK_CAP};
use crate::memory::{fresh_waiter, MemoryView};
use crate::parker::Park;
use crate::pop::Pop;
use crate::push::{Push, PushStage};
use crate::vocabulary::{Action, Reply};
use crate::waitlist::{WaitStage, Wake};

verus! {

/// A producer in the middle of a push.
pub struct Thread<T> {
    pub push: Push,
    /// What it pushes.
    pub item: T,
    /// How many slots had been claimed when it began.
    pub begun: nat,
    /// The ticket whose word it read as the position.
    pub seen: nat,
    /// Those it has taken off the wait list and not woken yet.
    pub charges: Seq<usize>,
}

/// What a block is used for.
pub enum Role {
    /// Only this producer knows of it.
    Private(usize),
    /// It is the block of this lap.
    Lap(nat),
}

/// Who is to wake a waiter: whoever takes the list, or one producer. The
/// number says how many lie under the waiter.
pub struct Place {
    pub waker: Option<usize>,
    pub depth: nat,
}

/// Producers and a consumer at work on one queue.
#[verifier::ext_equal]
pub struct World<T> {
    pub mem: MemoryView<T>,
    /// The producers that are in the middle of a push, by their waiters.
    pub threads: Map<usize, Thread<T>>,
    /// The pop that is under way.
    pub pop: Option<Pop>,
    /// How often the position has moved.
    pub tail: nat,
    /// The items in the order in which their slots were claimed.
    pub log: Seq<T>,
    /// The items in the order in which they were handed out.
    pub delivered: Seq<T>,
    /// The block of each lap so far.
    pub laps: Seq<usize>,
    /// The lap that the consumer is in.
    pub head: nat,
    /// What each block is used for.
    pub roles: Map<usize, Role>,
    /// The slots that are claimed and not marked as filled, and by whom.
    pub writers: Map<nat, usize>,
    /// The producer that links the next block.
    pub linker: Option<usize>,
    /// The producer that has yet to show the first block to the consumer.
    pub publisher: Option<usize>,
    /// The wait list, from the top down.
    pub list: Seq<usize>,
    /// Who is to wake each waiter that waits to be woken.
    pub held: Map<usize, Place>,
    /// The waiters that have been left word while they sleep, and who is about
    /// to set their event.
    pub setters: Map<usize, usize>,
}

impl<T> Thread<T> {
    /// A producer that is about to begin.
    pub open spec fn fresh(item: T, begun: nat) -> Thread<T> {
        Thread { push: Push::fresh(), item, begun, seen: 0, charges: Seq::empty() }
    }

    /// The part of the push in which it wakes others.
    pub open spec fn wake(self) -> Option<Wake> {
        match self.push.stage {
            PushStage::WakeAll { block, wake } => Some(wake),
            PushStage::Wait { wait } => match wait.stage {
                WaitStage::WakeAll { wake } => Some(wake),
                _ => None,
            },
            _ => None,
        }
    }

    /// The stage of its wait, while it waits.
    pub open spec fn wait(self) -> Option<WaitStage> {
        match self.push.stage {
            PushStage::Wait { wait } => Some(wait.stage),
            _ => None,
        }
    }

    /// The stage of its sleep, while it sleeps.
    pub open spec fn sleep(self) -> Option<Park> {
        match self.wait() {
            Some(WaitStage::Sleep { park }) => Some(park),
            _ => None,
        }
    }
}

impl<T> World<T> {
    /// Nothing has happened yet.
    pub open spec fn initial() -> World<T> {
        World {
            mem: MemoryView::initial(),
            threads: Map::empty(),
            pop: None,
            tail: 0,
            log: Seq::empty(),
            delivered: Seq::empty(),
            laps: Seq::empty(),
            head: 0,
            roles: Map::empty(),
            writers: Map::empty(),
            linker: None,
            publisher: None,
            list: Seq::empty(),
            held: Map::empty(),
            setters: Map::empty(),
        }
    }

    /// The request that a producer has pending.
    pub open spec fn action_of(self, tid: usize) -> Action {
        self.threads[tid].push.spec_action()
    }

    /// A producer that claims a slot, or that is about to sleep, finds the
    /// position to be the one that it read, although the position has moved
    /// since.
    pub open spec fn deceived(self, tid: usize, reply: Reply) -> bool {
        let thread = self.threads[tid];
        &&& thread.seen != self.tail
        &&& {
            ||| thread.push.stage is Claim && reply->Outcome_0
            ||| thread.wait() == Some(WaitStage::Recheck) && reply->Word_0 == thread.push.position
        }
    }

    /// A producer that fails to claim a slot can still count that.
    pub open spec fn countable(self, tid: usize, reply: Reply) -> bool {
        self.threads[tid].push.stage is Claim && !reply->Outcome_0
            ==> self.threads[tid].push.spin.counter < usize::MAX
    }

    /// A producer can move on `reply`.
    pub open spec fn can_step(self, tid: usize, reply: Reply) -> bool {
        &&& self.threads.contains_key(tid)
        &&& !(self.threads[tid].push.stage is Done)
        &&& self.mem.answers(tid, self.action_of(tid), reply)
        &&& !self.deceived(tid, reply)
        &&& self.countable(tid, reply)
    }

    /// The producer cannot move: it sleeps on an event that is not set.
    pub open spec fn blocked(self, tid: usize) -> bool {
        self.mem.blocks_on(tid, self.action_of(tid))
    }

    /// The world after a producer has moved, but for the history.
    pub open spec fn stepped(self, tid: usize, reply: Reply) -> World<T> {
        let thread = self.threads[tid];
        World {
            mem: self.mem.after(tid, self.action_of(tid), thread.item, reply),
            threads: self.threads.insert(
                tid,
                Thread { push: thread.push.after(reply), ..thread },
            ),
            ..self
        }
    }

    /// This world with another ticket seen by `tid`.
    pub open spec fn with_seen(self, tid: usize, seen: nat) -> World<T> {
        World {
            threads: self.threads.insert(tid, Thread { seen, ..self.threads[tid] }),
            ..self
        }
    }

    /// This world with other charges of `tid`.
    pub open spec fn with_charges(self, tid: usize, charges: Seq<usize>) -> World<T> {
        World {
            threads: self.threads.insert(tid, Thread { charges, ..self.threads[tid] }),
            ..self
        }
    }

    /// The history of waking, after `tid`, which was at `wake`, has moved.
    pub open spec fn woken(self, tid: usize, wake: Wake, reply: Reply) -> World<T> {
        match wake {
            Wake::Swap => World {
                list: Seq::empty(),
                held: self.held.map_values(
                    |place: Place|
                        if place.waker is None {
                            Place { waker: Some(tid), depth: place.depth }
                        } else {
                            place
                        },
                ),
                ..self.with_charges(tid, self.list)
            },
            Wake::Notify { waiter, next } => World {
                held: self.held.remove(waiter),
                setters: if reply->Parker_0 is Armed {
                    self.setters.insert(waiter, tid)
                } else {
                    self.setters
                },
                ..self.with_charges(tid, self.threads[tid].charges.drop_first())
            },
            Wake::SetEvent { waiter, next } => World {
                setters: self.setters.remove(waiter),
                ..self
            },
            _ => self,
        }
    }

    /// The world after `tid` has moved on `reply`.
    pub open spec fn step(self, tid: usize, reply: Reply) -> World<T> {
        let thread = self.threads[tid];
        let next = self.stepped(tid, reply);
        match thread.push.stage {
            PushStage::LoadPosition => next.with_seen(tid, self.tail),
            PushStage::AllocNext | PushStage::AllocFirst => World {
                roles: self.roles.insert(reply->Handle_0, Role::Private(tid)),
                ..next
            },
            PushStage::Install { new } => if reply->Outcome_0 {
                World {
                    laps: self.laps.push(new),
                    roles: self.roles.insert(new, Role::Lap(self.laps.len())),
                    publisher: Some(tid),
                    ..next
                }
            } else {
                next
            },
            PushStage::Discard { new } => World { roles: self.roles.remove(new), ..next },
            PushStage::Publish { block } => World { publisher: None, ..next },
            PushStage::Claim { block } => if reply->Outcome_0 {
                World {
                    tail: self.tail + 1,
                    log: self.log.push(thread.item),
                    writers: self.writers.insert(self.log.len(), tid),
                    linker: if thread.push.index() + 1 == BLOCK_CAP {
                        Some(tid)
                    } else {
                        self.linker
                    },
                    ..next
                }
            } else {
                next
            },
            PushStage::StoreBlock { block, next: successor } => World {
                laps: self.laps.push(successor),
                roles: self.roles.insert(successor, Role::Lap(self.laps.len())),
                ..next
            },
            PushStage::StorePosition { block } => World {
                tail: self.tail + 1,
                linker: None,
                ..next
            },
            PushStage::Flag { block } => World {
                writers: self.writers.remove(slots_before(thread.seen)),
                ..next
            },
            PushStage::DropNext { unused } => World { roles: self.roles.remove(unused), ..next },
            PushStage::WakeAll { block, wake } => next.woken(tid, wake, reply),
            PushStage::Wait { wait } => match wait.stage {
                WaitStage::Enlist { top } => if reply->ok {
                    World {
                        list: seq![tid] + self.list,
                        held: self.held.insert(
                            tid,
                            Place { waker: None, depth: self.list.len() },
                        ),
                        ..next
                    }
                } else {
                    next
                },
                WaitStage::WakeAll { wake } => next.woken(tid, wake, reply),
                _ => next,
            },
            _ => next,
        }
    }

    /// A producer can begin under a handle that no producer uses.
    pub open spec fn can_start(self, tid: usize) -> bool {
        !self.threads.contains_key(tid) && !self.mem.waiters.contains_key(tid)
    }

    /// The world after a producer has begun to push `item`.
    pub open spec fn start(self, tid: usize, item: T) -> World<T> {
        World {
            mem: self.mem.with_waiter(tid, fresh_waiter()),
            threads: self.threads.insert(tid, Thread::fresh(item, self.log.len())),
            ..self
        }
    }

    /// A producer can leave when its push is over.
    pub open spec fn can_finish(self, tid: usize) -> bool {
        self.threads.contains_key(tid) && self.threads[tid].push.stage is Done
    }

    /// The world after a producer has left.
    pub open spec fn finish(self, tid: usize) -> World<T> {
        World {
            mem: MemoryView { waiters: self.mem.waiters.remove(tid), ..self.mem },
            threads: self.threads.remove(tid),
            ..self
        }
    }

    /// The consumer can begin when no pop is under way.
    pub open spec fn can_start_pop(self) -> bool {
        self.pop is None
    }

    /// The world after the consumer has begun.
    pub open spec fn start_pop(self) -> World<T> {
        World { pop: Some(Pop::LoadConsumer), ..self }
    }

    /// The consumer can move.
    pub open spec fn can_step_pop(self) -> bool {
        self.pop matches Some(pop) && !(pop is Done)
    }

    /// The reply that the consumer's pending request gets.
    pub open spec fn pop_reply(self) -> Reply {
        self.mem.pop_answer(self.pop->0.spec_action())
    }

    /// The world after the consumer has moved.
    pub open spec fn step_pop(self) -> World<T> {
        let pop = self.pop->0;
        let action = pop.spec_action();
        let next = World {
            mem: self.mem.after_pop(action),
            pop: Some(pop.after(self.pop_reply())),
            ..self
        };
        match pop {
            Pop::Free { block, next: successor } => World {
                roles: self.roles.remove(block),
                ..next
            },
            Pop::Advance { next: successor } => World { head: self.head + 1, ..next },
            Pop::Take { block, index } => World {
                delivered: self.delivered.push(self.mem.pop_item(action)->0),
                ..next
            },
            _ => next,
        }
    }

    /// The consumer can leave when its pop is over.
    pub open spec fn can_finish_pop(self) -> bool {
        self.pop matches Some(pop) && pop is Done
    }

    /// The world after the consumer has left.
    pub open spec fn finish_pop(self) -> World<T> {
        World { pop: None, ..self }
    }
}

/// One move of a world.
pub enum Move<T> {
    Start { tid: usize, item: T },
    Step { tid: usize, reply: Reply },
    Finish { tid: usize },
    StartPop,
    StepPop,
    FinishPop,
}

impl<T> World<T> {
    /// The move can be made.
    pub open spec fn can_make(self, made: Move<T>) -> bool {
        match made {
            Move::Start { tid, item } => self.can_start(tid),
            Move::Step { tid, reply } => self.can_step(tid, reply),
            Move::Finish { tid } => self.can_finish(tid),
            Move::StartPop => self.can_start_pop(),
            Move::StepPop => self.can_step_pop(),
            Move::FinishPop => self.can_finish_pop(),
        }
    }

    /// The world after the move.
    pub open spec fn make(self, made: Move<T>) -> World<T> {
        match made {
            Move::Start { tid, item } => self.start(tid, item),
            Move::Step { tid, reply } => self.step(tid, reply),
            Move::Finish { tid } => self.finish(tid),
            Move::StartPop => self.start_pop(),
            Move::StepPop => self.step_pop(),
            Move::FinishPop => self.finish_pop(),
        }
    }

    /// The moves can be made one after the other.
    pub open spec fn can_make_all(self, moves: Seq<Move<T>>) -> bool
        decreases moves.len(),
    {
        moves.len() == 0 || {
            &&& self.can_make(moves[0])
            &&& self.make(moves[0]).can_make_all(moves.drop_first())
        }
    }

    /// The world after the moves.
    pub open spec fn make_all(self, moves: Seq<Move<T>>) -> World<T>
        decreases moves.len(),
    {
        if moves.len() == 0 {
            self
        } else {
            self.make(moves[0]).make_all(moves.drop_first())
        }
    }
}

/// The moves are all of one producer.
pub open spec fn moves_of<T>(moves: Seq<Move<T>>, tid: usize) -> bool {
    forall|i: int|
        0 <= i < moves.len() ==> (#[trigger] moves[i] matches Move::Step { tid: mover, .. } && mover
            == tid)
}

} // verus!
