//! What holds of every world that can come about.

use vstd::prelude::*;

use crate::layout::lemma_word_index;
use crate::ledger;
use crate::ledger_steps;
use crate::vocabulary::Reply;
use crate::waiting;
use crate::waiting_steps;
use crate::waitlist::Wake;
use crate::world::{Move, World};

verus! {

impl<T> World<T> {
    /// The books and the waiters are in order.
    pub open spec fn ok(self) -> bool {
        self.ledger_ok() && self.waiting_ok()
    }

    /// The world comes about by moves from the start.
    pub open spec fn reachable(self) -> bool {
        exists|moves: Seq<Move<T>>| #[trigger] World::<T>::initial().leads_to(moves, self)
    }

    /// The moves lead from this world to `end`.
    pub open spec fn leads_to(self, moves: Seq<Move<T>>, end: World<T>) -> bool {
        self.can_make_all(moves) && self.make_all(moves) == end
    }
}

/// The request that a producer has pending reaches only what exists.
pub proof fn lemma_in_reach<T>(w: World<T>, tid: usize)
    requires
        w.ok(),
        w.threads.contains_key(tid),
        !(w.threads[tid].push.stage is Done),
    ensures
        w.mem.in_reach(tid, w.action_of(tid)),
{
    let thread = w.threads[tid];
    assert(w.thread_ok(tid));
    assert(w.parker_ok(tid));
    assert(w.wake_ok(tid));
    assert(w.mem.waiters.dom().contains(tid));
    if thread.claimed_block() is Some {
        ledger::lemma_claimed_live(w, tid);
        lemma_word_index(thread.seen);
        assert(w.mem.blocks.dom().contains(w.laps[thread.seen as int / 32]));
    }
    if let Some(block) = thread.private_block() {
        assert(w.mem.blocks.dom().contains(block));
    }
    match thread.wake() {
        Some(Wake::ReadNext { waiter }) | Some(Wake::Notify { waiter, .. }) => {
            assert(w.list_ok(thread.charges, Some(tid)));
            assert(w.link_ok(thread.charges, Some(tid), 0));
            assert(w.place_ok(waiter));
            assert(w.mem.waiters.dom().contains(waiter));
        },
        Some(Wake::SetEvent { waiter, .. }) => {
            assert(w.setter_ok(waiter));
            assert(w.parker_ok(waiter));
            assert(w.mem.waiters.dom().contains(waiter));
        },
        _ => {},
    }
}

/// A move of a producer keeps the order.
pub proof fn lemma_step<T>(w: World<T>, tid: usize, reply: Reply)
    requires
        w.ok(),
        w.can_step(tid, reply),
    ensures
        w.threads[tid].push.accepts(reply),
        w.step(tid, reply).ok(),
{
    ledger_steps::lemma_step(w, tid, reply);
    if w.threads[tid].push.stage is Claim && reply->Outcome_0 {
        ledger_steps::lemma_step_claim(w, tid, reply);
    }
    waiting_steps::lemma_step(w, tid, reply);
}

/// A move keeps the order.
pub proof fn lemma_make<T>(w: World<T>, made: Move<T>)
    requires
        w.ok(),
        w.can_make(made),
    ensures
        w.make(made).ok(),
{
    match made {
        Move::Start { tid, item } => {
            ledger_steps::lemma_start(w, tid, item);
            waiting_steps::lemma_start(w, tid, item);
        },
        Move::Step { tid, reply } => lemma_step(w, tid, reply),
        Move::Finish { tid } => {
            ledger_steps::lemma_finish(w, tid);
            waiting_steps::lemma_finish(w, tid);
        },
        Move::StartPop => {
            ledger_steps::lemma_pop_ends(w, w.start_pop().pop);
            waiting_steps::lemma_consumer(w, w.start_pop());
        },
        Move::StepPop => {
            ledger_steps::lemma_step_pop(w);
            waiting_steps::lemma_consumer(w, w.step_pop());
        },
        Move::FinishPop => {
            ledger_steps::lemma_pop_ends(w, w.finish_pop().pop);
            waiting_steps::lemma_consumer(w, w.finish_pop());
        },
    }
}

/// Moves keep the order.
pub proof fn lemma_make_all<T>(w: World<T>, moves: Seq<Move<T>>)
    requires
        w.ok(),
        w.can_make_all(moves),
    ensures
        w.make_all(moves).ok(),
    decreases moves.len(),
{
    if moves.len() > 0 {
        lemma_make(w, moves[0]);
        lemma_make_all(w.make(moves[0]), moves.drop_first());
    }
}

/// Every world that can come about is in order.
pub proof fn lemma_reachable<T>(w: World<T>)
    requires
        w.reachable(),
    ensures
        w.ok(),
{
    let moves = choose|moves: Seq<Move<T>>| #[trigger] World::<T>::initial().leads_to(moves, w);
    ledger::lemma_initial::<T>();
    waiting::lemma_initial::<T>();
    lemma_make_all(World::<T>::initial(), moves);
}

} // verus!
