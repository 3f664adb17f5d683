//! Where a producer can get, from any world that can come about.

use vstd::prelude::*;

use crate::conduct::{lemma_make_all, lemma_step};
use crate::layout::{lemma_word_index, word_of};
use crate::parker::Park;
use crate::push::PushStage;
use crate::vocabulary::{Action, Reply};
use crate::waitlist::{WaitStage, Wake};
use crate::world::{moves_of, Move, World};

verus! {

/// The two do not differ in the position and the blocks.
pub open spec fn same_ground<T>(a: World<T>, b: World<T>) -> bool {
    &&& a.tail == b.tail
    &&& a.linker == b.linker
    &&& a.mem.block == b.mem.block
    &&& a.mem.blocks == b.mem.blocks
}

/// The producer `waker` is bound to wake `sleeper`: it is about to set its event,
/// or holds it, or the sleeper is on the wait list and `waker` is about to take that
/// list, or to link the block that the sleeper waits for and take the list then.
pub open spec fn owes<T>(w: World<T>, waker: usize, sleeper: usize) -> bool {
    &&& w.threads.contains_key(waker)
    &&& {
        ||| w.setters.contains_key(sleeper) && w.setters[sleeper] == waker
        ||| w.held.contains_key(sleeper) && w.held[sleeper].waker == Some(waker)
        ||| w.held.contains_key(sleeper) && w.held[sleeper].waker is None && (w.about_to_take(waker)
            || w.threads[waker].linking() && w.threads[waker].seen + 1 == w.threads[sleeper].seen)
    }
}

/// Somebody is bound to wake a producer that sleeps.
pub proof fn owed_by<T>(w: World<T>, sleeper: usize) -> (waker: usize)
    requires
        w.ok(),
        w.threads.contains_key(sleeper),
        w.blocked(sleeper),
    ensures
        owes(w, waker, sleeper),
        waker != sleeper,
        !w.blocked(waker),
        !(w.threads[waker].push.stage is Done),
        w.threads[waker].linking() ==> w.linker is Some,
{
    let thread = w.threads[sleeper];
    assert(w.thread_ok(sleeper));
    assert(w.parker_ok(sleeper));
    assert(w.wake_ok(sleeper));
    let waker = if w.held.contains_key(sleeper) {
        assert(w.place_ok(sleeper));
        match w.held[sleeper].waker {
            Some(waker) => waker,
            None => {
                assert(w.due_ok(w.list.len() - 1 - w.held[sleeper].depth));
                if thread.seen == w.tail {
                    w.linker->0
                } else {
                    choose|waker: usize| w.about_to_take(waker)
                }
            },
        }
    } else {
        assert(w.setter_ok(sleeper));
        w.setters[sleeper]
    };
    assert(w.thread_ok(waker));
    assert(w.wake_ok(waker));
    waker
}

/// A move before other moves.
proof fn lemma_move_first<T>(w: World<T>, first: Move<T>, rest: Seq<Move<T>>)
    requires
        w.can_make(first),
        w.make(first).can_make_all(rest),
    ensures
        w.can_make_all(seq![first] + rest),
        w.make_all(seq![first] + rest) == w.make(first).make_all(rest),
{
    assert((seq![first] + rest).drop_first() =~= rest);
}

/// How many moves a producer that links or wakes has before it until all
/// those that it is to wake are awake, at most.
pub open spec fn wakes_left<T>(w: World<T>, waker: usize) -> nat {
    let thread = w.threads[waker];
    match thread.wake() {
        Some(Wake::Swap) => w.list.len() * 3 + 1,
        Some(Wake::ReadNext { .. }) => thread.charges.len() * 3,
        Some(Wake::Notify { .. }) => (thread.charges.len() * 3 - 1) as nat,
        Some(Wake::SetEvent { .. }) => thread.charges.len() * 3 + 1,
        _ => match thread.push.stage {
            PushStage::StoreBlock { .. } => w.list.len() * 3 + 4,
            PushStage::Link { .. } => w.list.len() * 3 + 3,
            _ => w.list.len() * 3 + 2,
        },
    }
}

/// A producer that is bound to wake a sleeper does so by its own moves.
pub proof fn lemma_waker_gets_there<T>(w: World<T>, waker: usize, sleeper: usize) -> (moves: Seq<
    Move<T>,
>)
    requires
        w.ok(),
        w.threads.contains_key(sleeper),
        w.blocked(sleeper),
        owes(w, waker, sleeper),
    ensures
        moves_of(moves, waker),
        w.can_make_all(moves),
        !w.make_all(moves).blocked(sleeper),
        w.make_all(moves).threads.contains_key(sleeper),
        w.make_all(moves).threads[sleeper] == w.threads[sleeper],
        !w.threads[waker].linking() ==> same_ground(w, w.make_all(moves)),
    decreases wakes_left(w, waker),
{
    let thread = w.threads[waker];
    assert(w.thread_ok(sleeper));
    assert(w.parker_ok(sleeper));
    assert(w.wake_ok(sleeper));
    assert(w.thread_ok(waker));
    assert(w.wake_ok(waker));
    assert(w.list_ok(thread.charges, Some(waker)));
    if w.held.contains_key(sleeper) {
        assert(w.place_ok(sleeper));
    } else {
        assert(w.setter_ok(sleeper));
    }
    let action = w.action_of(waker);
    let reply = match thread.wake() {
        Some(Wake::Swap) => Reply::Link(w.mem.top),
        Some(Wake::ReadNext { waiter }) => Reply::Link(w.mem.waiters[waiter].next),
        Some(Wake::Notify { waiter, .. }) => Reply::Parker(w.mem.waiters[waiter].parker.word),
        _ => Reply::Unit,
    };
    assert(waker != sleeper);
    assert(w.can_step(waker, reply));
    lemma_step(w, waker, reply);
    let first = Move::Step { tid: waker, reply };
    let next = w.step(waker, reply);
    if thread.charges.len() > 0 {
        assert(w.link_ok(thread.charges, Some(waker), 0));
    }
    assert(next.threads[sleeper] == w.threads[sleeper]);
    let rest = if next.blocked(sleeper) {
        lemma_waker_gets_there(next, waker, sleeper)
    } else {
        Seq::empty()
    };
    lemma_move_first(w, first, rest);
    seq![first] + rest
}

/// What a producer goes by is out of date, so that it has to start over.
pub open spec fn stale<T>(w: World<T>, tid: usize) -> bool {
    let thread = w.threads[tid];
    ||| thread.seen != w.tail
    ||| (thread.push.stage is AllocFirst || thread.push.stage is Install) && w.mem.block is Some
}

/// How far a producer is from the end of its push, while no other producer is
/// about to move the position.
pub open spec fn distance<T>(w: World<T>, tid: usize) -> nat {
    let thread = w.threads[tid];
    let late = if stale(w, tid) {
        10nat
    } else {
        0nat
    };
    match thread.push.stage {
        PushStage::Wait { wait } => match wait.stage {
            WaitStage::Enlist { .. } => 50,
            WaitStage::Recheck => 49,
            WaitStage::WakeAll { .. } => 48,
            WaitStage::Sleep { park } => match park {
                Park::Load => 47,
                Park::Arm => 46,
                Park::Await => if w.blocked(tid) {
                    45
                } else {
                    44
                },
                Park::Reload => 43,
                Park::Reset => 42,
                Park::Done => 42,
            },
            WaitStage::LoadTop => 41,
            WaitStage::Check { .. } => 40,
            WaitStage::Done => 40,
        },
        PushStage::Backoff { .. } => 32,
        PushStage::Discard { .. } => 31,
        PushStage::LoadPosition => 30,
        PushStage::AllocNext => 28 + late,
        PushStage::LoadBlock => 27 + late,
        PushStage::AllocFirst => 26 + late,
        PushStage::Install { .. } => 25 + late,
        PushStage::Publish { .. } => 24 + late,
        PushStage::Claim { .. } => 23 + late,
        PushStage::StoreBlock { .. } => 12,
        PushStage::Link { .. } => 11,
        PushStage::StorePosition { .. } => 10,
        PushStage::WakeAll { .. } => 9,
        PushStage::Write { .. } => 8,
        PushStage::Flag { .. } => 7,
        PushStage::DropNext { .. } => 6,
        PushStage::Done => 0,
    }
}

/// Another producer is about to move the position on from the end of a block.
pub open spec fn linked_by_other<T>(w: World<T>, tid: usize) -> bool {
    w.linker matches Some(linker) && linker != tid
}

/// How many moves that producer has before it until then.
pub open spec fn link_left<T>(w: World<T>, tid: usize) -> nat {
    if !linked_by_other(w, tid) {
        0
    } else {
        match w.threads[w.linker->0].push.stage {
            PushStage::StoreBlock { .. } => 3,
            PushStage::Link { .. } => 2,
            _ => 1,
        }
    }
}

/// Whoever read the position at ticket `seen` does not take the one at ticket
/// `now` for it.
pub open spec fn unmistakable(now: nat, seen: nat) -> bool {
    word_of(now) == word_of(seen) ==> now == seen
}

/// The producer has what it may need to get to the end of its push.
pub open spec fn provided<T>(w: World<T>, tid: usize, one: usize, other: usize) -> bool {
    let thread = w.threads[tid];
    &&& one != other
    &&& distance(w, tid) >= 33 ==> {
        &&& thread.push.spin.counter < usize::MAX
        &&& unmistakable(w.tail, thread.seen)
        &&& linked_by_other(w, tid) ==> unmistakable(w.tail + 1, thread.seen)
    }
    &&& distance(w, tid) >= 28 && thread.push.next_block is None ==> !w.mem.blocks.contains_key(one)
    &&& distance(w, tid) >= 26 ==> !w.mem.blocks.contains_key(other) || thread.private_block()
        == Some(other)
}

/// The reply on which the producer gets ahead.
spec fn favourable<T>(w: World<T>, tid: usize, one: usize, other: usize) -> Reply {
    let thread = w.threads[tid];
    match w.action_of(tid) {
        Action::LoadPosition => Reply::Word(w.mem.position),
        Action::ClaimPosition { current, .. } => Reply::Outcome(w.mem.position == current),
        Action::LoadBlock => Reply::Link(w.mem.block),
        Action::InstallBlock { .. } => Reply::Outcome(w.mem.block is None),
        Action::AllocBlock => Reply::Handle(
            if thread.push.stage is AllocNext {
                one
            } else {
                other
            },
        ),
        Action::LoadTop => Reply::Link(w.mem.top),
        Action::PushWaiter { top } => Reply::Exchange { ok: w.mem.top == top, current: w.mem.top },
        Action::SwapTop => Reply::Link(w.mem.top),
        Action::ReadNext { waiter } => Reply::Link(w.mem.waiters[waiter].next),
        Action::LoadParker => Reply::Parker(w.mem.waiters[tid].parker.word),
        Action::ArmParker => Reply::Parker(w.mem.waiters[tid].parker.word),
        Action::NotifyParker { waiter } => Reply::Parker(w.mem.waiters[waiter].parker.word),
        _ => Reply::Unit,
    }
}

/// A producer that neither sleeps nor waits for another to link a block gets
/// nearer to the end of its push by moving.
proof fn lemma_gets_nearer<T>(w: World<T>, tid: usize, one: usize, other: usize)
    requires
        w.ok(),
        w.threads.contains_key(tid),
        !(w.threads[tid].push.stage is Done),
        provided(w, tid, one, other),
        !linked_by_other(w, tid),
        !w.blocked(tid),
    ensures
        ({
            let reply = favourable(w, tid, one, other);
            let next = w.step(tid, reply);
            &&& w.can_step(tid, reply)
            &&& next.ok()
            &&& next.threads.contains_key(tid)
            &&& provided(next, tid, one, other)
            &&& !linked_by_other(next, tid)
            &&& distance(next, tid) < distance(w, tid) || distance(next, tid) == distance(w, tid)
                && wakes_left(next, tid) < wakes_left(w, tid)
        }),
{
    let reply = favourable(w, tid, one, other);
    let thread = w.threads[tid];
    assert(w.thread_ok(tid));
    assert(w.parker_ok(tid));
    assert(w.wake_ok(tid));
    lemma_word_index(w.tail);
    assert(w.can_step(tid, reply));
    lemma_step(w, tid, reply);
    assert(w.list_ok(thread.charges, Some(tid)));
    if thread.charges.len() > 0 {
        assert(w.link_ok(thread.charges, Some(tid), 0));
    }
}

/// A push gets to its end.
pub proof fn lemma_completes<T>(w: World<T>, tid: usize, one: usize, other: usize) -> (moves: Seq<
    Move<T>,
>)
    requires
        w.ok(),
        w.threads.contains_key(tid),
        provided(w, tid, one, other),
    ensures
        w.can_make_all(moves),
        forall|i: int| 0 <= i < moves.len() ==> #[trigger] moves[i] is Step,
        w.make_all(moves).can_finish(tid),
    decreases link_left(w, tid), distance(w, tid), wakes_left(w, tid),
{
    let thread = w.threads[tid];
    assert(w.thread_ok(tid));
    if thread.push.stage is Done {
        Seq::empty()
    } else if linked_by_other(w, tid) {
        let linker = w.linker->0;
        assert(w.thread_ok(linker));
        let first = Move::Step { tid: linker, reply: Reply::Unit };
        assert(w.can_step(linker, Reply::Unit));
        lemma_step(w, linker, Reply::Unit);
        let rest = lemma_completes(w.step(linker, Reply::Unit), tid, one, other);
        lemma_move_first(w, first, rest);
        seq![first] + rest
    } else if w.blocked(tid) {
        let waker = owed_by(w, tid);
        let first = lemma_waker_gets_there(w, waker, tid);
        lemma_make_all(w, first);
        let rest = lemma_completes(w.make_all(first), tid, one, other);
        lemma_moves_first(w, first, rest);
        first + rest
    } else {
        let reply = favourable(w, tid, one, other);
        lemma_gets_nearer(w, tid, one, other);
        let first = Move::Step { tid, reply };
        let rest = lemma_completes(w.step(tid, reply), tid, one, other);
        lemma_move_first(w, first, rest);
        seq![first] + rest
    }
}

/// Moves before other moves.
proof fn lemma_moves_first<T>(w: World<T>, first: Seq<Move<T>>, rest: Seq<Move<T>>)
    requires
        w.can_make_all(first),
        w.make_all(first).can_make_all(rest),
    ensures
        w.can_make_all(first + rest),
        w.make_all(first + rest) == w.make_all(first).make_all(rest),
    decreases first.len(),
{
    if first.len() == 0 {
        assert(first + rest =~= rest);
    } else {
        lemma_moves_first(w.make(first[0]), first.drop_first(), rest);
        assert((first + rest).drop_first() =~= first.drop_first() + rest);
    }
}

} // verus!
