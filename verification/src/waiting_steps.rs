//! Every move keeps the waiters in order.

use vstd::prelude::*;

use crate::vocabulary::Reply;
use crate::waiting::lemma_recall;
use crate::waitlist::{WaitStage, Wake};
use crate::world::World;

verus! {

/// One producer, which holds nobody and is held by nobody, has moved; the
/// lists are as they were. The position has not moved, or nobody can have
/// waited for it to move.
proof fn lemma_apart<T>(w: World<T>, post: World<T>, tid: usize)
    requires
        w.ledger_ok(),
        w.waiting_ok(),
        w.threads.contains_key(tid),
        w.threads[tid].apart(),
        post.threads.dom() == w.threads.dom(),
        forall|other: usize|
            w.threads.contains_key(other) && other != tid ==> #[trigger] post.threads[other]
                == w.threads[other],
        post.threads[tid].apart(),
        post.threads[tid].charges == w.threads[tid].charges,
        post.mem.waiters.dom() == w.mem.waiters.dom(),
        forall|other: usize|
            w.threads.contains_key(other) && other != tid ==> #[trigger] post.mem.waiters[other]
                == w.mem.waiters[other],
        post.mem.waiters[tid].parker == w.mem.waiters[tid].parker,
        post.mem.top == w.mem.top,
        post.list == w.list,
        post.held == w.held,
        post.setters == w.setters,
        post.tail == w.tail || w.tail % 32 < 31,
    ensures
        post.waiting_ok(),
{
    assert(w.parker_ok(tid));
    assert(w.wake_ok(tid));
    lemma_recall(w, post);
    assert forall|i: int| 0 <= i < post.list.len() implies #[trigger] post.due_ok(i) by {
        assert(w.link_ok(w.list, None, i));
        assert(w.place_ok(w.list[i]));
        assert(w.thread_ok(w.list[i]));
    }
}

/// Moves of a producer that is neither on the wait list nor about to wake
/// anyone, and does not get there.
proof fn lemma_step_apart<T>(w: World<T>, tid: usize, reply: Reply)
    requires
        w.ledger_ok(),
        w.waiting_ok(),
        w.can_step(tid, reply),
        w.threads[tid].apart(),
        w.step(tid, reply).threads[tid].apart(),
        w.threads[tid].push.stage is Claim && reply->Outcome_0 ==> w.tail % 32 < 31,
    ensures
        w.threads[tid].push.stage is Wait ==> {
            &&& w.mem.in_reach(tid, w.action_of(tid))
            &&& w.threads[tid].push.accepts(reply)
        },
        w.step(tid, reply).waiting_ok(),
{
    let post = w.step(tid, reply);
    assert(w.mem.waiters.dom().contains(tid));
    assert(w.thread_ok(tid));
    assert(w.parker_ok(tid));
    assert(post.threads.dom() =~= w.threads.dom());
    assert(post.mem.waiters.dom() =~= w.mem.waiters.dom());
    lemma_apart(w, post, tid);
}

/// The position moves on from the end of a block; whoever moved it is about
/// to wake everyone.
proof fn lemma_step_store_position<T>(w: World<T>, tid: usize, reply: Reply)
    requires
        w.ledger_ok(),
        w.waiting_ok(),
        w.can_step(tid, reply),
        w.threads[tid].push.stage is StorePosition,
    ensures
        w.step(tid, reply).waiting_ok(),
{
    let post = w.step(tid, reply);
    assert(w.parker_ok(tid));
    assert(w.wake_ok(tid));
    assert(post.threads.dom() =~= w.threads.dom());
    assert(post.about_to_take(tid));
    lemma_recall(w, post);
}

/// A producer gets on the wait list.
proof fn lemma_step_enlist<T>(w: World<T>, tid: usize, reply: Reply)
    requires
        w.ledger_ok(),
        w.waiting_ok(),
        w.can_step(tid, reply),
        w.threads[tid].wait() matches Some(stage) && stage is Enlist,
        reply->ok,
    ensures
        w.mem.in_reach(tid, w.action_of(tid)),
        w.threads[tid].push.accepts(reply),
        w.step(tid, reply).waiting_ok(),
{
    let post = w.step(tid, reply);
    assert(w.mem.waiters.dom().contains(tid));
    assert(w.parker_ok(tid));
    assert(w.wake_ok(tid));
    assert(post.threads.dom() =~= w.threads.dom());
    assert(post.mem.waiters.dom() =~= w.mem.waiters.dom());
    lemma_recall(w, post);
    assert forall|i: int| 0 <= i < post.list.len() implies #[trigger] post.link_ok(
        post.list,
        None,
        i,
    ) by {
        if i > 0 {
            assert(w.link_ok(w.list, None, i - 1));
            assert(w.place_ok(w.list[i - 1]));
        }
    }
    assert forall|i: int| 0 <= i < post.list.len() implies #[trigger] post.due_ok(i) by {
        if i > 0 {
            assert(w.due_ok(i - 1));
            assert(w.link_ok(w.list, None, i - 1));
        }
    }
}

/// A producer on the wait list looks again whether the position has moved.
proof fn lemma_step_recheck<T>(w: World<T>, tid: usize, reply: Reply)
    requires
        w.ledger_ok(),
        w.waiting_ok(),
        w.can_step(tid, reply),
        w.threads[tid].wait() == Some(WaitStage::Recheck),
    ensures
        w.mem.in_reach(tid, w.action_of(tid)),
        w.threads[tid].push.accepts(reply),
        w.step(tid, reply).waiting_ok(),
{
    let post = w.step(tid, reply);
    assert(w.parker_ok(tid));
    assert(w.wake_ok(tid));
    assert(w.thread_ok(tid));
    if w.mem.position != w.threads[tid].push.position {
        assert(post.about_to_take(tid));
    }
    assert(post.threads.dom() =~= w.threads.dom());
    lemma_recall(w, post);
}

/// A producer takes the whole wait list.
proof fn lemma_step_swap<T>(w: World<T>, tid: usize, reply: Reply)
    requires
        w.ledger_ok(),
        w.waiting_ok(),
        w.can_step(tid, reply),
        w.threads[tid].wake() == Some(Wake::Swap),
    ensures
        w.mem.in_reach(tid, w.action_of(tid)),
        w.threads[tid].push.accepts(reply),
        w.step(tid, reply).waiting_ok(),
{
    let post = w.step(tid, reply);
    assert(w.parker_ok(tid));
    assert(w.wake_ok(tid));
    assert(post.threads.dom() =~= w.threads.dom());
    assert(post.held.dom() =~= w.held.dom());
    lemma_recall(w, post);
    assert forall|other: usize| post.threads.contains_key(other) implies #[trigger] post.list_ok(
        post.threads[other].charges,
        Some(other),
    ) by {
        let charges = post.threads[other].charges;
        assert(w.list_ok(w.threads[other].charges, Some(other)));
        assert forall|i: int| 0 <= i < charges.len() implies #[trigger] post.link_ok(
            charges,
            Some(other),
            i,
        ) by {
            if other == tid {
                assert(w.link_ok(w.list, None, i));
            } else {
                assert(w.link_ok(charges, Some(other), i));
            }
        }
    }
}

/// A producer reads who comes after the one that it turns to.
proof fn lemma_step_read_next<T>(w: World<T>, tid: usize, reply: Reply)
    requires
        w.ledger_ok(),
        w.waiting_ok(),
        w.can_step(tid, reply),
        w.threads[tid].wake() matches Some(wake) && wake is ReadNext,
    ensures
        w.mem.in_reach(tid, w.action_of(tid)),
        w.threads[tid].push.accepts(reply),
        w.step(tid, reply).waiting_ok(),
{
    let post = w.step(tid, reply);
    let charged = w.threads[tid].charges;
    assert(w.parker_ok(tid));
    assert(w.wake_ok(tid));
    assert(w.list_ok(charged, Some(tid)));
    assert(w.link_ok(charged, Some(tid), 0));
    assert(w.place_ok(charged[0]));
    assert(w.mem.waiters.dom().contains(charged[0]));
    assert(post.threads.dom() =~= w.threads.dom());
    lemma_recall(w, post);
}

/// A producer leaves word for the one that it turns to.
proof fn lemma_step_notify<T>(w: World<T>, tid: usize, reply: Reply)
    requires
        w.ledger_ok(),
        w.waiting_ok(),
        w.can_step(tid, reply),
        w.threads[tid].wake() matches Some(wake) && wake is Notify,
    ensures
        w.mem.in_reach(tid, w.action_of(tid)),
        w.threads[tid].push.accepts(reply),
        w.step(tid, reply).waiting_ok(),
{
    let post = w.step(tid, reply);
    let charged = w.threads[tid].charges;
    let woken = charged[0];
    assert(w.parker_ok(tid));
    assert(w.wake_ok(tid));
    assert(w.list_ok(charged, Some(tid)));
    assert(w.link_ok(charged, Some(tid), 0));
    assert(w.place_ok(woken));
    assert(w.parker_ok(woken));
    assert(w.mem.waiters.dom().contains(woken));
    assert(post.threads.dom() =~= w.threads.dom());
    assert(post.mem.waiters.dom() =~= w.mem.waiters.dom());
    lemma_recall(w, post);
    assert forall|other: usize| post.threads.contains_key(other) implies #[trigger] post.list_ok(
        post.threads[other].charges,
        Some(other),
    ) by {
        let charges = post.threads[other].charges;
        assert(w.list_ok(w.threads[other].charges, Some(other)));
        assert forall|i: int| 0 <= i < charges.len() implies #[trigger] post.link_ok(
            charges,
            Some(other),
            i,
        ) by {
            if other == tid {
                assert(w.link_ok(charged, Some(tid), i + 1));
            } else {
                assert(w.link_ok(charges, Some(other), i));
            }
        }
    }
}

/// A producer sets the event of the one that it has left word for.
proof fn lemma_step_set_event<T>(w: World<T>, tid: usize, reply: Reply)
    requires
        w.ledger_ok(),
        w.waiting_ok(),
        w.can_step(tid, reply),
        w.threads[tid].wake() matches Some(wake) && wake is SetEvent,
    ensures
        w.mem.in_reach(tid, w.action_of(tid)),
        w.threads[tid].push.accepts(reply),
        w.step(tid, reply).waiting_ok(),
{
    let post = w.step(tid, reply);
    let woken = w.threads[tid].wake()->0->SetEvent_waiter;
    assert(w.parker_ok(tid));
    assert(w.wake_ok(tid));
    assert(w.setter_ok(woken));
    assert(w.parker_ok(woken));
    assert(w.mem.waiters.dom().contains(woken));
    assert(post.threads.dom() =~= w.threads.dom());
    assert(post.mem.waiters.dom() =~= w.mem.waiters.dom());
    lemma_recall(w, post);
}

/// A producer passes through its own parker.
proof fn lemma_step_sleep<T>(w: World<T>, tid: usize, reply: Reply)
    requires
        w.ledger_ok(),
        w.waiting_ok(),
        w.can_step(tid, reply),
        w.threads[tid].sleep() is Some,
    ensures
        w.mem.in_reach(tid, w.action_of(tid)),
        w.threads[tid].push.accepts(reply),
        w.step(tid, reply).waiting_ok(),
{
    let post = w.step(tid, reply);
    assert(w.mem.waiters.dom().contains(tid));
    assert(w.parker_ok(tid));
    assert(w.wake_ok(tid));
    assert(post.threads.dom() =~= w.threads.dom());
    assert(post.mem.waiters.dom() =~= w.mem.waiters.dom());
    lemma_recall(w, post);
}

/// A move of a producer keeps the waiters in order; if it waits or wakes, it
/// reaches only waiters that exist, and meets no mark that it must not meet.
pub proof fn lemma_step<T>(w: World<T>, tid: usize, reply: Reply)
    requires
        w.ledger_ok(),
        w.waiting_ok(),
        w.can_step(tid, reply),
        w.threads[tid].push.stage is Claim && reply->Outcome_0 ==> w.tail % 32 < 31,
    ensures
        w.step(tid, reply).waiting_ok(),
        w.threads[tid].push.stage is Wait || w.threads[tid].push.stage is WakeAll
            ==> w.mem.in_reach(tid, w.action_of(tid)) && w.threads[tid].push.accepts(reply),
{
    let thread = w.threads[tid];
    assert(w.parker_ok(tid));
    assert(w.wake_ok(tid));
    match thread.wake() {
        Some(Wake::Swap) => lemma_step_swap(w, tid, reply),
        Some(Wake::ReadNext { .. }) => lemma_step_read_next(w, tid, reply),
        Some(Wake::Notify { .. }) => lemma_step_notify(w, tid, reply),
        Some(Wake::SetEvent { .. }) => lemma_step_set_event(w, tid, reply),
        _ => {
            if thread.sleep() is Some {
                lemma_step_sleep(w, tid, reply);
            } else if thread.wait() == Some(WaitStage::Recheck) {
                lemma_step_recheck(w, tid, reply);
            } else if thread.wait() matches Some(stage) && stage is Enlist && reply->ok {
                lemma_step_enlist(w, tid, reply);
            } else if thread.push.stage is StorePosition {
                lemma_step_store_position(w, tid, reply);
            } else {
                lemma_step_apart(w, tid, reply);
            }
        },
    }
}

/// A producer begins.
pub proof fn lemma_start<T>(w: World<T>, tid: usize, item: T)
    requires
        w.waiting_ok(),
        w.can_start(tid),
    ensures
        w.start(tid, item).waiting_ok(),
{
    let post = w.start(tid, item);
    assert(post.mem.waiters.dom() =~= post.threads.dom());
    assert(!w.held.contains_key(tid)) by {
        if w.held.contains_key(tid) {
            assert(w.place_ok(tid));
        }
    }
    assert(!w.setters.contains_key(tid)) by {
        if w.setters.contains_key(tid) {
            assert(w.setter_ok(tid));
        }
    }
    lemma_recall(w, post);
}

/// A producer leaves.
pub proof fn lemma_finish<T>(w: World<T>, tid: usize)
    requires
        w.waiting_ok(),
        w.can_finish(tid),
    ensures
        w.finish(tid).waiting_ok(),
{
    let post = w.finish(tid);
    assert(w.parker_ok(tid));
    assert(w.wake_ok(tid));
    assert(post.mem.waiters.dom() =~= post.threads.dom());
    lemma_recall(w, post);
}

/// A move of the consumer does not concern the waiters.
pub proof fn lemma_consumer<T>(w: World<T>, post: World<T>)
    requires
        w.waiting_ok(),
        post.threads == w.threads,
        post.mem.waiters == w.mem.waiters,
        post.mem.top == w.mem.top,
        post.list == w.list,
        post.held == w.held,
        post.setters == w.setters,
        post.tail == w.tail,
    ensures
        post.waiting_ok(),
{
    lemma_recall(w, post);
}

} // verus!
