//! What the queue promises, whatever the interleaving.

use vstd::prelude::*;

use crate::conduct::{lemma_in_reach, lemma_make, lemma_make_all, lemma_reachable, lemma_step};
use crate::counting::{carriers, lemma_count, lemma_reachable_apart, started};
use crate::layout::{
    lemma_word_index, lemma_word_injective, lemma_word_next, slots_before, word_count, word_of,
    BLOCK_CAP, LAP,
};
use crate::ledger_steps;
use crate::memory::{Memory, MemoryView};
use crate::parker::{Event, EventWait};
use crate::pop::{Drain, Pop};
use crate::progress::{lemma_completes, lemma_waker_gets_there, owed_by, owes, unmistakable};
use crate::queue::MpscQueue;
use crate::rest::{
    drained, drains_safely, lemma_blocks_at_rest, lemma_drains, lemma_no_pushes, pushed, torn_down,
};
use crate::vocabulary::Reply;
use crate::waitlist::Wake;
use crate::world::{moves_of, Move, World};

verus! {

/// First in, first out: the items that were handed out are the first that
/// were claimed a slot, in the order of their slots.
pub proof fn law_first_in_first_out<T>(w: World<T>)
    requires
        w.reachable(),
    ensures
        w.delivered.len() <= w.log.len(),
        w.delivered == w.log.take(w.delivered.len() as int),
{
    lemma_reachable(w);
}

/// The order of the items is never revised: whatever happens next, the slots
/// claimed so far keep their items, and the items handed out so far stay
/// handed out.
pub proof fn law_order_is_final<T>(w: World<T>, moves: Seq<Move<T>>)
    requires
        w.can_make_all(moves),
    ensures
        w.log.is_prefix_of(w.make_all(moves).log),
        w.delivered.is_prefix_of(w.make_all(moves).delivered),
    decreases moves.len(),
{
    if moves.len() > 0 {
        let next = w.make(moves[0]);
        assert(w.log.is_prefix_of(next.log));
        assert(w.delivered.is_prefix_of(next.delivered));
        law_order_is_final(next, moves.drop_first());
    }
}

/// A push that is over has put its item into a slot that was claimed while it
/// ran.
pub proof fn law_push_takes_effect<T>(w: World<T>, tid: usize)
    requires
        w.reachable(),
        w.can_finish(tid),
    ensures
        ({
            let slot = slots_before(w.threads[tid].seen);
            &&& w.threads[tid].begun <= slot < w.log.len()
            &&& w.log[slot as int] == w.threads[tid].item
        }),
{
    lemma_reachable(w);
    assert(w.thread_ok(tid));
}

/// Every push claims one slot, and every slot is claimed by one push: however
/// a run went, each item has been claimed a slot as often as pushes of it were
/// begun, but for the pushes that have yet to claim theirs.
pub proof fn law_each_push_claims_one_slot<T>(moves: Seq<Move<T>>, w: World<T>, item: T)
    requires
        World::<T>::initial().leads_to(moves, w),
    ensures
        carriers(w, item).finite(),
        w.log.to_multiset().count(item) + carriers(w, item).len() == started(moves).count(item),
{
    broadcast use vstd::seq_lib::group_to_multiset_ensures;

    let start = World::<T>::initial();
    assert(carriers(start, item) =~= Set::empty());
    lemma_count(start, moves, item);
    assert(start.log.to_multiset().count(item) == 0);
}

/// While no push is under way, what was handed out and what is still in the queue
/// are the items of all the pushes, each as often as it was pushed.
pub proof fn law_no_item_is_lost<T>(moves: Seq<Move<T>>, w: World<T>)
    requires
        World::<T>::initial().leads_to(moves, w),
        w.threads.dom() =~= Set::<usize>::empty(),
    ensures
        w.delivered + w.log.skip(w.delivered.len() as int) == w.log,
        w.log.to_multiset() == started(moves),
{
    law_first_in_first_out(w);
    assert forall|tid: usize| !w.threads.contains_key(tid) by {
        assert(!w.threads.dom().contains(tid));
    }
    assert(w.delivered + w.log.skip(w.delivered.len() as int) =~= w.log);
    assert forall|item: T| w.log.to_multiset().count(item) == started(moves).count(item) by {
        law_each_push_claims_one_slot(moves, w, item);
        assert(carriers(w, item) =~= Set::empty());
    }
    assert(w.log.to_multiset() =~= started(moves));
}

/// Exactly once: when no push is under way and a pop comes away with nothing,
/// the items that were handed out are those of all the pushes, each as often as
/// it was pushed.
pub proof fn law_each_item_is_handed_out_once<T>(moves: Seq<Move<T>>, w: World<T>)
    requires
        World::<T>::initial().leads_to(moves, w),
        w.threads.dom() =~= Set::<usize>::empty(),
        w.can_step_pop(),
        w.step_pop().pop == Some(Pop::Done { taken: false }),
    ensures
        w.delivered == w.log,
        w.delivered.to_multiset() == started(moves),
{
    law_first_in_first_out(w);
    law_nothing_to_take(w);
    law_no_item_is_lost(moves, w);
    assert(w.delivered =~= w.log);
}

/// Two pushes that have claimed a slot have claimed different ones, also when
/// they push equal items.
pub proof fn law_pushes_claim_different_slots<T>(w: World<T>, a: usize, b: usize)
    requires
        w.reachable(),
        w.threads.contains_key(a),
        w.threads.contains_key(b),
        a != b,
        w.threads[a].has_claimed(),
        w.threads[b].has_claimed(),
    ensures
        slots_before(w.threads[a].seen) != slots_before(w.threads[b].seen),
{
    lemma_reachable(w);
    lemma_reachable_apart(w);
    assert(w.thread_ok(a));
    assert(w.thread_ok(b));
}

/// A push that begins later finds at least as many slots claimed.
proof fn lemma_begun_later<T>(w: World<T>, bound: nat, moves: Seq<Move<T>>, tid: usize)
    requires
        w.can_make_all(moves),
        bound <= w.log.len(),
        w.make_all(moves).threads.contains_key(tid),
        !w.threads.contains_key(tid) || w.threads[tid].begun >= bound,
    ensures
        w.make_all(moves).threads[tid].begun >= bound,
    decreases moves.len(),
{
    if moves.len() > 0 {
        lemma_begun_later(w.make(moves[0]), bound, moves.drop_first(), tid);
    }
}

/// A push that is over before another begins comes before it in the queue, as
/// soon as that other has claimed its slot, and is handed out before it. In
/// particular the items of one producer stay in the order in which it pushed
/// them.
pub proof fn law_earlier_push_comes_first<T>(
    w: World<T>,
    first: usize,
    moves: Seq<Move<T>>,
    second: usize,
)
    requires
        w.reachable(),
        w.can_finish(first),
        !w.finish(first).threads.contains_key(second),
        w.finish(first).can_make_all(moves),
        w.finish(first).make_all(moves).threads.contains_key(second),
        w.finish(first).make_all(moves).threads[second].has_claimed(),
    ensures
        ({
            let end = w.finish(first).make_all(moves);
            let before = slots_before(w.threads[first].seen);
            let after = slots_before(end.threads[second].seen);
            &&& before < after < end.log.len()
            &&& end.log[before as int] == w.threads[first].item
            &&& end.log[after as int] == end.threads[second].item
            &&& after < end.delivered.len() ==> {
                &&& end.delivered[before as int] == w.threads[first].item
                &&& end.delivered[after as int] == end.threads[second].item
            }
        }),
{
    let mid = w.finish(first);
    let end = mid.make_all(moves);
    lemma_reachable(w);
    law_push_takes_effect(w, first);
    lemma_make(w, Move::Finish { tid: first });
    lemma_make_all(mid, moves);
    assert(end.thread_ok(second));
    law_order_is_final(mid, moves);
    lemma_begun_later(mid, mid.log.len(), moves, second);
}

/// The consumer that takes an item takes the one that has been in the queue
/// longest.
pub proof fn law_take_is_oldest<T>(w: World<T>)
    requires
        w.reachable(),
        w.pop matches Some(pop) && pop is Take,
    ensures
        w.delivered.len() < w.log.len(),
        w.mem.pop_item(w.pop->0.spec_action()) == Some(w.log[w.delivered.len() as int]),
{
    lemma_reachable(w);
    ledger_steps::lemma_step_pop(w);
}

/// A pop that comes away with nothing saw no item that it passed over: either
/// every claimed item has been handed out, or the producer of the next item is
/// still in the middle of its push, or one is still about to show the first
/// block to the consumer.
pub proof fn law_nothing_to_take<T>(w: World<T>)
    requires
        w.reachable(),
        w.can_step_pop(),
        w.step_pop().pop == Some(Pop::Done { taken: false }),
    ensures
        ({
            ||| w.delivered.len() == w.log.len()
            ||| exists|tid: usize| #[trigger]
                w.threads.contains_key(tid) && w.threads[tid].claimed_block() is Some
                    && slots_before(w.threads[tid].seen) == w.delivered.len()
            ||| exists|tid: usize| #[trigger]
                w.threads.contains_key(tid) && w.threads[tid].push.stage is Publish
        }),
{
    lemma_reachable(w);
    ledger_steps::lemma_step_pop(w);
    match w.pop->0 {
        Pop::LoadFlag { block, index } => {
            assert(w.slot_ok(w.head as int, index as int));
            assert((w.head as int) * 31 + index == w.taken());
            if w.writers.contains_key(w.taken()) {
                assert(w.writer_ok(w.taken()));
                assert(w.threads.contains_key(w.writers[w.taken()]));
            }
        },
        _ => {
            if w.laps.len() > 0 {
                assert(w.threads.contains_key(w.publisher->0));
            }
        },
    }
}

/// The consumer that has used up a block always finds the next one linked.
pub proof fn law_used_up_block_leads_on<T>(w: World<T>)
    requires
        w.reachable(),
        w.pop matches Some(pop) && pop is LoadNext,
    ensures
        w.pop_reply() matches Reply::Link(next) && next is Some,
{
    lemma_reachable(w);
    ledger_steps::lemma_step_pop(w);
}

/// No request reaches a block that was given back, a slot that does not
/// exist, or the waiter of a producer that has left; nothing is written over
/// an item that is still there.
pub proof fn law_producer_requests_are_safe<T>(w: World<T>, tid: usize)
    requires
        w.reachable(),
        w.threads.contains_key(tid),
        !(w.threads[tid].push.stage is Done),
    ensures
        w.mem.in_reach(tid, w.action_of(tid)),
{
    lemma_reachable(w);
    lemma_in_reach(w, tid);
}

/// The same of the consumer, which moreover takes an item out of a slot only
/// when there is one in it.
pub proof fn law_consumer_requests_are_safe<T>(w: World<T>)
    requires
        w.reachable(),
        w.can_step_pop(),
    ensures
        w.mem.pop_in_reach(w.pop->0.spec_action()),
{
    lemma_reachable(w);
    ledger_steps::lemma_step_pop(w);
}

/// Every reply that can come is one that the push can carry on from: a
/// producer that was woken finds the waker's mark, no waiter is woken twice,
/// and whoever claims the last slot of a block has the next block ready.
pub proof fn law_replies_are_foreseen<T>(w: World<T>, tid: usize, reply: Reply)
    requires
        w.reachable(),
        w.can_step(tid, reply),
    ensures
        w.threads[tid].push.accepts(reply),
{
    lemma_reachable(w);
    lemma_step(w, tid, reply);
}

/// A producer finds the position to be the one that it read if the position
/// has not moved since; and it finds so mistakenly only once the counter has
/// gone all the way round.
pub proof fn law_deception_takes_a_full_turn<T>(w: World<T>, tid: usize)
    requires
        w.reachable(),
        w.threads.contains_key(tid),
        w.threads[tid].push.stage is Claim || w.threads[tid].push.stage is Wait,
    ensures
        w.threads[tid].seen == w.tail ==> w.mem.position == w.threads[tid].push.position,
        w.threads[tid].seen != w.tail && w.mem.position == w.threads[tid].push.position ==> w.tail
            - w.threads[tid].seen >= word_count(),
{
    lemma_reachable(w);
    assert(w.thread_ok(tid));
    if w.mem.position == w.threads[tid].push.position && w.tail - w.threads[tid].seen
        < word_count() {
        lemma_word_injective(w.threads[tid].seen, w.tail);
    }
}

/// The position stands at the end of a block exactly while one producer links
/// the next block, and never do two.
pub proof fn law_full_block_has_one_linker<T>(w: World<T>)
    requires
        w.reachable(),
    ensures
        w.mem.position % LAP == BLOCK_CAP <==> exists|tid: usize| #[trigger]
            w.threads.contains_key(tid) && w.threads[tid].linking(),
        forall|a: usize, b: usize|
            #![trigger w.threads.contains_key(a), w.threads.contains_key(b)]
            w.threads.contains_key(a) && w.threads[a].linking() && w.threads.contains_key(b)
                && w.threads[b].linking() ==> a == b,
{
    lemma_reachable(w);
    lemma_word_index(w.tail);
    if let Some(tid) = w.linker {
        assert(w.threads.contains_key(tid));
    }
    assert forall|tid: usize| #[trigger]
        w.threads.contains_key(tid) && w.threads[tid].linking() implies w.linker == Some(tid) by {
        assert(w.thread_ok(tid));
    }
}

/// No two producers fill the same slot, and none fills one that was handed
/// out or that the consumer is taking from.
pub proof fn law_slots_are_exclusive<T>(w: World<T>, a: usize, b: usize)
    requires
        w.reachable(),
        w.threads.contains_key(a),
        w.threads.contains_key(b),
        w.threads[a].claimed_block() is Some,
        w.threads[b].claimed_block() is Some,
    ensures
        slots_before(w.threads[a].seen) >= w.delivered.len(),
        (w.pop matches Some(pop) && pop is Take) ==> slots_before(w.threads[a].seen)
            != w.delivered.len(),
        a != b ==> slots_before(w.threads[a].seen) != slots_before(w.threads[b].seen),
{
    lemma_reachable(w);
    assert(w.thread_ok(a));
    assert(w.thread_ok(b));
    assert(w.writer_ok(slots_before(w.threads[a].seen)));
}

/// Whoever reads from a waiter or leaves word for it does so while that
/// waiter's producer is still on the wait list or asleep, never while it gets
/// on the list.
pub proof fn law_waiters_stay_for_their_wakers<T>(w: World<T>, waker: usize, waiter: usize)
    requires
        w.reachable(),
        w.threads.contains_key(waker),
        w.threads[waker].wake() matches Some(wake) && match wake {
            Wake::ReadNext { waiter: named } => named == waiter,
            Wake::Notify { waiter: named, .. } => named == waiter,
            _ => false,
        },
    ensures
        w.threads.contains_key(waiter),
        w.threads[waiter].enlisted() || w.threads[waiter].asleep(),
{
    lemma_reachable(w);
    let charges = w.threads[waker].charges;
    assert(w.wake_ok(waker));
    assert(w.list_ok(charges, Some(waker)));
    assert(w.link_ok(charges, Some(waker), 0));
    assert(w.place_ok(waiter));
    assert(w.parker_ok(waiter));
}

/// Whoever sets an event does so while its owner sleeps on it, nobody has set
/// it before, and the thread that is in it is its owner's.
pub proof fn law_events_are_set_once<T>(w: World<T>, waker: usize, waiter: usize)
    requires
        w.reachable(),
        w.threads.contains_key(waker),
        w.threads[waker].wake() matches Some(Wake::SetEvent { waiter: named, .. }) && named
            == waiter,
    ensures
        w.threads.contains_key(waiter),
        w.blocked(waiter),
        w.mem.waiters[waiter].parker.event == (Event { thread: Some(waiter), is_set: false }),
        forall|other: usize| #[trigger]
            w.threads.contains_key(other) && other != waker ==> !(w.threads[other].wake() matches
                Some(Wake::SetEvent { waiter: named, .. }) && named == waiter),
{
    lemma_reachable(w);
    assert(w.wake_ok(waker));
    assert(w.setter_ok(waiter));
    assert(w.parker_ok(waiter));
    assert forall|other: usize| #[trigger]
        w.threads.contains_key(other) && other != waker implies !(w.threads[other].wake() matches
            Some(Wake::SetEvent { waiter: named, .. }) && named == waiter) by {
        assert(w.wake_ok(other));
    }
}

/// A thread asleep on its event comes away exactly when it has seen the event
/// set, however often it was woken before for no reason.
pub proof fn law_sleep_ends_with_the_event(replies: Seq<Reply>)
    requires
        replies.len() > 0,
        EventWait::Look.accepts_all(replies),
    ensures
        EventWait::Look.after_all(replies) is Done <==> replies.last() == Reply::Outcome(true),
        forall|i: int| 0 <= i < replies.len() - 1 ==> #[trigger] replies[i] != Reply::Outcome(true),
{
    lemma_sleep(EventWait::Look, replies);
}

proof fn lemma_sleep(wait: EventWait, replies: Seq<Reply>)
    requires
        replies.len() > 0,
        wait.accepts_all(replies),
    ensures
        wait.after_all(replies) is Done <==> replies.last() == Reply::Outcome(true),
        forall|i: int| 0 <= i < replies.len() - 1 ==> #[trigger] replies[i] != Reply::Outcome(true),
    decreases replies.len(),
{
    let rest = replies.drop_first();
    let next = wait.after(replies[0]);
    if rest.len() > 0 {
        lemma_sleep(next, rest);
        assert(next.accepts(rest[0]));
        assert(rest.last() == replies.last());
        assert forall|i: int| 0 <= i < replies.len() - 1 implies #[trigger] replies[i]
            != Reply::Outcome(true) by {
            if i > 0 {
                assert(replies[i] == rest[i - 1]);
            }
        }
    } else {
        assert(next.after_all(rest) == next);
    }
}

/// While no push and no pop is under way, the blocks in use are those of the
/// laps from the consumer's on, one for each.
pub proof fn law_no_block_is_lost<T>(w: World<T>, block: usize)
    requires
        w.reachable(),
        w.at_rest(),
    ensures
        w.mem.blocks.contains_key(block) <==> exists|lap: int|
            w.head <= lap < w.laps.len() && #[trigger] w.laps[lap] == block,
        w.mem.blocks.dom().finite(),
        w.mem.blocks.dom().len() == w.laps.len() - w.head,
{
    lemma_reachable(w);
    lemma_blocks_at_rest(w);
    let used = w.laps.skip(w.head as int);
    assert(w.mem.blocks.dom().contains(block) <==> used.contains(block));
    assert forall|lap: int| w.head <= lap < w.laps.len() implies used.contains(
        #[trigger] w.laps[lap],
    ) by {
        assert(used[lap - w.head] == w.laps[lap]);
    }
}

/// While no push and no pop is under way, the number of pushes tells how many
/// blocks were made and where the position is: a block for each full block of
/// items, and one more. The number of items handed out tells where the consumer
/// is: in the block after as many as it has given back.
pub proof fn law_pushes_tell_the_blocks<T>(w: World<T>)
    requires
        w.reachable(),
        w.at_rest(),
        w.log.len() > 0,
    ensures
        w.laps.len() == 1 + w.log.len() / 31,
        w.mem.position == word_of((w.log.len() / 31) * 32 + w.log.len() % 31),
        w.delivered.len() == w.head * 31 + w.mem.consumer_index,
        w.mem.blocks.dom().finite(),
        w.mem.blocks.dom().len() == 1 + w.log.len() / 31 - w.head,
{
    lemma_reachable(w);
    lemma_no_pushes(w);
    lemma_blocks_at_rest(w);
    assert(w.log.len() / 31 == w.tail / 32);
    assert(w.log.len() % 31 == w.tail % 32);
}

/// One push after another on a fresh queue, with no pop between: they make a
/// block for each full block of items, and one more.
pub proof fn law_pushes_make_blocks<T>(states: Seq<MemoryView<T>>, items: Seq<T>)
    requires
        items.len() > 0,
        states.len() == items.len() + 1,
        states[0] == MemoryView::<T>::initial(),
        forall|i: int|
            0 <= i < items.len() ==> pushed(#[trigger] states[i], states[i + 1], items[i]),
    ensures
        states.last().block is Some,
        states.last().blocks.contains_key(states.last().block->0),
        states.last().position == word_of((items.len() / 31) * 32 + items.len() % 31),
        states.last().blocks.dom().finite(),
        states.last().blocks.dom().len() == 1 + items.len() / 31,
        states.last().made == 1 + items.len() / 31,
    decreases items.len(),
{
    let count = (items.len() - 1) as nat;
    assert(pushed(states[count as int], states.last(), items[count as int]));
    if count > 0 {
        let earlier = states.drop_last();
        assert forall|i: int| 0 <= i < count implies pushed(
            #[trigger] earlier[i],
            earlier[i + 1],
            items.drop_last()[i],
        ) by {
            assert(pushed(states[i], states[i + 1], items[i]));
        }
        law_pushes_make_blocks(earlier, items.drop_last());
    } else {
        assert(states[0].blocks.dom() =~= Set::empty());
        lemma_word_index(0);
    }
    lemma_one_more_push(states[count as int], states.last(), items[count as int], count);
}

/// What one more push adds to the blocks.
proof fn lemma_one_more_push<T>(
    before: MemoryView<T>,
    after: MemoryView<T>,
    item: T,
    count: nat,
)
    requires
        pushed(before, after, item),
        before.position == word_of((count / 31) * 32 + count % 31),
        before.blocks.dom().finite(),
        before.blocks.dom().len() == if count == 0 {
            0
        } else {
            1 + count / 31
        },
        before.made == before.blocks.dom().len(),
        before.block is Some <==> count > 0,
        before.block matches Some(block) ==> before.blocks.contains_key(block),
    ensures
        after.block is Some,
        after.blocks.contains_key(after.block->0),
        after.position == word_of(((count + 1) / 31) * 32 + (count + 1) % 31),
        after.blocks.dom().finite(),
        after.blocks.dom().len() == 1 + (count + 1) / 31,
        after.made == 1 + (count + 1) / 31,
{
    let ticket = (count / 31) * 32 + count % 31;
    lemma_word_index(ticket);
    lemma_word_next(ticket);
    lemma_word_next(ticket + 1);
    assert(ticket % 32 == count % 31);
    let filled = if before.block is Some {
        before.block->0
    } else {
        after.consumer_block->0
    };
    let held = before.blocks.dom().insert(filled);
    assert(held.len() == 1 + count / 31);
    if count % 31 == 30 {
        assert((count + 1) / 31 == count / 31 + 1);
        assert(after.blocks.dom() =~= held.insert(after.block->0));
        assert(!held.contains(after.block->0));
    } else {
        assert((count + 1) / 31 == count / 31);
        assert(after.blocks.dom() =~= held);
    }
}

/// Taking the queue down, whatever has happened before: what comes out is what
/// was pushed and not handed out, in the order of the slots, and then no block
/// is left.
pub proof fn law_taking_down_hands_out_the_rest<T>(w: World<T>)
    requires
        w.reachable(),
        w.at_rest(),
    ensures
        exists|count: nat|
            drains_safely(Drain::Popping { pop: Pop::LoadConsumer }, w.mem, count) && #[trigger]
            drained(Drain::Popping { pop: Pop::LoadConsumer }, w.mem, count) == (
                Drain::Done,
                torn_down(w.mem),
                w.log.skip(w.delivered.len() as int),
            ),
{
    lemma_reachable(w);
    let count = lemma_drains(w);
    assert(drained(Drain::Popping { pop: Pop::LoadConsumer }, w.mem, count).0 is Done);
}

/// Dropping a queue in the hands of one owner drops the items that are left, each
/// once and the oldest first, with all the blocks: that is the order in which it
/// stores them.
pub proof fn law_drop_is_oldest_first<T>(queue: MpscQueue<T>)
    requires
        queue.wf(),
    ensures
        queue.drop_order() == queue@,
        queue.block_order().no_duplicates(),
        queue.block_order().to_set() == queue.memory_view().blocks.dom(),
{
    queue.lemma_drop_order();
    assert(queue.block_order().to_set() =~= queue.memory_view().blocks.dom());
}

/// Nothing is kept that the items in the queue do not call for: the queue has out
/// of the heap exactly the blocks in its memory, at most two more than its items
/// fill, and its stores have at most twice as many entries, and none for waiters.
pub proof fn law_nothing_is_hoarded<T>(queue: MpscQueue<T>)
    requires
        queue.wf(),
    ensures
        queue.out_of_heap().finite(),
        queue.out_of_heap().len() == queue.memory_view().blocks.dom().len(),
        queue.out_of_heap().len() <= 2 + queue@.len() / 31,
        queue.room().0 <= 2 * queue.out_of_heap().len(),
        queue.room().1 == 0,
{
    queue.lemma_given_back();
}

/// A memory that threads share has out of the heap exactly the blocks in it, each
/// under a number of its own, whatever state its producers and its consumer are
/// in.
pub proof fn law_heap_and_memory_agree<T>(memory: Memory<T>)
    requires
        memory.wf(),
    ensures
        memory.out_of_heap().finite(),
        memory.out_of_heap().len() == memory@.blocks.dom().len(),
        forall|block: usize| #[trigger]
            memory@.blocks.contains_key(block) ==> memory.out_of_heap().contains(
                memory.number(block),
            ),
        forall|a: usize, b: usize|
            #![trigger memory.number(a), memory.number(b)]
            memory@.blocks.contains_key(a) && memory@.blocks.contains_key(b) && a != b
                ==> memory.number(a) != memory.number(b),
{
    memory.lemma_heap();
}

/// No wake-up is lost: a producer that sleeps always has another that can move
/// and is bound to wake it, because it holds it, or is about to set its event, or
/// is about to take the wait list, or links the block that the sleeper waits for.
pub proof fn law_sleepers_are_woken<T>(w: World<T>, sleeper: usize)
    requires
        w.reachable(),
        w.threads.contains_key(sleeper),
        w.blocked(sleeper),
    ensures
        exists|waker: usize| #[trigger]
            owes(w, waker, sleeper) && waker != sleeper && !w.blocked(waker) && !(
            w.threads[waker].push.stage is Done),
{
    lemma_reachable(w);
    let waker = owed_by(w, sleeper);
    assert(owes(w, waker, sleeper));
}

/// A producer that sleeps can always be woken by the moves of one other
/// producer alone, which needs nobody else for that.
pub proof fn law_one_producer_wakes_a_sleeper<T>(w: World<T>, sleeper: usize)
    requires
        w.reachable(),
        w.threads.contains_key(sleeper),
        w.blocked(sleeper),
    ensures
        exists|waker: usize, moves: Seq<Move<T>>| #[trigger]
            moves_of(moves, waker) && waker != sleeper && w.can_make_all(moves) && !w.make_all(
                moves,
            ).blocked(sleeper),
{
    lemma_reachable(w);
    let waker = owed_by(w, sleeper);
    let moves = lemma_waker_gets_there(w, waker, sleeper);
    assert(moves_of(moves, waker));
}

/// The producers never come to a standstill: while one is in the middle of a
/// push, one can move.
pub proof fn law_no_standstill<T>(w: World<T>, tid: usize)
    requires
        w.reachable(),
        w.threads.contains_key(tid),
        !(w.threads[tid].push.stage is Done),
    ensures
        exists|mover: usize| #[trigger]
            w.threads.contains_key(mover) && !(w.threads[mover].push.stage is Done) && !w.blocked(
                mover,
            ),
{
    if w.blocked(tid) {
        law_sleepers_are_woken(w, tid);
        let waker = choose|waker: usize| #[trigger]
            owes(w, waker, tid) && waker != tid && !w.blocked(waker) && !(
            w.threads[waker].push.stage is Done);
        assert(w.threads.contains_key(waker));
    }
}

/// A push can always be completed, whatever state the others are in: there
/// are moves of the producers, none of which begins or leaves, after which it
/// is over. Two handles have to be unused, so that the push can make the blocks
/// that it may need; the push has to be able to count one more backoff; and the
/// counter must not be about to come back to the value that the push read.
pub proof fn law_push_can_complete<T>(w: World<T>, tid: usize, one: usize, other: usize)
    requires
        w.reachable(),
        w.threads.contains_key(tid),
        one != other,
        !w.mem.blocks.contains_key(one),
        !w.mem.blocks.contains_key(other),
        w.threads[tid].push.spin.counter < usize::MAX,
        unmistakable(w.tail, w.threads[tid].seen),
        unmistakable(w.tail + 1, w.threads[tid].seen),
    ensures
        exists|moves: Seq<Move<T>>| #[trigger]
            w.can_make_all(moves) && (forall|i: int|
                0 <= i < moves.len() ==> #[trigger] moves[i] is Step) && w.make_all(
                moves,
            ).can_finish(tid),
{
    lemma_reachable(w);
    let moves = lemma_completes(w, tid, one, other);
    assert(w.can_make_all(moves));
}

/// The contents after `items` were pushed one after the other.
pub open spec fn pushed_all<T>(contents: Seq<T>, items: Seq<T>) -> Seq<T>
    decreases items.len(),
{
    if items.len() == 0 {
        contents
    } else {
        pushed_all(contents, items.drop_last()).push(items.last())
    }
}

/// The items that `count` pops in a row give back.
pub open spec fn popped_all<T>(contents: Seq<T>, count: nat) -> Seq<T>
    decreases count,
{
    if count == 0 || contents.len() == 0 {
        Seq::empty()
    } else {
        seq![contents[0]] + popped_all(contents.skip(1), (count - 1) as nat)
    }
}

/// An owner that pushes `items` and then pops until the queue is empty gets
/// back what was in the queue before, and then `items`, in order.
pub proof fn law_pops_give_back_pushes<T>(contents: Seq<T>, items: Seq<T>, count: nat)
    requires
        count >= contents.len() + items.len(),
    ensures
        popped_all(pushed_all(contents, items), count) == contents + items,
{
    lemma_pushed_all(contents, items);
    lemma_popped_all(contents + items, count);
}

proof fn lemma_pushed_all<T>(contents: Seq<T>, items: Seq<T>)
    ensures
        pushed_all(contents, items) == contents + items,
    decreases items.len(),
{
    if items.len() > 0 {
        lemma_pushed_all(contents, items.drop_last());
        assert((contents + items.drop_last()).push(items.last()) =~= contents + items);
    } else {
        assert(contents + items =~= contents);
    }
}

proof fn lemma_popped_all<T>(contents: Seq<T>, count: nat)
    requires
        count >= contents.len(),
    ensures
        popped_all(contents, count) == contents,
    decreases count,
{
    if contents.len() > 0 {
        lemma_popped_all(contents.skip(1), (count - 1) as nat);
        assert(seq![contents[0]] + contents.skip(1) =~= contents);
    } else {
        assert(contents =~= Seq::empty());
    }
}

} // verus!
