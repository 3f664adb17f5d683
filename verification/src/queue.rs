//! The queue in the hands of one owner.
//!
//! The owner runs each push and each pop to its end before the next, on a
//! memory that nobody else reaches. It runs the same state machines that
//! producers and consumer run when they share the memory.

use vstd::prelude::*;

use crate::conduct;
use crate::layout::{lemma_word_index, BLOCK_CAP, LAP};
use crate::ledger;
use crate::memory::{Memory, MemoryView};
use crate::pop::{Drain, Pop};
use crate::push::{Push, PushStage};
use crate::rest::{
    blocks_needed, drained, drains_safely, items_in, lemma_blocks_at_rest, lemma_drains,
    lemma_items_at_rest, lemma_no_pushes, lemma_pushed, lemma_rested_block, lemma_undisturbed_step,
    pop_requests_left, pushed, torn_down, undisturbed,
};
use crate::slab::{in_a_row, without};
use crate::vocabulary::{PopAction, Reply};
use crate::waiting;
use crate::waitlist::Waiter;
use crate::world::{Move, World};

verus! {

/// An unbounded first-in, first-out queue. Dropping it drops the items that are
/// left, the oldest first, and gives every block back: it stores its blocks in
/// the order in which they were made, and the items of a block slot by slot.
pub struct MpscQueue<T> {
    memory: Memory<T>,
    world: Ghost<World<T>>,
}

impl<T> View for MpscQueue<T> {
    type V = Seq<T>;

    /// The items in the queue, the oldest first.
    closed spec fn view(&self) -> Seq<T> {
        self.world@.log.skip(self.world@.delivered.len() as int)
    }
}

/// How many requests a producer that works alone has before it at most.
spec fn requests_left(stage: PushStage) -> nat {
    match stage {
        PushStage::LoadPosition => 15,
        PushStage::AllocNext => 14,
        PushStage::LoadBlock => 13,
        PushStage::AllocFirst => 12,
        PushStage::Install { .. } => 11,
        PushStage::Publish { .. } => 10,
        PushStage::Claim { .. } => 9,
        PushStage::StoreBlock { .. } => 8,
        PushStage::Link { .. } => 7,
        PushStage::StorePosition { .. } => 6,
        PushStage::WakeAll { .. } => 5,
        PushStage::Write { .. } => 4,
        PushStage::Flag { .. } => 3,
        _ => 1,
    }
}

/// What holds of a producer that works alone: it never waits, its exchanges
/// succeed, and its item is in the queue once it has claimed a slot.
spec fn alone<T>(w: World<T>, start: World<T>, me: usize, item: T) -> bool {
    let thread = w.threads[me];
    let stage = thread.push.stage;
    let last = start.mem.position % LAP + 1 == BLOCK_CAP;
    let made = w.mem.made - start.mem.made;
    &&& w.ok()
    &&& w.threads.dom() =~= set![me]
    &&& w.pop is None
    &&& w.delivered == start.delivered
    &&& w.head == start.head
    &&& start.laps.is_prefix_of(w.laps)
    &&& thread.item == item
    &&& match stage {
        PushStage::LoadPosition
        | PushStage::AllocNext
        | PushStage::LoadBlock
        | PushStage::AllocFirst
        | PushStage::Install { .. }
        | PushStage::Publish { .. }
        | PushStage::Claim { .. } => {
            &&& w.log == start.log
            &&& w.mem.position == start.mem.position
            &&& !(stage is LoadPosition) ==> thread.seen == w.tail
        },
        PushStage::WakeAll { block, wake } => w.log == start.log.push(item) && wake is Swap,
        PushStage::StoreBlock { .. }
        | PushStage::Link { .. }
        | PushStage::StorePosition { .. }
        | PushStage::Write { .. }
        | PushStage::Flag { .. }
        | PushStage::Done => w.log == start.log.push(item),
        _ => false,
    }
    &&& thread.push.next_block is Some <==> last && (stage is LoadBlock || stage is Claim)
    &&& match stage {
        PushStage::LoadPosition | PushStage::AllocNext => made == 0 && w.mem.block
            == start.mem.block,
        PushStage::LoadBlock => made == (if last {
            1int
        } else {
            0
        }) && w.mem.block == start.mem.block,
        PushStage::AllocFirst => made == 0 && w.mem.block is None && start.mem.block is None
            && !last,
        PushStage::Install { .. } => made == 1 && w.mem.block is None && start.mem.block is None
            && !last,
        PushStage::Publish { .. } => made == 1 && start.mem.block is None && !last,
        _ => made == blocks_needed(start.mem),
    }
}

/// The blocks in the order in which they are stored while a producer works
/// alone: those of the laps, and the one that it has made and not linked.
spec fn alone_order<T>(w: World<T>, me: usize) -> Seq<usize> {
    let push = w.threads[me].push;
    w.laps.skip(w.head as int) + match (push.next_block, w.threads[me].private_block()) {
        (Some(block), _) => seq![block],
        (None, Some(block)) => seq![block],
        (None, None) => Seq::empty(),
    }
}

/// A producer that works alone finds nobody on the wait list.
proof fn lemma_alone_no_waiters<T>(w: World<T>, me: usize)
    requires
        w.ok(),
        w.threads.dom() =~= set![me],
        !(w.threads[me].push.stage is Wait),
    ensures
        w.mem.top is None,
        !w.blocked(me),
{
    assert(w.threads.contains_key(me));
    assert(w.parker_ok(me));
    if w.list.len() > 0 {
        assert(w.link_ok(w.list, None, 0));
        assert(w.place_ok(w.list[0]));
        assert(w.threads.dom().contains(w.list[0]));
    }
}

/// A producer that works alone gets on.
proof fn lemma_alone_step<T>(w: World<T>, start: World<T>, me: usize, item: T, reply: Reply)
    requires
        alone(w, start, me, item),
        !(w.threads[me].push.stage is Done),
        w.mem.answers(me, w.action_of(me), reply),
        w.threads[me].push.stage is Claim ==> reply == Reply::Outcome(
            w.mem.position == w.threads[me].push.position,
        ),
    ensures
        w.can_step(me, reply),
        w.threads[me].push.accepts(reply),
        alone(w.step(me, reply), start, me, item),
        requests_left(w.step(me, reply).threads[me].push.stage) < requests_left(
            w.threads[me].push.stage,
        ),
{
    let post = w.step(me, reply);
    assert(w.threads.contains_key(me));
    assert(w.thread_ok(me));
    lemma_alone_no_waiters(w, me);
    lemma_word_index(w.tail);
    if let Some(tid) = w.linker {
        assert(w.threads.dom().contains(tid));
        assert(w.thread_ok(tid));
    }
    conduct::lemma_step(w, me, reply);
    assert(post.threads.dom() =~= set![me]);
}

/// A producer that works alone stores the blocks that it makes behind the others,
/// and gives none back.
proof fn lemma_alone_order<T>(w: World<T>, start: World<T>, me: usize, item: T, reply: Reply)
    requires
        alone(w, start, me, item),
        !(w.threads[me].push.stage is Done),
        w.can_step(me, reply),
        alone(w.step(me, reply), start, me, item),
    ensures
        !(w.action_of(me) is FreeBlock),
        alone_order(w.step(me, reply), me) == if w.action_of(me) is AllocBlock {
            alone_order(w, me).push(reply->Handle_0)
        } else {
            alone_order(w, me)
        },
{
    let post = w.step(me, reply);
    assert(w.threads.contains_key(me));
    assert(w.thread_ok(me));
    let expected = if w.action_of(me) is AllocBlock {
        alone_order(w, me).push(reply->Handle_0)
    } else {
        alone_order(w, me)
    };
    assert(alone_order(post, me) =~= expected);
}

impl<T> Default for MpscQueue<T> {
    /// An empty queue. It has no block until the first push.
    fn default() -> (queue: Self)
        ensures
            queue.wf(),
            queue@ == Seq::<T>::empty(),
            queue.memory_view() == MemoryView::<T>::initial(),
            queue.block_order() == Seq::<usize>::empty(),
    {
        proof {
            ledger::lemma_initial::<T>();
            waiting::lemma_initial::<T>();
        }
        let queue = MpscQueue { memory: Memory::new(), world: Ghost(World::initial()) };
        assert(queue@ =~= Seq::<T>::empty());
        assert(queue.world@.laps.skip(0) =~= Seq::<usize>::empty());
        queue
    }
}

impl<T> MpscQueue<T> {
    /// The memory is in order, it stores the blocks in the order of the laps, and
    /// nobody is in the middle of anything.
    pub closed spec fn wf(self) -> bool {
        &&& self.memory.wf()
        &&& self.world@.mem == self.memory@
        &&& self.world@.ok()
        &&& self.world@.at_rest()
        &&& self.memory.block_order() == self.world@.laps.skip(self.world@.head as int)
        &&& in_a_row(self.memory.block_order())
    }

    /// What the memory of the queue holds.
    pub closed spec fn memory_view(self) -> MemoryView<T> {
        self.memory@
    }

    /// The blocks in the order in which the queue stores and drops them.
    pub closed spec fn block_order(self) -> Seq<usize> {
        self.memory.block_order()
    }

    /// The items in the order in which they are dropped with the queue: block by
    /// block, and slot by slot within each.
    pub open spec fn drop_order(self) -> Seq<T> {
        items_in(self.memory_view(), self.block_order())
    }

    /// The blocks that the queue has had from the heap and not given back.
    pub closed spec fn out_of_heap(self) -> Set<nat> {
        self.memory.out_of_heap()
    }

    /// How many entries the queue has for blocks and for waiters.
    pub closed spec fn room(self) -> (nat, nat) {
        self.memory.room()
    }

    /// The queue has given back all that it does not need for the items in it.
    pub proof fn lemma_given_back(self)
        requires
            self.wf(),
        ensures
            self.out_of_heap().finite(),
            self.out_of_heap().len() == self.memory_view().blocks.dom().len(),
            self.out_of_heap().len() <= 2 + self@.len() / 31,
            self.room().0 <= 2 * self.out_of_heap().len(),
            self.room().1 == 0,
    {
        let w = self.world@;
        lemma_no_pushes(w);
        lemma_blocks_at_rest(w);
        self.memory.lemma_heap();
        self.memory.lemma_room();
        assert(w.mem.waiters =~= Map::<usize, Waiter>::empty());
    }

    /// The items are stored the oldest first, each block once.
    pub proof fn lemma_drop_order(self)
        requires
            self.wf(),
        ensures
            self.drop_order() == self@,
            self.block_order().no_duplicates(),
            forall|block: usize|
                self.block_order().contains(block) <==> self.memory_view().blocks.contains_key(
                    block,
                ),
    {
        lemma_items_at_rest(self.world@);
        self.memory.lemma_block_order();
    }

    /// Puts `item` behind all the items in the queue. Makes the first block if
    /// there is none yet, and the next one if it fills the last slot of a block.
    pub fn push(&mut self, item: T)
        requires
            old(self).wf(),
        ensures
            final(self).wf(),
            final(self)@ == old(self)@.push(item),
            pushed(old(self).memory_view(), final(self).memory_view(), item),
            final(self).memory_view().blocks.dom().finite(),
            final(self).memory_view().blocks.dom().len()
                == old(self).memory_view().blocks.dom().len() + blocks_needed(
                old(self).memory_view(),
            ),
            final(self).memory_view().made == old(self).memory_view().made + blocks_needed(
                old(self).memory_view(),
            ),
    {
        let ghost start = self.world@;
        let ghost mut w = self.world@;
        let me = self.memory.enter();
        let mut push = Push::new();
        let ghost pushed_item = item;
        let mut item = Some(item);
        proof {
            assert(w.can_start(me)) by {
                assert(!w.threads.dom().contains(me));
            }
            conduct::lemma_make(w, Move::Start { tid: me, item: pushed_item });
            w = w.start(me, pushed_item);
            assert(w.threads.dom() =~= set![me]);
            assert(alone_order(w, me) =~= w.laps.skip(w.head as int));
        }
        while !push.is_done()
            invariant
                self.memory.wf(),
                self.memory@ == w.mem,
                alone(w, start, me, pushed_item),
                self.memory.block_order() == alone_order(w, me),
                in_a_row(self.memory.block_order()),
                w.threads[me].push == push,
                item == if push.stage is Flag || push.stage is Done {
                    None
                } else {
                    Some(pushed_item)
                },
            decreases requests_left(push.stage),
        {
            proof {
                assert(w.threads.contains_key(me));
                conduct::lemma_in_reach(w, me);
                assert(!w.blocked(me)) by {
                    lemma_alone_no_waiters(w, me);
                }
            }
            let reply = self.memory.perform(me, push.action(), &mut item);
            proof {
                lemma_alone_step(w, start, me, pushed_item, reply);
                lemma_alone_order(w, start, me, pushed_item, reply);
                w = w.step(me, reply);
            }
            push = push.resume(reply);
        }
        proof {
            assert(w.threads.contains_key(me));
            assert(w.mem.waiters.dom().contains(me));
            assert(alone_order(w, me) =~= w.laps.skip(w.head as int));
            conduct::lemma_make(w, Move::Finish { tid: me });
            w = w.finish(me);
        }
        self.memory.leave(me);
        self.world = Ghost(w);
        proof {
            assert(start.taken() <= start.log.len());
            assert(self@ =~= old(self)@.push(pushed_item));
            lemma_pushed(start, w, pushed_item);
        }
    }

    /// Takes the oldest item out of the queue; `None` if the queue is empty.
    /// Makes no block, and gives one back only where it goes on from a block that
    /// is used up. Before the first push it changes nothing.
    pub fn pop(&mut self) -> (item: Option<T>)
        requires
            old(self).wf(),
        ensures
            final(self).wf(),
            old(self)@.len() == 0 ==> item is None && final(self)@ == old(self)@,
            old(self)@.len() > 0 ==> item == Some(old(self)@[0]) && final(self)@
                == old(self)@.skip(1),
            final(self).memory_view() == old(self).memory_view().popped(),
            old(self).memory_view().consumer_block is None ==> final(self).memory_view()
                == old(self).memory_view(),
            final(self).memory_view().blocks.dom() == if old(self).memory_view().consumer_index
                == BLOCK_CAP {
                old(self).memory_view().blocks.dom().remove(
                    old(self).memory_view().consumer_block->0,
                )
            } else {
                old(self).memory_view().blocks.dom()
            },
            final(self).memory_view().made == old(self).memory_view().made,
    {
        let ghost start = self.world@;
        let ghost mut w = self.world@;
        let mut pop = Pop::new();
        let mut item = None;
        proof {
            conduct::lemma_make(w, Move::StartPop);
            w = w.start_pop();
        }
        while !pop.is_done()
            invariant
                self.memory.wf(),
                self.memory@ == w.mem,
                undisturbed(w, start, pop),
                self.memory.block_order() == w.laps.skip(w.freed() as int),
                in_a_row(self.memory.block_order()),
                item == if pop matches Pop::Done { taken } && taken {
                    Some(start.log[start.taken() as int])
                } else {
                    None
                },
            decreases pop_requests_left(pop),
        {
            proof {
                lemma_undisturbed_step(w, start, pop);
                lemma_undisturbed_order(w, pop);
            }
            let (reply, moved) = self.memory.perform_pop(pop.action());
            proof {
                w = w.step_pop();
            }
            item = moved;
            pop = pop.resume(reply);
        }
        proof {
            conduct::lemma_make(w, Move::FinishPop);
            w = w.finish_pop();
        }
        self.world = Ghost(w);
        proof {
            lemma_popped_blocks(start);
            if start.taken() < start.log.len() {
                assert(self@ =~= old(self)@.skip(1));
            }
        }
        item
    }

    /// Takes the queue down: hands out the items that are left, the oldest first,
    /// and gives every block back. The second result is the memory of the queue:
    /// the consumer has come to where the producers are, in the block that they
    /// fill, so it has passed every item; no block is in use any more, none was
    /// made, and nobody waits; the producers' side is as it was.
    pub fn tear_down(self) -> (parts: (Vec<T>, Memory<T>))
        requires
            self.wf(),
        ensures
            parts.0@ == self@,
            parts.1.wf(),
            parts.1@ == torn_down(self.memory_view()),
            parts.1@.waiters == Map::<usize, Waiter>::empty(),
            parts.1@.made == self.memory_view().made,
            parts.1.out_of_heap() == Set::<nat>::empty(),
            parts.1.room() == (0nat, 0nat),
            exists|count: nat| #[trigger]
                drained(Drain::Popping { pop: Pop::LoadConsumer }, self.memory_view(), count) == (
                    Drain::Done,
                    parts.1@,
                    parts.0@,
                ),
    {
        let ghost held = self.memory@;
        let ghost pending = self@;
        let mut memory = self.memory;
        let mut drain = Drain::new();
        let mut items: Vec<T> = Vec::new();
        let ghost mut count: nat = 0;
        proof {
            count = lemma_drains(self.world@);
            assert(held.waiters =~= Map::<usize, Waiter>::empty());
        }
        let ghost all = count;
        while !drain.is_done()
            invariant
                memory.wf(),
                drains_safely(drain, memory@, count),
                drained(drain, memory@, count).0 is Done,
                drained(drain, memory@, count).1 == torn_down(held),
                items@ + drained(drain, memory@, count).2 == pending,
            decreases count,
        {
            let ghost out = items@;
            let ghost rest = drained(drain, memory@, count).2;
            let (reply, moved) = memory.perform_pop(drain.action());
            match moved {
                Some(item) => items.push(item),
                None => {},
            }
            drain = drain.resume(reply);
            proof {
                count = (count - 1) as nat;
                assert(items@ + drained(drain, memory@, count).2 =~= out + rest);
            }
        }
        proof {
            assert(items@ =~= pending);
            memory.lemma_heap();
            memory.lemma_block_order();
            if memory.block_order().len() > 0 {
                assert(memory.block_order().contains(memory.block_order()[0]));
            }
            memory.lemma_room();
            assert(memory@.blocks.dom() =~= Set::<usize>::empty());
        }
        assert(drained(Drain::Popping { pop: Pop::LoadConsumer }, held, all) == (
            Drain::Done,
            memory@,
            items@,
        ));
        (items, memory)
    }
}

/// A pop gives back only the block that is stored first.
proof fn lemma_undisturbed_order<T>(w: World<T>, pop: Pop)
    requires
        w.ok(),
        w.pop == Some(pop),
        w.can_step_pop(),
    ensures
        w.step_pop().laps.skip(w.step_pop().freed() as int) == match pop.spec_action() {
            PopAction::FreeBlock { block } => without(w.laps.skip(w.freed() as int), block),
            _ => w.laps.skip(w.freed() as int),
        },
{
    if pop is Free {
        assert(w.laps.skip(w.head as int).drop_first() =~= w.laps.skip(w.head as int + 1));
    }
}

/// What a pop does to the blocks of a queue at rest.
proof fn lemma_popped_blocks<T>(w: World<T>)
    requires
        w.ok(),
        w.at_rest(),
    ensures
        w.mem.consumer_block is None ==> w.mem.popped() == w.mem,
        w.mem.popped().blocks.dom() == if w.mem.consumer_index == BLOCK_CAP {
            w.mem.blocks.dom().remove(w.mem.consumer_block->0)
        } else {
            w.mem.blocks.dom()
        },
{
    if w.mem.consumer_block is Some {
        lemma_no_pushes(w);
        lemma_rested_block(w, w.head as int);
        let here = w.mem.advanced();
        if w.mem.consumer_index == BLOCK_CAP {
            lemma_rested_block(w, w.head as int + 1);
        }
        assert(here.blocks.contains_key(here.consumer_block->0));
        assert(w.mem.popped().blocks.dom() =~= here.blocks.dom());
    }
}

} // verus!
