//! A queue at rest: no push and no pop is under way.

use vstd::prelude::*;

use crate::block::BlockView;
use crate::conduct;
use crate::layout::{
    lemma_word_index, lemma_word_next, slots_before, word_of, BLOCK_CAP, LAP,
};
use crate::ledger_steps;
use crate::memory::MemoryView;
use crate::pop::{Drain, Pop};
use crate::world::{Move, Role, World};

verus! {

impl<T> World<T> {
    /// No push and no pop is under way.
    pub open spec fn at_rest(self) -> bool {
        &&& self.threads.dom() =~= Set::<usize>::empty()
        &&& self.pop is None
    }

    /// The block of a lap while the queue is at rest.
    pub open spec fn rested_block(self, lap: int) -> BlockView<T> {
        BlockView {
            values: Seq::new(
                31,
                |i: int|
                    if self.taken() <= lap * 31 + i < self.log.len() {
                        Some(self.log[lap * 31 + i])
                    } else {
                        None
                    },
            ),
            stored: Seq::new(31, |i: int| lap * 31 + i < self.log.len()),
            next: if lap + 1 < self.laps.len() {
                Some(self.laps[lap + 1])
            } else {
                None
            },
        }
    }
}

/// While no push is under way, nobody is to link a block, to show one, to fill
/// a slot, or to be woken, and the position is a slot.
pub proof fn lemma_no_pushes<T>(w: World<T>)
    requires
        w.ok(),
        w.threads.dom() =~= Set::<usize>::empty(),
    ensures
        w.linker is None,
        w.publisher is None,
        forall|slot: nat| !w.writers.contains_key(slot),
        w.mem.top is None,
        w.tail % 32 < 31,
        w.mem.position == word_of(w.tail),
        w.mem.position % LAP == w.tail % 32,
        w.log.len() == slots_before(w.tail),
        w.laps.len() > 0 ==> w.laps.len() == w.tail / 32 + 1,
{
    lemma_word_index(w.tail);
    if let Some(tid) = w.linker {
        assert(!w.threads.dom().contains(tid));
    }
    if let Some(tid) = w.publisher {
        assert(!w.threads.dom().contains(tid));
    }
    assert forall|slot: nat| !w.writers.contains_key(slot) by {
        if w.writers.contains_key(slot) {
            assert(w.writer_ok(slot));
            assert(!w.threads.dom().contains(w.writers[slot]));
        }
    }
    if w.list.len() > 0 {
        assert(w.link_ok(w.list, None, 0));
        assert(w.place_ok(w.list[0]));
        assert(!w.threads.dom().contains(w.list[0]));
    }
}

/// While the queue is at rest, a block holds the items of its lap that have
/// not been handed out, and leads to the block of the next lap.
pub proof fn lemma_rested_block<T>(w: World<T>, lap: int)
    requires
        w.ok(),
        w.at_rest(),
        w.live(lap),
    ensures
        w.mem.blocks[w.laps[lap]] == w.rested_block(lap),
        w.mem.blocks.contains_key(w.laps[lap]),
        w.roles[w.laps[lap]] == Role::Lap(lap as nat),
{
    lemma_no_pushes(w);
    assert(w.lap_ok(lap));
    assert(w.mem.blocks.dom().contains(w.laps[lap]));
    let block = w.mem.blocks[w.laps[lap]];
    let rested = w.rested_block(lap);
    assert forall|i: int| 0 <= i < 31 implies #[trigger] block.values[i] == rested.values[i] by {
        assert(w.slot_ok(lap, i));
    }
    assert forall|i: int| 0 <= i < 31 implies #[trigger] block.stored[i] == rested.stored[i] by {
        assert(w.slot_ok(lap, i));
    }
    assert(block =~= rested);
}

/// While the queue is at rest, the blocks in use are those of the laps from the
/// consumer's on, one for each.
pub proof fn lemma_blocks_at_rest<T>(w: World<T>)
    requires
        w.ok(),
        w.at_rest(),
    ensures
        w.head <= w.laps.len(),
        w.mem.blocks.dom() == w.laps.skip(w.head as int).to_set(),
        w.mem.blocks.dom().finite(),
        w.mem.blocks.dom().len() == w.laps.len() - w.head,
{
    lemma_no_pushes(w);
    let used = w.laps.skip(w.head as int);
    assert forall|i: int| 0 <= i < used.len() implies w.roles[#[trigger] used[i]] == Role::Lap(
        (w.head + i) as nat,
    ) && w.mem.blocks.contains_key(used[i]) by {
        lemma_rested_block(w, w.head + i);
    }
    assert(used.no_duplicates());
    used.unique_seq_to_set();
    vstd::seq_lib::seq_to_set_is_finite(used);
    assert forall|block: usize| w.mem.blocks.dom().contains(block) implies used.contains(block) by {
        assert(w.roles.dom().contains(block));
        assert(w.role_ok(block));
        assert(!w.threads.dom().contains(w.roles[block]->Private_0));
        assert(used[w.roles[block]->Lap_0 - w.head] == block);
    }
    assert(w.mem.blocks.dom() =~= used.to_set());
}

/// The position after one more slot was claimed and, if that was the last of
/// its block, the next block was opened.
pub open spec fn next_position(position: usize) -> usize {
    if position % LAP + 1 == BLOCK_CAP {
        position.wrapping_add(1).wrapping_add(1)
    } else {
        position.wrapping_add(1)
    }
}

/// How many blocks a push makes: one if there is none yet, and one if it fills
/// the last slot of a block.
pub open spec fn blocks_needed<T>(mem: MemoryView<T>) -> nat {
    let first: nat = if mem.block is None {
        1
    } else {
        0
    };
    let successor: nat = if mem.position % LAP + 1 == BLOCK_CAP {
        1
    } else {
        0
    };
    first + successor
}

/// The memory `after` is the memory `before` with `item` pushed: the item is in
/// the slot at the position; the first block is made if there was none, and
/// shown to the consumer; the next block is made and linked if the slot was the
/// last of its block; everything else is as it was.
pub open spec fn pushed<T>(before: MemoryView<T>, after: MemoryView<T>, item: T) -> bool {
    let index = before.position % LAP;
    let last = index + 1 == BLOCK_CAP;
    let filled = if before.block is Some {
        before.block->0
    } else {
        after.consumer_block->0
    };
    let unfilled = if before.block is Some {
        before.blocks[filled]
    } else {
        BlockView::unused()
    };
    let block = BlockView {
        values: unfilled.values.update(index as int, Some(item)),
        stored: unfilled.stored.update(index as int, true),
        next: if last {
            after.block
        } else {
            unfilled.next
        },
    };
    &&& after.position == next_position(before.position)
    &&& before.block is None ==> {
        &&& after.consumer_block == Some(filled)
        &&& !before.blocks.contains_key(filled)
    }
    &&& before.block is Some ==> after.consumer_block == before.consumer_block
    &&& if last {
        &&& after.block is Some
        &&& !before.blocks.contains_key(after.block->0)
        &&& after.block != Some(filled)
        &&& after.blocks == before.blocks.insert(filled, block).insert(
            after.block->0,
            BlockView::unused(),
        )
    } else {
        &&& after.block == Some(filled)
        &&& after.blocks == before.blocks.insert(filled, block)
    }
    &&& after.made == before.made + blocks_needed(before)
    &&& after.consumer_index == before.consumer_index
    &&& after.top == before.top
    &&& after.waiters == before.waiters
}

/// What a push does to the memory of a queue at rest, from what it does to the
/// history.
pub proof fn lemma_pushed<T>(start: World<T>, w: World<T>, item: T)
    requires
        start.ok(),
        start.at_rest(),
        w.ok(),
        w.at_rest(),
        start.laps.is_prefix_of(w.laps),
        w.head == start.head,
        w.delivered == start.delivered,
        w.log == start.log.push(item),
        w.mem.made == start.mem.made + blocks_needed(start.mem),
    ensures
        pushed(start.mem, w.mem, item),
        w.mem.blocks.dom().finite(),
        w.mem.blocks.dom().len() == start.mem.blocks.dom().len() + blocks_needed(start.mem),
{
    lemma_no_pushes(start);
    lemma_no_pushes(w);
    lemma_blocks_at_rest(start);
    lemma_blocks_at_rest(w);
    lemma_word_next(start.tail);
    lemma_word_next(start.tail + 1);
    assert(start.mem.waiters =~= w.mem.waiters);
    let lap = start.tail as int / 32;
    let index = start.tail as int % 32;
    let filled = w.laps[lap];
    assert(start.log.len() == lap * 31 + index);
    lemma_rested_block(w, lap);
    if start.laps.len() > 0 {
        lemma_rested_block(start, lap);
    }
    let unfilled = if start.laps.len() > 0 {
        start.mem.blocks[filled]
    } else {
        BlockView::unused()
    };
    let block = BlockView {
        values: unfilled.values.update(index, Some(item)),
        stored: unfilled.stored.update(index, true),
        next: if index == 30 {
            w.mem.block
        } else {
            unfilled.next
        },
    };
    assert(w.mem.blocks[filled] =~= block);
    let expected = if index == 30 {
        start.mem.blocks.insert(filled, block).insert(w.mem.block->0, BlockView::unused())
    } else {
        start.mem.blocks.insert(filled, block)
    };
    if index == 30 {
        lemma_rested_block(w, lap + 1);
        assert(w.mem.blocks[w.laps[lap + 1]] =~= BlockView::<T>::unused());
    }
    assert forall|handle: usize| #[trigger] w.mem.blocks.contains_key(handle) implies {
        &&& expected.contains_key(handle)
        &&& w.mem.blocks[handle] == expected[handle]
    } by {
        assert(w.mem.blocks.dom().contains(handle));
        let used = w.laps.skip(w.head as int);
        assert(used.contains(handle));
        let at = w.head + choose|i: int| 0 <= i < used.len() && used[i] == handle;
        lemma_rested_block(w, at);
        if at < start.laps.len() {
            lemma_rested_block(start, at);
            if at < lap {
                assert(w.rested_block(at) =~= start.rested_block(at));
            }
        }
    }
    assert forall|handle: usize| #[trigger] expected.contains_key(handle) implies
        w.mem.blocks.contains_key(handle) by {
        if start.mem.blocks.dom().contains(handle) {
            let used = start.laps.skip(start.head as int);
            assert(used.contains(handle));
            let at = start.head + choose|i: int| 0 <= i < used.len() && used[i] == handle;
            lemma_rested_block(w, at);
        }
    }
    assert(w.mem.blocks =~= expected);
    assert forall|at: int| start.laps.len() <= at < w.laps.len() implies
        !start.mem.blocks.contains_key(#[trigger] w.laps[at]) by {
        if start.mem.blocks.dom().contains(w.laps[at]) {
            let used = start.laps.skip(start.head as int);
            assert(used.contains(w.laps[at]));
            let other = start.head + choose|i: int| 0 <= i < used.len() && used[i] == w.laps[at];
            lemma_rested_block(w, at);
            lemma_rested_block(w, other);
        }
    }
}

/// The items in a run of slots.
pub open spec fn items_of<T>(values: Seq<Option<T>>) -> Seq<T>
    decreases values.len(),
{
    if values.len() == 0 {
        Seq::empty()
    } else {
        items_of(values.drop_last()) + match values.last() {
            Some(item) => seq![item],
            None => Seq::empty(),
        }
    }
}

/// The items in the memory, block by block in the order given, and slot by slot
/// within each.
pub open spec fn items_in<T>(mem: MemoryView<T>, order: Seq<usize>) -> Seq<T>
    decreases order.len(),
{
    if order.len() == 0 {
        Seq::empty()
    } else {
        items_in(mem, order.drop_last()) + items_of(mem.blocks[order.last()].values)
    }
}

/// The items from one slot to another.
spec fn stretch<T>(log: Seq<T>, from: int, to: int) -> Seq<T> {
    if from < to {
        log.subrange(from, to)
    } else {
        Seq::empty()
    }
}

/// The items in the first slots of a block, while the queue is at rest.
proof fn lemma_items_of<T>(w: World<T>, lap: int, count: int)
    requires
        w.taken() <= w.log.len(),
        0 <= lap,
        0 <= count <= 31,
    ensures
        ({
            let from = if w.taken() > lap * 31 {
                w.taken() as int
            } else {
                lap * 31
            };
            let to = if w.log.len() < lap * 31 + count {
                w.log.len() as int
            } else {
                lap * 31 + count
            };
            items_of(w.rested_block(lap).values.take(count)) == stretch(w.log, from, to)
        }),
    decreases count,
{
    let values = w.rested_block(lap).values;
    if count > 0 {
        lemma_items_of(w, lap, count - 1);
        assert(values.take(count).drop_last() =~= values.take(count - 1));
    }
}

/// The items in the blocks of the first laps from the consumer's on, while the
/// queue is at rest.
proof fn lemma_items_in<T>(w: World<T>, count: int)
    requires
        w.ok(),
        w.at_rest(),
        0 < count <= w.laps.len() - w.head,
    ensures
        items_in(w.mem, w.laps.skip(w.head as int).take(count)) == stretch(
            w.log,
            w.taken() as int,
            if w.log.len() < (w.head + count) * 31 {
                w.log.len() as int
            } else {
                (w.head + count) * 31
            },
        ),
    decreases count,
{
    let used = w.laps.skip(w.head as int);
    let lap = w.head + count - 1;
    lemma_no_pushes(w);
    lemma_rested_block(w, lap);
    lemma_items_of(w, lap, 31);
    assert(w.rested_block(lap).values.take(31) =~= w.rested_block(lap).values);
    assert(used.take(count).drop_last() =~= used.take(count - 1));
    assert(used.take(count).last() == w.laps[lap]);
    assert(items_in(w.mem, used.take(count)) == items_in(w.mem, used.take(count - 1)) + items_of(
        w.rested_block(lap).values,
    ));
    let from = w.taken() as int;
    let middle = lap * 31;
    let to = if w.log.len() < (w.head + count) * 31 {
        w.log.len() as int
    } else {
        (w.head + count) * 31
    };
    assert(middle <= w.log.len());
    if count > 1 {
        lemma_items_in(w, count - 1);
        assert(from <= middle);
        assert(stretch(w.log, from, middle) + stretch(w.log, middle, to) =~= stretch(
            w.log,
            from,
            to,
        ));
    } else {
        assert(items_in(w.mem, used.take(0)) =~= Seq::empty());
        assert(middle <= from);
        assert(Seq::empty() + stretch(w.log, from, to) =~= stretch(w.log, from, to));
    }
}

/// While the queue is at rest, its blocks hold the items that have not been
/// handed out, the oldest first.
pub proof fn lemma_items_at_rest<T>(w: World<T>)
    requires
        w.ok(),
        w.at_rest(),
    ensures
        items_in(w.mem, w.laps.skip(w.head as int)) == w.log.skip(w.taken() as int),
{
    lemma_no_pushes(w);
    let used = w.laps.skip(w.head as int);
    if used.len() > 0 {
        lemma_items_in(w, used.len() as int);
        assert(used.take(used.len() as int) =~= used);
    }
    assert(items_in(w.mem, used) =~= w.log.skip(w.taken() as int));
}

/// How many requests a pop has before it at most.
pub open spec fn pop_requests_left(pop: Pop) -> nat {
    match pop {
        Pop::LoadConsumer => 6,
        Pop::LoadNext { .. } => 5,
        Pop::Free { .. } => 4,
        Pop::Advance { .. } => 3,
        Pop::LoadFlag { .. } => 2,
        Pop::Take { .. } => 1,
        Pop::Done { .. } => 0,
    }
}

/// What holds of a pop while no push is under way: it takes the oldest item,
/// and comes away with nothing only at the end of the queue.
pub open spec fn undisturbed<T>(w: World<T>, start: World<T>, pop: Pop) -> bool {
    &&& w.ok()
    &&& w.threads.dom() =~= Set::<usize>::empty()
    &&& w.pop == Some(pop)
    &&& w.log == start.log
    &&& start.taken() <= start.log.len()
    &&& match pop {
        Pop::LoadConsumer => w.mem == start.mem,
        Pop::LoadNext { block } => w.mem == start.mem,
        Pop::Free { block, next } => w.mem == start.mem && start.mem.blocks[block].next == Some(
            next,
        ),
        Pop::Advance { next } => {
            &&& start.mem.consumer_block is Some
            &&& start.mem.consumer_index == BLOCK_CAP
            &&& start.mem.blocks[start.mem.consumer_block->0].next == Some(next)
            &&& w.mem == (MemoryView {
                blocks: start.mem.blocks.remove(start.mem.consumer_block->0),
                ..start.mem
            })
        },
        Pop::LoadFlag { block, index } => w.mem == start.mem.advanced(),
        Pop::Take { block, index } => {
            &&& w.mem == start.mem.advanced()
            &&& w.mem.blocks[block].stored[index as int]
        },
        Pop::Done { taken } => w.mem == start.mem.popped(),
    }
    &&& match pop {
        Pop::Done { taken } => if taken {
            &&& start.taken() < start.log.len()
            &&& w.delivered == start.delivered.push(start.log[start.taken() as int])
        } else {
            &&& w.delivered == start.delivered
            &&& start.taken() == start.log.len()
            &&& w.mem.consumer_index < BLOCK_CAP
        },
        _ => w.delivered == start.delivered,
    }
}

/// A pop gets on while no push is under way.
pub proof fn lemma_undisturbed_step<T>(w: World<T>, start: World<T>, pop: Pop)
    requires
        undisturbed(w, start, pop),
        !(pop is Done),
    ensures
        w.mem.pop_in_reach(pop.spec_action()),
        pop.accepts(w.pop_reply()),
        w.mem.pop_item(pop.spec_action()) == if pop is Take {
            Some(start.log[start.taken() as int])
        } else {
            None
        },
        undisturbed(w.step_pop(), start, pop.after(w.pop_reply())),
        pop_requests_left(pop.after(w.pop_reply())) < pop_requests_left(pop),
{
    ledger_steps::lemma_step_pop(w);
    conduct::lemma_make(w, Move::StepPop);
    if w.step_pop().pop == Some(Pop::Done { taken: false }) {
        lemma_nothing_left(w);
    }
}

/// While no push is under way, a pop that comes away with nothing has seen
/// the end of the queue.
proof fn lemma_nothing_left<T>(w: World<T>)
    requires
        w.ok(),
        w.threads.dom() =~= Set::<usize>::empty(),
        w.can_step_pop(),
        w.step_pop().pop == Some(Pop::Done { taken: false }),
    ensures
        w.taken() == w.log.len(),
        w.mem.consumer_index < BLOCK_CAP,
{
    lemma_no_pushes(w);
    ledger_steps::lemma_step_pop(w);
    if let Pop::LoadFlag { block, index } = w.pop->0 {
        assert(w.slot_ok(w.head as int, index as int));
        assert((w.head as int) * 31 + index == w.taken());
    }
}

/// The memory after a queue with this memory was taken down: the consumer is
/// where the producers are, and no block is left.
pub open spec fn torn_down<T>(mem: MemoryView<T>) -> MemoryView<T> {
    MemoryView {
        consumer_block: mem.block,
        consumer_index: mem.position % LAP,
        blocks: Map::empty(),
        ..mem
    }
}

/// At the end of an empty queue the consumer is where the producers are, and
/// only its block is in use.
proof fn lemma_last_block<T>(w: World<T>)
    requires
        w.ok(),
        w.at_rest(),
        w.taken() == w.log.len(),
        w.mem.consumer_index < BLOCK_CAP,
    ensures
        w.mem.consumer_block == w.mem.block,
        w.mem.consumer_index == w.mem.position % LAP,
        forall|block: usize|
            w.mem.blocks.contains_key(block) <==> w.mem.consumer_block == Some(block),
{
    lemma_no_pushes(w);
    lemma_blocks_at_rest(w);
    let used = w.laps.skip(w.head as int);
    assert forall|block: usize|
        w.mem.blocks.contains_key(block) <==> w.mem.consumer_block == Some(block) by {
        assert(w.mem.blocks.dom().contains(block) <==> used.contains(block));
        if w.mem.consumer_block == Some(block) {
            assert(used[0] == block);
        }
    }
}

/// Whether taking down, from a state and a memory, reaches only what exists in
/// its next `count` requests.
pub open spec fn drains_safely<T>(drain: Drain, mem: MemoryView<T>, count: nat) -> bool
    decreases count,
{
    count == 0 || drain is Done || {
        &&& mem.pop_in_reach(drain.spec_action())
        &&& drains_safely(
            drain.after(mem.pop_answer(drain.spec_action())),
            mem.after_pop(drain.spec_action()),
            (count - 1) as nat,
        )
    }
}

/// The state, the memory and the items that came out, in the order in which
/// they did, after the next `count` requests of taking down.
pub open spec fn drained<T>(drain: Drain, mem: MemoryView<T>, count: nat) -> (
    Drain,
    MemoryView<T>,
    Seq<T>,
)
    decreases count,
{
    if count == 0 || drain is Done {
        (drain, mem, Seq::empty())
    } else {
        let action = drain.spec_action();
        let rest = drained(
            drain.after(mem.pop_answer(action)),
            mem.after_pop(action),
            (count - 1) as nat,
        );
        let out = match mem.pop_item(action) {
            Some(item) => seq![item],
            None => Seq::empty(),
        };
        (rest.0, rest.1, out + rest.2)
    }
}

/// Taking down from the middle of a pop, while no push is under way.
proof fn lemma_drains_on<T>(w: World<T>, start: World<T>, pop: Pop) -> (count: nat)
    requires
        undisturbed(w, start, pop),
        !(pop is Done),
    ensures
        drains_safely(Drain::Popping { pop }, w.mem, count),
        drained(Drain::Popping { pop }, w.mem, count) == (
            Drain::Done,
            torn_down(w.mem),
            w.log.skip(w.taken() as int),
        ),
    decreases w.log.len() - w.taken(), pop_requests_left(pop),
{
    lemma_undisturbed_step(w, start, pop);
    let next = w.step_pop();
    let pending = w.log.skip(w.taken() as int);
    match next.pop->0 {
        Pop::Done { taken: true } => {
            let rested = next.finish_pop();
            conduct::lemma_make(next, Move::FinishPop);
            conduct::lemma_make(rested, Move::StartPop);
            let count = lemma_drains_on(rested.start_pop(), rested, Pop::LoadConsumer);
            assert(pending =~= seq![pending[0]] + next.log.skip(next.taken() as int));
            count + 1
        },
        Pop::Done { taken: false } => {
            let rested = next.finish_pop();
            conduct::lemma_make(next, Move::FinishPop);
            lemma_last_block(rested);
            reveal_with_fuel(drained, 4);
            reveal_with_fuel(drains_safely, 4);
            assert(pending =~= Seq::empty());
            assert(Seq::<T>::empty() + Seq::<T>::empty() =~= Seq::<T>::empty());
            if let Some(block) = rested.mem.consumer_block {
                assert(rested.mem.blocks.remove(block) =~= Map::empty());
            } else {
                assert(rested.mem.blocks =~= Map::empty());
            }
            3
        },
        later => {
            let count = lemma_drains_on(next, start, later);
            assert(pending =~= Seq::<T>::empty() + next.log.skip(next.taken() as int));
            count + 1
        },
    }
}

/// Taking down a queue at rest.
pub proof fn lemma_drains<T>(w: World<T>) -> (count: nat)
    requires
        w.ok(),
        w.at_rest(),
    ensures
        drains_safely(Drain::Popping { pop: Pop::LoadConsumer }, w.mem, count),
        drained(Drain::Popping { pop: Pop::LoadConsumer }, w.mem, count) == (
            Drain::Done,
            torn_down(w.mem),
            w.log.skip(w.taken() as int),
        ),
{
    conduct::lemma_make(w, Move::StartPop);
    lemma_drains_on(w.start_pop(), w, Pop::LoadConsumer)
}

} // verus!
