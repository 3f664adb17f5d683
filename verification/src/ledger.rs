//! What holds, in every interleaving, of the position, the blocks and the
//! items.

use vstd::prelude::*;

use crate::block::BlockView;
use crate::layout::{slots_before, word_of, BLOCK_CAP};
use crate::pop::Pop;
use crate::push::PushStage;
use crate::world::{Role, Thread, World};

verus! {

impl<T> Thread<T> {
    /// The block in which it has claimed a slot that it has not marked yet.
    pub open spec fn claimed_block(self) -> Option<usize> {
        match self.push.stage {
            PushStage::StoreBlock { block, next } => Some(block),
            PushStage::Link { block, next } => Some(block),
            PushStage::StorePosition { block } => Some(block),
            PushStage::WakeAll { block, wake } => Some(block),
            PushStage::Write { block } => Some(block),
            PushStage::Flag { block } => Some(block),
            _ => None,
        }
    }

    /// It has claimed its slot.
    pub open spec fn has_claimed(self) -> bool {
        ||| self.claimed_block() is Some
        ||| self.push.stage is DropNext
        ||| self.push.stage is Done
    }

    /// It has claimed the last slot of a block and not opened the next block.
    pub open spec fn linking(self) -> bool {
        self.push.stage is StoreBlock || self.push.stage is Link || self.push.stage is StorePosition
    }

    /// The block that only it knows of, beside the successor it has ready.
    pub open spec fn private_block(self) -> Option<usize> {
        match self.push.stage {
            PushStage::Install { new } => Some(new),
            PushStage::Discard { new } => Some(new),
            PushStage::StoreBlock { block, next } => Some(next),
            PushStage::DropNext { unused } => Some(unused),
            _ => None,
        }
    }

    /// Only it knows of the block.
    pub open spec fn owns(self, block: usize) -> bool {
        self.push.next_block == Some(block) || self.private_block() == Some(block)
    }

    /// It has read a position that is a slot, and it has a successor ready if
    /// that slot is the last of its block.
    pub open spec fn on_slot(self) -> bool {
        &&& self.push.position == word_of(self.seen)
        &&& self.seen % 32 < 31
        &&& self.seen % 32 == 30 ==> self.push.next_block is Some
    }

    /// The two do not differ in the slots and blocks that they hold.
    pub open spec fn holds_same(self, other: Thread<T>) -> bool {
        &&& self.claimed_block() == other.claimed_block()
        &&& self.claimed_block() is Some ==> self.seen == other.seen
        &&& self.item == other.item
        &&& self.begun == other.begun
        &&& self.push.next_block == other.push.next_block
        &&& self.private_block() == other.private_block()
        &&& self.push.stage is Flag == other.push.stage is Flag
        &&& self.push.stage is Publish == other.push.stage is Publish
        &&& self.linking() || other.linking() ==> self.push.stage == other.push.stage
    }
}

impl<T> World<T> {
    /// Number of items handed out.
    pub open spec fn taken(self) -> nat {
        self.delivered.len()
    }

    /// Number of laps whose blocks were given back.
    pub open spec fn freed(self) -> nat {
        if self.pop matches Some(pop) && pop is Advance {
            self.head + 1
        } else {
            self.head
        }
    }

    /// The lap's block is in use.
    pub open spec fn live(self, lap: int) -> bool {
        self.freed() <= lap < self.laps.len()
    }

    /// The newest lap has its block, but the block before it does not lead
    /// there yet.
    pub open spec fn unlinked(self) -> bool {
        self.linker matches Some(tid) && self.threads[tid].push.stage is Link
    }

    /// Where the block of a lap leads.
    pub open spec fn successor(self, lap: int) -> Option<usize> {
        if lap + 1 < self.laps.len() && !(self.unlinked() && lap + 2 == self.laps.len()) {
            Some(self.laps[lap + 1])
        } else {
            None
        }
    }

    /// Each private block is its owner's alone.
    pub open spec fn ownership_ok(self, tid: usize) -> bool {
        let thread = self.threads[tid];
        &&& thread.push.next_block matches Some(block) ==> {
            &&& self.roles.contains_key(block)
            &&& self.roles[block] == Role::Private(tid)
        }
        &&& thread.private_block() matches Some(block) ==> {
            &&& self.roles.contains_key(block)
            &&& self.roles[block] == Role::Private(tid)
            &&& thread.push.next_block != Some(block)
        }
    }

    /// The producer's item was claimed a slot after the producer began.
    pub open spec fn item_ok(self, tid: usize) -> bool {
        let thread = self.threads[tid];
        let slot = slots_before(thread.seen);
        &&& thread.seen % 32 < 31
        &&& thread.begun <= slot < self.log.len()
        &&& self.log[slot as int] == thread.item
    }

    /// A producer that has claimed a slot holds that slot.
    pub open spec fn claim_ok(self, tid: usize, block: usize) -> bool {
        let thread = self.threads[tid];
        let slot = slots_before(thread.seen);
        &&& thread.push.position == word_of(thread.seen)
        &&& thread.seen < self.tail
        &&& self.item_ok(tid)
        &&& self.writers.contains_key(slot)
        &&& self.writers[slot] == tid
        &&& thread.seen / 32 < self.laps.len()
        &&& block == self.laps[thread.seen as int / 32]
        &&& thread.linking() ==> {
            &&& self.linker == Some(tid)
            &&& thread.seen + 1 == self.tail
            &&& thread.seen % 32 == 30
            &&& thread.push.stage matches PushStage::Link { block, next } ==> next
                == self.laps.last()
        }
    }

    /// What holds of a producer at each stage.
    pub open spec fn thread_ok(self, tid: usize) -> bool {
        let thread = self.threads[tid];
        &&& self.ownership_ok(tid)
        &&& thread.seen <= self.tail
        &&& thread.begun <= self.log.len()
        &&& thread.claimed_block() matches Some(block) ==> self.claim_ok(tid, block)
        &&& match thread.push.stage {
            PushStage::AllocNext => {
                &&& thread.push.position == word_of(thread.seen)
                &&& thread.seen % 32 == 30
                &&& thread.push.next_block is None
            },
            PushStage::LoadBlock => thread.on_slot(),
            PushStage::AllocFirst => thread.on_slot(),
            PushStage::Install { new } => thread.on_slot(),
            PushStage::Publish { block } => {
                &&& thread.on_slot()
                &&& thread.seen == 0
                &&& self.publisher == Some(tid)
                &&& self.laps.len() > 0
                &&& block == self.laps[0]
            },
            PushStage::Claim { block } => {
                &&& thread.on_slot()
                &&& thread.seen == self.tail ==> {
                    &&& self.laps.len() == self.tail / 32 + 1
                    &&& block == self.laps[self.tail as int / 32]
                }
            },
            PushStage::Wait { wait } => {
                &&& thread.push.position == word_of(thread.seen)
                &&& thread.seen % 32 == 31
                &&& !(wait.stage is Done)
            },
            PushStage::DropNext { unused } => {
                &&& thread.push.next_block is None
                &&& self.item_ok(tid)
            },
            PushStage::Done => {
                &&& thread.push.next_block is None
                &&& self.item_ok(tid)
            },
            _ => true,
        }
    }

    /// A block is either private to one producer, and then unused, or it is
    /// the block of one lap.
    pub open spec fn role_ok(self, block: usize) -> bool {
        match self.roles[block] {
            Role::Private(tid) => {
                &&& self.threads.contains_key(tid)
                &&& self.threads[tid].owns(block)
                &&& self.mem.blocks[block] == BlockView::<T>::unused()
            },
            Role::Lap(lap) => {
                &&& self.live(lap as int)
                &&& self.laps[lap as int] == block
            },
        }
    }

    /// A lap has its block, and that block leads to the next lap's.
    pub open spec fn lap_ok(self, lap: int) -> bool {
        let block = self.laps[lap];
        &&& self.roles.contains_key(block)
        &&& self.roles[block] == Role::Lap(lap as nat)
        &&& self.mem.blocks[block].values.len() == BLOCK_CAP
        &&& self.mem.blocks[block].stored.len() == BLOCK_CAP
        &&& self.mem.blocks[block].next == self.successor(lap)
    }

    /// A slot that is claimed and not handed out yet is marked as filled, and
    /// its item is in place, once its writer is through with it.
    pub open spec fn slot_ok(self, lap: int, index: int) -> bool {
        let block = self.mem.blocks[self.laps[lap]];
        let slot = (lap * 31 + index) as nat;
        if slot < self.taken() {
            &&& block.values[index] is None
            &&& block.stored[index]
        } else if slot >= self.log.len() {
            &&& block.values[index] is None
            &&& !block.stored[index]
        } else if self.writers.contains_key(slot) {
            &&& block.values[index] == if self.threads[self.writers[slot]].push.stage is Flag {
                Some(self.log[slot as int])
            } else {
                None
            }
            &&& !block.stored[index]
        } else {
            &&& block.values[index] == Some(self.log[slot as int])
            &&& block.stored[index]
        }
    }

    /// A slot that waits for its writer has one.
    pub open spec fn writer_ok(self, slot: nat) -> bool {
        let tid = self.writers[slot];
        &&& self.taken() <= slot < self.log.len()
        &&& self.threads.contains_key(tid)
        &&& self.threads[tid].claimed_block() is Some
        &&& slots_before(self.threads[tid].seen) == slot
    }

    /// What holds of the consumer at each stage.
    pub open spec fn consumer_ok(self) -> bool {
        match self.pop {
            None => true,
            Some(Pop::LoadNext { block }) => {
                &&& self.mem.consumer_block == Some(block)
                &&& self.mem.consumer_index == BLOCK_CAP
            },
            Some(Pop::Free { block, next }) => {
                &&& self.mem.consumer_block == Some(block)
                &&& self.mem.consumer_index == BLOCK_CAP
                &&& self.head + 1 < self.laps.len()
                &&& next == self.laps[self.head as int + 1]
            },
            Some(Pop::Advance { next }) => {
                &&& self.mem.consumer_block is Some
                &&& self.mem.consumer_index == BLOCK_CAP
                &&& self.head + 1 < self.laps.len()
                &&& next == self.laps[self.head as int + 1]
            },
            Some(Pop::LoadFlag { block, index }) => {
                &&& self.mem.consumer_block == Some(block)
                &&& self.mem.consumer_index == index
                &&& index < BLOCK_CAP
            },
            Some(Pop::Take { block, index }) => {
                &&& self.mem.consumer_block == Some(block)
                &&& self.mem.consumer_index == index
                &&& index < BLOCK_CAP
                &&& self.taken() < self.log.len()
                &&& !self.writers.contains_key(self.taken())
            },
            _ => true,
        }
    }

    /// The counters and what they say of each other.
    pub open spec fn counters_ok(self) -> bool {
        &&& self.mem.position == word_of(self.tail)
        &&& self.log.len() == slots_before(self.tail)
        &&& self.taken() <= self.log.len()
        &&& self.delivered == self.log.take(self.taken() as int)
        &&& self.roles.dom() == self.mem.blocks.dom()
        &&& self.mem.block == if self.laps.len() == 0 {
            None
        } else {
            Some(self.laps.last())
        }
        &&& self.laps.len() == 0 ==> self.tail == 0 && self.publisher is None
        &&& self.linker is Some <==> self.tail % 32 == 31
        &&& match self.linker {
            Some(tid) => {
                &&& self.threads.contains_key(tid)
                &&& self.threads[tid].linking()
                &&& self.laps.len() == self.tail / 32 + if self.threads[tid].push.stage is StoreBlock {
                    1nat
                } else {
                    2nat
                }
            },
            None => self.laps.len() == 0 || self.laps.len() == self.tail / 32 + 1,
        }
        &&& self.publisher matches Some(tid) ==> {
            &&& self.threads.contains_key(tid)
            &&& self.threads[tid].push.stage is Publish
        }
        &&& match self.mem.consumer_block {
            None => {
                &&& self.head == 0
                &&& self.taken() == 0
                &&& self.mem.consumer_index == 0
                &&& self.laps.len() > 0 ==> self.publisher is Some
            },
            Some(block) => {
                &&& self.publisher is None
                &&& self.head < self.laps.len()
                &&& block == self.laps[self.head as int]
                &&& self.taken() == self.head * 31 + self.mem.consumer_index
                &&& self.mem.consumer_index <= BLOCK_CAP
            },
        }
    }

    /// The books are in order.
    pub open spec fn ledger_ok(self) -> bool {
        &&& self.counters_ok()
        &&& self.consumer_ok()
        &&& forall|tid: usize| self.threads.contains_key(tid) ==> #[trigger] self.thread_ok(tid)
        &&& forall|block: usize| self.roles.contains_key(block) ==> #[trigger] self.role_ok(block)
        &&& forall|lap: int| self.live(lap) ==> #[trigger] self.lap_ok(lap)
        &&& forall|lap: int, index: int|
            self.live(lap) && 0 <= index < 31 ==> #[trigger] self.slot_ok(lap, index)
        &&& forall|slot: nat| self.writers.contains_key(slot) ==> #[trigger] self.writer_ok(slot)
    }
}

/// The books are in order before anything has happened.
pub proof fn lemma_initial<T>()
    ensures
        World::<T>::initial().ledger_ok(),
{
    let w = World::<T>::initial();
    assert(w.delivered =~= w.log.take(0));
    assert(w.roles.dom() =~= w.mem.blocks.dom());
    assert(word_of(0) == 0) by {
        crate::layout::lemma_word_index(0);
    }
}

/// The block in which a producer has claimed a slot is in use.
pub proof fn lemma_claimed_live<T>(w: World<T>, tid: usize)
    requires
        w.ledger_ok(),
        w.threads.contains_key(tid),
        w.threads[tid].claimed_block() is Some,
    ensures
        w.live(w.threads[tid].seen as int / 32),
        w.lap_ok(w.threads[tid].seen as int / 32),
        w.slot_ok(w.threads[tid].seen as int / 32, w.threads[tid].seen as int % 32),
        w.taken() <= slots_before(w.threads[tid].seen),
{
    assert(w.thread_ok(tid));
    assert(w.writer_ok(slots_before(w.threads[tid].seen)));
}

/// Wherever the books of `post` are drawn up, what those of `pre` say of the same
/// producer, block, lap or slot can be looked up.
pub proof fn lemma_recall<T>(pre: World<T>, post: World<T>)
    requires
        pre.ledger_ok(),
    ensures
        forall|tid: usize|
            #![trigger post.thread_ok(tid)]
            pre.threads.contains_key(tid) ==> pre.thread_ok(tid),
        forall|block: usize|
            #![trigger post.role_ok(block)]
            pre.roles.contains_key(block) ==> pre.role_ok(block),
        forall|lap: int| #![trigger post.lap_ok(lap)] pre.live(lap) ==> pre.lap_ok(lap),
        forall|slot: nat|
            #![trigger post.writer_ok(slot)]
            pre.writers.contains_key(slot) ==> pre.writer_ok(slot),
        forall|lap: int, index: int|
            #![trigger post.slot_ok(lap, index)]
            pre.live(lap) && 0 <= index < 31 ==> {
                &&& pre.lap_ok(lap)
                &&& pre.slot_ok(lap, index)
                &&& pre.writers.contains_key((lap * 31 + index) as nat) ==> pre.writer_ok(
                    (lap * 31 + index) as nat,
                )
            },
{
}

/// A producer has moved, and neither what it holds nor anything else that the
/// books speak of has changed.
pub proof fn lemma_unchanged<T>(pre: World<T>, post: World<T>, tid: usize)
    requires
        pre.ledger_ok(),
        pre.threads.contains_key(tid),
        post.threads.dom() == pre.threads.dom(),
        forall|other: usize|
            pre.threads.contains_key(other) && other != tid ==> #[trigger] post.threads[other]
                == pre.threads[other],
        post.threads[tid].holds_same(pre.threads[tid]),
        post.thread_ok(tid),
        post.mem.position == pre.mem.position,
        post.mem.block == pre.mem.block,
        post.mem.consumer_block == pre.mem.consumer_block,
        post.mem.consumer_index == pre.mem.consumer_index,
        post.mem.blocks == pre.mem.blocks,
        post.pop == pre.pop,
        post.tail == pre.tail,
        post.log == pre.log,
        post.delivered == pre.delivered,
        post.laps == pre.laps,
        post.head == pre.head,
        post.roles == pre.roles,
        post.writers == pre.writers,
        post.linker == pre.linker,
        post.publisher == pre.publisher,
    ensures
        post.ledger_ok(),
{
    assert(post.unlinked() == pre.unlinked());
    lemma_recall(pre, post);
}

} // verus!
