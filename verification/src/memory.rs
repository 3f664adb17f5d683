//! The memory that producers and consumer share, and what each request does
//! to it.

use vstd::prelude::*;

use crate::block::{Block, BlockView, Heap};
use crate::layout::BLOCK_CAP;
use crate::parker::{Event, Parker};
use crate::slab::{in_a_row, without, Slab};
use crate::vocabulary::{Action, ParkerWord, PopAction, Reply};
use crate::waitlist::{WaitList, Waiter};

verus! {

/// What the shared memory holds.
#[verifier::ext_equal]
pub struct MemoryView<T> {
    /// The position of the producers.
    pub position: usize,
    /// The block that the producers fill.
    pub block: Option<usize>,
    /// The top of the wait list.
    pub top: Option<usize>,
    /// The block that the consumer empties.
    pub consumer_block: Option<usize>,
    /// The slot of that block that the consumer comes to next.
    pub consumer_index: usize,
    /// The blocks that have been made and not given back.
    pub blocks: Map<usize, BlockView<T>>,
    /// How many blocks have been made so far.
    pub made: nat,
    /// The waiters of the producers that are at work.
    pub waiters: Map<usize, Waiter>,
}

impl<T> MemoryView<T> {
    /// Nothing has happened yet.
    pub open spec fn initial() -> MemoryView<T> {
        MemoryView {
            position: 0,
            block: None,
            top: None,
            consumer_block: None,
            consumer_index: 0,
            blocks: Map::empty(),
            made: 0,
            waiters: Map::empty(),
        }
    }

    /// A slot exists.
    pub open spec fn has_slot(self, block: usize, index: usize) -> bool {
        self.blocks.contains_key(block) && index < BLOCK_CAP
    }

    /// What the request reaches exists, a slot that is written to is empty,
    /// and an event that is set has a thread asleep on it and was not set
    /// before. `me` is the waiter of the producer that asks.
    pub open spec fn in_reach(self, me: usize, action: Action) -> bool {
        match action {
            Action::FreeBlock { block } => self.blocks.contains_key(block),
            Action::LinkBlock { block, next } => self.blocks.contains_key(block),
            Action::WriteValue { block, index } => self.has_slot(block, index)
                && self.blocks[block].values[index as int] is None,
            Action::StoreFlag { block, index } => self.has_slot(block, index),
            Action::PushWaiter { top } => self.waiters.contains_key(me),
            Action::LoadParker => self.waiters.contains_key(me),
            Action::ArmParker => self.waiters.contains_key(me),
            Action::AwaitEvent => self.waiters.contains_key(me),
            Action::ResetParker => self.waiters.contains_key(me),
            Action::ReadNext { waiter } => self.waiters.contains_key(waiter),
            Action::NotifyParker { waiter } => self.waiters.contains_key(waiter),
            Action::SetEvent { waiter } => {
                &&& self.waiters.contains_key(waiter)
                &&& self.waiters[waiter].parker.event.thread is Some
                &&& !self.waiters[waiter].parker.event.is_set
            },
            Action::Evaluate => false,
            Action::Finish => false,
            _ => true,
        }
    }

    /// The request cannot be answered yet: it waits for an event.
    pub open spec fn blocks_on(self, me: usize, action: Action) -> bool {
        action is AwaitEvent && !self.waiters[me].parker.event.is_set
    }

    /// The replies that the request can get. The two exchanges that may fail
    /// for no reason can get more than one.
    pub open spec fn answers(self, me: usize, action: Action, reply: Reply) -> bool {
        &&& !self.blocks_on(me, action)
        &&& match action {
            Action::LoadPosition => reply == Reply::Word(self.position),
            Action::ClaimPosition { current, new } => reply matches Reply::Outcome(ok) && (ok
                ==> self.position == current),
            Action::LoadBlock => reply == Reply::Link(self.block),
            Action::InstallBlock { new } => reply == Reply::Outcome(self.block is None),
            Action::AllocBlock => reply matches Reply::Handle(new) && !self.blocks.contains_key(
                new,
            ),
            Action::LoadTop => reply == Reply::Link(self.top),
            Action::PushWaiter { top } => reply matches Reply::Exchange { ok, current } && current
                == self.top && (ok ==> self.top == top),
            Action::SwapTop => reply == Reply::Link(self.top),
            Action::ReadNext { waiter } => reply == Reply::Link(self.waiters[waiter].next),
            Action::LoadParker => reply == Reply::Parker(self.waiters[me].parker.word),
            Action::ArmParker => reply == Reply::Parker(self.waiters[me].parker.word),
            Action::NotifyParker { waiter } => reply == Reply::Parker(
                self.waiters[waiter].parker.word,
            ),
            _ => reply is Unit,
        }
    }

    /// This memory with another `waiter`.
    pub open spec fn with_waiter(self, handle: usize, waiter: Waiter) -> MemoryView<T> {
        MemoryView { waiters: self.waiters.insert(handle, waiter), ..self }
    }

    /// This memory with another parker at `handle`.
    pub open spec fn with_parker(self, handle: usize, parker: Parker) -> MemoryView<T> {
        self.with_waiter(handle, Waiter { parker, ..self.waiters[handle] })
    }

    /// This memory with another block at `handle`.
    pub open spec fn with_block(self, handle: usize, block: BlockView<T>) -> MemoryView<T> {
        MemoryView { blocks: self.blocks.insert(handle, block), ..self }
    }

    /// The memory after a request of the producer `me`, which carries `item`,
    /// was answered with `reply`.
    pub open spec fn after(self, me: usize, action: Action, item: T, reply: Reply) -> MemoryView<
        T,
    > {
        match action {
            Action::ClaimPosition { current, new } => if reply->Outcome_0 {
                MemoryView { position: new, ..self }
            } else {
                self
            },
            Action::StorePosition { position } => MemoryView { position, ..self },
            Action::InstallBlock { new } => if reply->Outcome_0 {
                MemoryView { block: Some(new), ..self }
            } else {
                self
            },
            Action::StoreBlock { block } => MemoryView { block: Some(block), ..self },
            Action::PublishBlock { block } => MemoryView { consumer_block: Some(block), ..self },
            Action::AllocBlock => MemoryView {
                made: self.made + 1,
                ..self.with_block(reply->Handle_0, BlockView::unused())
            },
            Action::FreeBlock { block } => MemoryView { blocks: self.blocks.remove(block), ..self },
            Action::LinkBlock { block, next } => self.with_block(
                block,
                BlockView { next: Some(next), ..self.blocks[block] },
            ),
            Action::WriteValue { block, index } => self.with_block(
                block,
                BlockView {
                    values: self.blocks[block].values.update(index as int, Some(item)),
                    ..self.blocks[block]
                },
            ),
            Action::StoreFlag { block, index } => self.with_block(
                block,
                BlockView {
                    stored: self.blocks[block].stored.update(index as int, true),
                    ..self.blocks[block]
                },
            ),
            Action::PushWaiter { top } => if reply->ok {
                MemoryView {
                    top: Some(me),
                    ..self.with_waiter(me, Waiter { next: top, ..self.waiters[me] })
                }
            } else {
                self.with_waiter(me, Waiter { next: top, ..self.waiters[me] })
            },
            Action::SwapTop => MemoryView { top: None, ..self },
            Action::ArmParker => self.with_parker(me, self.waiters[me].parker.armed(me)),
            Action::ResetParker => self.with_parker(
                me,
                Parker { word: ParkerWord::Empty, ..self.waiters[me].parker },
            ),
            Action::NotifyParker { waiter } => self.with_parker(
                waiter,
                Parker { word: ParkerWord::Notified, ..self.waiters[waiter].parker },
            ),
            Action::SetEvent { waiter } => self.with_parker(
                waiter,
                Parker {
                    event: Event { thread: None, is_set: true },
                    ..self.waiters[waiter].parker
                },
            ),
            _ => self,
        }
    }

    /// What the consumer's request reaches exists, and a slot that is taken
    /// from is filled.
    pub open spec fn pop_in_reach(self, action: PopAction) -> bool {
        match action {
            PopAction::LoadConsumer => true,
            PopAction::LoadNext { block } => self.blocks.contains_key(block),
            PopAction::FreeBlock { block } => self.blocks.contains_key(block),
            PopAction::Advance { block } => self.blocks.contains_key(block),
            PopAction::LoadFlag { block, index } => self.has_slot(block, index),
            PopAction::Take { block, index } => self.has_slot(block, index)
                && self.blocks[block].values[index as int] is Some,
            PopAction::Finish => false,
        }
    }

    /// The reply that the consumer's request gets.
    pub open spec fn pop_answer(self, action: PopAction) -> Reply {
        match action {
            PopAction::LoadConsumer => Reply::Consumer {
                block: self.consumer_block,
                index: self.consumer_index,
            },
            PopAction::LoadNext { block } => Reply::Link(self.blocks[block].next),
            PopAction::LoadFlag { block, index } => Reply::Outcome(
                self.blocks[block].stored[index as int],
            ),
            _ => Reply::Unit,
        }
    }

    /// The item that the consumer's request moves out.
    pub open spec fn pop_item(self, action: PopAction) -> Option<T> {
        match action {
            PopAction::Take { block, index } => self.blocks[block].values[index as int],
            _ => None,
        }
    }

    /// The memory once the consumer has gone on from a block that it has used
    /// up.
    pub open spec fn advanced(self) -> MemoryView<T> {
        match self.consumer_block {
            Some(block) => if self.consumer_index == BLOCK_CAP && self.blocks[block].next is Some {
                MemoryView {
                    consumer_block: self.blocks[block].next,
                    consumer_index: 0,
                    blocks: self.blocks.remove(block),
                    ..self
                }
            } else {
                self
            },
            None => self,
        }
    }

    /// The memory after a pop that nothing disturbed: the consumer goes on from
    /// a block that it has used up, and takes the item of the slot that it comes
    /// to, if there is one.
    pub open spec fn popped(self) -> MemoryView<T> {
        let here = self.advanced();
        match here.consumer_block {
            Some(block) => if here.consumer_index < BLOCK_CAP
                && here.blocks[block].stored[here.consumer_index as int] {
                here.after_pop(PopAction::Take { block, index: here.consumer_index })
            } else {
                here
            },
            None => here,
        }
    }

    /// The memory after the consumer's request was answered.
    pub open spec fn after_pop(self, action: PopAction) -> MemoryView<T> {
        match action {
            PopAction::FreeBlock { block } => MemoryView {
                blocks: self.blocks.remove(block),
                ..self
            },
            PopAction::Advance { block } => MemoryView {
                consumer_block: Some(block),
                consumer_index: 0,
                ..self
            },
            PopAction::Take { block, index } => MemoryView {
                consumer_index: (index + 1) as usize,
                ..self.with_block(
                    block,
                    BlockView {
                        values: self.blocks[block].values.update(index as int, None),
                        ..self.blocks[block]
                    },
                )
            },
            _ => self,
        }
    }
}

/// The side of the producers.
struct Producer {
    position: usize,
    block: Option<usize>,
    waiters: WaitList,
}

/// The side of the consumer.
struct Consumer {
    block: Option<usize>,
    index: usize,
}

/// The memory that producers and consumer share.
pub struct Memory<T> {
    producer: Producer,
    consumer: Consumer,
    blocks: Slab<Block<T>>,
    heap: Heap,
    waiters: Slab<Waiter>,
}

impl<T> View for Memory<T> {
    type V = MemoryView<T>;

    closed spec fn view(&self) -> MemoryView<T> {
        MemoryView {
            position: self.producer.position,
            block: self.producer.block,
            top: self.producer.waiters.top,
            consumer_block: self.consumer.block,
            consumer_index: self.consumer.index,
            blocks: self.blocks@.map_values(|block: Block<T>| block@),
            made: self.heap.made(),
            waiters: self.waiters@,
        }
    }
}

impl<T> Memory<T> {
    /// Every block has its slots and is out of the heap, under a number of its
    /// own, and no other block is.
    pub closed spec fn wf(self) -> bool {
        &&& self.blocks.wf()
        &&& self.waiters.wf()
        &&& self.heap.wf()
        &&& forall|handle: usize| #[trigger]
            self.blocks@.contains_key(handle) ==> self.blocks@[handle].wf() && self.kept(handle)
        &&& forall|a: usize, b: usize|
            #![trigger self.blocks@.contains_key(a), self.blocks@.contains_key(b)]
            self.blocks@.contains_key(a) && self.blocks@.contains_key(b) && a != b
                ==> self.blocks@[a].serial() != self.blocks@[b].serial()
        &&& self.blocks@.dom().finite()
        &&& self.heap.out().len() == self.blocks@.dom().len()
    }

    /// The heap knows the block.
    spec fn kept(self, handle: usize) -> bool {
        self.blocks@[handle].serial() matches Some(serial) && self.heap.out().contains(serial)
    }

    /// The blocks that came from the heap and have not gone back to it.
    pub closed spec fn out_of_heap(self) -> Set<nat> {
        self.heap.out()
    }

    /// The number of a block in the heap.
    pub closed spec fn number(self, block: usize) -> nat {
        self.blocks@[block].serial()->0
    }

    /// The memory holds every block that came from the heap and has not gone back,
    /// and no other.
    pub proof fn lemma_heap(self)
        requires
            self.wf(),
        ensures
            self@.blocks.dom().finite(),
            self.out_of_heap().finite(),
            self.out_of_heap().len() == self@.blocks.dom().len(),
            forall|block: usize| #[trigger]
                self@.blocks.contains_key(block) ==> self.out_of_heap().contains(
                    self.number(block),
                ),
            forall|a: usize, b: usize|
                #![trigger self.number(a), self.number(b)]
                self@.blocks.contains_key(a) && self@.blocks.contains_key(b) && a != b
                    ==> self.number(a) != self.number(b),
    {
        assert(self@.blocks.dom() =~= self.blocks@.dom());
        assert forall|block: usize| #[trigger]
            self@.blocks.contains_key(block) implies self.out_of_heap().contains(
            self.number(block),
        ) by {
            assert(self.blocks@.contains_key(block));
        }
        assert forall|a: usize, b: usize|
            #![trigger self.number(a), self.number(b)]
            self@.blocks.contains_key(a) && self@.blocks.contains_key(b) && a
                != b implies self.number(a) != self.number(b) by {
            assert(self.blocks@.contains_key(a) && self.blocks@.contains_key(b));
        }
    }

    /// How many entries the stores of blocks and of waiters have.
    pub closed spec fn room(self) -> (nat, nat) {
        (self.blocks.room(), self.waiters.room())
    }

    /// The store of blocks has at most twice as many entries as there are blocks,
    /// if these were made one after the other with none between them left; and
    /// where there are no waiters there are no entries for them.
    pub proof fn lemma_room(self)
        requires
            self.wf(),
            in_a_row(self.block_order()),
        ensures
            self.room().0 <= 2 * self.block_order().len(),
            self@.waiters =~= Map::<usize, Waiter>::empty() ==> self.room().1 == 0,
    {
        self.blocks.lemma_room();
        self.waiters.lemma_order();
        if self@.waiters =~= Map::<usize, Waiter>::empty() {
            if self.waiters.order().len() > 0 {
                assert(self.waiters.order().contains(self.waiters.order()[0]));
            }
            self.waiters.lemma_room();
        }
    }

    /// The blocks in the order in which they were made, which is the order in
    /// which the memory stores and drops them.
    pub closed spec fn block_order(self) -> Seq<usize> {
        self.blocks.order()
    }

    /// The order tells each block once.
    pub proof fn lemma_block_order(self)
        requires
            self.wf(),
        ensures
            self.block_order().no_duplicates(),
            forall|block: usize|
                self.block_order().contains(block) <==> self@.blocks.contains_key(block),
    {
        self.blocks.lemma_order();
    }

    /// Nothing has happened yet.
    pub fn new() -> (memory: Self)
        ensures
            memory.wf(),
            memory@ == MemoryView::<T>::initial(),
            memory.block_order() == Seq::<usize>::empty(),
    {
        let memory = Memory {
            producer: Producer { position: 0, block: None, waiters: WaitList::default() },
            consumer: Consumer { block: None, index: 0 },
            blocks: Slab::new(),
            heap: Heap::new(),
            waiters: Slab::new(),
        };
        assert(memory@ =~= MemoryView::<T>::initial());
        memory
    }

    /// Makes room for the waiter of a producer that starts to work.
    pub fn enter(&mut self) -> (me: usize)
        requires
            old(self).wf(),
        ensures
            final(self).wf(),
            !old(self)@.waiters.contains_key(me),
            final(self)@ == old(self)@.with_waiter(me, fresh_waiter()),
            final(self).block_order() == old(self).block_order(),
    {
        let me = self.waiters.insert(Waiter::default());
        assert(self@ =~= old(self)@.with_waiter(me, fresh_waiter()));
        me
    }

    /// Gives back the waiter of a producer that has finished.
    pub fn leave(&mut self, me: usize)
        requires
            old(self).wf(),
            old(self)@.waiters.contains_key(me),
        ensures
            final(self).wf(),
            final(self)@ == (MemoryView {
                waiters: old(self)@.waiters.remove(me),
                ..old(self)@
            }),
            final(self).block_order() == old(self).block_order(),
    {
        self.waiters.remove(me);
    }

    /// Whether the request has to wait for an event before it is answered.
    pub fn is_blocked(&self, me: usize, action: Action) -> (blocked: bool)
        requires
            self.wf(),
            self@.in_reach(me, action),
        ensures
            blocked == self@.blocks_on(me, action),
    {
        match action {
            Action::AwaitEvent => !self.waiters.get(me).parker.event.is_set,
            _ => false,
        }
    }

    /// Gives up a block.
    fn free_block(&mut self, block: usize)
        requires
            old(self).wf(),
            old(self)@.blocks.contains_key(block),
        ensures
            final(self).wf(),
            final(self)@ == (MemoryView { blocks: old(self)@.blocks.remove(block), ..old(self)@ }),
            final(self).block_order() == without(old(self).block_order(), block),
    {
        let given_up = self.blocks.remove(block);
        self.heap.free(given_up);
        assert(self@.blocks =~= old(self)@.blocks.remove(block));
    }

    /// Carries out a request of the producer whose waiter is `me`; `item` is
    /// what that producer pushes. Neither exchange fails without a reason.
    pub fn perform(&mut self, me: usize, action: Action, item: &mut Option<T>) -> (reply: Reply)
        requires
            old(self).wf(),
            old(self)@.in_reach(me, action),
            !old(self)@.blocks_on(me, action),
            action is WriteValue ==> *old(item) is Some,
        ensures
            final(self).wf(),
            old(self)@.answers(me, action, reply),
            action matches Action::ClaimPosition { current, .. } ==> reply == Reply::Outcome(
                old(self)@.position == current,
            ),
            action matches Action::PushWaiter { top } ==> reply == (Reply::Exchange {
                ok: old(self)@.top == top,
                current: old(self)@.top,
            }),
            final(self)@ == old(self)@.after(me, action, old(item)->0, reply),
            final(self).block_order() == match action {
                Action::AllocBlock => old(self).block_order().push(reply->Handle_0),
                Action::FreeBlock { block } => without(old(self).block_order(), block),
                _ => old(self).block_order(),
            },
            action is AllocBlock && old(self).block_order().len() > 0 ==> reply == Reply::Handle(
                old(self).block_order().last().wrapping_add(1),
            ),
            *final(item) == if action is WriteValue {
                None
            } else {
                *old(item)
            },
    {
        match action {
            Action::LoadPosition => Reply::Word(self.producer.position),
            Action::ClaimPosition { current, new } => {
                let ok = self.producer.position == current;
                if ok {
                    self.producer.position = new;
                }
                Reply::Outcome(ok)
            },
            Action::StorePosition { position } => {
                self.producer.position = position;
                Reply::Unit
            },
            Action::LoadBlock => Reply::Link(self.producer.block),
            Action::InstallBlock { new } => {
                let ok = self.producer.block.is_none();
                if ok {
                    self.producer.block = Some(new);
                }
                Reply::Outcome(ok)
            },
            Action::StoreBlock { block } => {
                self.producer.block = Some(block);
                Reply::Unit
            },
            Action::PublishBlock { block } => {
                self.consumer.block = Some(block);
                Reply::Unit
            },
            Action::AllocBlock => {
                let made = self.heap.make();
                let new = self.blocks.insert(made);
                assert(self@.blocks =~= old(self)@.blocks.insert(new, BlockView::unused()));
                Reply::Handle(new)
            },
            Action::FreeBlock { block } => {
                self.free_block(block);
                Reply::Unit
            },
            Action::LinkBlock { block, next } => {
                self.blocks.get_mut(block).set_next(next);
                assert(self@ =~= old(self)@.after(me, action, old(item)->0, Reply::Unit));
                Reply::Unit
            },
            Action::WriteValue { block, index } => {
                let value = item.take().unwrap();
                self.blocks.get_mut(block).write(index, value);
                assert(self@ =~= old(self)@.after(me, action, old(item)->0, Reply::Unit));
                Reply::Unit
            },
            Action::StoreFlag { block, index } => {
                self.blocks.get_mut(block).set_stored(index);
                assert(self@ =~= old(self)@.after(me, action, old(item)->0, Reply::Unit));
                Reply::Unit
            },
            Action::LoadTop => Reply::Link(self.producer.waiters.top),
            Action::PushWaiter { top } => {
                self.waiters.get_mut(me).next = top;
                let (ok, current) = self.producer.waiters.exchange(top, me);
                Reply::Exchange { ok, current }
            },
            Action::SwapTop => Reply::Link(self.producer.waiters.take()),
            Action::ReadNext { waiter } => Reply::Link(self.waiters.get(waiter).next),
            Action::LoadParker => Reply::Parker(self.waiters.get(me).parker.word),
            Action::ArmParker => Reply::Parker(self.waiters.get_mut(me).parker.arm(me)),
            Action::ResetParker => {
                self.waiters.get_mut(me).parker.reset();
                Reply::Unit
            },
            Action::NotifyParker { waiter } => {
                Reply::Parker(self.waiters.get_mut(waiter).parker.notify())
            },
            Action::SetEvent { waiter } => {
                self.waiters.get_mut(waiter).parker.set_event();
                Reply::Unit
            },
            Action::Pause { .. } | Action::AwaitEvent | Action::Evaluate | Action::Finish => {
                Reply::Unit
            },
        }
    }

    /// Carries out a request of the consumer; the second result is the item
    /// that the request moved out.
    pub fn perform_pop(&mut self, action: PopAction) -> (result: (Reply, Option<T>))
        requires
            old(self).wf(),
            old(self)@.pop_in_reach(action),
        ensures
            final(self).wf(),
            result.0 == old(self)@.pop_answer(action),
            result.1 == old(self)@.pop_item(action),
            final(self)@ == old(self)@.after_pop(action),
            final(self).block_order() == match action {
                PopAction::FreeBlock { block } => without(old(self).block_order(), block),
                _ => old(self).block_order(),
            },
    {
        match action {
            PopAction::LoadConsumer => (
                Reply::Consumer { block: self.consumer.block, index: self.consumer.index },
                None,
            ),
            PopAction::LoadNext { block } => (Reply::Link(self.blocks.get(block).next()), None),
            PopAction::FreeBlock { block } => {
                self.free_block(block);
                (Reply::Unit, None)
            },
            PopAction::Advance { block } => {
                self.consumer.index = 0;
                self.consumer.block = Some(block);
                (Reply::Unit, None)
            },
            PopAction::LoadFlag { block, index } => (
                Reply::Outcome(self.blocks.get(block).is_stored(index)),
                None,
            ),
            PopAction::Take { block, index } => {
                self.consumer.index = index + 1;
                let value = self.blocks.get_mut(block).read(index);
                assert(self@ =~= old(self)@.after_pop(action));
                (Reply::Unit, Some(value))
            },
            PopAction::Finish => (Reply::Unit, None),
        }
    }
}

/// A waiter that is on no list.
pub open spec fn fresh_waiter() -> Waiter {
    Waiter {
        next: None,
        parker: Parker { word: ParkerWord::Empty, event: Event::vacant() },
    }
}

} // verus!
