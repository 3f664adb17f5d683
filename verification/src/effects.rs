//! What one request does to the answers that later requests get.

use vstd::prelude::*;

use crate::layout::BLOCK_CAP;
use crate::memory::MemoryView;
use crate::parker::Event;
use crate::vocabulary::{Action, ParkerWord, PopAction, Reply};

verus! {

/// The position is read back as it was stored or claimed; a claim succeeds only if
/// the position is the one expected, and changes nothing if it fails.
pub proof fn law_position_is_read_back<T>(
    mem: MemoryView<T>,
    me: usize,
    reader: usize,
    item: T,
    position: usize,
    expected: usize,
    reply: Reply,
)
    ensures
        ({
            let stored = mem.after(me, Action::StorePosition { position }, item, Reply::Unit);
            let claim = Action::ClaimPosition { current: expected, new: position };
            let won = mem.after(me, claim, item, Reply::Outcome(true));
            let read = Action::LoadPosition;
            &&& stored.answers(reader, read, reply) <==> reply == Reply::Word(position)
            &&& won.answers(reader, read, reply) <==> reply == Reply::Word(position)
            &&& mem.answers(me, claim, Reply::Outcome(true)) <==> mem.answers(
                reader,
                read,
                Reply::Word(expected),
            )
            &&& mem.answers(me, claim, Reply::Outcome(false))
            &&& mem.answers(me, claim, reply) ==> reply is Outcome
            &&& mem.after(me, claim, item, Reply::Outcome(false)) == mem
            &&& stored == (MemoryView { position: stored.position, ..mem })
            &&& won == stored
        }),
{
}

/// The block that the producers fill is read back as it was stored or installed; one
/// is installed exactly where there was none.
pub proof fn law_block_is_read_back<T>(
    mem: MemoryView<T>,
    me: usize,
    reader: usize,
    item: T,
    block: usize,
    reply: Reply,
)
    ensures
        ({
            let stored = mem.after(me, Action::StoreBlock { block }, item, Reply::Unit);
            let install = Action::InstallBlock { new: block };
            let read = Action::LoadBlock;
            &&& stored.answers(reader, read, reply) <==> reply == Reply::Link(Some(block))
            &&& mem.answers(me, install, reply) <==> reply == Reply::Outcome(
                mem.answers(reader, read, Reply::Link(None)),
            )
            &&& mem.after(me, install, item, Reply::Outcome(true)) == stored
            &&& mem.after(me, install, item, Reply::Outcome(false)) == mem
            &&& stored == (MemoryView { block: stored.block, ..mem })
        }),
{
}

/// The consumer finds the block that was published to it or that it has advanced to,
/// at the first slot of the latter; it finds where a block was linked to.
pub proof fn law_consumer_finds_its_block<T>(
    mem: MemoryView<T>,
    me: usize,
    item: T,
    block: usize,
    next: usize,
)
    requires
        mem.blocks.contains_key(block),
    ensures
        ({
            let shown = mem.after(me, Action::PublishBlock { block }, item, Reply::Unit);
            let moved = mem.after_pop(PopAction::Advance { block });
            let linked = mem.after(me, Action::LinkBlock { block, next }, item, Reply::Unit);
            let read = PopAction::LoadConsumer;
            let here = mem.pop_answer(read);
            &&& here is Consumer
            &&& shown.pop_answer(read) == (Reply::Consumer {
                block: Some(block),
                index: here->index,
            })
            &&& moved.pop_answer(read) == (Reply::Consumer { block: Some(block), index: 0 })
            &&& linked.pop_answer(PopAction::LoadNext { block }) == Reply::Link(Some(next))
            &&& shown == (MemoryView { consumer_block: shown.consumer_block, ..mem })
            &&& moved == (MemoryView {
                consumer_block: moved.consumer_block,
                consumer_index: moved.consumer_index,
                ..mem
            })
            &&& linked.blocks.remove(block) =~= mem.blocks.remove(block)
            &&& linked == (MemoryView { blocks: linked.blocks, ..mem })
        }),
{
}

/// An item that was written to a slot is the one that is taken from it, once the
/// slot was marked; no other slot of any block is touched by either. Taking moves the
/// consumer on by one slot.
pub proof fn law_item_is_taken_as_written<T>(
    mem: MemoryView<T>,
    me: usize,
    item: T,
    block: usize,
    index: usize,
    other: usize,
    slot: usize,
)
    requires
        mem.blocks.contains_key(block),
        mem.blocks[block].values.len() == BLOCK_CAP,
        mem.blocks[block].stored.len() == BLOCK_CAP,
        index < BLOCK_CAP,
        slot < BLOCK_CAP,
        other != block || slot != index,
    ensures
        ({
            let written = mem.after(me, Action::WriteValue { block, index }, item, Reply::Unit);
            let marked = written.after(me, Action::StoreFlag { block, index }, item, Reply::Unit);
            let look = PopAction::LoadFlag { block, index };
            let take = PopAction::Take { block, index };
            let taken = marked.after_pop(take);
            let look_there = PopAction::LoadFlag { block: other, index: slot };
            let take_there = PopAction::Take { block: other, index: slot };
            &&& written.pop_answer(look) == mem.pop_answer(look)
            &&& marked.pop_answer(look) == Reply::Outcome(true)
            &&& marked.pop_item(take) == Some(item)
            &&& taken.pop_item(take) is None
            &&& taken.pop_answer(PopAction::LoadConsumer) == (Reply::Consumer {
                block: mem.consumer_block,
                index: (index + 1) as usize,
            })
            &&& taken.pop_answer(look_there) == mem.pop_answer(look_there)
            &&& taken.pop_item(take_there) == mem.pop_item(take_there)
            &&& taken.blocks[block].next == mem.blocks[block].next
            &&& taken == (MemoryView {
                blocks: taken.blocks,
                consumer_index: taken.consumer_index,
                ..mem
            })
            &&& taken.blocks.dom() =~= mem.blocks.dom()
        }),
{
}

/// A block that is made was not there before and is unused: no slot is marked or
/// holds anything, and it leads nowhere. Made and given back, the memory is as it was,
/// but for the count of blocks made. Producer and consumer give back alike.
pub proof fn law_block_is_made_unused<T>(
    mem: MemoryView<T>,
    me: usize,
    item: T,
    block: usize,
    index: usize,
)
    requires
        mem.answers(me, Action::AllocBlock, Reply::Handle(block)),
        index < BLOCK_CAP,
    ensures
        ({
            let made = mem.after(me, Action::AllocBlock, item, Reply::Handle(block));
            let freed = made.after(me, Action::FreeBlock { block }, item, Reply::Unit);
            &&& !mem.blocks.contains_key(block)
            &&& made.blocks.contains_key(block)
            &&& made.made == mem.made + 1
            &&& made.pop_answer(PopAction::LoadFlag { block, index }) == Reply::Outcome(false)
            &&& made.pop_item(PopAction::Take { block, index }) is None
            &&& made.pop_answer(PopAction::LoadNext { block }) == Reply::Link(None)
            &&& freed == made.after_pop(PopAction::FreeBlock { block })
            &&& freed =~= (MemoryView { made: made.made, ..mem })
        }),
{
}

/// Looking, pausing and sleeping change nothing.
pub proof fn law_looking_changes_nothing<T>(
    mem: MemoryView<T>,
    me: usize,
    item: T,
    action: Action,
    look: PopAction,
    reply: Reply,
)
    requires
        action is LoadPosition || action is LoadBlock || action is LoadTop || action is ReadNext
            || action is LoadParker || action is AwaitEvent || action is Pause,
        look is LoadConsumer || look is LoadNext || look is LoadFlag,
    ensures
        mem.after(me, action, item, reply) == mem,
        mem.after_pop(look) == mem,
{
}

/// The top of the wait list is read as it is: whoever has got on the list, on top of
/// those that it saw there, and leads to them; nobody, once the list was taken. A
/// producer gets on only if the top is the one it saw, and hears what it is.
pub proof fn law_wait_list_is_a_stack<T>(
    mem: MemoryView<T>,
    me: usize,
    reader: usize,
    item: T,
    top: Option<usize>,
    current: Option<usize>,
    ok: bool,
    reply: Reply,
)
    requires
        mem.waiters.contains_key(me),
    ensures
        ({
            let get_on = Action::PushWaiter { top };
            let hears = Reply::Exchange { ok, current };
            let on = mem.after(me, get_on, item, Reply::Exchange { ok: true, current });
            let off = mem.after(me, get_on, item, Reply::Exchange { ok: false, current });
            let taken = mem.after(me, Action::SwapTop, item, reply);
            let read = Action::LoadTop;
            &&& on.answers(reader, read, reply) <==> reply == Reply::Link(Some(me))
            &&& on.answers(reader, Action::ReadNext { waiter: me }, reply) <==> reply
                == Reply::Link(top)
            &&& off.answers(reader, read, reply) <==> mem.answers(reader, read, reply)
            &&& mem.answers(me, get_on, reply) ==> reply is Exchange
            &&& mem.answers(me, get_on, hears) <==> mem.answers(reader, read, Reply::Link(current))
                && (ok ==> current == top)
            &&& mem.answers(me, Action::SwapTop, reply) <==> mem.answers(reader, read, reply)
            &&& taken.answers(reader, read, reply) <==> reply == Reply::Link(None)
            &&& taken == (MemoryView { top: taken.top, ..mem })
            &&& on.waiters.remove(me) =~= mem.waiters.remove(me)
            &&& on.waiters[me].parker == mem.waiters[me].parker
            &&& on == (MemoryView { top: on.top, ..off })
            &&& off == (MemoryView { waiters: off.waiters, ..mem })
        }),
{
}

/// A parker keeps one mark. Its owner leaves an event in it only if it is empty, and
/// hears what was there; a waker leaves word, whatever was there, and hears that.
/// The owner sleeps from then on until the event is set, and the event that is set
/// gives up its thread. Emptied, the parker holds no mark.
pub proof fn law_parker_keeps_one_mark<T>(
    mem: MemoryView<T>,
    owner: usize,
    waker: usize,
    item: T,
    reply: Reply,
    word: ParkerWord,
)
    requires
        mem.waiters.contains_key(owner),
        mem.waiters[owner].parker.word == word,
    ensures
        ({
            let here = Reply::Parker(word);
            let look = Action::LoadParker;
            let armed = mem.after(owner, Action::ArmParker, item, here);
            let leave_word = Action::NotifyParker { waiter: owner };
            let notified = mem.after(waker, leave_word, item, here);
            let called = armed.after(waker, leave_word, item, Reply::Parker(ParkerWord::Armed));
            let set = called.after(waker, Action::SetEvent { waiter: owner }, item, Reply::Unit);
            let emptied = mem.after(owner, Action::ResetParker, item, Reply::Unit);
            &&& mem.answers(owner, look, reply) <==> reply == here
            &&& mem.answers(owner, Action::ArmParker, reply) <==> reply == here
            &&& mem.answers(waker, leave_word, reply) <==> reply == here
            &&& word is Empty ==> {
                &&& armed.answers(owner, look, reply) <==> reply == Reply::Parker(
                    ParkerWord::Armed,
                )
                &&& armed.waiters[owner].parker.event == (Event {
                    thread: Some(owner),
                    is_set: false,
                })
                &&& armed.blocks_on(owner, Action::AwaitEvent)
                &&& called.blocks_on(owner, Action::AwaitEvent)
                &&& called.answers(owner, look, reply) <==> reply == Reply::Parker(
                    ParkerWord::Notified,
                )
                &&& !set.blocks_on(owner, Action::AwaitEvent)
                &&& set.waiters[owner].parker.event == (Event { thread: None, is_set: true })
                &&& set.answers(owner, look, reply) <==> reply == Reply::Parker(
                    ParkerWord::Notified,
                )
            }
            &&& !(word is Empty) ==> armed.waiters =~= mem.waiters
            &&& notified.answers(owner, look, reply) <==> reply == Reply::Parker(
                ParkerWord::Notified,
            )
            &&& notified.waiters[owner].parker.event == mem.waiters[owner].parker.event
            &&& emptied.answers(owner, look, reply) <==> reply == Reply::Parker(ParkerWord::Empty)
            &&& set.waiters[owner].next == mem.waiters[owner].next
            &&& emptied.waiters[owner].next == mem.waiters[owner].next
            &&& set.waiters.remove(owner) =~= mem.waiters.remove(owner)
            &&& notified.waiters.remove(owner) =~= mem.waiters.remove(owner)
            &&& emptied.waiters.remove(owner) =~= mem.waiters.remove(owner)
            &&& set == (MemoryView { waiters: set.waiters, ..mem })
            &&& notified == (MemoryView { waiters: notified.waiters, ..mem })
            &&& emptied == (MemoryView { waiters: emptied.waiters, ..mem })
        }),
{
}

/// A memory in which nothing has happened: the position is at the first slot, there is
/// no block, and nobody waits.
pub proof fn law_memory_begins_empty<T>(me: usize, reply: Reply)
    ensures
        ({
            let mem = MemoryView::<T>::initial();
            &&& mem.answers(me, Action::LoadPosition, reply) <==> reply == Reply::Word(0)
            &&& mem.answers(me, Action::LoadBlock, reply) <==> reply == Reply::Link(None)
            &&& mem.answers(me, Action::LoadTop, reply) <==> reply == Reply::Link(None)
            &&& mem.pop_answer(PopAction::LoadConsumer) == (Reply::Consumer {
                block: None,
                index: 0,
            })
            &&& mem.blocks.dom() =~= Set::<usize>::empty()
            &&& mem.waiters.dom() =~= Set::<usize>::empty()
            &&& mem.made == 0
        }),
{
}

} // verus!
