//! Every move keeps the books in order.

use vstd::prelude::*;

use crate::block::BlockView;
use crate::layout::{lemma_word_index, lemma_word_next, slots_before, BLOCK_CAP};
use crate::ledger::{lemma_claimed_live, lemma_recall, lemma_unchanged};
use crate::pop::Pop;
use crate::push::PushStage;
use crate::vocabulary::Reply;
use crate::world::World;

verus! {

/// Moves that change nothing that the books speak of.
proof fn lemma_step_unchanged<T>(w: World<T>, tid: usize, reply: Reply)
    requires
        w.ledger_ok(),
        w.can_step(tid, reply),
        ({
            let stage = w.threads[tid].push.stage;
            ||| stage is LoadPosition
            ||| stage is LoadBlock
            ||| stage is Install && !reply->Outcome_0
            ||| stage is Claim && !reply->Outcome_0
            ||| stage is Backoff
            ||| stage is Wait
            ||| stage is WakeAll
        }),
    ensures
        w.step(tid, reply).ledger_ok(),
{
    let post = w.step(tid, reply);
    assert(w.thread_ok(tid));
    assert(post.threads.dom() =~= w.threads.dom());
    if w.threads[tid].push.stage is LoadPosition {
        lemma_word_index(w.tail);
    }
    assert(post.thread_ok(tid));
    lemma_unchanged(w, post, tid);
}

/// A producer makes a block.
proof fn lemma_step_alloc<T>(w: World<T>, tid: usize, reply: Reply)
    requires
        w.ledger_ok(),
        w.can_step(tid, reply),
        w.threads[tid].push.stage is AllocNext || w.threads[tid].push.stage is AllocFirst,
    ensures
        w.step(tid, reply).ledger_ok(),
{
    let post = w.step(tid, reply);
    let new = reply->Handle_0;
    assert(!w.roles.contains_key(new)) by {
        assert(w.roles.dom().contains(new) == w.mem.blocks.dom().contains(new));
    }
    assert(w.thread_ok(tid));
    assert(post.roles.dom() =~= post.mem.blocks.dom());
    lemma_recall(w, post);
}

/// A producer gives back a block that only it knows of.
proof fn lemma_step_free<T>(w: World<T>, tid: usize, reply: Reply)
    requires
        w.ledger_ok(),
        w.can_step(tid, reply),
        w.threads[tid].push.stage is Discard || w.threads[tid].push.stage is DropNext,
    ensures
        w.mem.in_reach(tid, w.action_of(tid)),
        w.step(tid, reply).ledger_ok(),
{
    let post = w.step(tid, reply);
    let gone = w.threads[tid].private_block()->0;
    assert(w.thread_ok(tid));
    assert(w.mem.blocks.dom().contains(gone));
    assert(post.roles.dom() =~= post.mem.blocks.dom());
    lemma_recall(w, post);
}

/// A producer installs the first block.
proof fn lemma_step_install<T>(w: World<T>, tid: usize, reply: Reply)
    requires
        w.ledger_ok(),
        w.can_step(tid, reply),
        w.threads[tid].push.stage is Install,
        reply->Outcome_0,
    ensures
        w.step(tid, reply).ledger_ok(),
{
    let post = w.step(tid, reply);
    let new = w.threads[tid].private_block()->0;
    assert(w.thread_ok(tid));
    assert(w.role_ok(new));
    assert(w.laps.len() == 0 && w.tail == 0);
    assert(post.mem.blocks[new] == BlockView::<T>::unused());
    assert(post.roles.dom() =~= post.mem.blocks.dom());
    lemma_recall(w, post);
}

/// A producer shows the first block to the consumer.
proof fn lemma_step_publish<T>(w: World<T>, tid: usize, reply: Reply)
    requires
        w.ledger_ok(),
        w.can_step(tid, reply),
        w.threads[tid].push.stage is Publish,
    ensures
        w.step(tid, reply).ledger_ok(),
{
    let post = w.step(tid, reply);
    assert(w.thread_ok(tid));
    lemma_recall(w, post);
}

/// A producer claims a slot.
pub proof fn lemma_step_claim<T>(w: World<T>, tid: usize, reply: Reply)
    requires
        w.ledger_ok(),
        w.can_step(tid, reply),
        w.threads[tid].push.stage is Claim,
        reply->Outcome_0,
    ensures
        w.threads[tid].push.accepts(reply),
        w.threads[tid].seen == w.tail,
        w.tail % 32 < 31,
        w.step(tid, reply).ledger_ok(),
{
    let post = w.step(tid, reply);
    let thread = w.threads[tid];
    assert(w.thread_ok(tid));
    lemma_word_index(w.tail);
    lemma_word_next(w.tail);
    assert(!w.writers.contains_key(w.log.len())) by {
        if w.writers.contains_key(w.log.len()) {
            assert(w.writer_ok(w.log.len()));
        }
    }
    assert(post.delivered =~= post.log.take(post.taken() as int));
    lemma_recall(w, post);
}

/// A producer lets the others go on to the next block.
proof fn lemma_step_store_block<T>(w: World<T>, tid: usize, reply: Reply)
    requires
        w.ledger_ok(),
        w.can_step(tid, reply),
        w.threads[tid].push.stage is StoreBlock,
    ensures
        w.step(tid, reply).ledger_ok(),
{
    let post = w.step(tid, reply);
    let new = w.threads[tid].private_block()->0;
    assert(w.thread_ok(tid));
    assert(w.role_ok(new));
    assert(post.mem.blocks[new] == BlockView::<T>::unused());
    assert(post.roles.dom() =~= post.mem.blocks.dom());
    lemma_recall(w, post);
}

/// A producer lets the consumer go on to the next block.
proof fn lemma_step_link<T>(w: World<T>, tid: usize, reply: Reply)
    requires
        w.ledger_ok(),
        w.can_step(tid, reply),
        w.threads[tid].push.stage is Link,
    ensures
        w.mem.in_reach(tid, w.action_of(tid)),
        w.step(tid, reply).ledger_ok(),
{
    let post = w.step(tid, reply);
    let this = w.threads[tid].seen as int / 32;
    assert(w.thread_ok(tid));
    lemma_claimed_live(w, tid);
    assert(w.mem.blocks.dom().contains(w.laps[this]));
    assert(post.mem.blocks.dom() =~= w.mem.blocks.dom());
    lemma_recall(w, post);
}

/// A producer opens the first slot of the next block.
proof fn lemma_step_store_position<T>(w: World<T>, tid: usize, reply: Reply)
    requires
        w.ledger_ok(),
        w.can_step(tid, reply),
        w.threads[tid].push.stage is StorePosition,
    ensures
        w.tail % 32 == 31,
        w.step(tid, reply).ledger_ok(),
{
    let post = w.step(tid, reply);
    assert(w.thread_ok(tid));
    lemma_word_next(w.threads[tid].seen);
    lemma_word_next(w.tail);
    lemma_recall(w, post);
}

/// A producer moves its item into its slot.
proof fn lemma_step_write<T>(w: World<T>, tid: usize, reply: Reply)
    requires
        w.ledger_ok(),
        w.can_step(tid, reply),
        w.threads[tid].push.stage is Write,
    ensures
        w.mem.in_reach(tid, w.action_of(tid)),
        w.step(tid, reply).ledger_ok(),
{
    let post = w.step(tid, reply);
    let this = w.threads[tid].seen as int / 32;
    assert(w.thread_ok(tid));
    lemma_word_index(w.threads[tid].seen);
    lemma_claimed_live(w, tid);
    assert(w.mem.blocks.dom().contains(w.laps[this]));
    assert(post.mem.blocks.dom() =~= w.mem.blocks.dom());
    lemma_recall(w, post);
}

/// A producer marks its slot as filled.
proof fn lemma_step_flag<T>(w: World<T>, tid: usize, reply: Reply)
    requires
        w.ledger_ok(),
        w.can_step(tid, reply),
        w.threads[tid].push.stage is Flag,
    ensures
        w.mem.in_reach(tid, w.action_of(tid)),
        w.step(tid, reply).ledger_ok(),
{
    let post = w.step(tid, reply);
    let this = w.threads[tid].seen as int / 32;
    assert(w.thread_ok(tid));
    lemma_word_index(w.threads[tid].seen);
    lemma_claimed_live(w, tid);
    assert(w.mem.blocks.dom().contains(w.laps[this]));
    assert(post.mem.blocks.dom() =~= w.mem.blocks.dom());
    lemma_recall(w, post);
}

/// A move of a producer keeps the books in order, and reaches only slots and
/// blocks that exist.
pub proof fn lemma_step<T>(w: World<T>, tid: usize, reply: Reply)
    requires
        w.ledger_ok(),
        w.can_step(tid, reply),
    ensures
        w.step(tid, reply).ledger_ok(),
        !(w.threads[tid].push.stage is Wait || w.threads[tid].push.stage is WakeAll)
            ==> w.mem.in_reach(tid, w.action_of(tid)) && w.threads[tid].push.accepts(reply),
{
    match w.threads[tid].push.stage {
        PushStage::AllocNext | PushStage::AllocFirst => lemma_step_alloc(w, tid, reply),
        PushStage::Discard { .. } | PushStage::DropNext { .. } => lemma_step_free(w, tid, reply),
        PushStage::Install { .. } => {
            if reply->Outcome_0 {
                lemma_step_install(w, tid, reply);
            } else {
                lemma_step_unchanged(w, tid, reply);
            }
        },
        PushStage::Publish { .. } => lemma_step_publish(w, tid, reply),
        PushStage::Claim { .. } => {
            if reply->Outcome_0 {
                lemma_step_claim(w, tid, reply);
            } else {
                lemma_step_unchanged(w, tid, reply);
            }
        },
        PushStage::StoreBlock { .. } => lemma_step_store_block(w, tid, reply),
        PushStage::Link { .. } => lemma_step_link(w, tid, reply),
        PushStage::StorePosition { .. } => lemma_step_store_position(w, tid, reply),
        PushStage::Write { .. } => lemma_step_write(w, tid, reply),
        PushStage::Flag { .. } => lemma_step_flag(w, tid, reply),
        _ => lemma_step_unchanged(w, tid, reply),
    }
}

/// A producer begins.
pub proof fn lemma_start<T>(w: World<T>, tid: usize, item: T)
    requires
        w.ledger_ok(),
        w.can_start(tid),
    ensures
        w.start(tid, item).ledger_ok(),
{
    let post = w.start(tid, item);
    lemma_recall(w, post);
}

/// A producer leaves.
pub proof fn lemma_finish<T>(w: World<T>, tid: usize)
    requires
        w.ledger_ok(),
        w.can_finish(tid),
    ensures
        w.finish(tid).ledger_ok(),
{
    let post = w.finish(tid);
    assert(w.thread_ok(tid));
    lemma_recall(w, post);
}

/// The consumer's block has been used up, so it leads on.
proof fn lemma_used_up_leads_on<T>(w: World<T>)
    requires
        w.ledger_ok(),
        w.mem.consumer_block is Some,
        w.mem.consumer_index == BLOCK_CAP,
    ensures
        w.head + 1 < w.laps.len(),
        w.successor(w.head as int) == Some(w.laps[w.head as int + 1]),
{
    if let Some(tid) = w.linker {
        assert(w.thread_ok(tid));
        assert(w.writer_ok(slots_before(w.threads[tid].seen)));
    }
}

/// Where the consumer stands is in use.
proof fn lemma_consumer_live<T>(w: World<T>)
    requires
        w.ledger_ok(),
        w.mem.consumer_block is Some,
        !(w.pop matches Some(pop) && pop is Advance),
    ensures
        w.live(w.head as int),
        w.lap_ok(w.head as int),
        w.mem.blocks.contains_key(w.laps[w.head as int]),
{
    assert(w.lap_ok(w.head as int));
    assert(w.mem.blocks.dom().contains(w.laps[w.head as int]));
}

/// Moves of the consumer that only look.
proof fn lemma_step_pop_look<T>(w: World<T>)
    requires
        w.ledger_ok(),
        w.can_step_pop(),
        w.pop->0 is LoadConsumer || w.pop->0 is LoadNext || w.pop->0 is LoadFlag,
    ensures
        w.mem.pop_in_reach(w.pop->0.spec_action()),
        w.pop->0.accepts(w.pop_reply()),
        w.pop->0 is LoadNext ==> w.step_pop().pop->0 is Free,
        w.step_pop().ledger_ok(),
{
    let post = w.step_pop();
    if !(w.pop->0 is LoadConsumer) {
        lemma_consumer_live(w);
    }
    if w.pop->0 is LoadNext {
        lemma_used_up_leads_on(w);
    }
    if w.pop->0 is LoadFlag {
        assert(w.slot_ok(w.head as int, w.mem.consumer_index as int));
        assert((w.head as int) * 31 + w.mem.consumer_index == w.taken());
    }
    assert(post.consumer_ok());
    lemma_recall(w, post);
}

/// The consumer gives back a block.
proof fn lemma_step_pop_free<T>(w: World<T>)
    requires
        w.ledger_ok(),
        w.can_step_pop(),
        w.pop->0 is Free,
    ensures
        w.mem.pop_in_reach(w.pop->0.spec_action()),
        w.step_pop().ledger_ok(),
{
    let post = w.step_pop();
    lemma_consumer_live(w);
    assert(post.roles.dom() =~= post.mem.blocks.dom());
    lemma_recall(w, post);
}

/// The consumer goes on to the next block.
proof fn lemma_step_pop_advance<T>(w: World<T>)
    requires
        w.ledger_ok(),
        w.can_step_pop(),
        w.pop->0 is Advance,
    ensures
        w.mem.pop_in_reach(w.pop->0.spec_action()),
        w.step_pop().ledger_ok(),
{
    let post = w.step_pop();
    assert(w.lap_ok(w.head as int + 1));
    assert(w.mem.blocks.dom().contains(w.laps[w.head as int + 1]));
    lemma_recall(w, post);
}

/// The consumer takes an item.
proof fn lemma_step_pop_take<T>(w: World<T>)
    requires
        w.ledger_ok(),
        w.can_step_pop(),
        w.pop->0 is Take,
    ensures
        w.mem.pop_in_reach(w.pop->0.spec_action()),
        w.taken() < w.log.len(),
        w.mem.pop_item(w.pop->0.spec_action()) == Some(w.log[w.taken() as int]),
        w.step_pop().ledger_ok(),
{
    let post = w.step_pop();
    let here = w.head as int;
    let at = w.mem.consumer_index as int;
    lemma_consumer_live(w);
    assert(w.slot_ok(here, at));
    assert(here * 31 + at == w.taken());
    assert(post.mem.blocks.dom() =~= w.mem.blocks.dom());
    assert(post.delivered =~= post.log.take(post.taken() as int));
    lemma_recall(w, post);
}

/// A move of the consumer keeps the books in order, reaches only slots and
/// blocks that exist, and takes the item that has waited longest.
pub proof fn lemma_step_pop<T>(w: World<T>)
    requires
        w.ledger_ok(),
        w.can_step_pop(),
    ensures
        w.mem.pop_in_reach(w.pop->0.spec_action()),
        w.pop->0.accepts(w.pop_reply()),
        w.pop->0 is LoadNext ==> w.step_pop().pop->0 is Free,
        w.pop->0 is Take ==> {
            &&& w.taken() < w.log.len()
            &&& w.mem.pop_item(w.pop->0.spec_action()) == Some(w.log[w.taken() as int])
        },
        w.step_pop().ledger_ok(),
{
    match w.pop->0 {
        Pop::Free { .. } => lemma_step_pop_free(w),
        Pop::Advance { .. } => lemma_step_pop_advance(w),
        Pop::Take { .. } => lemma_step_pop_take(w),
        _ => lemma_step_pop_look(w),
    }
}

/// The consumer begins or leaves.
pub proof fn lemma_pop_ends<T>(w: World<T>, pop: Option<Pop>)
    requires
        w.ledger_ok(),
        w.pop is None || w.pop->0 is Done,
        pop is None || pop->0 is LoadConsumer,
    ensures
        (World { pop, ..w }).ledger_ok(),
{
    let post = World { pop, ..w };
    lemma_recall(w, post);
}

} // verus!
