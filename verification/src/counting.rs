//! What a whole run adds up to.

use vstd::multiset::Multiset;
use vstd::prelude::*;

use crate::conduct::lemma_make;
use crate::ledger;
use crate::vocabulary::Reply;
use crate::waiting;
use crate::world::{Move, World};

verus! {

/// The items of all the pushes that the moves begin.
pub open spec fn started<T>(moves: Seq<Move<T>>) -> Multiset<T>
    decreases moves.len(),
{
    if moves.len() == 0 {
        Multiset::empty()
    } else {
        match moves[0] {
            Move::Start { tid, item } => started(moves.drop_first()).insert(item),
            _ => started(moves.drop_first()),
        }
    }
}

/// The producers that carry `item` and have not claimed a slot for it.
pub open spec fn carriers<T>(w: World<T>, item: T) -> Set<usize> {
    Set::new(
        |tid: usize|
            w.threads.contains_key(tid) && !w.threads[tid].has_claimed() && w.threads[tid].item
                == item,
    )
}

/// One move: an item goes to a producer, or from a producer to a slot.
proof fn lemma_count_move<T>(w: World<T>, made: Move<T>, item: T)
    requires
        w.can_make(made),
        carriers(w, item).finite(),
    ensures
        carriers(w.make(made), item).finite(),
        w.make(made).log.to_multiset().count(item) + carriers(w.make(made), item).len()
            == w.log.to_multiset().count(item) + carriers(w, item).len() + if made is Start
            && made->Start_item == item {
            1nat
        } else {
            0
        },
{
    broadcast use vstd::seq_lib::group_to_multiset_ensures;

    let post = w.make(made);
    let before = carriers(w, item);
    match made {
        Move::Start { tid, item: pushed } => {
            if pushed == item {
                assert(carriers(post, item) =~= before.insert(tid));
            } else {
                assert(carriers(post, item) =~= before);
            }
        },
        Move::Step { tid, reply } => {
            let thread = w.threads[tid];
            if thread.push.stage is Claim && reply->Outcome_0 {
                assert(post.log == w.log.push(thread.item));
                if thread.item == item {
                    assert(carriers(post, item) =~= before.remove(tid));
                    assert(before.contains(tid));
                } else {
                    assert(carriers(post, item) =~= before);
                }
            } else {
                assert(post.log == w.log);
                assert(carriers(post, item) =~= before);
            }
        },
        _ => {
            assert(carriers(post, item) =~= before);
        },
    }
}

/// Moves: no item comes from nowhere, none goes astray.
pub proof fn lemma_count<T>(w: World<T>, moves: Seq<Move<T>>, item: T)
    requires
        w.can_make_all(moves),
        carriers(w, item).finite(),
    ensures
        carriers(w.make_all(moves), item).finite(),
        w.make_all(moves).log.to_multiset().count(item) + carriers(w.make_all(moves), item).len()
            == w.log.to_multiset().count(item) + carriers(w, item).len() + started(moves).count(
            item,
        ),
    decreases moves.len(),
{
    if moves.len() > 0 {
        lemma_count_move(w, moves[0], item);
        lemma_count(w.make(moves[0]), moves.drop_first(), item);
    }
}

/// No two producers have claimed at the same ticket.
pub open spec fn claims_apart<T>(w: World<T>) -> bool {
    forall|a: usize, b: usize|
        #![trigger w.threads.contains_key(a), w.threads.contains_key(b)]
        w.threads.contains_key(a) && w.threads.contains_key(b) && a != b
            && w.threads[a].has_claimed() && w.threads[b].has_claimed() ==> w.threads[a].seen
            != w.threads[b].seen
}

/// A producer that has claimed once it has made a step had claimed before at
/// the same ticket, or has claimed at the ticket that was next.
proof fn lemma_claim_step<T>(w: World<T>, tid: usize, reply: Reply)
    requires
        w.ok(),
        w.can_step(tid, reply),
        w.step(tid, reply).threads[tid].has_claimed(),
    ensures
        ({
            let before = w.threads[tid];
            let after = w.step(tid, reply).threads[tid];
            ||| before.has_claimed() && after.seen == before.seen
            ||| after.seen == w.tail
        }),
{
    assert(w.thread_ok(tid));
}

/// A ticket at which a producer has claimed has gone by.
proof fn lemma_claimed_before_tail<T>(w: World<T>, tid: usize)
    requires
        w.ok(),
        w.threads.contains_key(tid),
        w.threads[tid].has_claimed(),
    ensures
        w.threads[tid].seen < w.tail,
{
    assert(w.thread_ok(tid));
    assert(w.item_ok(tid));
}

/// A move keeps the claims apart.
proof fn lemma_apart_move<T>(w: World<T>, made: Move<T>)
    requires
        w.ok(),
        w.can_make(made),
        claims_apart(w),
    ensures
        claims_apart(w.make(made)),
{
    let post = w.make(made);
    if let Move::Step { tid, reply } = made {
        assert(post.threads.dom() =~= w.threads.dom());
        assert forall|other: usize| other != tid implies #[trigger] post.threads[other]
            == w.threads[other] by {}
        if post.threads[tid].has_claimed() {
            lemma_claim_step(w, tid, reply);
        }
        assert forall|other: usize|
            w.threads.contains_key(other)
                && #[trigger] w.threads[other].has_claimed() implies w.threads[other].seen
            < w.tail by {
            lemma_claimed_before_tail(w, other);
        }
    }
}

/// Moves keep the claims apart.
pub proof fn lemma_apart<T>(w: World<T>, moves: Seq<Move<T>>)
    requires
        w.ok(),
        w.can_make_all(moves),
        claims_apart(w),
    ensures
        claims_apart(w.make_all(moves)),
    decreases moves.len(),
{
    if moves.len() > 0 {
        lemma_make(w, moves[0]);
        lemma_apart_move(w, moves[0]);
        lemma_apart(w.make(moves[0]), moves.drop_first());
    }
}

/// In every world that can come about the claims are apart.
pub proof fn lemma_reachable_apart<T>(w: World<T>)
    requires
        w.reachable(),
    ensures
        claims_apart(w),
{
    let moves = choose|moves: Seq<Move<T>>| #[trigger] World::<T>::initial().leads_to(moves, w);
    ledger::lemma_initial::<T>();
    waiting::lemma_initial::<T>();
    lemma_apart(World::<T>::initial(), moves);
}

} // verus!
