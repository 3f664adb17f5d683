//! The course that an operation takes: what it asks, one request after the
//! other, in terms of the replies that it gets.

use vstd::arithmetic::power2::{lemma2_to64, pow2};
use vstd::prelude::*;

use crate::conduct::{lemma_make_all, lemma_step};
use crate::layout::{BLOCK_CAP, LAP};
use crate::ledger;
use crate::parker::Park;
use crate::pop::{Drain, Pop};
use crate::push::{Push, PushStage};
use crate::spin::{backoff_at, Backoff};
use crate::vocabulary::{Action, ParkerWord, PopAction, Reply};
use crate::waiting;
use crate::waiting::top_of;
use crate::waitlist::{WaitStage, WaitWhile, Wake};
use crate::world::{Move, World};

verus! {

impl Push {
    /// The replies can come one after the other.
    pub open spec fn accepts_all(self, replies: Seq<Reply>) -> bool
        decreases replies.len(),
    {
        replies.len() == 0 || {
            &&& self.accepts_all(replies.drop_last())
            &&& self.after_all(replies.drop_last()).accepts(replies.last())
        }
    }

    /// The push after the replies.
    pub open spec fn after_all(self, replies: Seq<Reply>) -> Push
        decreases replies.len(),
    {
        if replies.len() == 0 {
            self
        } else {
            self.after_all(replies.drop_last()).after(replies.last())
        }
    }
}

/// What a push asks once the replies have come.
pub open spec fn asked(replies: Seq<Reply>) -> Action {
    Push::fresh().after_all(replies).spec_action()
}

/// The reply says that another producer was faster to claim the slot.
pub open spec fn is_lost_claim(action: Action, reply: Reply) -> bool {
    action is ClaimPosition && reply == Reply::Outcome(false)
}

/// The reply says that the producers have no block yet.
pub open spec fn is_lack_of_block(action: Action, reply: Reply) -> bool {
    action is LoadBlock && reply == Reply::Link(None)
}

/// How many claims of a push have failed.
pub open spec fn lost_claims(replies: Seq<Reply>) -> nat
    decreases replies.len(),
{
    if replies.len() == 0 {
        0
    } else {
        lost_claims(replies.drop_last()) + if is_lost_claim(
            asked(replies.drop_last()),
            replies.last(),
        ) {
            1nat
        } else {
            0
        }
    }
}

/// How many blocks a push has made.
pub open spec fn blocks_made(replies: Seq<Reply>) -> nat
    decreases replies.len(),
{
    if replies.len() == 0 {
        0
    } else {
        blocks_made(replies.drop_last()) + if asked(replies.drop_last()) is AllocBlock {
            1nat
        } else {
            0
        }
    }
}

/// How often a push has found that the producers have no block yet.
pub open spec fn lacks_of_block(replies: Seq<Reply>) -> nat
    decreases replies.len(),
{
    if replies.len() == 0 {
        0
    } else {
        lacks_of_block(replies.drop_last()) + if is_lack_of_block(
            asked(replies.drop_last()),
            replies.last(),
        ) {
            1nat
        } else {
            0
        }
    }
}

/// A push has read a position that is the last slot of a block.
pub open spec fn met_last_slot(replies: Seq<Reply>) -> bool {
    exists|i: int|
        0 <= i < replies.len() && (#[trigger] replies[i] matches Reply::Word(position) && position
            % LAP + 1 == BLOCK_CAP)
}

/// The kind of reply that a request gets.
pub open spec fn fits(action: Action, reply: Reply) -> bool {
    match action {
        Action::LoadPosition => reply is Word,
        Action::ClaimPosition { .. } | Action::InstallBlock { .. } | Action::Evaluate => {
            reply is Outcome
        },
        Action::AllocBlock => reply is Handle,
        Action::LoadBlock | Action::LoadTop | Action::SwapTop => reply is Link,
        Action::ReadNext { .. } => reply is Link,
        Action::PushWaiter { .. } => reply is Exchange,
        Action::LoadParker | Action::ArmParker => reply is Parker,
        Action::NotifyParker { .. } => reply is Parker,
        Action::Finish => false,
        _ => reply is Unit,
    }
}

impl Push {
    /// It has claimed its slot.
    pub open spec fn claimed(self) -> bool {
        match self.stage {
            PushStage::StoreBlock { .. }
            | PushStage::Link { .. }
            | PushStage::StorePosition { .. }
            | PushStage::WakeAll { .. }
            | PushStage::Write { .. }
            | PushStage::Flag { .. }
            | PushStage::DropNext { .. }
            | PushStage::Done => true,
            _ => false,
        }
    }

    /// What holds of a push at each stage, whatever the replies.
    spec fn on_course(self) -> bool {
        let last = self.index() + 1 == BLOCK_CAP;
        match self.stage {
            PushStage::Wait { wait } => {
                &&& self.index() == BLOCK_CAP
                &&& !(wait.stage is Done)
                &&& wait.spin.counter == 0
                &&& wait.stage matches WaitStage::WakeAll { wake } ==> !(wake is Done)
                &&& wait.stage matches WaitStage::Sleep { park } ==> !(park is Done)
            },
            PushStage::AllocNext => last && self.next_block is None,
            PushStage::LoadBlock
            | PushStage::AllocFirst
            | PushStage::Install { .. }
            | PushStage::Publish { .. }
            | PushStage::Claim { .. } => {
                &&& self.index() < BLOCK_CAP
                &&& last ==> self.next_block is Some
            },
            PushStage::Backoff { pause } => {
                &&& pause == backoff_at(self.spin.counter as int)
                &&& self.spin.counter > 0
            },
            PushStage::StoreBlock { .. }
            | PushStage::Link { .. }
            | PushStage::StorePosition { .. } => last && self.next_block is None,
            PushStage::WakeAll { block, wake } => {
                &&& last
                &&& self.next_block is None
                &&& !(wake is Done)
            },
            PushStage::Write { .. } | PushStage::Flag { .. } => {
                &&& self.index() < BLOCK_CAP
                &&& last ==> self.next_block is None
            },
            PushStage::DropNext { .. } | PushStage::Done => self.next_block is None,
            _ => true,
        }
    }

    /// It looks at its parker again, having slept.
    spec fn rises(self) -> bool {
        self.stage matches PushStage::Wait { wait } && wait.stage == (WaitStage::Sleep {
            park: Park::Reload,
        })
    }
}

/// Each reply keeps a push on course.
proof fn lemma_on_course(replies: Seq<Reply>)
    requires
        Push::fresh().accepts_all(replies),
    ensures
        ({
            let push = Push::fresh().after_all(replies);
            let before = asked(replies.drop_last());
            &&& push.on_course()
            &&& push.spin.counter == lost_claims(replies)
            &&& replies.len() == 0 ==> push.stage is LoadPosition
            &&& replies.len() > 0 ==> {
                &&& push.stage is Backoff <==> is_lost_claim(before, replies.last())
                &&& push.rises() <==> before is AwaitEvent
            }
        }),
    decreases replies.len(),
{
    if replies.len() > 0 {
        lemma_on_course(replies.drop_last());
    }
}

/// A push makes a block only where it has met the last slot of a block, or a lack
/// of any block.
proof fn lemma_blocks_made(replies: Seq<Reply>)
    requires
        Push::fresh().accepts_all(replies),
    ensures
        ({
            let push = Push::fresh().after_all(replies);
            let first: nat = if push.stage is AllocFirst {
                1
            } else {
                0
            };
            let next: nat = if push.stage is AllocNext {
                1
            } else {
                0
            };
            let met: nat = if met_last_slot(replies) {
                1
            } else {
                0
            };
            &&& blocks_made(replies) + first + next <= lacks_of_block(replies) + met
            &&& push.next_block is None && !push.claimed() && !(push.stage is AllocNext)
                ==> blocks_made(replies) + first <= lacks_of_block(replies)
        }),
    decreases replies.len(),
{
    if replies.len() > 0 {
        let earlier = replies.drop_last();
        lemma_blocks_made(earlier);
        lemma_on_course(earlier);
        if met_last_slot(earlier) {
            let i = choose|i: int|
                0 <= i < earlier.len() && (#[trigger] earlier[i] matches Reply::Word(position)
                    && position % LAP + 1 == BLOCK_CAP);
            assert(replies[i] == earlier[i]);
        }
        let push = Push::fresh().after_all(earlier);
        if push.stage is LoadPosition {
            assert(replies[replies.len() - 1] == replies.last());
        }
    }
}

/// A push pauses only to answer a claim that failed, and then always. It begins by
/// reading the position.
pub proof fn law_pause_follows_lost_claim(replies: Seq<Reply>)
    requires
        Push::fresh().accepts_all(replies),
    ensures
        replies.len() == 0 ==> asked(replies) is LoadPosition,
        replies.len() > 0 ==> (asked(replies) is Pause <==> is_lost_claim(
            asked(replies.drop_last()),
            replies.last(),
        )),
{
    lemma_on_course(replies);
}

/// The pauses of a push are short: after the first, second and third claim that
/// failed it spins, twice as long each time, and after every later one it yields
/// the thread.
pub proof fn law_pauses_double_then_yield(replies: Seq<Reply>)
    requires
        Push::fresh().accepts_all(replies),
        asked(replies) is Pause,
    ensures
        lost_claims(replies) >= 1,
        lost_claims(replies) <= 3 ==> asked(replies) == (Action::Pause {
            pause: Backoff::Spin(pow2(lost_claims(replies)) as usize),
        }),
        lost_claims(replies) > 3 ==> asked(replies) == (Action::Pause {
            pause: Backoff::YieldThread,
        }),
        asked(replies) matches Action::Pause { pause: Backoff::Spin(times) } ==> times <= 8,
{
    lemma_on_course(replies);
    lemma2_to64();
}

/// A push counts its claims that failed, and nothing else: another one is refused
/// only where the count would not fit, and a claim that succeeds never.
pub proof fn law_push_counts_lost_claims(replies: Seq<Reply>)
    requires
        Push::fresh().accepts_all(replies),
    ensures
        Push::fresh().after_all(replies).spin.counter == lost_claims(replies),
        asked(replies) is ClaimPosition ==> {
            let push = Push::fresh().after_all(replies);
            &&& push.accepts(Reply::Outcome(true))
            &&& push.accepts(Reply::Outcome(false)) <==> lost_claims(replies) < usize::MAX
        },
{
    lemma_on_course(replies);
}

/// A push carries on from every reply of the kind that its request calls for, but
/// for marks of a parker that cannot be there: one that it is to leave itself, one
/// of another sleeper, none after it was woken. And but for a failed claim that it
/// cannot count.
pub proof fn law_push_accepts_what_fits(replies: Seq<Reply>, reply: Reply)
    requires
        Push::fresh().accepts_all(replies),
    ensures
        Push::fresh().after_all(replies).accepts(reply) <==> {
            let action = asked(replies);
            &&& fits(action, reply)
            &&& is_lost_claim(action, reply) ==> lost_claims(replies) < usize::MAX
            &&& action is NotifyParker ==> !(reply->Parker_0 is Notified)
            &&& action is ArmParker ==> !(reply->Parker_0 is Armed)
            &&& replies.len() > 0 && asked(replies.drop_last()) is AwaitEvent
                ==> reply->Parker_0 is Notified
        },
{
    lemma_on_course(replies);
}

/// A push makes at most one block as a successor, and that only if it has met the
/// last slot of a block; and one block for each time that it found no block at all.
pub proof fn law_push_makes_no_spare_blocks(replies: Seq<Reply>)
    requires
        Push::fresh().accepts_all(replies),
    ensures
        blocks_made(replies) <= lacks_of_block(replies) + if met_last_slot(replies) {
            1nat
        } else {
            0
        },
{
    lemma_blocks_made(replies);
}

/// The replies that a producer has had since it began its push.
pub open spec fn said<T>(moves: Seq<Move<T>>, tid: usize) -> Seq<Reply>
    decreases moves.len(),
{
    if moves.len() == 0 {
        Seq::empty()
    } else {
        let before = said(moves.drop_last(), tid);
        match moves.last() {
            Move::Start { tid: mover, .. } => if mover == tid {
                Seq::empty()
            } else {
                before
            },
            Move::Step { tid: mover, reply } => if mover == tid {
                before.push(reply)
            } else {
                before
            },
            _ => before,
        }
    }
}

/// The last of a run of moves.
proof fn lemma_last_move<T>(w: World<T>, moves: Seq<Move<T>>)
    requires
        moves.len() > 0,
        w.can_make_all(moves),
    ensures
        w.can_make_all(moves.drop_last()),
        w.make_all(moves.drop_last()).can_make(moves.last()),
        w.make_all(moves) == w.make_all(moves.drop_last()).make(moves.last()),
    decreases moves.len(),
{
    if moves.len() == 1 {
        assert(moves.drop_first() =~= Seq::empty());
        assert(moves.drop_last() =~= Seq::empty());
        assert(w.make(moves[0]).make_all(Seq::empty()) == w.make(moves[0]));
    } else {
        lemma_last_move(w.make(moves[0]), moves.drop_first());
        assert(moves.drop_first().drop_last() =~= moves.drop_last().drop_first());
    }
}

/// Every producer is where the replies that it has had since it began lead, and
/// each of them was one that it could carry on from.
pub proof fn law_producers_keep_to_the_course<T>(moves: Seq<Move<T>>, w: World<T>, tid: usize)
    requires
        World::<T>::initial().leads_to(moves, w),
        w.threads.contains_key(tid),
    ensures
        Push::fresh().accepts_all(said(moves, tid)),
        w.threads[tid].push == Push::fresh().after_all(said(moves, tid)),
    decreases moves.len(),
{
    let start = World::<T>::initial();
    if moves.len() > 0 {
        let earlier = moves.drop_last();
        let before = start.make_all(earlier);
        lemma_last_move(start, moves);
        ledger::lemma_initial::<T>();
        waiting::lemma_initial::<T>();
        lemma_make_all(start, earlier);
        if before.threads.contains_key(tid) {
            law_producers_keep_to_the_course(earlier, before, tid);
        }
        match moves.last() {
            Move::Step { tid: mover, reply } => {
                lemma_step(before, mover, reply);
                if mover == tid {
                    let replies = said(moves, tid);
                    assert(replies.drop_last() =~= said(earlier, tid));
                }
            },
            _ => {},
        }
    }
}

/// In every world that can come about, a producer has backed off once for each of
/// its claims that has failed: while it pauses it spins two, four or eight times
/// for the first three, and yields the thread for every later one; and no other
/// producer pauses.
pub proof fn law_producers_back_off_for_lost_claims<T>(
    moves: Seq<Move<T>>,
    w: World<T>,
    tid: usize,
)
    requires
        World::<T>::initial().leads_to(moves, w),
        w.threads.contains_key(tid),
    ensures
        ({
            let lost = lost_claims(said(moves, tid));
            &&& w.threads[tid].push.spin.counter == lost
            &&& w.action_of(tid) matches Action::Pause { pause } ==> {
                &&& lost >= 1
                &&& pause == if lost <= 3 {
                    Backoff::Spin(pow2(lost) as usize)
                } else {
                    Backoff::YieldThread
                }
                &&& pause matches Backoff::Spin(times) ==> times <= 8
            }
        }),
{
    law_producers_keep_to_the_course(moves, w, tid);
    law_push_counts_lost_claims(said(moves, tid));
    if w.action_of(tid) is Pause {
        law_pauses_double_then_yield(said(moves, tid));
    }
}

/// In every world that can come about, a producer that fails to claim a slot
/// carries on, unless more of its claims have failed than a word can count.
pub proof fn law_lost_claims_are_no_obstacle<T>(moves: Seq<Move<T>>, w: World<T>, tid: usize)
    requires
        World::<T>::initial().leads_to(moves, w),
        w.threads.contains_key(tid),
        w.action_of(tid) is ClaimPosition,
        lost_claims(said(moves, tid)) < usize::MAX,
    ensures
        w.can_step(tid, Reply::Outcome(false)),
        w.threads[tid].push.accepts(Reply::Outcome(false)),
        w.step(tid, Reply::Outcome(false)).action_of(tid) is Pause,
        ({
            let paused = w.step(tid, Reply::Outcome(false));
            paused.can_step(tid, Reply::Unit) && paused.step(tid, Reply::Unit).action_of(tid)
                is LoadPosition
        }),
{
    law_producers_keep_to_the_course(moves, w, tid);
    law_push_counts_lost_claims(said(moves, tid));
    lemma_on_course(said(moves, tid));
}

/// What a push asks from reading the position to claiming a slot. `successor` is
/// the handle of a block that it makes as the successor, `first` of one that it
/// makes because there is none. At the end of a block it begins to wait; at the
/// last slot it makes a successor unless it has one; then it asks which block to
/// fill. If there is none it offers one of its own; if that is turned down it gives
/// it back and reads the position again, and is otherwise as it was.
pub proof fn law_push_goes_for_a_slot(
    push: Push,
    position: usize,
    successor: usize,
    block: usize,
    first: usize,
)
    requires
        push.stage is LoadPosition,
    ensures
        ({
            let read = push.after(Reply::Word(position));
            let makes = position % LAP + 1 == BLOCK_CAP && push.next_block is None;
            let ready = if makes {
                read.after(Reply::Handle(successor))
            } else {
                read
            };
            let claim = Action::ClaimPosition {
                current: position,
                new: position.wrapping_add(1),
            };
            let bare = ready.after(Reply::Link(None));
            let offering = bare.after(Reply::Handle(first));
            let installed = offering.after(Reply::Outcome(true));
            let refused = offering.after(Reply::Outcome(false));
            &&& push.spec_action() is LoadPosition
            &&& position % LAP == BLOCK_CAP ==> {
                &&& read.spec_action() is LoadTop
                &&& read.spin == push.spin && read.next_block == push.next_block
            }
            &&& position % LAP != BLOCK_CAP ==> {
                &&& makes ==> read.spec_action() is AllocBlock
                &&& ready.next_block == if makes {
                    Some(successor)
                } else {
                    push.next_block
                }
                &&& ready.spec_action() is LoadBlock
                &&& ready.after(Reply::Link(Some(block))).spec_action() == claim
                &&& ready.after(Reply::Link(Some(block))).aim() == Some(block)
                &&& ready.after(Reply::Link(Some(block))).next_block == ready.next_block
                &&& bare.spec_action() is AllocBlock
                &&& offering.spec_action() == (Action::InstallBlock { new: first })
                &&& installed.spec_action() == (Action::PublishBlock { block: first })
                &&& installed.after(Reply::Unit).spec_action() == claim
                &&& installed.after(Reply::Unit).aim() == Some(first)
                &&& installed.after(Reply::Unit).next_block == ready.next_block
                &&& refused.spec_action() == (Action::FreeBlock { block: first })
                &&& refused.after(Reply::Unit).spec_action() is LoadPosition
                &&& refused.after(Reply::Unit).spin == push.spin
                &&& refused.after(Reply::Unit).next_block == ready.next_block
                &&& refused.after(Reply::Unit).stage == push.stage
            }
        }),
{
}

impl Push {
    /// The block in which it is about to claim a slot.
    pub open spec fn aim(self) -> Option<usize> {
        match self.stage {
            PushStage::Claim { block } => Some(block),
            _ => None,
        }
    }
}

/// What a push asks once it has tried to claim a slot. If it fails it pauses and
/// reads the position again, with one more to its count. If it succeeds, and the
/// slot is not the last of its block, it writes its item, marks the slot, and gives
/// back a successor that it has; that is all.
pub proof fn law_push_fills_its_slot(push: Push, block: usize)
    requires
        push.aim() == Some(block),
        push.spin.counter < usize::MAX,
    ensures
        ({
            let index = push.position % LAP;
            let lost = push.after(Reply::Outcome(false));
            let again = lost.after(Reply::Unit);
            let won = push.after(Reply::Outcome(true));
            let marking = won.after(Reply::Unit);
            let filled = marking.after(Reply::Unit);
            &&& lost.spec_action() is Pause
            &&& again.spec_action() is LoadPosition
            &&& again.stage is LoadPosition
            &&& again.spin.counter == push.spin.counter + 1
            &&& again.next_block == push.next_block
            &&& index + 1 != BLOCK_CAP ==> {
                &&& won.spec_action() == (Action::WriteValue { block, index })
                &&& marking.spec_action() == (Action::StoreFlag { block, index })
                &&& match push.next_block {
                    Some(unused) => {
                        &&& filled.spec_action() == (Action::FreeBlock { block: unused })
                        &&& filled.after(Reply::Unit).spec_action() is Finish
                    },
                    None => filled.spec_action() is Finish,
                }
            }
        }),
{
}

/// What those on a wait list, from the top down, and their parkers reply to
/// whoever wakes them: who comes next, what mark was there, and, where there was
/// an event, that it is set.
pub open spec fn wake_replies(list: Seq<usize>, words: Seq<ParkerWord>) -> Seq<Reply>
    decreases list.len(),
{
    if list.len() == 0 {
        Seq::empty()
    } else {
        let rest = wake_replies(list.drop_first(), words.drop_first());
        if words[0] is Armed {
            seq![Reply::Link(top_of(list.drop_first())), Reply::Parker(words[0]), Reply::Unit]
                + rest
        } else {
            seq![Reply::Link(top_of(list.drop_first())), Reply::Parker(words[0])] + rest
        }
    }
}

/// What whoever wakes those on a wait list asks, from the top down: who comes next,
/// then to leave word, and to set the event where there is one.
pub open spec fn wake_requests(list: Seq<usize>, words: Seq<ParkerWord>) -> Seq<Action>
    decreases list.len(),
{
    if list.len() == 0 {
        Seq::empty()
    } else {
        let waiter = list[0];
        let rest = wake_requests(list.drop_first(), words.drop_first());
        if words[0] is Armed {
            seq![
                Action::ReadNext { waiter },
                Action::NotifyParker { waiter },
                Action::SetEvent { waiter },
            ] + rest
        } else {
            seq![Action::ReadNext { waiter }, Action::NotifyParker { waiter }] + rest
        }
    }
}

/// What a push asks to get these replies, and where it is after them.
pub open spec fn push_run(push: Push, replies: Seq<Reply>) -> (Seq<Action>, Push)
    decreases replies.len(),
{
    if replies.len() == 0 {
        (Seq::empty(), push)
    } else {
        let rest = push_run(push.after(replies[0]), replies.drop_first());
        (seq![push.spec_action()] + rest.0, rest.1)
    }
}

/// What a wait asks to get these replies, and where it is after them.
pub open spec fn wait_run(wait: WaitWhile, replies: Seq<Reply>) -> (Seq<Action>, WaitWhile)
    decreases replies.len(),
{
    if replies.len() == 0 {
        (Seq::empty(), wait)
    } else {
        let rest = wait_run(wait.after(replies[0]), replies.drop_first());
        (seq![wait.spec_action()] + rest.0, rest.1)
    }
}

/// What whoever wakes others asks to get these replies, and where it is after them.
pub open spec fn wake_run(wake: Wake, replies: Seq<Reply>) -> (Seq<Action>, Wake)
    decreases replies.len(),
{
    if replies.len() == 0 {
        (Seq::empty(), wake)
    } else {
        let rest = wake_run(wake.after(replies[0]), replies.drop_first());
        (seq![wake.spec_action()] + rest.0, rest.1)
    }
}

/// Waking goes down the list: it takes the list, and then turns to each of those on
/// it, whatever marks they have left, until nobody is left.
pub proof fn law_wake_goes_down_the_list(list: Seq<usize>, words: Seq<ParkerWord>)
    requires
        words.len() == list.len(),
    ensures
        Wake::Swap.spec_action() is SwapTop,
        ({
            let (requests, end) = wake_run(
                Wake::Swap.after(Reply::Link(top_of(list))),
                wake_replies(list, words),
            );
            requests == wake_requests(list, words) && end.spec_action() is Finish
        }),
{
    lemma_wake_run(list, words);
}

proof fn lemma_wake_run(list: Seq<usize>, words: Seq<ParkerWord>)
    requires
        words.len() == list.len(),
    ensures
        wake_run(Wake::at(top_of(list)), wake_replies(list, words)) == (
            wake_requests(list, words),
            Wake::Done,
        ),
    decreases list.len(),
{
    reveal_with_fuel(wake_run, 4);
    if list.len() > 0 {
        let replies = wake_replies(list, words);
        let rest = wake_replies(list.drop_first(), words.drop_first());
        lemma_wake_run(list.drop_first(), words.drop_first());
        if words[0] is Armed {
            assert(replies.drop_first().drop_first().drop_first() =~= rest);
        } else {
            assert(replies.drop_first().drop_first() =~= rest);
        }
        assert(wake_run(Wake::at(top_of(list)), replies).0 =~= wake_requests(list, words));
    }
}

/// A push that has taken the list wakes those on it and then goes on.
proof fn lemma_push_run(push: Push, block: usize, list: Seq<usize>, words: Seq<ParkerWord>)
    requires
        words.len() == list.len(),
        push.stage == (match Wake::at(top_of(list)) {
            Wake::Done => PushStage::Write { block },
            wake => PushStage::WakeAll { block, wake },
        }),
    ensures
        push_run(push, wake_replies(list, words)) == (
            wake_requests(list, words),
            push.moved(PushStage::Write { block }),
        ),
    decreases list.len(),
{
    reveal_with_fuel(push_run, 4);
    if list.len() > 0 {
        let replies = wake_replies(list, words);
        let rest = wake_replies(list.drop_first(), words.drop_first());
        let next = push.moved(
            match Wake::at(top_of(list.drop_first())) {
                Wake::Done => PushStage::Write { block },
                wake => PushStage::WakeAll { block, wake },
            },
        );
        lemma_push_run(next, block, list.drop_first(), words.drop_first());
        if words[0] is Armed {
            assert(replies.drop_first().drop_first().drop_first() =~= rest);
        } else {
            assert(replies.drop_first().drop_first() =~= rest);
        }
        assert(push_run(push, replies).0 =~= wake_requests(list, words));
    }
}

/// A wait that has taken the list wakes those on it and then turns to its parker.
proof fn lemma_wait_run(wait: WaitWhile, list: Seq<usize>, words: Seq<ParkerWord>)
    requires
        words.len() == list.len(),
        wait.stage == (match Wake::at(top_of(list)) {
            Wake::Done => WaitStage::Sleep { park: Park::Load },
            wake => WaitStage::WakeAll { wake },
        }),
    ensures
        wait_run(wait, wake_replies(list, words)) == (
            wake_requests(list, words),
            wait.moved(WaitStage::Sleep { park: Park::Load }),
        ),
    decreases list.len(),
{
    reveal_with_fuel(wait_run, 4);
    if list.len() > 0 {
        let replies = wake_replies(list, words);
        let rest = wake_replies(list.drop_first(), words.drop_first());
        let next = wait.moved(
            match Wake::at(top_of(list.drop_first())) {
                Wake::Done => WaitStage::Sleep { park: Park::Load },
                wake => WaitStage::WakeAll { wake },
            },
        );
        lemma_wait_run(next, list.drop_first(), words.drop_first());
        if words[0] is Armed {
            assert(replies.drop_first().drop_first().drop_first() =~= rest);
        } else {
            assert(replies.drop_first().drop_first() =~= rest);
        }
        assert(wait_run(wait, replies).0 =~= wake_requests(list, words));
    }
}

/// What a push asks once it has claimed the last slot of a block: it lets the
/// producers go on to the successor, then the consumer, then opens the first slot
/// there, and then takes the wait list and wakes everyone on it. Only then it
/// writes its item and marks the slot, and that is all.
pub proof fn law_push_links_the_next_block(
    push: Push,
    block: usize,
    next: usize,
    list: Seq<usize>,
    words: Seq<ParkerWord>,
)
    requires
        push.aim() == Some(block),
        push.position % LAP + 1 == BLOCK_CAP,
        push.next_block == Some(next),
        words.len() == list.len(),
    ensures
        ({
            let index = push.position % LAP;
            let won = push.after(Reply::Outcome(true));
            let linking = won.after(Reply::Unit);
            let opening = linking.after(Reply::Unit);
            let waking = opening.after(Reply::Unit);
            let (requests, woken) = push_run(
                waking.after(Reply::Link(top_of(list))),
                wake_replies(list, words),
            );
            let marking = woken.after(Reply::Unit);
            &&& won.spec_action() == (Action::StoreBlock { block: next })
            &&& linking.spec_action() == (Action::LinkBlock { block, next })
            &&& opening.spec_action() == (Action::StorePosition {
                position: push.position.wrapping_add(1).wrapping_add(1),
            })
            &&& waking.spec_action() is SwapTop
            &&& requests == wake_requests(list, words)
            &&& woken.spec_action() == (Action::WriteValue { block, index })
            &&& marking.spec_action() == (Action::StoreFlag { block, index })
            &&& marking.after(Reply::Unit).spec_action() is Finish
        }),
{
    let waking = push.after(Reply::Outcome(true)).after(Reply::Unit).after(Reply::Unit).after(
        Reply::Unit,
    );
    lemma_push_run(waking.after(Reply::Link(top_of(list))), block, list, words);
}

/// While a push waits it asks what the wait asks, but that it reads the position
/// where the wait wants to know whether there is still something to wait for; there
/// is as long as the position is the one that it read before. When the wait is over,
/// and only then, it reads the position again, at once. Nothing else of the push
/// changes.
pub proof fn law_push_waits_while_the_position_stays(push: Push, wait: WaitWhile, reply: Reply)
    requires
        push.stage == (PushStage::Wait { wait }),
        push.accepts(reply),
    ensures
        ({
            let checks = wait.spec_action() is Evaluate;
            let told = if checks {
                Reply::Outcome(reply == Reply::Word(push.position))
            } else {
                reply
            };
            let next = push.after(reply);
            &&& push.spec_action() == if checks {
                Action::LoadPosition
            } else {
                wait.spec_action()
            }
            &&& checks ==> reply is Word
            &&& wait.accepts(told)
            &&& if wait.after(told).spec_action() is Finish {
                &&& next.stage is LoadPosition
                &&& next.spec_action() is LoadPosition
            } else {
                next.stage == (PushStage::Wait { wait: wait.after(told) })
            }
            &&& next.spin == push.spin
            &&& next.next_block == push.next_block
            &&& next.position == push.position
        }),
{
}

/// What a wait asks in one round. It reads the top of the list, and asks whether
/// there is something to wait for; if not, it is over. Else it gets on the list, on
/// top of what it saw there. If it fails, it is as if it had just read the top. On
/// the list it asks again; if there is nothing to wait for any more, it wakes
/// everyone on the list. Either way it then turns to its parker.
pub proof fn law_wait_gets_on_the_list(
    wait: WaitWhile,
    top: Option<usize>,
    current: Option<usize>,
    list: Seq<usize>,
    words: Seq<ParkerWord>,
)
    requires
        wait.stage is LoadTop,
        words.len() == list.len(),
    ensures
        ({
            let checking = wait.after(Reply::Link(top));
            let enlisting = checking.after(Reply::Outcome(true));
            let enlisted = enlisting.after(Reply::Exchange { ok: true, current });
            let waking = enlisted.after(Reply::Outcome(false));
            let (requests, woken) = wait_run(
                waking.after(Reply::Link(top_of(list))),
                wake_replies(list, words),
            );
            &&& wait.spec_action() is LoadTop
            &&& checking.spec_action() is Evaluate
            &&& checking.after(Reply::Outcome(false)).spec_action() is Finish
            &&& enlisting.spec_action() == (Action::PushWaiter { top })
            &&& enlisting.after(Reply::Exchange { ok: false, current }) == wait.after(
                Reply::Link(current),
            )
            &&& enlisted.spec_action() is Evaluate
            &&& enlisted.after(Reply::Outcome(true)).spec_action() is LoadParker
            &&& waking.spec_action() is SwapTop
            &&& requests == wake_requests(list, words)
            &&& woken == enlisted.after(Reply::Outcome(true))
            &&& woken.stage == (WaitStage::Sleep { park: Park::Load })
            &&& woken.spin == wait.spin
        }),
{
    let waking = wait.after(Reply::Link(top)).after(Reply::Outcome(true)).after(
        Reply::Exchange { ok: true, current },
    ).after(Reply::Outcome(false));
    lemma_wait_run(waking.after(Reply::Link(top_of(list))), list, words);
}

/// What a wait asks from its parker. If its waker has been there, it empties the
/// parker; else it leaves an event there and sleeps on it, unless the waker comes
/// first; once awake it finds the waker's mark and empties the parker. Then the next
/// round begins, and the wait is as it was before the first.
pub proof fn law_wait_sleeps_until_woken(wait: WaitWhile)
    requires
        wait.stage == (WaitStage::Sleep { park: Park::Load }),
    ensures
        ({
            let notified = Reply::Parker(ParkerWord::Notified);
            let empty = Reply::Parker(ParkerWord::Empty);
            let resetting = wait.after(notified);
            let arming = wait.after(empty);
            let sleeping = arming.after(empty);
            let awake = sleeping.after(Reply::Unit);
            let round = resetting.after(Reply::Unit);
            &&& wait.spec_action() is LoadParker
            &&& resetting.spec_action() is ResetParker
            &&& arming.spec_action() is ArmParker
            &&& arming.after(notified) == resetting
            &&& sleeping.spec_action() is AwaitEvent
            &&& awake.spec_action() is LoadParker
            &&& awake.after(notified) == resetting
            &&& round.stage is LoadTop
            &&& round.spec_action() is LoadTop
            &&& round.spin == wait.spin
        }),
{
}

/// What a pop asks. Without a block it has nothing to take. From a block that is
/// used up it goes on to the next, if there is one, and gives the block back. Then
/// it looks at the slot it has come to, and takes the item there if the slot is
/// marked as filled.
pub proof fn law_pop_takes_what_is_there(block: usize, index: usize, next: usize)
    ensures
        ({
            let nothing = Pop::Done { taken: false };
            let used_up = Pop::LoadConsumer.after(
                Reply::Consumer { block: Some(block), index: BLOCK_CAP },
            );
            let freeing = used_up.after(Reply::Link(Some(next)));
            let advancing = freeing.after(Reply::Unit);
            let looking = Pop::LoadConsumer.after(Reply::Consumer { block: Some(block), index });
            let taking = looking.after(Reply::Outcome(true));
            &&& Pop::LoadConsumer.spec_action() is LoadConsumer
            &&& Pop::LoadConsumer.after(Reply::Consumer { block: None, index }) == nothing
            &&& used_up.spec_action() == (PopAction::LoadNext { block })
            &&& used_up.after(Reply::Link(None)) == nothing
            &&& freeing.spec_action() == (PopAction::FreeBlock { block })
            &&& advancing.spec_action() == (PopAction::Advance { block: next })
            &&& advancing.after(Reply::Unit) == Pop::LoadConsumer.after(
                Reply::Consumer { block: Some(next), index: 0 },
            )
            &&& index != BLOCK_CAP ==> {
                &&& looking.spec_action() == (PopAction::LoadFlag { block, index })
                &&& looking.after(Reply::Outcome(false)) == nothing
                &&& taking.spec_action() == (PopAction::Take { block, index })
                &&& taking.after(Reply::Unit) == (Pop::Done { taken: true })
            }
            &&& nothing.spec_action() is Finish
        }),
{
}

/// Taking down asks what a pop asks, again and again, until one comes away with
/// nothing; then it gives back the block that is left, if there is one.
pub proof fn law_drain_pops_until_nothing_comes(pop: Pop, reply: Reply, block: usize, index: usize)
    requires
        pop.accepts(reply),
    ensures
        ({
            let next = Drain::Popping { pop }.after(reply);
            let last = Drain::LoadLast.after(Reply::Consumer { block: Some(block), index });
            &&& Drain::Popping { pop }.spec_action() == pop.spec_action()
            &&& Drain::Popping { pop }.accepts(reply)
            &&& next == match pop.after(reply) {
                Pop::Done { taken: true } => Drain::Popping { pop: Pop::LoadConsumer },
                Pop::Done { taken: false } => Drain::LoadLast,
                going => Drain::Popping { pop: going },
            }
            &&& Drain::LoadLast.spec_action() is LoadConsumer
            &&& Drain::LoadLast.after(Reply::Consumer { block: None, index }) is Done
            &&& last.spec_action() == (PopAction::FreeBlock { block })
            &&& last.after(Reply::Unit) is Done
            &&& Drain::Done.spec_action() is Finish
        }),
{
}

/// The kind of reply that a request of the consumer gets.
pub open spec fn fits_pop(action: PopAction, reply: Reply) -> bool {
    match action {
        PopAction::LoadConsumer => reply is Consumer,
        PopAction::LoadNext { .. } => reply is Link,
        PopAction::LoadFlag { .. } => reply is Outcome,
        PopAction::Finish => false,
        _ => reply is Unit,
    }
}

/// A pop, and taking down, carry on from exactly the replies of the kind that the
/// request calls for.
pub proof fn law_consumer_accepts_what_fits(pop: Pop, drain: Drain, reply: Reply)
    requires
        drain matches Drain::Popping { pop } ==> !(pop is Done),
    ensures
        pop.accepts(reply) <==> fits_pop(pop.spec_action(), reply),
        drain.accepts(reply) <==> fits_pop(drain.spec_action(), reply),
{
}

/// A wait, and whoever wakes, carry on from exactly the replies of the kind that the
/// request calls for, but for marks of a parker that cannot be there.
pub proof fn law_waiting_accepts_what_fits(wait: WaitWhile, wake: Wake, park: Park, reply: Reply)
    requires
        wait.stage matches WaitStage::WakeAll { wake } ==> !(wake is Done),
        wait.stage matches WaitStage::Sleep { park } ==> !(park is Done),
    ensures
        wake.accepts(reply) <==> fits(wake.spec_action(), reply) && (wake.spec_action()
            is NotifyParker ==> !(reply->Parker_0 is Notified)),
        park.accepts(reply) <==> fits(park.spec_action(), reply) && (park is Arm ==> !(
        reply->Parker_0 is Armed)) && (park is Reload ==> reply->Parker_0 is Notified),
        match wait.stage {
            WaitStage::WakeAll { wake } => wait.accepts(reply) == wake.accepts(reply)
                && wait.spec_action() == wake.spec_action(),
            WaitStage::Sleep { park } => wait.accepts(reply) == park.accepts(reply)
                && wait.spec_action() == park.spec_action(),
            _ => wait.accepts(reply) <==> fits(wait.spec_action(), reply),
        },
{
}

} // verus!
