//! What holds, in every interleaving, of the producers that wait and of those
//! that are to wake them.

use vstd::prelude::*;

use crate::parker::{Event, Park};
use crate::vocabulary::ParkerWord;
use crate::waitlist::{WaitStage, Wake};
use crate::world::{Place, Thread, World};

verus! {

/// The first of a list.
pub open spec fn top_of(list: Seq<usize>) -> Option<usize> {
    if list.len() == 0 {
        None
    } else {
        Some(list[0])
    }
}

impl<T> Thread<T> {
    /// It has got on the wait list and does not sleep on its event.
    pub open spec fn enlisted(self) -> bool {
        match self.wait() {
            Some(WaitStage::Recheck) => true,
            Some(WaitStage::WakeAll { wake }) => true,
            Some(WaitStage::Sleep { park }) => park is Load || park is Arm,
            _ => false,
        }
    }

    /// It sleeps on its event.
    pub open spec fn asleep(self) -> bool {
        self.sleep() == Some(Park::Await)
    }

    /// It knows that it was woken.
    pub open spec fn rising(self) -> bool {
        self.sleep() == Some(Park::Reload) || self.sleep() == Some(Park::Reset)
    }

    /// It is neither on the wait list nor about to wake anyone.
    pub open spec fn apart(self) -> bool {
        &&& !self.enlisted()
        &&& !self.asleep()
        &&& !self.rising()
        &&& self.wake() is None
        &&& self.sleep() is None
    }
}

impl<T> World<T> {
    /// The parker of a producer tells it whether it was woken.
    pub open spec fn parker_ok(self, tid: usize) -> bool {
        let thread = self.threads[tid];
        let parker = self.mem.waiters[tid].parker;
        let held = self.held.contains_key(tid);
        let called = self.setters.contains_key(tid);
        if thread.enlisted() {
            &&& !called
            &&& parker.word == if held {
                ParkerWord::Empty
            } else {
                ParkerWord::Notified
            }
        } else if thread.asleep() {
            if held {
                &&& !called
                &&& parker.word is Armed
                &&& parker.event == (Event { thread: Some(tid), is_set: false })
            } else {
                &&& parker.word is Notified
                &&& parker.event == if called {
                    Event { thread: Some(tid), is_set: false }
                } else {
                    Event { thread: None, is_set: true }
                }
            }
        } else if thread.rising() {
            &&& !held
            &&& !called
            &&& parker.word is Notified
        } else {
            &&& !held
            &&& !called
            &&& parker.word is Empty
            &&& thread.sleep() is None
        }
    }

    /// A producer that wakes others turns to them in order.
    pub open spec fn wake_ok(self, tid: usize) -> bool {
        let charges = self.threads[tid].charges;
        match self.threads[tid].wake() {
            None => charges.len() == 0,
            Some(Wake::Swap) => charges.len() == 0,
            Some(Wake::ReadNext { waiter }) => top_of(charges) == Some(waiter),
            Some(Wake::Notify { waiter, next }) => {
                &&& top_of(charges) == Some(waiter)
                &&& next == top_of(charges.drop_first())
            },
            Some(Wake::SetEvent { waiter, next }) => {
                &&& next == top_of(charges)
                &&& self.setters.contains_key(waiter)
                &&& self.setters[waiter] == tid
            },
            Some(Wake::Done) => false,
        }
    }

    /// The `i`-th of a list that `waker` is to wake leads to the one after it.
    pub open spec fn link_ok(self, list: Seq<usize>, waker: Option<usize>, i: int) -> bool {
        &&& self.held.contains_key(list[i])
        &&& self.held[list[i]] == (Place { waker, depth: (list.len() - 1 - i) as nat })
        &&& self.mem.waiters[list[i]].next == if i + 1 < list.len() {
            Some(list[i + 1])
        } else {
            None
        }
    }

    /// A list that `waker` is to wake hangs together.
    pub open spec fn list_ok(self, list: Seq<usize>, waker: Option<usize>) -> bool {
        forall|i: int| 0 <= i < list.len() ==> #[trigger] self.link_ok(list, waker, i)
    }

    /// A waiter that waits to be woken is where it is said to be.
    pub open spec fn place_ok(self, waiter: usize) -> bool {
        let place = self.held[waiter];
        &&& self.threads.contains_key(waiter)
        &&& match place.waker {
            None => {
                &&& place.depth < self.list.len()
                &&& self.list[self.list.len() - 1 - place.depth] == waiter
            },
            Some(tid) => {
                let charges = self.threads[tid].charges;
                &&& self.threads.contains_key(tid)
                &&& place.depth < charges.len()
                &&& charges[charges.len() - 1 - place.depth] == waiter
            },
        }
    }

    /// A sleeper that was left word has a producer about to set its event.
    pub open spec fn setter_ok(self, waiter: usize) -> bool {
        let tid = self.setters[waiter];
        &&& self.threads.contains_key(waiter)
        &&& self.threads.contains_key(tid)
        &&& self.threads[tid].wake() matches Some(Wake::SetEvent { waiter: called, .. }) && called
            == waiter
    }

    /// The producer is about to take the whole wait list.
    pub open spec fn about_to_take(self, tid: usize) -> bool {
        self.threads.contains_key(tid) && self.threads[tid].wake() == Some(Wake::Swap)
    }

    /// Somebody will take the wait list.
    pub open spec fn will_be_taken(self) -> bool {
        exists|tid: usize| self.about_to_take(tid)
    }

    /// The `i`-th on the wait list still waits for the position that it read,
    /// or is about to find that the position has moved, or somebody will take
    /// the list.
    pub open spec fn due_ok(self, i: int) -> bool {
        let thread = self.threads[self.list[i]];
        ||| thread.seen == self.tail
        ||| thread.wait() == Some(WaitStage::Recheck)
        ||| self.will_be_taken()
    }

    /// The waiters are in order.
    pub open spec fn waiting_ok(self) -> bool {
        &&& self.mem.waiters.dom() == self.threads.dom()
        &&& self.mem.top == top_of(self.list)
        &&& self.list_ok(self.list, None)
        &&& forall|tid: usize|
            self.threads.contains_key(tid) ==> #[trigger] self.list_ok(
                self.threads[tid].charges,
                Some(tid),
            )
        &&& forall|tid: usize| self.threads.contains_key(tid) ==> #[trigger] self.parker_ok(tid)
        &&& forall|tid: usize| self.threads.contains_key(tid) ==> #[trigger] self.wake_ok(tid)
        &&& forall|waiter: usize|
            self.held.contains_key(waiter) ==> #[trigger] self.place_ok(waiter)
        &&& forall|waiter: usize|
            self.setters.contains_key(waiter) ==> #[trigger] self.setter_ok(waiter)
        &&& forall|i: int| 0 <= i < self.list.len() ==> #[trigger] self.due_ok(i)
    }
}

/// The waiters are in order before anything has happened.
pub proof fn lemma_initial<T>()
    ensures
        World::<T>::initial().waiting_ok(),
{
    let w = World::<T>::initial();
    assert(w.mem.waiters.dom() =~= w.threads.dom());
}

/// Wherever the waiters of `post` are gone through, what holds of the same
/// producer, waiter or list in `pre` can be looked up.
pub proof fn lemma_recall<T>(pre: World<T>, post: World<T>)
    requires
        pre.waiting_ok(),
    ensures
        forall|tid: usize|
            #![trigger post.parker_ok(tid)]
            pre.threads.contains_key(tid) ==> pre.parker_ok(tid),
        forall|tid: usize|
            #![trigger post.wake_ok(tid)]
            pre.threads.contains_key(tid) ==> pre.wake_ok(tid),
        forall|waiter: usize|
            #![trigger post.place_ok(waiter)]
            pre.held.contains_key(waiter) ==> pre.place_ok(waiter),
        forall|waiter: usize|
            #![trigger post.setter_ok(waiter)]
            pre.setters.contains_key(waiter) ==> pre.setter_ok(waiter),
        forall|tid: usize|
            #![trigger post.list_ok(post.threads[tid].charges, Some(tid))]
            pre.threads.contains_key(tid) ==> pre.list_ok(pre.threads[tid].charges, Some(tid)),
        forall|list: Seq<usize>, waker: Option<usize>, i: int|
            #![trigger post.link_ok(list, waker, i)]
            pre.list_ok(list, waker) && 0 <= i < list.len() ==> {
                &&& pre.link_ok(list, waker, i)
                &&& pre.place_ok(list[i])
            },
        forall|i: int|
            #![trigger post.due_ok(i)]
            0 <= i < pre.list.len() ==> {
                &&& pre.due_ok(i)
                &&& pre.link_ok(pre.list, None, i)
                &&& pre.place_ok(pre.list[i])
                &&& pre.parker_ok(pre.list[i])
            },
        forall|tid: usize|
            #![trigger pre.about_to_take(tid)]
            post.about_to_take(tid) == (post.threads.contains_key(tid) && post.threads[tid].wake()
                == Some(Wake::Swap)),
{
    assert forall|i: int| 0 <= i < pre.list.len() implies {
        &&& #[trigger] pre.link_ok(pre.list, None, i)
        &&& pre.place_ok(pre.list[i])
        &&& pre.parker_ok(pre.list[i])
    } by {
        assert(pre.link_ok(pre.list, None, i));
        assert(pre.place_ok(pre.list[i]));
    }
}

} // verus!
