//! Putting one thread to sleep until another wakes it.

use vstd::prelude::*;

use crate::vocabulary::{Action, ParkerWord, Reply};

verus! {

/// What a thread sleeps on.
#[derive(Clone, Copy, Debug)]
pub struct Event {
    /// The thread to wake, until somebody has set out to wake it.
    pub thread: Option<usize>,
    pub is_set: bool,
}

impl Default for Event {
    /// An event that nobody sleeps on.
    fn default() -> (event: Self)
        ensures
            event == Event::vacant(),
    {
        Event { thread: None, is_set: false }
    }
}

impl Event {
    /// An event that nobody sleeps on.
    pub open spec fn vacant() -> Event {
        Event { thread: None, is_set: false }
    }

    /// An event for `thread` to sleep on.
    pub fn with(thread: usize) -> (event: Event)
        ensures
            event == (Event { thread: Some(thread), is_set: false }),
    {
        Event { thread: Some(thread), is_set: false }
    }

    /// Takes the thread out, sets the event, and says which thread is to be
    /// woken. So an event can be set once.
    pub fn set(&mut self) -> (thread: usize)
        requires
            old(self).thread is Some,
        ensures
            Some(thread) == old(self).thread,
            *final(self) == (Event { thread: None, is_set: true }),
    {
        let thread = self.thread.take();
        self.is_set = true;
        thread.unwrap()
    }
}

/// The meeting point of a thread that waits and the thread that wakes it.
#[derive(Clone, Copy, Debug)]
pub struct Parker {
    pub word: ParkerWord,
    pub event: Event,
}

impl Default for Parker {
    /// A parker where nobody has arrived yet.
    fn default() -> (fresh: Self)
        ensures
            fresh == (Parker { word: ParkerWord::Empty, event: Event::vacant() }),
    {
        Parker { word: ParkerWord::Empty, event: Event::default() }
    }
}

impl Parker {
    /// Puts a new event for `thread` into the parker if it is empty; returns
    /// what was there.
    pub fn arm(&mut self, thread: usize) -> (before: ParkerWord)
        ensures
            before == old(self).word,
            *final(self) == old(self).armed(thread),
    {
        let before = self.word;
        match before {
            ParkerWord::Empty => {
                self.word = ParkerWord::Armed;
                self.event = Event::with(thread);
            },
            _ => {},
        }
        before
    }

    /// The parker after its owner `thread` tried to arm it.
    pub open spec fn armed(self, thread: usize) -> Parker {
        if self.word is Empty {
            Parker {
                word: ParkerWord::Armed,
                event: Event { thread: Some(thread), is_set: false },
            }
        } else {
            self
        }
    }

    /// Leaves word that the waker came; returns what was there.
    pub fn notify(&mut self) -> (before: ParkerWord)
        ensures
            before == old(self).word,
            *final(self) == (Parker { word: ParkerWord::Notified, ..*old(self) }),
    {
        let before = self.word;
        self.word = ParkerWord::Notified;
        before
    }

    /// Empties the parker.
    pub fn reset(&mut self)
        ensures
            *final(self) == (Parker { word: ParkerWord::Empty, ..*old(self) }),
    {
        self.word = ParkerWord::Empty;
    }

    /// Sets the event; says which thread is to be woken.
    pub fn set_event(&mut self) -> (thread: usize)
        requires
            old(self).event.thread is Some,
        ensures
            Some(thread) == old(self).event.thread,
            *final(self) == (Parker {
                event: Event { thread: None, is_set: true },
                ..*old(self)
            }),
    {
        self.event.set()
    }
}

/// A thread on its way through its own parker.
#[derive(Clone, Copy, Debug)]
pub enum Park {
    /// Look whether the waker has been here.
    Load,
    /// It has not: leave an event.
    Arm,
    /// Sleep on the event.
    Await,
    /// Awake: look again.
    Reload,
    /// The waker has been here: empty the parker for the next time.
    Reset,
    /// Through.
    Done,
}

impl Park {
    /// The request that is pending.
    pub open spec fn spec_action(self) -> Action {
        match self {
            Park::Load => Action::LoadParker,
            Park::Arm => Action::ArmParker,
            Park::Await => Action::AwaitEvent,
            Park::Reload => Action::LoadParker,
            Park::Reset => Action::ResetParker,
            Park::Done => Action::Finish,
        }
    }

    /// The replies that can be carried on from. A thread that was woken, or
    /// that found its parker taken, finds the waker's mark there.
    pub open spec fn accepts(self, reply: Reply) -> bool {
        match self {
            Park::Load => reply is Parker,
            Park::Arm => reply matches Reply::Parker(word) && !(word is Armed),
            Park::Await => reply is Unit,
            Park::Reload => reply matches Reply::Parker(word) && word is Notified,
            Park::Reset => reply is Unit,
            Park::Done => false,
        }
    }

    /// The state after `reply`.
    pub open spec fn after(self, reply: Reply) -> Park {
        match self {
            Park::Load => if reply->Parker_0 is Notified {
                Park::Reset
            } else {
                Park::Arm
            },
            Park::Arm => if reply->Parker_0 is Empty {
                Park::Await
            } else {
                Park::Reset
            },
            Park::Await => Park::Reload,
            Park::Reload => Park::Reset,
            _ => Park::Done,
        }
    }

    /// The request that is pending.
    pub fn action(&self) -> (action: Action)
        ensures
            action == self.spec_action(),
    {
        match self {
            Park::Load | Park::Reload => Action::LoadParker,
            Park::Arm => Action::ArmParker,
            Park::Await => Action::AwaitEvent,
            Park::Reset => Action::ResetParker,
            Park::Done => Action::Finish,
        }
    }

    /// Whether `reply` can be carried on from.
    pub fn can_resume(&self, reply: &Reply) -> (possible: bool)
        ensures
            possible == self.accepts(*reply),
    {
        match (*self, *reply) {
            (Park::Load, Reply::Parker(_)) => true,
            (Park::Arm, Reply::Parker(ParkerWord::Armed)) => false,
            (Park::Arm, Reply::Parker(_)) => true,
            (Park::Reload, Reply::Parker(ParkerWord::Notified)) => true,
            (Park::Await, Reply::Unit) | (Park::Reset, Reply::Unit) => true,
            (_, _) => false,
        }
    }

    /// Carries on from the reply to the pending request.
    pub fn resume(self, reply: Reply) -> (next: Park)
        requires
            self.accepts(reply),
        ensures
            next == self.after(reply),
    {
        match (self, reply) {
            (Park::Load, Reply::Parker(ParkerWord::Notified)) => Park::Reset,
            (Park::Load, _) => Park::Arm,
            (Park::Arm, Reply::Parker(ParkerWord::Empty)) => Park::Await,
            (Park::Arm, _) => Park::Reset,
            (Park::Await, _) => Park::Reload,
            (Park::Reload, _) => Park::Reset,
            (_, _) => Park::Done,
        }
    }
}

/// What a thread that sleeps on its event does next.
#[derive(Clone, Copy, PartialEq, Eq, Debug)]
pub enum EventAction {
    /// Read whether the event is set.
    Load,
    /// Give up the processor until the thread is woken, or for no reason.
    ParkThread,
    /// Nothing more.
    Finish,
}

/// A thread asleep on its event.
#[derive(Clone, Copy, Debug)]
pub enum EventWait {
    /// Look whether the event is set.
    Look,
    /// It is not: park the thread, then look again.
    Doze,
    /// It is.
    Done,
}

impl EventWait {
    /// What is to be done.
    pub open spec fn spec_action(self) -> EventAction {
        match self {
            EventWait::Look => EventAction::Load,
            EventWait::Doze => EventAction::ParkThread,
            EventWait::Done => EventAction::Finish,
        }
    }

    /// The replies that can be carried on from.
    pub open spec fn accepts(self, reply: Reply) -> bool {
        match self {
            EventWait::Look => reply is Outcome,
            EventWait::Doze => reply is Unit,
            EventWait::Done => false,
        }
    }

    /// The state after `reply`: a thread that was parked looks again, for
    /// whatever reason it has come back.
    pub open spec fn after(self, reply: Reply) -> EventWait {
        match self {
            EventWait::Look => if reply->Outcome_0 {
                EventWait::Done
            } else {
                EventWait::Doze
            },
            EventWait::Doze => EventWait::Look,
            EventWait::Done => EventWait::Done,
        }
    }

    /// The replies can come one after the other.
    pub open spec fn accepts_all(self, replies: Seq<Reply>) -> bool
        decreases replies.len(),
    {
        replies.len() == 0 || {
            &&& self.accepts(replies[0])
            &&& self.after(replies[0]).accepts_all(replies.drop_first())
        }
    }

    /// The state after the replies.
    pub open spec fn after_all(self, replies: Seq<Reply>) -> EventWait
        decreases replies.len(),
    {
        if replies.len() == 0 {
            self
        } else {
            self.after(replies[0]).after_all(replies.drop_first())
        }
    }

    /// A sleep that is about to begin.
    pub fn new() -> (wait: EventWait)
        ensures
            wait is Look,
    {
        EventWait::Look
    }

    /// Whether the event was seen to be set.
    pub fn is_done(&self) -> (done: bool)
        ensures
            done == self is Done,
    {
        matches!(self, EventWait::Done)
    }

    /// What is to be done.
    pub fn action(&self) -> (action: EventAction)
        ensures
            action == self.spec_action(),
    {
        match self {
            EventWait::Look => EventAction::Load,
            EventWait::Doze => EventAction::ParkThread,
            EventWait::Done => EventAction::Finish,
        }
    }

    /// Whether `reply` can be carried on from.
    pub fn can_resume(&self, reply: &Reply) -> (possible: bool)
        ensures
            possible == self.accepts(*reply),
    {
        match (*self, *reply) {
            (EventWait::Look, Reply::Outcome(_)) => true,
            (EventWait::Doze, Reply::Unit) => true,
            (_, _) => false,
        }
    }

    /// Carries on from the reply.
    pub fn resume(self, reply: Reply) -> (next: EventWait)
        requires
            self.accepts(reply),
        ensures
            next == self.after(reply),
    {
        match (self, reply) {
            (EventWait::Look, Reply::Outcome(false)) => EventWait::Doze,
            (EventWait::Doze, _) => EventWait::Look,
            (_, _) => EventWait::Done,
        }
    }
}

} // verus!
