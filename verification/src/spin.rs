//! Backing off between attempts.

use vstd::prelude::*;

verus! {

/// What a thread does to back off once.
#[derive(Clone, Copy, PartialEq, Eq, Debug)]
pub enum Backoff {
    /// Run the processor's spin hint this many times.
    Spin(usize),
    /// Give the rest of the time slice back to the operating system.
    YieldThread,
}

/// Counts how often its owner has backed off.
#[derive(Clone, Copy, PartialEq, Eq, Debug)]
pub struct SpinWait {
    pub counter: usize,
}

/// The `counter`-th backoff: the first three spin twice as long each time,
/// every later one yields the thread.
pub open spec fn backoff_at(counter: int) -> Backoff {
    if counter == 1 {
        Backoff::Spin(2)
    } else if counter == 2 {
        Backoff::Spin(4)
    } else if counter == 3 {
        Backoff::Spin(8)
    } else {
        Backoff::YieldThread
    }
}

impl Default for SpinWait {
    /// A counter that has not backed off yet.
    fn default() -> (fresh: Self)
        ensures
            fresh.counter == 0,
    {
        SpinWait { counter: 0 }
    }
}

impl SpinWait {
    /// Whether a waiter should spin once more before it parks: never, waiters
    /// park at once.
    pub fn try_yield_now(&mut self) -> (again: bool)
        ensures
            !again,
            *final(self) == *old(self),
    {
        false
    }

    /// Counts one more backoff and says what it consists of.
    pub fn yield_now(&mut self) -> (pause: Backoff)
        requires
            old(self).counter < usize::MAX,
        ensures
            final(self).counter == old(self).counter + 1,
            pause == backoff_at(old(self).counter + 1),
    {
        self.counter = self.counter + 1;
        if self.counter <= 3 {
            let counter: usize = self.counter;
            assert(1usize << 1usize == 2 && 1usize << 2usize == 4 && 1usize << 3usize == 8)
                by (bit_vector);
            Backoff::Spin(1usize << counter)
        } else {
            Backoff::YieldThread
        }
    }

    /// The number of processors to assume: the remembered one, or, while it is
    /// still 0, the one that the system reports, or 1 where it reports none.
    pub fn num_cpus(remembered: usize, reported: Option<usize>) -> (count: usize)
        ensures
            count == if remembered != 0 {
                remembered
            } else {
                match reported {
                    Some(n) => n,
                    None => 1,
                }
            },
    {
        if remembered != 0 {
            remembered
        } else {
            match reported {
                Some(n) => n,
                None => 1,
            }
        }
    }

    /// Spinning can only pay off where another processor makes progress.
    pub fn should_spin(num_cpus: usize) -> (spin: bool)
        ensures
            spin == (num_cpus > 1),
    {
        num_cpus > 1
    }
}

} // verus!
