# protty_mpsc

An unbounded queue that many producers push to and one consumer pops from,
built from linked blocks of 31 slots. Producers claim slots by moving one
shared counter; the one that claims the last slot of a block links the next
block while the others sleep on a wait list.

Push, pop and taking the queue down are state machines, and each state has one
request to the shared memory pending. A request makes at most one atomic access
to what other threads can reach at that time. What else it touches is, just then,
nobody else's:

* the thread's own waiter, before the exchange that puts it on the wait list;
* the thread's own event, before the exchange that leaves it in the parker;
* the sleeper's thread in an event, which whoever sets the event takes out before
  the flag is stored, and wakes after that, without another look at the event;
* a block that nobody else knows of yet, or any more;
* a slot between its claim and its mark, and from its mark until it is taken;
* the index of the consumer.

One request makes more than one access: the sleep on an event loads the flag and
parks the thread, again and again, until the flag is set. It changes nothing.

The interleavings that `src/world.rs` speaks of take each request as one step.

* `src/push.rs`, `src/pop.rs`: the machines of the producer and the consumer;
  `src/waitlist.rs` and `src/parker.rs`: the machines by which a producer waits
  and by which it wakes others, down to the sleep on an event, which outlasts
  every wake-up that comes for no reason; `src/spin.rs`: backing off.
* `src/vocabulary.rs`: the requests and their replies. `src/memory.rs`: the
  memory and what each request does to it, with `src/block.rs` and
  `src/slab.rs`. `src/layout.rs`: positions, laps and slots.
* `src/world.rs`: any number of producers and a consumer at work on one memory,
  in any interleaving of their requests. `src/ledger.rs` and `src/waiting.rs`
  say what holds of every world that can come about, `src/ledger_steps.rs`,
  `src/waiting_steps.rs` and `src/conduct.rs` prove it, `src/counting.rs` adds up
  whole runs, `src/rest.rs` says what a world comes down to when nothing is under
  way, `src/progress.rs` shows where a producer can get from there, and
  `src/laws.rs` draws the conclusions: first in, first out; each item handed out
  exactly once; no block reached after it was given back, none lost, and as many
  made as the items call for; no wake-up lost; every push can be completed, as
  long as two handles are free for the blocks that it may need, it can count one
  more backoff, and the counter is not about to come back to the position that
  the push read.
* `src/queue.rs`: `MpscQueue`, the queue in the hands of one owner, which runs
  the machines on a memory of its own. It stores its items in the order in which
  they were pushed, so that dropping it drops them the oldest first.
* `app/`: the queue shared between threads. It runs the same machines on a
  memory of atomics.

Two things are taken for granted of a memory that threads share. Its accesses
fall into one order that all threads agree on. And no producer finds the
position unchanged after the counter has gone all the way round and come back
to the value that the producer read.
