//! An unbounded queue that many producers push to and one consumer pops from,
//! built from linked blocks of slots.
//!
//! Push and pop are state machines ([`push`], [`pop`]) that ask one thing at a
//! time of the memory that producers and consumer share ([`vocabulary`],
//! [`memory`]). [`queue::MpscQueue`] is the queue in the hands of one owner,
//! which runs the machines on a memory of its own. What holds when any number of
//! producers and a consumer run them on one memory, in any interleaving, is
//! stated in [`laws`], over the worlds of [`world`]. What each machine asks, one
//! request after the other, in terms of the replies that it gets, is stated in
//! [`course`], and what one request does to the answers that later ones get in
//! [`effects`].

pub mod layout;
pub mod spin;
pub mod vocabulary;
pub mod parker;
pub mod waitlist;
pub mod push;
pub mod pop;
pub mod slab;
pub mod block;
pub mod memory;
pub mod world;
pub mod ledger;
pub mod ledger_steps;
pub mod waiting;
pub mod waiting_steps;
pub mod conduct;
pub mod effects;
pub mod course;
pub mod rest;
pub mod counting;
pub mod progress;
pub mod laws;
pub mod queue;

pub use queue::MpscQueue;
