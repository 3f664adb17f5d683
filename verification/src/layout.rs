//! How positions, laps and slots relate.
//!
//! The producers share one counter, the position. A *ticket* is the number of
//! times that counter has moved since the queue was made; the counter itself
//! is the ticket cut down to a machine word. Each run of `LAP` tickets is a
//! lap, and each lap fills one block: its first `BLOCK_CAP` tickets are the
//! block's slots, and its last ticket is held while the next block is linked.

use vstd::prelude::*;

verus! {

/// Tickets per block.
pub const LAP: usize = 32;

/// Slots per block.
pub const BLOCK_CAP: usize = 31;

/// Number of values that the position counter can take.
pub open spec fn word_count() -> nat {
    (usize::MAX + 1) as nat
}

/// The position counter after `ticket` moves.
pub open spec fn word_of(ticket: nat) -> usize {
    (ticket % word_count()) as usize
}

/// Number of slots handed out before `ticket`; for a ticket that is a slot,
/// the number of that slot.
pub open spec fn slots_before(ticket: nat) -> nat {
    (ticket / 32) * 31 + ticket % 32
}

/// The word keeps a ticket's place within its lap.
pub proof fn lemma_word_index(ticket: nat)
    ensures
        word_of(ticket) as nat == ticket % word_count(),
        word_of(ticket) % LAP == ticket % 32,
{
    lemma_word_count();
    let w = word_count();
    assert(word_of(ticket) as nat == ticket % w) by {
        assert(ticket % w < w);
    }
    if w == 0x1_0000_0000 {
        assert((ticket % 0x1_0000_0000) % 32 == ticket % 32);
    } else {
        assert((ticket % 0x1_0000_0000_0000_0000) % 32 == ticket % 32);
    }
}

/// A machine word has 32 or 64 bits.
proof fn lemma_word_count()
    ensures
        word_count() == 0x1_0000_0000 || word_count() == 0x1_0000_0000_0000_0000,
{
    vstd::layout::unsigned_int_max_values();
}

/// One move of the counter, which wraps.
pub proof fn lemma_word_next(ticket: nat)
    ensures
        word_of(ticket + 1) == word_of(ticket).wrapping_add(1),
{
    lemma_word_count();
    let w = word_count();
    assert(ticket % w < w);
    assert((ticket + 1) % w < w);
    if w == 0x1_0000_0000 {
        let w32: nat = 0x1_0000_0000;
        assert((ticket + 1) % w32 == if ticket % w32 + 1 == w32 { 0 } else { ticket % w32 + 1 });
    } else {
        let w64: nat = 0x1_0000_0000_0000_0000;
        assert((ticket + 1) % w64 == if ticket % w64 + 1 == w64 { 0 } else { ticket % w64 + 1 });
    }
}

/// Two tickets less than a full turn apart have the same word only if they
/// are the same ticket.
pub proof fn lemma_word_injective(a: nat, b: nat)
    requires
        a <= b,
        b - a < word_count(),
        word_of(a) == word_of(b),
    ensures
        a == b,
{
    lemma_word_index(a);
    lemma_word_index(b);
    lemma_word_count();
    let w = word_count();
    assert(a % w == b % w);
    if w == 0x1_0000_0000 {
        assert(a % 0x1_0000_0000 == b % 0x1_0000_0000);
    } else {
        assert(a % 0x1_0000_0000_0000_0000 == b % 0x1_0000_0000_0000_0000);
    }
}

} // verus!
