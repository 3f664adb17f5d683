//! Blocks of slots.

use vstd::prelude::*;

use core::mem::ManuallyDrop;

use crate::layout::BLOCK_CAP;

verus! {

/// Room for one item.
pub struct Value<T>(Option<T>);

impl<T> View for Value<T> {
    type V = Option<T>;

    closed spec fn view(&self) -> Option<T> {
        self.0
    }
}

impl<T> Value<T> {
    /// Room with no item in it.
    pub fn new() -> (value: Self)
        ensures
            value@ is None,
    {
        Value(None)
    }

    /// Moves an item in. What was there before is forgotten, not dropped.
    pub fn write(&mut self, value: T)
        ensures
            final(self)@ == Some(value),
    {
        match self.0.take() {
            Some(before) => {
                let forgotten = ManuallyDrop::new(before);
            },
            None => {},
        }
        self.0 = Some(value);
    }

    /// Moves the item out.
    pub fn read(&mut self) -> (value: T)
        requires
            old(self)@ is Some,
        ensures
            Some(value) == old(self)@,
            final(self)@ is None,
    {
        self.0.take().unwrap()
    }
}

impl<T: Copy> Value<T> {
    /// Copies the item out. It stays where it is, and can be read again.
    pub fn read_copy(&self) -> (value: T)
        requires
            self@ is Some,
        ensures
            Some(value) == self@,
    {
        self.0.unwrap()
    }
}

/// What a block holds.
#[verifier::ext_equal]
pub struct BlockView<T> {
    pub values: Seq<Option<T>>,
    pub stored: Seq<bool>,
    pub next: Option<usize>,
}

impl<T> BlockView<T> {
    /// A block that nobody has used.
    pub open spec fn unused() -> BlockView<T> {
        BlockView {
            values: Seq::new(31, |i: int| None),
            stored: Seq::new(31, |i: int| false),
            next: None,
        }
    }
}

/// A run of slots, each with a mark that says whether its item is in place,
/// and the handle of the block that comes after.
pub struct Block<T> {
    values: Vec<Value<T>>,
    stored: Vec<bool>,
    next: Option<usize>,
    /// The number under which a heap keeps it.
    serial: Ghost<Option<nat>>,
}

impl<T> View for Block<T> {
    type V = BlockView<T>;

    closed spec fn view(&self) -> BlockView<T> {
        BlockView {
            values: self.values@.map_values(|value: Value<T>| value@),
            stored: self.stored@,
            next: self.next,
        }
    }
}

impl<T> Block<T> {
    /// A block has `BLOCK_CAP` slots.
    pub open spec fn wf(self) -> bool {
        &&& self@.values.len() == BLOCK_CAP
        &&& self@.stored.len() == BLOCK_CAP
    }

    /// The number under which a heap keeps the block, if one does.
    pub closed spec fn serial(self) -> Option<nat> {
        self.serial@
    }

    /// A block of empty slots, with nothing after it.
    pub fn new() -> (block: Self)
        ensures
            block.wf(),
            block@ == BlockView::<T>::unused(),
            block.serial() is None,
    {
        let mut values: Vec<Value<T>> = Vec::new();
        let mut stored: Vec<bool> = Vec::new();
        let mut i: usize = 0;
        while i < BLOCK_CAP
            invariant
                i <= BLOCK_CAP,
                values@.len() == i,
                stored@.len() == i,
                forall|j: int| 0 <= j < i ==> (#[trigger] values@[j])@ is None,
                forall|j: int| 0 <= j < i ==> !(#[trigger] stored@[j]),
            decreases BLOCK_CAP - i,
        {
            values.push(Value::new());
            stored.push(false);
            i = i + 1;
        }
        let block = Block { values, stored, next: None, serial: Ghost(None) };
        assert(block@ =~= BlockView::<T>::unused());
        block
    }

    /// Moves an item into a slot. What was there before is forgotten, not
    /// dropped.
    pub fn write(&mut self, index: usize, value: T)
        requires
            old(self).wf(),
            index < BLOCK_CAP,
        ensures
            final(self).wf(),
            final(self)@ == (BlockView {
                values: old(self)@.values.update(index as int, Some(value)),
                ..old(self)@
            }),
            final(self).serial() == old(self).serial(),
    {
        self.values[index].write(value);
        assert(self@.values =~= old(self)@.values.update(index as int, Some(value)));
    }

    /// Moves the item out of a slot.
    pub fn read(&mut self, index: usize) -> (value: T)
        requires
            old(self).wf(),
            index < BLOCK_CAP,
            old(self)@.values[index as int] is Some,
        ensures
            final(self).wf(),
            Some(value) == old(self)@.values[index as int],
            final(self)@ == (BlockView {
                values: old(self)@.values.update(index as int, None),
                ..old(self)@
            }),
            final(self).serial() == old(self).serial(),
    {
        let value = self.values[index].read();
        assert(self@.values =~= old(self)@.values.update(index as int, None));
        value
    }

    /// Whether a slot is marked as filled.
    pub fn is_stored(&self, index: usize) -> (stored: bool)
        requires
            self.wf(),
            index < BLOCK_CAP,
        ensures
            stored == self@.stored[index as int],
    {
        self.stored[index]
    }

    /// Marks a slot as filled.
    pub fn set_stored(&mut self, index: usize)
        requires
            old(self).wf(),
            index < BLOCK_CAP,
        ensures
            final(self).wf(),
            final(self)@ == (BlockView {
                stored: old(self)@.stored.update(index as int, true),
                ..old(self)@
            }),
            final(self).serial() == old(self).serial(),
    {
        self.stored.set(index, true);
    }

    /// The block that comes after.
    pub fn next(&self) -> (next: Option<usize>)
        ensures
            next == self@.next,
    {
        self.next
    }

    /// Sets the block that comes after.
    pub fn set_next(&mut self, next: usize)
        requires
            old(self).wf(),
        ensures
            final(self).wf(),
            final(self)@ == (BlockView { next: Some(next), ..old(self)@ }),
            final(self).serial() == old(self).serial(),
    {
        self.next = Some(next);
    }
}

/// Where blocks come from and go back to. It knows every block that it has made
/// by a number, and which of them have not come back.
pub struct Heap {
    out: Ghost<Set<nat>>,
    made: Ghost<nat>,
}

impl Heap {
    /// The numbers of the blocks that have not come back.
    pub closed spec fn out(self) -> Set<nat> {
        self.out@
    }

    /// How many blocks have been made.
    pub closed spec fn made(self) -> nat {
        self.made@
    }

    /// Blocks are numbered as they are made.
    pub open spec fn wf(self) -> bool {
        &&& self.out().finite()
        &&& forall|serial: nat| #[trigger] self.out().contains(serial) ==> serial < self.made()
    }

    /// No block has been made yet.
    pub fn new() -> (heap: Self)
        ensures
            heap.wf(),
            heap.out() == Set::<nat>::empty(),
            heap.made() == 0,
    {
        Heap { out: Ghost(Set::empty()), made: Ghost(0) }
    }

    /// Makes a block of empty slots, with nothing after it.
    pub fn make<T>(&mut self) -> (block: Block<T>)
        requires
            old(self).wf(),
        ensures
            final(self).wf(),
            block.wf(),
            block@ == BlockView::<T>::unused(),
            block.serial() == Some(old(self).made()),
            final(self).out() == old(self).out().insert(old(self).made()),
            final(self).made() == old(self).made() + 1,
    {
        let mut block = Block::new();
        proof {
            block.serial@ = Some(self.made@);
            self.out@ = self.out@.insert(self.made@);
            self.made@ = self.made@ + 1;
        }
        block
    }

    /// Takes a block back. It and its slots are gone then.
    pub fn free<T>(&mut self, block: Block<T>)
        requires
            old(self).wf(),
            block.serial() matches Some(serial) && old(self).out().contains(serial),
        ensures
            final(self).wf(),
            final(self).out() == old(self).out().remove(block.serial()->0),
            final(self).made() == old(self).made(),
    {
        proof {
            self.out@ = self.out@.remove(block.serial@->0);
        }
    }
}

} // verus!
