//! A store that names what it holds by handles and keeps it in the order in
//! which it came.

use vstd::prelude::*;

verus! {

/// Values named by handles. The store is a run of entries, some of them vacated;
/// handles count the entries from `first` on, and wrap. The store drops what it
/// holds entry by entry, so what came first is dropped first.
pub struct Slab<V> {
    entries: Vec<Option<V>>,
    /// The handle of the entry at the front.
    first: usize,
    /// So many entries at the front are known to be vacated.
    left: usize,
    /// The handles of what is held, in the order in which it came.
    order: Ghost<Seq<usize>>,
}

/// A list of handles without one of them, where it comes first.
pub open spec fn without(handles: Seq<usize>, handle: usize) -> Seq<usize>
    decreases handles.len(),
{
    if handles.len() == 0 {
        handles
    } else if handles[0] == handle {
        handles.drop_first()
    } else {
        seq![handles[0]] + without(handles.drop_first(), handle)
    }
}

/// Each handle is the one after the handle before it.
pub open spec fn in_a_row(handles: Seq<usize>) -> bool {
    forall|i: int|
        0 <= i < handles.len() - 1 ==> handles[i + 1] == (#[trigger] handles[i]).wrapping_add(1)
}

/// Where a handle that occurs once is missing.
proof fn lemma_without(handles: Seq<usize>, at: int)
    requires
        0 <= at < handles.len(),
        forall|i: int| 0 <= i < at ==> handles[i] != handles[at],
    ensures
        without(handles, handles[at]) == handles.remove(at),
    decreases handles.len(),
{
    if at > 0 {
        lemma_without(handles.drop_first(), at - 1);
    }
    assert(without(handles, handles[at]) =~= handles.remove(at));
}

/// Where a handle points, if `first` is the handle of the entry at the front.
spec fn place(first: usize, handle: usize) -> int {
    handle.wrapping_sub(first) as int
}

/// Where a handle points once `left` entries at the front were given up.
proof fn lemma_place_moved(first: usize, left: usize, handle: usize)
    ensures
        place(first.wrapping_add(left), handle) == if place(first, handle) >= left {
            place(first, handle) - left
        } else {
            place(first, handle) - left + usize::MAX + 1
        },
{
}

impl<V> View for Slab<V> {
    type V = Map<usize, V>;

    closed spec fn view(&self) -> Map<usize, V> {
        Map::new(
            |handle: usize| self.holds(handle),
            |handle: usize| self.entries@[self.place(handle)]->0,
        )
    }
}

impl<V> Slab<V> {
    /// Where a handle points.
    spec fn place(self, handle: usize) -> int {
        place(self.first, handle)
    }

    /// The handle names something.
    spec fn holds(self, handle: usize) -> bool {
        self.place(handle) < self.entries@.len() && self.entries@[self.place(handle)] is Some
    }

    /// The handles of what the store holds, in the order in which it came, which
    /// is the order in which it is stored and dropped.
    pub closed spec fn order(self) -> Seq<usize> {
        self.order@
    }

    /// The entries that are not vacated are those in the order of the handles.
    spec fn kept(self) -> bool {
        &&& self.left <= self.entries@.len()
        &&& forall|i: int| 0 <= i < self.left ==> self.entries@[i] is None
        &&& forall|i: int|
            0 <= i < self.order@.len() ==> self.holds(#[trigger] self.order@[i])
        &&& forall|i: int, j: int|
            0 <= i < j < self.order@.len() ==> self.place(#[trigger] self.order@[i]) < self.place(
                #[trigger] self.order@[j],
            )
        &&& forall|handle: usize|
            #![trigger place(self.first, handle)]
            self.holds(handle) ==> self.order@.contains(handle)
    }

    /// The entries are in order, the last is not vacated, and at most half of them
    /// lie before the first that is not vacated.
    pub closed spec fn wf(self) -> bool {
        &&& self.kept()
        &&& self.entries@.len() > 0 ==> self.entries@.last() is Some
        &&& self.left < self.entries@.len() ==> self.entries@[self.left as int] is Some
        &&& self.left * 2 <= self.entries@.len()
    }

    /// How many entries the store has room for what it holds in, vacated ones
    /// among them.
    pub closed spec fn room(self) -> nat {
        self.entries@.len()
    }

    /// A store that holds nothing has no entries. One that holds a run of values
    /// that came one after the other, with no other between them left, has at most
    /// twice as many entries.
    pub proof fn lemma_room(self)
        requires
            self.wf(),
            in_a_row(self.order()),
        ensures
            self.room() <= 2 * self.order().len(),
    {
        if self.entries@.len() > 0 {
            let order = self.order@;
            assert(self.entries.len() == self.entries@.len());
            let newest = self.first.wrapping_add((self.entries@.len() - 1) as usize);
            let oldest = self.first.wrapping_add(self.left);
            assert(self.place(newest) == self.entries@.len() - 1);
            assert(self.place(oldest) == self.left);
            assert(self.holds(newest));
            assert(self.holds(oldest));
            let at = order.index_of(oldest);
            let last = order.index_of(newest);
            if at > 0 {
                assert(self.holds(order[0]));
                assert(self.place(order[0]) < self.place(order[at]));
            }
            if last < order.len() - 1 {
                assert(self.holds(order[order.len() - 1]));
                assert(self.place(order[last]) < self.place(order[order.len() - 1]));
            }
            self.lemma_row(order.len() - 1);
        }
    }

    /// The entries of handles in a row lie in a row.
    proof fn lemma_row(self, i: int)
        requires
            self.wf(),
            in_a_row(self.order()),
            0 <= i < self.order().len(),
        ensures
            self.place(self.order()[i]) == self.place(self.order()[0]) + i,
        decreases i,
    {
        if i > 0 {
            self.lemma_row(i - 1);
            assert(self.place(self.order@[i - 1]) < self.place(self.order@[i]));
            assert(self.order@[i - 1 + 1] == self.order@[i - 1].wrapping_add(1));
        }
    }

    /// The order tells each handle once.
    pub proof fn lemma_order(self)
        requires
            self.wf(),
        ensures
            self.order().no_duplicates(),
            forall|handle: usize| self.order().contains(handle) <==> self@.contains_key(handle),
    {
    }

    /// A store that holds nothing.
    pub fn new() -> (slab: Self)
        ensures
            slab.wf(),
            slab@ == Map::<usize, V>::empty(),
            slab.order() == Seq::<usize>::empty(),
    {
        let slab = Slab { entries: Vec::new(), first: 0, left: 0, order: Ghost(Seq::empty()) };
        assert(slab@ =~= Map::<usize, V>::empty());
        slab
    }

    /// Takes `value` in, behind all that is there, under a handle that names
    /// nothing yet.
    pub fn insert(&mut self, value: V) -> (handle: usize)
        requires
            old(self).wf(),
        ensures
            final(self).wf(),
            !old(self)@.contains_key(handle),
            final(self)@ == old(self)@.insert(handle, value),
            final(self).order() == old(self).order().push(handle),
            old(self).order().len() > 0 ==> handle == old(self).order().last().wrapping_add(1),
    {
        let len: usize = self.entries.len();
        let handle: usize = self.first.wrapping_add(len);
        assert(self.place(handle) == len);
        proof {
            if self.order@.len() > 0 {
                assert(self.holds(self.order@[0]));
                let newest = self.first.wrapping_add((len - 1) as usize);
                assert(self.place(newest) == len - 1);
                assert(self.holds(newest));
                let at = self.order@.index_of(newest);
                assert(self.holds(self.order@.last()));
                if at < self.order@.len() - 1 {
                    assert(self.place(self.order@[at]) < self.place(
                        self.order@[self.order@.len() - 1],
                    ));
                }
            }
        }
        self.entries.push(Some(value));
        proof {
            self.order@ = self.order@.push(handle);
        }
        assert forall|other: usize| other != handle implies self.holds(other) == old(self).holds(
            other,
        ) by {}
        assert forall|other: usize| #[trigger] self.holds(other) implies self.order@.contains(
            other,
        ) by {
            if other == handle {
                assert(self.order@[self.order@.len() - 1] == handle);
            } else {
                assert(old(self).holds(other));
                let at = old(self).order@.index_of(other);
                assert(self.order@[at] == other);
            }
        }
        assert(self@ =~= old(self)@.insert(handle, value));
        handle
    }

    /// Hands out what `handle` names.
    pub fn remove(&mut self, handle: usize) -> (value: V)
        requires
            old(self).wf(),
            old(self)@.contains_key(handle),
        ensures
            final(self).wf(),
            value == old(self)@[handle],
            final(self)@ == old(self)@.remove(handle),
            final(self).order() == without(old(self).order(), handle),
    {
        let index: usize = handle.wrapping_sub(self.first);
        let value = self.entries[index].take();
        proof {
            let at = self.order@.index_of(handle);
            let before = self.order@;
            lemma_without(before, at);
            self.order@ = before.remove(at);
            assert forall|other: usize| #[trigger] self.holds(other) implies self.order@.contains(
                other,
            ) by {
                assert(old(self).holds(other));
                let was = before.index_of(other);
                if was < at {
                    assert(self.order@[was] == other);
                } else {
                    assert(self.order@[was - 1] == other);
                }
            }
            assert(self@ =~= old(self)@.remove(handle));
        }
        self.trim();
        value.unwrap()
    }

    /// Gives up entries at either end that are vacated.
    fn trim(&mut self)
        requires
            old(self).kept(),
        ensures
            final(self).wf(),
            final(self)@ == old(self)@,
            final(self).order() == old(self).order(),
    {
        while self.entries.len() > self.left && self.entries[self.entries.len() - 1].is_none()
            invariant
                self.kept(),
                self@ == old(self)@,
                self.order() == old(self).order(),
            decreases self.entries@.len(),
        {
            let ghost before = *self;
            self.entries.pop();
            assert forall|handle: usize| #[trigger] self.holds(handle) == before.holds(handle) by {}
            assert(self@ =~= before@);
        }
        while self.left < self.entries.len() && self.entries[self.left].is_none()
            invariant
                self.kept(),
                self@ == old(self)@,
                self.order() == old(self).order(),
                self.entries@.len() > self.left ==> self.entries@.last() is Some,
            decreases self.entries@.len() - self.left,
        {
            let ghost before = *self;
            self.left = self.left + 1;
            assert forall|handle: usize| #[trigger] self.holds(handle) == before.holds(handle) by {}
            assert(self@ =~= before@);
        }
        if self.left > self.entries.len() / 2 {
            self.close_up();
        }
    }

    /// Gives up the entries at the front that are known to be vacated.
    fn close_up(&mut self)
        requires
            old(self).kept(),
            old(self).left < old(self).entries@.len() ==> {
                &&& old(self).entries@[old(self).left as int] is Some
                &&& old(self).entries@.last() is Some
            },
        ensures
            final(self).wf(),
            final(self)@ == old(self)@,
            final(self).order() == old(self).order(),
    {
        let ghost before = *self;
        assert(before.entries.len() == before.entries@.len());
        let kept = self.entries.split_off(self.left);
        self.entries = kept;
        self.first = self.first.wrapping_add(self.left);
        self.left = 0;
        assert forall|handle: usize| #[trigger] self.holds(handle) == before.holds(handle) by {
            lemma_place_moved(before.first, before.left, handle);
        }
        assert forall|handle: usize| before.holds(handle) implies #[trigger] self.place(handle)
            == before.place(handle) - before.left by {
            lemma_place_moved(before.first, before.left, handle);
        }
        assert forall|handle: usize| #[trigger]
            self.holds(handle) implies self.order@.contains(handle) by {
            assert(before.holds(handle));
        }
        assert(self@ =~= before@);
    }

    /// What `handle` names.
    pub fn get(&self, handle: usize) -> (value: &V)
        requires
            self@.contains_key(handle),
        ensures
            *value == self@[handle],
    {
        self.entries[handle.wrapping_sub(self.first)].as_ref().unwrap()
    }

    /// What `handle` names, to be changed.
    pub fn get_mut(&mut self, handle: usize) -> (value: &mut V)
        requires
            old(self).wf(),
            old(self)@.contains_key(handle),
        ensures
            *value == old(self)@[handle],
            final(self).wf(),
            final(self)@ == old(self)@.insert(handle, *final(value)),
            final(self).order() == old(self).order(),
    {
        let index: usize = handle.wrapping_sub(self.first);
        let value = self.entries[index].as_mut().unwrap();
        value
    }
}

} // verus!
