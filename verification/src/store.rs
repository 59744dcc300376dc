//! Per-kind component storage: a growable row of slots, one per entity,
//! paired with a presence bitset that marks which slots hold a live value.

use vstd::prelude::*;
use crate::bitset::Bitset;
use crate::bitset::BITSET_BIT_COUNT;
use crate::model::grown;
use crate::model::lemma_grown_index;

verus! {

/// Storage for one component kind: slot `i` holds the component of the
/// entity with slot number `i`, if that entity has one. The row grows on
/// demand up to the bitset's fixed capacity and its length is the high-water
/// mark: one past the highest slot ever written.
pub struct ComponentStore<C> {
    data: Vec<Option<C>>,
    entities_bitset: Bitset,
}

impl<C> View for ComponentStore<C> {
    type V = Seq<Option<C>>;

    closed spec fn view(&self) -> Seq<Option<C>> {
        self.data@
    }
}

impl<C> ComponentStore<C> {
    /// The row never outgrows the bitset, and a slot's bit is set exactly
    /// when the slot holds a value.
    pub closed spec fn wf(&self) -> bool {
        &&& self.entities_bitset.wf()
        &&& self.data@.len() <= BITSET_BIT_COUNT
        &&& (forall|i: int|
            0 <= i < self.data@.len() ==> (self.entities_bitset.spec_bit(i) <==> #[trigger] self.data@[i] is Some))
        &&& (forall|i: int|
            self.data@.len() <= i < BITSET_BIT_COUNT ==> !self.entities_bitset.spec_bit(i))
    }

    /// An empty store.
    pub fn new() -> (r: Self)
        ensures
            r.wf(),
            r@ == Seq::<Option<C>>::empty(),
    {
        ComponentStore { data: Vec::new(), entities_bitset: Bitset::new() }
    }

    /// Writes `component` at slot `index`, growing the row as needed; a
    /// value already at that slot is replaced.
    pub fn store(&mut self, index: usize, component: C)
        requires
            old(self).wf(),
            index < BITSET_BIT_COUNT,
        ensures
            final(self).wf(),
            final(self)@ == grown(old(self)@, index as int + 1, None::<C>).update(
                index as int,
                Some(component),
            ),
    {
        while self.data.len() < index + 1
            invariant
                index < BITSET_BIT_COUNT,
                self.data@.len() <= vstd::math::max(old(self).data@.len() as int, index as int + 1),
                self.data@.len() >= old(self).data@.len(),
                self.entities_bitset == old(self).entities_bitset,
                forall|j: int|
                    0 <= j < old(self).data@.len() ==> #[trigger] self.data@[j] == old(
                        self,
                    ).data@[j],
                forall|j: int|
                    old(self).data@.len() <= j < self.data@.len() ==> #[trigger] self.data@[j] is None,
            decreases index + 1 - self.data.len(),
        {
            self.data.push(None);
        }
        self.data[index] = Some(component);
        self.entities_bitset.set_bit(index);
        proof {
            lemma_grown_index(old(self)@, index as int + 1, None::<C>);
            assert(self.data@ =~= grown(old(self)@, index as int + 1, None::<C>).update(
                index as int,
                Some(component),
            ));
        }
    }

    /// The component at slot `index`, or `None` when the slot is past the
    /// high-water mark or holds no value.
    pub fn get(&self, index: usize) -> (r: Option<&C>)
        requires
            self.wf(),
        ensures
            match r {
                Some(c) => index < self@.len() && self@[index as int] == Some(*c),
                None => index >= self@.len() || self@[index as int] is None,
            },
    {
        if index >= self.data.len() {
            return None;
        }
        if !self.entities_bitset.bit(index) {
            return None;
        }
        match &self.data[index] {
            Some(c) => Some(c),
            None => None,
        }
    }

    /// A mutable borrow of the component at slot `index`, or `None` when the
    /// slot is past the high-water mark or holds no value. Writes through the
    /// borrow land in that slot and nowhere else.
    pub fn get_mut(&mut self, index: usize) -> (r: Option<&mut C>)
        requires
            old(self).wf(),
        ensures
            final(self).wf(),
            final(self)@.len() == old(self)@.len(),
            forall|j: int|
                0 <= j < old(self)@.len() && j != index ==> final(self)@[j] == old(self)@[j],
            match r {
                Some(m) => {
                    &&& index < old(self)@.len()
                    &&& old(self)@[index as int] == Some(*m)
                    &&& final(self)@[index as int] == Some(*final(m))
                },
                None => {
                    &&& index >= old(self)@.len() || old(self)@[index as int] is None
                    &&& final(self)@ == old(self)@
                },
            },
    {
        if index >= self.data.len() {
            return None;
        }
        if !self.entities_bitset.bit(index) {
            return None;
        }
        match &mut self.data[index] {
            Some(m) => Some(m),
            None => None,
        }
    }

    /// Drops the component at slot `index`, if any; the high-water mark is
    /// unchanged, so the slot can be written again later.
    pub fn remove(&mut self, index: usize)
        requires
            old(self).wf(),
        ensures
            final(self).wf(),
            final(self)@ == if index < old(self)@.len() {
                old(self)@.update(index as int, None::<C>)
            } else {
                old(self)@
            },
    {
        if index >= self.data.len() {
            return;
        }
        if !self.entities_bitset.bit(index) {
            proof {
                assert(old(self)@.update(index as int, None::<C>) =~= old(self)@);
            }
            return;
        }
        self.data[index] = None;
        self.entities_bitset.unset_bit(index);
    }

    /// Drops every live component, leaving the high-water mark in place.
    pub fn clear(&mut self)
        requires
            old(self).wf(),
        ensures
            final(self).wf(),
            final(self)@.len() == old(self)@.len(),
            forall|i: int| 0 <= i < final(self)@.len() ==> final(self)@[i] is None,
    {
        let len = self.data.len();
        let mut i: usize = 0;
        while i < len
            invariant
                self.wf(),
                len == self@.len(),
                i <= len,
                forall|j: int| 0 <= j < i ==> self@[j] is None,
            decreases len - i,
        {
            self.remove(i);
            i += 1;
        }
    }
}

} // verus!
