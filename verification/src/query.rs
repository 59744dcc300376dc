//! The query layer: a description names the component kinds a slot must
//! hold, a query wraps a description, and an iterator walks the entity slots
//! in ascending order, yielding the fetched components of each slot that
//! matches and skipping the rest.

use vstd::prelude::*;
use crate::ecs::Ecs;

verus! {

/// The data shape a query requests: the component kinds that must all be
/// live at a slot for the slot to match, in the order their values are
/// yielded.
pub struct Description {
    pub kinds: Vec<usize>,
}

impl Description {
    /// A description asking for the given component kinds.
    pub fn new(kinds: Vec<usize>) -> (r: Self)
        ensures
            r.kinds@ == kinds@,
    {
        Description { kinds }
    }

    /// The components of this description's kinds at slot `index`, in
    /// description order, if every kind is live there; `None` as soon as one
    /// kind is missing.
    pub fn fetch<C: Copy>(&self, ecs: &Ecs<C>, index: usize) -> (r: Option<Vec<C>>)
        requires
            ecs.wf(),
        ensures
            match r {
                Some(v) => {
                    &&& ecs@.matches(self.kinds@, index as int)
                    &&& v@ == ecs@.fetched(self.kinds@, index as int)
                },
                None => !ecs@.matches(self.kinds@, index as int),
            },
    {
        let mut out: Vec<C> = Vec::new();
        let count = self.kinds.len();
        let mut i: usize = 0;
        while i < count
            invariant
                ecs.wf(),
                count == self.kinds@.len(),
                i <= count,
                out@.len() == i,
                forall|j: int|
                    0 <= j < i ==> ecs@.component(#[trigger] self.kinds@[j] as int, index as int)
                        is Some,
                forall|j: int|
                    0 <= j < i ==> #[trigger] out@[j] == ecs@.component(
                        self.kinds@[j] as int,
                        index as int,
                    )->Some_0,
            decreases count - i,
        {
            match ecs.component_at_index(self.kinds[i], index) {
                Some(c) => {
                    out.push(*c);
                },
                None => {
                    proof {
                        assert(ecs@.component(self.kinds@[i as int] as int, index as int) is None);
                    }
                    return None;
                },
            }
            i += 1;
        }
        proof {
            assert(out@ =~= ecs@.fetched(self.kinds@, index as int));
        }
        Some(out)
    }
}

impl Description {
    /// Whether every requested kind is live at slot `index`; unlike
    /// [`Description::fetch`] this reads no component values, so it carries
    /// no `Copy` bound.
    pub fn matches_at<C>(&self, ecs: &Ecs<C>, index: usize) -> (r: bool)
        requires
            ecs.wf(),
        ensures
            r == ecs@.matches(self.kinds@, index as int),
    {
        let count = self.kinds.len();
        let mut i: usize = 0;
        while i < count
            invariant
                ecs.wf(),
                count == self.kinds@.len(),
                i <= count,
                forall|j: int|
                    0 <= j < i ==> ecs@.component(#[trigger] self.kinds@[j] as int, index as int)
                        is Some,
            decreases count - i,
        {
            if ecs.component_at_index(self.kinds[i], index).is_none() {
                proof {
                    assert(ecs@.component(self.kinds@[i as int] as int, index as int) is None);
                }
                return false;
            }
            i += 1;
        }
        true
    }
}

/// A query binds a description of the data shape it will fetch; a fresh
/// iterator over the matching slots can be made from it at any time.
pub struct Query {
    description: Description,
}

impl Query {
    /// The component kinds the query requests.
    pub closed spec fn kinds(&self) -> Seq<usize> {
        self.description.kinds@
    }

    /// A query over the given description.
    pub fn new(description: Description) -> (r: Self)
        ensures
            r.kinds() == description.kinds@,
    {
        Query { description }
    }

    /// A fresh iterator starting at slot zero.
    pub fn iter(&self) -> (r: Iter)
        ensures
            r.kinds() == self.kinds(),
            r.cursor() == 0,
    {
        Iter::new(&self.description)
    }
}

/// Walks the entity slots in ascending order, one call at a time, yielding
/// the fetched components of each slot that matches the description. It is
/// bounded by the high-water mark and not restartable; a fresh one can
/// always be made from the same query.
pub struct Iter {
    description: Description,
    current_index: usize,
}

impl Iter {
    /// The component kinds the iterator fetches.
    pub closed spec fn kinds(&self) -> Seq<usize> {
        self.description.kinds@
    }

    /// The next slot the iterator will look at.
    pub closed spec fn cursor(&self) -> int {
        self.current_index as int
    }

    /// A fresh iterator over the description's kinds, starting at slot zero.
    pub fn new(description: &Description) -> (r: Self)
        ensures
            r.kinds() == description.kinds@,
            r.cursor() == 0,
    {
        let mut kinds: Vec<usize> = Vec::new();
        let count = description.kinds.len();
        let mut i: usize = 0;
        while i < count
            invariant
                count == description.kinds@.len(),
                i <= count,
                kinds@ == description.kinds@.subrange(0, i as int),
            decreases count - i,
        {
            kinds.push(description.kinds[i]);
            proof {
                assert(kinds@ =~= description.kinds@.subrange(0, i + 1));
            }
            i += 1;
        }
        proof {
            assert(kinds@ =~= description.kinds@);
        }
        Iter { description: Description { kinds }, current_index: 0 }
    }

    /// The slot number and components of the first matching slot at or
    /// after the cursor, or `None` when no slot up to the high-water mark
    /// matches; the cursor moves past the returned slot, or to the mark.
    pub fn next<C: Copy>(&mut self, ecs: &Ecs<C>) -> (r: Option<(usize, Vec<C>)>)
        requires
            ecs.wf(),
        ensures
            final(self).kinds() == old(self).kinds(),
            ({
                let m = ecs@;
                let f = m.first_match_from(old(self).kinds(), old(self).cursor());
                if f < m.next {
                    &&& r matches Some(p)
                    &&& r->Some_0.0 == f
                    &&& r->Some_0.1@ == m.fetched(old(self).kinds(), f)
                    &&& final(self).cursor() == f + 1
                } else {
                    &&& r is None
                    &&& final(self).cursor() >= m.next
                }
            }),
    {
        let ghost start = self.current_index as int;
        let high = ecs.next_slot();
        while self.current_index < high
            invariant
                ecs.wf(),
                high == ecs@.next,
                self.description.kinds@ == old(self).kinds(),
                start == old(self).cursor(),
                start <= self.current_index as int,
                ecs@.first_match_from(old(self).kinds(), start) == ecs@.first_match_from(
                    old(self).kinds(),
                    self.current_index as int,
                ),
            decreases high - self.current_index,
        {
            let index = self.current_index;
            match self.description.fetch(ecs, index) {
                Some(components) => {
                    self.current_index = index + 1;
                    return Some((index, components));
                },
                None => {
                    self.current_index = index + 1;
                },
            }
        }
        None
    }

    /// The first matching slot at or after the cursor, without reading any
    /// component values (so the component type needs no `Copy` bound), or
    /// `None` when no slot up to the high-water mark matches; the cursor
    /// moves past the returned slot, or to the mark.
    pub fn next_match<C>(&mut self, ecs: &Ecs<C>) -> (r: Option<usize>)
        requires
            ecs.wf(),
        ensures
            final(self).kinds() == old(self).kinds(),
            ({
                let m = ecs@;
                let f = m.first_match_from(old(self).kinds(), old(self).cursor());
                if f < m.next {
                    &&& r matches Some(s)
                    &&& r->Some_0 == f
                    &&& final(self).cursor() == f + 1
                } else {
                    &&& r is None
                    &&& final(self).cursor() >= m.next
                }
            }),
    {
        let ghost start = self.current_index as int;
        let high = ecs.next_slot();
        while self.current_index < high
            invariant
                ecs.wf(),
                high == ecs@.next,
                self.description.kinds@ == old(self).kinds(),
                start == old(self).cursor(),
                start <= self.current_index as int,
                ecs@.first_match_from(old(self).kinds(), start) == ecs@.first_match_from(
                    old(self).kinds(),
                    self.current_index as int,
                ),
            decreases high - self.current_index,
        {
            let index = self.current_index;
            if self.description.matches_at(ecs, index) {
                self.current_index = index + 1;
                return Some(index);
            }
            self.current_index = index + 1;
        }
        None
    }
}

} // verus!
