//! Mathematical model of the entity-component store: what the registry holds
//! and how each operation transforms it. Every contract of the executable
//! layer is stated against this model.

use vstd::prelude::*;
use vstd::seq_lib::group_seq_properties;
use vstd::set_lib::lemma_int_range;
use vstd::set_lib::lemma_len_subset;
use vstd::set_lib::set_int_range;
use crate::bitset::BITSET_BIT_COUNT;
use crate::ecs::EntityIndex;

verus! {

/// What an entity-component store holds, as mathematical values: the
/// high-water slot counter, the stack of reclaimed entity indices awaiting
/// reuse, and one row per component kind, each row holding at most one value
/// per entity slot.
pub struct EcsModel<C> {
    pub next: nat,
    pub reclaimed: Seq<EntityIndex>,
    pub stores: Seq<Seq<Option<C>>>,
}

impl<C> EcsModel<C> {
    /// The store that holds no entity at all.
    pub open spec fn empty() -> EcsModel<C> {
        EcsModel { next: 0, reclaimed: Seq::empty(), stores: Seq::empty() }
    }

    /// The component of kind `kind` at slot `slot`, if any.
    pub open spec fn component(self, kind: int, slot: int) -> Option<C> {
        if 0 <= kind < self.stores.len() && 0 <= slot < self.stores[kind].len() {
            self.stores[kind][slot]
        } else {
            None
        }
    }

    /// How many entities are currently live: slots ever allocated minus
    /// slots reclaimed.
    pub open spec fn entity_count(self) -> int {
        self.next - self.reclaimed.len()
    }

    /// Whether slot `slot` is on the reclaim stack.
    pub open spec fn reclaimed_contains(self, slot: int) -> bool {
        exists|i: int| 0 <= i < self.reclaimed.len() && self.reclaimed[i].index == slot
    }

    /// Whether one more entity can be allocated without exhausting the
    /// fixed slot capacity.
    pub open spec fn can_allocate(self) -> bool {
        self.reclaimed.len() > 0 || self.next < BITSET_BIT_COUNT
    }

    /// The entity index the next allocation returns: the most recently
    /// reclaimed slot with its generation advanced, or a fresh slot at the
    /// high-water mark with generation zero.
    pub open spec fn allocated_index(self) -> EntityIndex {
        if self.reclaimed.len() > 0 {
            EntityIndex {
                index: self.reclaimed.last().index,
                generation: (self.reclaimed.last().generation + 1) as usize,
            }
        } else {
            EntityIndex { index: self.next as usize, generation: 0 }
        }
    }

    /// The store after one allocation.
    pub open spec fn allocate(self) -> EcsModel<C> {
        if self.reclaimed.len() > 0 {
            EcsModel { reclaimed: self.reclaimed.drop_last(), ..self }
        } else {
            EcsModel { next: self.next + 1, ..self }
        }
    }

    /// The store after writing component `value` of kind `kind` at slot
    /// `slot`; rows grow on demand and never shrink.
    pub open spec fn write_component(self, kind: int, slot: int, value: C) -> EcsModel<C> {
        let stores = grown(self.stores, kind + 1, Seq::empty());
        let row = grown(stores[kind], slot + 1, None);
        EcsModel { stores: stores.update(kind, row.update(slot, Some(value))), ..self }
    }

    /// The store after writing each `(kind, value)` pair of `components`, in
    /// order, at slot `slot`.
    pub open spec fn store_into(self, slot: int, components: Seq<(usize, C)>) -> EcsModel<C>
        decreases components.len(),
    {
        if components.len() == 0 {
            self
        } else {
            self.write_component(
                components[0].0 as int,
                slot,
                components[0].1,
            ).store_into(slot, components.drop_first())
        }
    }

    /// The store after inserting one entity made of `components`.
    pub open spec fn insert(self, components: Seq<(usize, C)>) -> EcsModel<C> {
        self.allocate().store_into(self.allocated_index().index as int, components)
    }

    /// The store after deleting the entity at `entity_index`: every kind's
    /// value at that slot is dropped and the slot is pushed onto the reclaim
    /// stack.
    pub open spec fn delete(self, entity_index: EntityIndex) -> EcsModel<C> {
        EcsModel {
            reclaimed: self.reclaimed.push(entity_index),
            stores: Seq::new(
                self.stores.len(),
                |k: int|
                    if entity_index.index < self.stores[k].len() {
                        self.stores[k].update(entity_index.index as int, None)
                    } else {
                        self.stores[k]
                    },
            ),
            ..self
        }
    }

    /// The store after replaying a sequence of deferred entity insertions.
    /// Exhausting the fixed slot capacity is fatal to the storage design;
    /// since replaying cannot abort, an insertion that finds the capacity
    /// exhausted is dropped instead.
    pub open spec fn replay(self, commands: Seq<Seq<(usize, C)>>) -> EcsModel<C>
        decreases commands.len(),
    {
        if commands.len() == 0 {
            self
        } else if self.can_allocate() {
            self.insert(commands[0]).replay(commands.drop_first())
        } else {
            self.replay(commands.drop_first())
        }
    }

    /// Whether slot `slot` holds a live component of every kind in `kinds`.
    pub open spec fn matches(self, kinds: Seq<usize>, slot: int) -> bool {
        forall|i: int| 0 <= i < kinds.len() ==> self.component(#[trigger] kinds[i] as int, slot) is Some
    }

    /// The components of the kinds in `kinds` at slot `slot`, in the order
    /// the kinds are listed.
    pub open spec fn fetched(self, kinds: Seq<usize>, slot: int) -> Seq<C> {
        Seq::new(kinds.len(), |i: int| self.component(kinds[i] as int, slot)->Some_0)
    }

    /// The first slot at or after `from` that matches `kinds`, or the
    /// high-water mark if none does.
    pub open spec fn first_match_from(self, kinds: Seq<usize>, from: int) -> int
        decreases self.next - from,
    {
        if from >= self.next {
            self.next as int
        } else if self.matches(kinds, from) {
            from
        } else {
            self.first_match_from(kinds, from + 1)
        }
    }

    /// Whether slot `slot` is live: below the high-water mark and not on the
    /// reclaim stack.
    pub open spec fn slot_live(self, slot: int) -> bool {
        slot < self.next && !self.reclaimed_contains(slot)
    }

    /// Well-formedness of the allocator state: the high-water mark respects
    /// the slot capacity, and the reclaim stack holds distinct slots below
    /// the mark, with room left in each generation counter.
    pub open spec fn alloc_wf(self) -> bool {
        &&& self.next <= BITSET_BIT_COUNT
        &&& self.reclaimed.len() <= self.next
        &&& (forall|i: int, j: int|
            0 <= i < j < self.reclaimed.len() ==> #[trigger] self.reclaimed[i].index
                != #[trigger] self.reclaimed[j].index)
        &&& (forall|i: int|
            0 <= i < self.reclaimed.len() ==> (#[trigger] self.reclaimed[i]).index < self.next)
        &&& (forall|i: int|
            0 <= i < self.reclaimed.len() ==> (#[trigger] self.reclaimed[i]).generation
                < usize::MAX)
    }

    /// Well-formedness: the allocator state is sound and only live slots
    /// hold a component.
    pub open spec fn wf(self) -> bool {
        &&& self.alloc_wf()
        &&& (forall|k: int, s: int|
            0 <= k < self.stores.len() && 0 <= s < self.stores[k].len() && (
            #[trigger] self.stores[k][s]) is Some ==> self.slot_live(s))
    }

    /// In a well-formed store, a slot that holds any component is live, and
    /// a slot that is not live holds none.
    pub proof fn lemma_occupied_slot_live(self, kind: int, slot: int)
        requires
            self.wf(),
        ensures
            self.component(kind, slot) is Some ==> self.slot_live(slot),
            !self.slot_live(slot) ==> self.component(kind, slot) is None,
    {
    }
}

impl<C> EcsModel<C> {
    /// Allocation keeps the store well formed; the slot handed out lies
    /// below the new high-water mark, is not on the reclaim stack, and the
    /// live-entity count grows by one.
    pub proof fn lemma_allocate_wf(self)
        requires
            self.wf(),
            self.can_allocate(),
        ensures
            self.allocate().wf(),
            self.allocated_index().index < self.allocate().next,
            self.allocated_index().index < BITSET_BIT_COUNT,
            !self.allocate().reclaimed_contains(self.allocated_index().index as int),
            self.allocate().entity_count() == self.entity_count() + 1,
            self.allocate().stores == self.stores,
    {
        let post = self.allocate();
        if self.reclaimed.len() > 0 {
            let last = self.reclaimed.len() - 1;
            assert(post.reclaimed =~= self.reclaimed.subrange(0, last));
            assert forall|i: int| 0 <= i < post.reclaimed.len() implies #[trigger] post.reclaimed[i]
                == self.reclaimed[i] by {}
            assert(!post.reclaimed_contains(self.allocated_index().index as int)) by {
                if post.reclaimed_contains(self.allocated_index().index as int) {
                    let i = choose|i: int|
                        0 <= i < post.reclaimed.len() && post.reclaimed[i].index
                            == self.allocated_index().index;
                    assert(self.reclaimed[i].index == self.reclaimed[last].index);
                }
            }
        }
        assert forall|k: int, s: int|
            0 <= k < post.stores.len() && 0 <= s < post.stores[k].len() && (
            #[trigger] post.stores[k][s]) is Some implies post.slot_live(s) by {
            assert(self.stores[k][s] is Some);
            assert(self.slot_live(s));
            if post.reclaimed_contains(s) {
                let i = choose|i: int|
                    0 <= i < post.reclaimed.len() && post.reclaimed[i].index == s;
                assert(self.reclaimed[i].index == s);
            }
        }
    }

    /// How a point mutation relates two stores: the allocator state and
    /// every row length are unchanged, every cell but `(kind, slot)` keeps
    /// its value, and the mutated cell stays occupied exactly when it was.
    pub open spec fn updated_at(self, post: EcsModel<C>, kind: int, slot: int) -> bool {
        &&& post.next == self.next
        &&& post.reclaimed == self.reclaimed
        &&& post.stores.len() == self.stores.len()
        &&& (forall|k: int|
            0 <= k < self.stores.len() ==> #[trigger] post.stores[k].len() == self.stores[k].len())
        &&& (forall|k: int, s: int|
            0 <= k < self.stores.len() && 0 <= s < self.stores[k].len() && !(k == kind && s
                == slot) ==> #[trigger] post.stores[k][s] == self.stores[k][s])
        &&& (post.component(kind, slot) is Some <==> self.component(kind, slot) is Some)
    }

    /// A point mutation of a well-formed store leaves it well formed and
    /// leaves every other cell's component as it was.
    pub proof fn lemma_updated_at_wf(self, post: EcsModel<C>, kind: int, slot: int)
        requires
            self.wf(),
            self.updated_at(post, kind, slot),
        ensures
            post.wf(),
            forall|k: int, s: int|
                !(k == kind && s == slot) ==> #[trigger] post.component(k, s) == self.component(
                    k,
                    s,
                ),
    {
        assert forall|k: int, s: int|
            !(k == kind && s == slot) implies #[trigger] post.component(k, s) == self.component(
            k,
            s,
        ) by {}
        assert forall|k: int, s: int|
            0 <= k < post.stores.len() && 0 <= s < post.stores[k].len() && (
            #[trigger] post.stores[k][s]) is Some implies post.slot_live(s) by {
            if k == kind && s == slot {
                assert(post.component(kind, slot) is Some);
                assert(self.component(kind, slot) is Some);
                assert(self.stores[kind][slot] is Some);
            } else {
                assert(post.stores[k][s] == self.stores[k][s]);
            }
            assert(self.slot_live(s));
        }
    }

    /// Deleting a live, not-yet-reclaimed entity keeps the store well
    /// formed, lowers the live-entity count by one, clears every kind at the
    /// entity's slot and touches no other slot.
    pub proof fn lemma_delete_wf(self, entity_index: EntityIndex)
        requires
            self.wf(),
            entity_index.index < self.next,
            !self.reclaimed_contains(entity_index.index as int),
            entity_index.generation < usize::MAX,
        ensures
            self.delete(entity_index).wf(),
            self.delete(entity_index).entity_count() == self.entity_count() - 1,
            self.delete(entity_index).next == self.next,
            forall|k: int|
                #[trigger] self.delete(entity_index).component(k, entity_index.index as int)
                    is None,
            forall|k: int, s: int|
                s != entity_index.index ==> #[trigger] self.delete(entity_index).component(k, s)
                    == self.component(k, s),
    {
        let post = self.delete(entity_index);
        assert forall|i: int, j: int|
            0 <= i < j < post.reclaimed.len() implies #[trigger] post.reclaimed[i].index
            != #[trigger] post.reclaimed[j].index by {
            if j == post.reclaimed.len() - 1 {
                assert(self.reclaimed[i].index != entity_index.index);
            }
        }
        assert forall|i: int|
            0 <= i < post.reclaimed.len() implies 0 <= (#[trigger] post.reclaimed[i]).index
            < self.next as int by {}
        lemma_distinct_below_bound(post.reclaimed, self.next as int);
        assert forall|k: int|
            #[trigger] post.component(k, entity_index.index as int) is None by {}
        assert forall|k: int, s: int|
            s != entity_index.index implies #[trigger] post.component(k, s) == self.component(
            k,
            s,
        ) by {}
        assert forall|k: int, s: int|
            0 <= k < post.stores.len() && 0 <= s < post.stores[k].len() && (
            #[trigger] post.stores[k][s]) is Some implies post.slot_live(s) by {
            assert(s != entity_index.index);
            assert(self.stores[k][s] is Some);
            assert(self.slot_live(s));
            if post.reclaimed_contains(s) {
                let i = choose|i: int|
                    0 <= i < post.reclaimed.len() && post.reclaimed[i].index == s;
                if i < post.reclaimed.len() - 1 {
                    assert(self.reclaimed[i].index == s);
                }
            }
        }
    }

    /// Writing components never touches the allocator state.
    pub proof fn lemma_store_into_alloc_state(self, slot: int, components: Seq<(usize, C)>)
        ensures
            self.store_into(slot, components).next == self.next,
            self.store_into(slot, components).reclaimed == self.reclaimed,
        decreases components.len(),
    {
        if components.len() > 0 {
            self.write_component(
                components[0].0 as int,
                slot,
                components[0].1,
            ).lemma_store_into_alloc_state(slot, components.drop_first());
        }
    }

    /// Reading back after a single write: the written cell holds the new
    /// value and every other cell is unchanged. A write below the high-water
    /// mark at an unreclaimed slot keeps the store well formed.
    pub proof fn lemma_write_component_reads(self, kind: int, slot: int, value: C)
        requires
            kind >= 0,
            slot >= 0,
        ensures
            self.write_component(kind, slot, value).component(kind, slot) == Some(value),
            forall|k: int, s: int|
                !(k == kind && s == slot) ==> #[trigger] self.write_component(
                    kind,
                    slot,
                    value,
                ).component(k, s) == self.component(k, s),
            self.wf() && slot < self.next && !self.reclaimed_contains(slot)
                ==> self.write_component(kind, slot, value).wf(),
    {
        let post = self.write_component(kind, slot, value);
        let stores1 = grown(self.stores, kind + 1, Seq::<Option<C>>::empty());
        let row = grown(stores1[kind], slot + 1, None::<C>);
        lemma_grown_index(self.stores, kind + 1, Seq::<Option<C>>::empty());
        lemma_grown_index(stores1[kind], slot + 1, None::<C>);
        assert forall|k: int, s: int|
            !(k == kind && s == slot) implies #[trigger] post.component(k, s) == self.component(
            k,
            s,
        ) by {}
        if self.wf() && slot < self.next && !self.reclaimed_contains(slot) {
            assert forall|k: int, s: int|
                0 <= k < post.stores.len() && 0 <= s < post.stores[k].len() && (
                #[trigger] post.stores[k][s]) is Some implies post.slot_live(s) by {
                if k == kind && s == slot {
                } else {
                    assert(post.component(k, s) == self.component(k, s));
                    assert(self.stores[k][s] is Some);
                    assert(self.slot_live(s));
                }
            }
        }
    }

    /// Writing a component list keeps the store well formed when the slot is
    /// live and unreclaimed; afterwards the slot holds, for each kind, the
    /// last value written under that kind, and no other slot has changed.
    pub proof fn lemma_store_into_reads(self, slot: int, components: Seq<(usize, C)>, kind: int)
        requires
            slot >= 0,
        ensures
            self.store_into(slot, components).component(kind, slot) == match last_value_of(
                components,
                kind,
            ) {
                Some(v) => Some(v),
                None => self.component(kind, slot),
            },
            forall|k: int, s: int|
                s != slot ==> #[trigger] self.store_into(slot, components).component(k, s)
                    == self.component(k, s),
            self.wf() && slot < self.next && !self.reclaimed_contains(slot) ==> self.store_into(
                slot,
                components,
            ).wf(),
        decreases components.len(),
    {
        if components.len() > 0 {
            let first = components[0];
            let mid = self.write_component(first.0 as int, slot, first.1);
            self.lemma_write_component_reads(first.0 as int, slot, first.1);
            mid.lemma_store_into_reads(slot, components.drop_first(), kind);
            if last_value_of(components.drop_first(), kind) is None && first.0 == kind {
                assert(mid.component(kind, slot) == Some(first.1));
            }
            assert forall|k: int, s: int|
                s != slot implies #[trigger] self.store_into(slot, components).component(k, s)
                == self.component(k, s) by {
                assert(mid.store_into(slot, components.drop_first()).component(k, s)
                    == mid.component(k, s));
                assert(mid.component(k, s) == self.component(k, s));
            }
        } else {
            if self.wf() && slot < self.next && !self.reclaimed_contains(slot) {
                assert(self.store_into(slot, components).wf());
            }
        }
    }

    /// Inserting an entity keeps the store well formed, raises the
    /// live-entity count by one, gives the new slot exactly the last value
    /// written under each kind, and leaves every other slot unchanged.
    pub proof fn lemma_insert_reads(self, components: Seq<(usize, C)>, kind: int)
        requires
            self.wf(),
            self.can_allocate(),
        ensures
            self.insert(components).wf(),
            self.insert(components).entity_count() == self.entity_count() + 1,
            self.insert(components).component(kind, self.allocated_index().index as int)
                == last_value_of(components, kind),
            forall|k: int, s: int|
                s != self.allocated_index().index ==> #[trigger] self.insert(
                    components,
                ).component(k, s) == self.component(k, s),
            self.insert(components).next == self.allocate().next,
            self.insert(components).reclaimed == self.allocate().reclaimed,
    {
        let slot = self.allocated_index().index as int;
        let mid = self.allocate();
        self.lemma_allocate_wf();
        mid.lemma_store_into_reads(slot, components, kind);
        mid.lemma_store_into_alloc_state(slot, components);
        assert(mid.component(kind, slot) is None) by {
            mid.lemma_occupied_slot_live(kind, slot);
        }
        assert forall|k: int, s: int|
            s != slot implies #[trigger] self.insert(components).component(k, s)
            == self.component(k, s) by {
            mid.lemma_store_into_reads(slot, components, k);
        }
    }

    /// Inserting while no slot is reclaimed hands out the slot at the
    /// high-water mark with generation zero and advances the mark by one.
    pub proof fn lemma_insert_without_deletes(self, components: Seq<(usize, C)>)
        requires
            self.wf(),
            self.reclaimed.len() == 0,
            self.next < BITSET_BIT_COUNT,
        ensures
            self.allocated_index() == (EntityIndex { index: self.next as usize, generation: 0 }),
            self.insert(components).wf(),
            self.insert(components).next == self.next + 1,
            self.insert(components).reclaimed.len() == 0,
            self.insert(components).entity_count() == self.entity_count() + 1,
    {
        self.lemma_insert_reads(components, 0);
    }

    /// Deleting an entity and then inserting any entity reuses the deleted
    /// slot with its generation advanced by exactly one, and restores the
    /// live-entity count.
    pub proof fn lemma_delete_then_insert(
        self,
        entity_index: EntityIndex,
        components: Seq<(usize, C)>,
    )
        requires
            self.wf(),
            entity_index.index < self.next,
            !self.reclaimed_contains(entity_index.index as int),
            entity_index.generation < usize::MAX,
        ensures
            self.delete(entity_index).allocated_index() == (EntityIndex {
                index: entity_index.index,
                generation: (entity_index.generation + 1) as usize,
            }),
            self.delete(entity_index).insert(components).wf(),
            self.delete(entity_index).insert(components).entity_count() == self.entity_count(),
    {
        let mid = self.delete(entity_index);
        self.lemma_delete_wf(entity_index);
        mid.lemma_insert_reads(components, 0);
    }

    /// Replaying deferred insertions raises the live-entity count by the
    /// number of commands, as long as the slot capacity is never exhausted.
    pub proof fn lemma_replay_count(self, commands: Seq<Seq<(usize, C)>>)
        requires
            self.wf(),
            self.next + commands.len() <= BITSET_BIT_COUNT,
        ensures
            self.replay(commands).wf(),
            self.replay(commands).entity_count() == self.entity_count() + commands.len(),
            self.replay(commands).next <= self.next + commands.len(),
        decreases commands.len(),
    {
        if commands.len() > 0 {
            let mid = self.insert(commands[0]);
            self.lemma_insert_reads(commands[0], 0);
            mid.lemma_replay_count(commands.drop_first());
        }
    }

    /// A slot just deleted matches no non-empty query: every kind at that
    /// slot reads back empty.
    pub proof fn lemma_deleted_slot_not_matched(self, entity_index: EntityIndex, kinds: Seq<usize>)
        requires
            self.wf(),
            entity_index.index < self.next,
            !self.reclaimed_contains(entity_index.index as int),
            entity_index.generation < usize::MAX,
            kinds.len() > 0,
        ensures
            !self.delete(entity_index).matches(kinds, entity_index.index as int),
    {
        self.lemma_delete_wf(entity_index);
        assert(self.delete(entity_index).component(
            kinds[0] as int,
            entity_index.index as int,
        ) is None);
    }

    /// The slots at or after `from`, up to the high-water mark, that hold a
    /// live component of every kind in `kinds`, in ascending order.
    pub open spec fn matching_slots_from(self, kinds: Seq<usize>, from: int) -> Seq<int>
        decreases self.next - from,
    {
        if from >= self.next {
            Seq::empty()
        } else if self.matches(kinds, from) {
            seq![from] + self.matching_slots_from(kinds, from + 1)
        } else {
            self.matching_slots_from(kinds, from + 1)
        }
    }

    /// What a query scan yields, as a whole: exactly the slots at or after
    /// `from` that match `kinds` — every listed slot matches, every matching
    /// slot is listed — in strictly ascending order. Since the slots are a
    /// function of the store alone, a fresh scan of an unchanged store
    /// yields the same sequence.
    pub proof fn lemma_matching_slots_exact(self, kinds: Seq<usize>, from: int)
        ensures
            forall|i: int|
                0 <= i < self.matching_slots_from(kinds, from).len() ==> {
                    let s = #[trigger] self.matching_slots_from(kinds, from)[i];
                    from <= s < self.next && self.matches(kinds, s)
                },
            forall|s: int|
                from <= s < self.next && #[trigger] self.matches(kinds, s)
                    ==> self.matching_slots_from(kinds, from).contains(s),
            forall|i: int, j: int|
                0 <= i < j < self.matching_slots_from(kinds, from).len()
                    ==> #[trigger] self.matching_slots_from(kinds, from)[i]
                    < #[trigger] self.matching_slots_from(kinds, from)[j],
        decreases self.next - from,
    {
        if from >= self.next {
        } else {
            self.lemma_matching_slots_exact(kinds, from + 1);
            let rest = self.matching_slots_from(kinds, from + 1);
            let whole = self.matching_slots_from(kinds, from);
            if self.matches(kinds, from) {
                assert forall|s: int|
                    from <= s < self.next && #[trigger] self.matches(kinds, s) implies whole.contains(
                    s,
                ) by {
                    if s == from {
                        assert(whole[0] == s);
                    } else {
                        let i = choose|i: int| 0 <= i < rest.len() && rest[i] == s;
                        assert(whole[i + 1] == s);
                    }
                }
            } else {
                assert forall|s: int|
                    from <= s < self.next && #[trigger] self.matches(kinds, s) implies whole.contains(
                    s,
                ) by {
                    let i = choose|i: int| 0 <= i < rest.len() && rest[i] == s;
                    assert(whole[i] == s);
                }
            }
        }
    }

    /// One scan step against the whole enumeration: the first matching slot
    /// at or after `from` is the head of the matching slots from `from`, and
    /// the slots past it are exactly the matching slots from just past it;
    /// when the scan comes back empty, no slot at or after `from` matches.
    pub proof fn lemma_first_match_heads_matching_slots(self, kinds: Seq<usize>, from: int)
        ensures
            self.first_match_from(kinds, from) < self.next ==> self.matching_slots_from(
                kinds,
                from,
            ) =~= seq![self.first_match_from(kinds, from)] + self.matching_slots_from(
                kinds,
                self.first_match_from(kinds, from) + 1,
            ),
            self.first_match_from(kinds, from) >= self.next ==> self.matching_slots_from(
                kinds,
                from,
            ) =~= Seq::<int>::empty(),
        decreases self.next - from,
    {
        if from < self.next && !self.matches(kinds, from) {
            self.lemma_first_match_heads_matching_slots(kinds, from + 1);
        }
    }

    /// What one scan step yields: the first matching slot at or after `from`
    /// is a match, nothing before it matches, and when the scan comes back
    /// empty no slot at or after `from` matches.
    pub proof fn lemma_first_match_characterizes(self, kinds: Seq<usize>, from: int)
        ensures
            self.first_match_from(kinds, from) <= self.next,
            self.first_match_from(kinds, from) < self.next ==> {
                &&& from <= self.first_match_from(kinds, from)
                &&& self.matches(kinds, self.first_match_from(kinds, from))
                &&& forall|s: int|
                    from <= s < self.first_match_from(kinds, from) ==> !#[trigger] self.matches(
                        kinds,
                        s,
                    )
            },
            self.first_match_from(kinds, from) == self.next ==> forall|s: int|
                from <= s < self.next ==> !#[trigger] self.matches(kinds, s),
        decreases self.next - from,
    {
        if from < self.next && !self.matches(kinds, from) {
            self.lemma_first_match_characterizes(kinds, from + 1);
        }
    }
}

/// The value of the last `(kind, value)` pair in `components` whose kind is
/// `kind`, if any: the value a read of that kind sees after the whole list
/// is written in order.
pub open spec fn last_value_of<C>(components: Seq<(usize, C)>, kind: int) -> Option<C>
    decreases components.len(),
{
    if components.len() == 0 {
        None
    } else {
        match last_value_of(components.drop_first(), kind) {
            Some(v) => Some(v),
            None => if components[0].0 == kind {
                Some(components[0].1)
            } else {
                None
            },
        }
    }
}

/// `s` padded with `pad` up to length `n` (unchanged when already that long).
pub open spec fn grown<T>(s: Seq<T>, n: int, pad: T) -> Seq<T> {
    if s.len() >= n {
        s
    } else {
        s + Seq::new((n - s.len()) as nat, |i: int| pad)
    }
}

/// Reading any position of a grown sequence: old positions keep their value,
/// padded positions hold the pad.
pub proof fn lemma_grown_index<T>(s: Seq<T>, n: int, pad: T)
    ensures
        grown(s, n, pad).len() >= s.len(),
        grown(s, n, pad).len() >= n,
        forall|i: int| 0 <= i < s.len() ==> #[trigger] grown(s, n, pad)[i] == s[i],
        forall|i: int| s.len() <= i < n ==> #[trigger] grown(s, n, pad)[i] == pad,
{
}

/// A sequence of distinct slot numbers below `bound` cannot be longer than
/// `bound` itself.
pub proof fn lemma_distinct_below_bound(entries: Seq<EntityIndex>, bound: int)
    requires
        bound >= 0,
        forall|i: int, j: int|
            0 <= i < j < entries.len() ==> #[trigger] entries[i].index != #[trigger] entries[j].index,
        forall|i: int| 0 <= i < entries.len() ==> 0 <= (#[trigger] entries[i]).index < bound,
    ensures
        entries.len() <= bound,
{
    broadcast use group_seq_properties;

    let indices = entries.map_values(|e: EntityIndex| e.index as int);
    assert(indices.no_duplicates()) by {
        assert forall|i: int, j: int|
            0 <= i < indices.len() && 0 <= j < indices.len() && i != j implies indices[i]
            != indices[j] by {
            assert(entries[i].index != entries[j].index);
        }
    }
    indices.unique_seq_to_set();
    assert(indices.to_set().subset_of(set_int_range(0, bound))) by {
        assert forall|x: int| indices.to_set().contains(x) implies set_int_range(
            0,
            bound,
        ).contains(x) by {
            let i = choose|i: int| 0 <= i < indices.len() && indices[i] == x;
            assert(0 <= entries[i].index < bound);
        }
    }
    lemma_int_range(0, bound);
    lemma_len_subset(indices.to_set(), set_int_range(0, bound));
}

} // verus!
