//! The registry: entity allocation, per-kind component storage, point
//! lookups and deletion.

use vstd::prelude::*;
use crate::bitset::BITSET_BIT_COUNT;
use crate::model::EcsModel;
use crate::store::ComponentStore;

verus! {

/// Identifies an entity: the slot number shared by every component store,
/// and the generation distinguishing successive occupants of a reused slot.
#[derive(Clone, Copy, PartialEq, Eq, Hash, Structural, Debug)]
pub struct EntityIndex {
    pub index: usize,
    pub generation: usize,
}

/// The registry. It owns the slot allocator (a high-water counter plus a
/// stack of reclaimed indices) and one [`ComponentStore`] per component
/// kind, indexed by the kind number.
pub struct Ecs<C> {
    next_index: usize,
    deleted_entities_indices: Vec<EntityIndex>,
    component_stores: Vec<ComponentStore<C>>,
}

impl<C> View for Ecs<C> {
    type V = EcsModel<C>;

    closed spec fn view(&self) -> EcsModel<C> {
        EcsModel {
            next: self.next_index as nat,
            reclaimed: self.deleted_entities_indices@,
            stores: self.component_stores@.map_values(|s: ComponentStore<C>| s@),
        }
    }
}

impl<C> Ecs<C> {
    /// The allocator state is sound, only live slots hold a component, and
    /// every store keeps its row and bitset in step.
    pub closed spec fn wf(&self) -> bool {
        &&& self@.alloc_wf()
        &&& (forall|k: int, s: int|
            0 <= k < self.component_stores@.len() && 0 <= s < self.component_stores@[k]@.len()
                && (#[trigger] self.component_stores@[k]@[s]) is Some ==> self@.slot_live(s))
        &&& (forall|k: int|
            0 <= k < self.component_stores@.len() ==> (#[trigger] self.component_stores@[k]).wf())
    }

    /// A well-formed registry has a well-formed model.
    pub proof fn lemma_wf_model(&self)
        requires
            self.wf(),
        ensures
            self@.wf(),
    {
        assert forall|k: int, s: int|
            0 <= k < self@.stores.len() && 0 <= s < self@.stores[k].len() && (
            #[trigger] self@.stores[k][s]) is Some implies self@.slot_live(s) by {
            assert(self@.stores[k] == self.component_stores@[k]@);
        }
    }

    /// A registry whose model is well formed and whose stores are well
    /// formed is well formed.
    proof fn lemma_wf_from_model(&self)
        requires
            self@.wf(),
            forall|k: int|
                0 <= k < self.component_stores@.len() ==> (
                #[trigger] self.component_stores@[k]).wf(),
        ensures
            self.wf(),
    {
        assert forall|k: int, s: int|
            0 <= k < self.component_stores@.len() && 0 <= s < self.component_stores@[k]@.len()
                && (#[trigger] self.component_stores@[k]@[s]) is Some implies self@.slot_live(
            s,
        ) by {
            assert(self@.stores[k] == self.component_stores@[k]@);
        }
    }

    /// An empty registry.
    pub fn new() -> (r: Self)
        ensures
            r.wf(),
            r@ == EcsModel::<C>::empty(),
    {
        let r = Ecs {
            next_index: 0,
            deleted_entities_indices: Vec::new(),
            component_stores: Vec::new(),
        };
        proof {
            assert(r@.stores =~= Seq::<Seq<Option<C>>>::empty());
        }
        r
    }

    /// Whether one more entity can be allocated without exhausting the
    /// fixed slot capacity.
    pub fn can_allocate(&self) -> (r: bool)
        ensures
            r == self@.can_allocate(),
    {
        self.deleted_entities_indices.len() > 0 || self.next_index < BITSET_BIT_COUNT
    }

    /// The high-water slot mark: one past the highest slot ever allocated.
    pub fn next_slot(&self) -> (r: usize)
        ensures
            r == self@.next,
    {
        self.next_index
    }

    /// How many entities are live: slots ever allocated minus slots
    /// reclaimed.
    pub fn entity_count(&self) -> (r: usize)
        requires
            self.wf(),
        ensures
            r == self@.entity_count(),
    {
        self.next_index - self.deleted_entities_indices.len()
    }

    /// Hands out the next entity index: the most recently reclaimed slot
    /// with its generation advanced, or a fresh slot at the high-water mark.
    fn allocate_index(&mut self) -> (r: EntityIndex)
        requires
            old(self).wf(),
            old(self)@.can_allocate(),
        ensures
            final(self).wf(),
            final(self)@ == old(self)@.allocate(),
            r == old(self)@.allocated_index(),
            r.index < BITSET_BIT_COUNT,
            r.index < final(self)@.next,
            !final(self)@.reclaimed_contains(r.index as int),
    {
        proof {
            self.lemma_wf_model();
            old(self)@.lemma_allocate_wf();
        }
        match self.deleted_entities_indices.pop() {
            Some(reusable_index) => {
                let r = EntityIndex {
                    index: reusable_index.index,
                    generation: reusable_index.generation + 1,
                };
                proof {
                    assert(self@.reclaimed =~= old(self)@.reclaimed.drop_last());
                    assert(self@ == old(self)@.allocate());
                    self.lemma_wf_from_model();
                }
                r
            },
            None => {
                let next_index = self.next_index;
                let r = EntityIndex { index: next_index, generation: 0 };
                self.next_index = self.next_index + 1;
                proof {
                    assert(self@ == old(self)@.allocate());
                    self.lemma_wf_from_model();
                }
                r
            },
        }
    }

    /// Writes `component` under kind `kind` at slot `index`, creating the
    /// kind's store on first use.
    pub fn store_component(&mut self, kind: usize, index: usize, component: C)
        requires
            old(self).wf(),
            index < BITSET_BIT_COUNT,
            index < old(self)@.next,
            !old(self)@.reclaimed_contains(index as int),
        ensures
            final(self).wf(),
            final(self)@ == old(self)@.write_component(kind as int, index as int, component),
    {
        let ghost pre = self@;
        proof {
            self.lemma_wf_model();
        }
        while self.component_stores.len() <= kind
            invariant
                self.next_index == old(self).next_index,
                self.deleted_entities_indices == old(self).deleted_entities_indices,
                self.component_stores@.len() <= vstd::math::max(
                    old(self).component_stores@.len() as int,
                    kind as int + 1,
                ),
                self.component_stores@.len() >= old(self).component_stores@.len(),
                forall|k: int|
                    0 <= k < old(self).component_stores@.len() ==> #[trigger] self.component_stores@[k]
                        == old(self).component_stores@[k],
                forall|k: int|
                    old(self).component_stores@.len() <= k < self.component_stores@.len()
                        ==> (#[trigger] self.component_stores@[k]).wf()
                        && self.component_stores@[k]@ == Seq::<Option<C>>::empty(),
            decreases kind + 1 - self.component_stores.len(),
        {
            self.component_stores.push(ComponentStore::new());
        }
        let target = &mut self.component_stores[kind];
        target.store(index, component);
        proof {
            let post = self@;
            let m = pre.write_component(kind as int, index as int, component);
            assert(post.stores =~= m.stores) by {
                vstd::seq_lib::assert_seqs_equal!(post.stores == m.stores, k => {
                    crate::model::lemma_grown_index(pre.stores, kind as int + 1, Seq::<Option<C>>::empty());
                    if k == kind {
                        crate::model::lemma_grown_index(
                            crate::model::grown(pre.stores, kind as int + 1, Seq::<Option<C>>::empty())[kind as int],
                            index as int + 1,
                            None::<C>,
                        );
                        assert(post.stores[k] =~= m.stores[k]);
                    } else {
                        assert(post.stores[k] =~= m.stores[k]);
                    }
                });
            }
            assert(self@.wf()) by {
                assert forall|k: int, s: int|
                    0 <= k < post.stores.len() && 0 <= s < post.stores[k].len() && (
                    #[trigger] post.stores[k][s]) is Some implies post.slot_live(s) by {
                    if k == kind && s == index {
                    } else {
                        crate::model::lemma_grown_index(
                            pre.stores,
                            kind as int + 1,
                            Seq::<Option<C>>::empty(),
                        );
                        let stores1 = crate::model::grown(
                            pre.stores,
                            kind as int + 1,
                            Seq::<Option<C>>::empty(),
                        );
                        crate::model::lemma_grown_index(
                            stores1[kind as int],
                            index as int + 1,
                            None::<C>,
                        );
                        assert(pre.stores[k][s] is Some);
                        assert(pre.slot_live(s));
                    }
                }
            }
            assert forall|k2: int|
                0 <= k2 < self.component_stores@.len() implies (
            #[trigger] self.component_stores@[k2]).wf() by {}
            self.lemma_wf_from_model();
        }
    }
}

/// What `Ecs::insert` accepts: a bundle of components, each tagged with its
/// kind number, stored together under one freshly allocated entity slot.
pub trait EntityDefinition<C>: Sized {
    /// The `(kind, value)` pairs this definition carries, in storage order.
    spec fn components(&self) -> Seq<(usize, C)>;

    /// Writes every component of the definition at slot `index`.
    fn store_component(self, ecs: &mut Ecs<C>, index: usize)
        requires
            old(ecs).wf(),
            index < BITSET_BIT_COUNT,
            index < old(ecs)@.next,
            !old(ecs)@.reclaimed_contains(index as int),
        ensures
            final(ecs).wf(),
            final(ecs)@ == old(ecs)@.store_into(index as int, self.components()),
    ;

    /// The definition as a plain `(kind, value)` list.
    fn into_components(self) -> (r: Vec<(usize, C)>)
        ensures
            r@ == self.components(),
    ;
}

impl<C> EntityDefinition<C> for Vec<(usize, C)> {
    open spec fn components(&self) -> Seq<(usize, C)> {
        self@
    }

    fn into_components(self) -> (r: Vec<(usize, C)>) {
        self
    }

    fn store_component(self, ecs: &mut Ecs<C>, index: usize) {
        let ghost pre = ecs@;
        let ghost all = self@;
        let mut remaining = self;
        while remaining.len() > 0
            invariant
                ecs.wf(),
                index < BITSET_BIT_COUNT,
                index < ecs@.next,
                !ecs@.reclaimed_contains(index as int),
                pre.store_into(index as int, all) == ecs@.store_into(index as int, remaining@),
            decreases remaining.len(),
        {
            let (kind, component) = remaining.remove(0);
            ecs.store_component(kind, index, component);
        }
    }
}

impl<C> EntityDefinition<C> for (usize, C) {
    open spec fn components(&self) -> Seq<(usize, C)> {
        seq![*self]
    }

    fn into_components(self) -> (r: Vec<(usize, C)>) {
        let mut out: Vec<(usize, C)> = Vec::new();
        out.push(self);
        proof {
            assert(out@ =~= seq![self]);
        }
        out
    }

    fn store_component(self, ecs: &mut Ecs<C>, index: usize) {
        let ghost pre = ecs@;
        ecs.store_component(self.0, index, self.1);
        proof {
            let comps = seq![self];
            assert(comps.len() == 1 && comps[0] == self);
            assert(comps.drop_first() =~= Seq::<(usize, C)>::empty());
            let mid = pre.write_component(self.0 as int, index as int, self.1);
            assert(pre.store_into(index as int, comps) == mid.store_into(
                index as int,
                comps.drop_first(),
            ));
            assert(mid.store_into(index as int, Seq::<(usize, C)>::empty()) == mid);
        }
    }
}

impl<C> Ecs<C> {
    /// Removes every component stored at the entity's slot and pushes the
    /// slot onto the reclaim stack for reuse.
    pub fn delete(&mut self, entity_index: EntityIndex)
        requires
            old(self).wf(),
            entity_index.index < old(self)@.next,
            !old(self)@.reclaimed_contains(entity_index.index as int),
            entity_index.generation < usize::MAX,
        ensures
            final(self).wf(),
            final(self)@ == old(self)@.delete(entity_index),
            final(self)@.entity_count() == old(self)@.entity_count() - 1,
    {
        let ghost pre = self@;
        proof {
            self.lemma_wf_model();
            assert(pre.stores.len() == self.component_stores@.len());
        }
        let store_count = self.component_stores.len();
        let mut k: usize = 0;
        while k < store_count
            invariant
                pre == old(self)@,
                pre.stores.len() == store_count,
                store_count == self.component_stores@.len(),
                k <= store_count,
                self.next_index == old(self).next_index,
                self.deleted_entities_indices == old(self).deleted_entities_indices,
                forall|j: int|
                    0 <= j < store_count ==> (#[trigger] self.component_stores@[j]).wf(),
                forall|j: int|
                    k <= j < store_count ==> #[trigger] self.component_stores@[j]
                        == old(self).component_stores@[j],
                forall|j: int|
                    0 <= j < k ==> #[trigger] self.component_stores@[j]@
                        == if entity_index.index < pre.stores[j].len() {
                        pre.stores[j].update(entity_index.index as int, None::<C>)
                    } else {
                        pre.stores[j]
                    },
            decreases store_count - k,
        {
            proof {
                assert(pre.stores[k as int] == old(self).component_stores@[k as int]@);
            }
            let target = &mut self.component_stores[k];
            target.remove(entity_index.index);
            k += 1;
        }
        self.deleted_entities_indices.push(entity_index);
        proof {
            pre.lemma_delete_wf(entity_index);
            assert(self@.stores =~= pre.delete(entity_index).stores);
            assert(self@ == pre.delete(entity_index));
            self.lemma_wf_from_model();
        }
    }

    /// The component of kind `kind` held by the entity, if any. The entity's
    /// generation is not checked: a stale index reaching a reused slot reads
    /// the slot's current occupant.
    pub fn component(&self, kind: usize, entity_index: EntityIndex) -> (r: Option<&C>)
        requires
            self.wf(),
        ensures
            match r {
                Some(c) => self@.component(kind as int, entity_index.index as int) == Some(*c),
                None => self@.component(kind as int, entity_index.index as int) is None,
            },
    {
        self.component_at_index(kind, entity_index.index)
    }

    /// The component of kind `kind` at slot `index`, if any.
    pub fn component_at_index(&self, kind: usize, index: usize) -> (r: Option<&C>)
        requires
            self.wf(),
        ensures
            match r {
                Some(c) => self@.component(kind as int, index as int) == Some(*c),
                None => self@.component(kind as int, index as int) is None,
            },
    {
        if kind >= self.component_stores.len() {
            return None;
        }
        let target = &self.component_stores[kind];
        target.get(index)
    }

    /// A mutable borrow of the component of kind `kind` held by the entity,
    /// if any; writes through the borrow land in that slot and nowhere else.
    /// The entity's generation is not checked, as for [`Ecs::component`].
    pub fn component_mut(&mut self, kind: usize, entity_index: EntityIndex) -> (r: Option<
        &mut C,
    >)
        requires
            old(self).wf(),
        ensures
            final(self).wf(),
            old(self)@.updated_at(final(self)@, kind as int, entity_index.index as int),
            forall|k2: int, s2: int|
                !(k2 == kind && s2 == entity_index.index) ==> #[trigger] final(self)@.component(
                    k2,
                    s2,
                ) == old(self)@.component(k2, s2),
            match r {
                Some(m) => {
                    &&& old(self)@.component(kind as int, entity_index.index as int) == Some(*m)
                    &&& final(self)@.component(kind as int, entity_index.index as int) == Some(
                        *final(m),
                    )
                },
                None => {
                    &&& old(self)@.component(kind as int, entity_index.index as int) is None
                    &&& final(self)@.component(kind as int, entity_index.index as int) is None
                },
            },
    {
        self.component_mut_at_index(kind, entity_index.index)
    }

    /// A mutable borrow of the component of kind `kind` at slot `index`, if
    /// any.
    pub fn component_mut_at_index(&mut self, kind: usize, index: usize) -> (r: Option<&mut C>)
        requires
            old(self).wf(),
        ensures
            final(self).wf(),
            old(self)@.updated_at(final(self)@, kind as int, index as int),
            forall|k2: int, s2: int|
                !(k2 == kind && s2 == index) ==> #[trigger] final(self)@.component(k2, s2) == old(
                    self,
                )@.component(k2, s2),
            match r {
                Some(m) => {
                    &&& old(self)@.component(kind as int, index as int) == Some(*m)
                    &&& final(self)@.component(kind as int, index as int) == Some(*final(m))
                },
                None => {
                    &&& old(self)@.component(kind as int, index as int) is None
                    &&& final(self)@.component(kind as int, index as int) is None
                },
            },
    {
        if kind >= self.component_stores.len() {
            return None;
        }
        let target = &mut self.component_stores[kind];
        target.get_mut(index)
    }

    /// Allocates a slot and stores every component of the definition there;
    /// the returned index identifies the new entity.
    pub fn insert<ED: EntityDefinition<C>>(&mut self, entity_definition: ED) -> (r: EntityIndex)
        requires
            old(self).wf(),
            old(self)@.can_allocate(),
        ensures
            final(self).wf(),
            r == old(self)@.allocated_index(),
            final(self)@ == old(self)@.insert(entity_definition.components()),
            final(self)@.entity_count() == old(self)@.entity_count() + 1,
    {
        let entity_index = self.allocate_index();
        let ghost mid = self@;
        entity_definition.store_component(self, entity_index.index);
        proof {
            mid.lemma_store_into_alloc_state(
                entity_index.index as int,
                entity_definition.components(),
            );
        }
        entity_index
    }

    /// A fresh iterator over the slots that currently match `description`.
    pub fn query(&self, description: &crate::query::Description) -> (r: crate::query::Iter)
        ensures
            r.kinds() == description.kinds@,
            r.cursor() == 0,
    {
        crate::query::Iter::new(description)
    }
}

} // verus!
