//! Deferred mutation: while a system runs it may not reshape the store, so
//! it appends entity insertions to a command queue; the host drains the
//! queue and replays the insertions once the system has returned.

use vstd::prelude::*;
use crate::ecs::Ecs;
use crate::ecs::EntityDefinition;

verus! {

/// A deferred operation against the store.
pub trait Command<C>: Sized {
    /// The components of the entity the command will insert.
    spec fn definition(&self) -> Seq<(usize, C)>;

    /// Replays the command against the store.
    fn execute(self, ecs: &mut Ecs<C>)
        requires
            old(ecs).wf(),
            old(ecs)@.can_allocate(),
        ensures
            final(ecs).wf(),
            final(ecs)@ == old(ecs)@.insert(self.definition()),
    ;
}

/// Holds one entity definition until the host replays it.
pub struct InsertEntityCommand<C> {
    entity_definition: Vec<(usize, C)>,
}

impl<C> InsertEntityCommand<C> {
    /// Wraps `entity_definition` for deferred insertion.
    pub fn new<ED: EntityDefinition<C>>(entity_definition: ED) -> (r: Self)
        ensures
            r.definition() == entity_definition.components(),
    {
        InsertEntityCommand { entity_definition: entity_definition.into_components() }
    }
}

impl<C> Command<C> for InsertEntityCommand<C> {
    closed spec fn definition(&self) -> Seq<(usize, C)> {
        self.entity_definition@
    }

    fn execute(self, ecs: &mut Ecs<C>) {
        ecs.insert(self.entity_definition);
    }
}

/// The definitions a list of commands will insert, in order.
pub open spec fn definitions_of<C>(commands: Seq<InsertEntityCommand<C>>) -> Seq<
    Seq<(usize, C)>,
> {
    commands.map_values(|c: InsertEntityCommand<C>| c.definition())
}

/// An ordered list of deferred entity insertions, drained exactly once by
/// the host after the owning system has run.
pub struct CommandQueue<C> {
    commands: Vec<InsertEntityCommand<C>>,
}

impl<C> View for CommandQueue<C> {
    type V = Seq<Seq<(usize, C)>>;

    closed spec fn view(&self) -> Seq<Seq<(usize, C)>> {
        definitions_of(self.commands@)
    }
}

impl<C> CommandQueue<C> {
    /// An empty queue.
    pub fn new() -> (r: Self)
        ensures
            r@ == Seq::<Seq<(usize, C)>>::empty(),
    {
        let r = CommandQueue { commands: Vec::new() };
        proof {
            assert(r@ =~= Seq::<Seq<(usize, C)>>::empty());
        }
        r
    }

    /// Appends a deferred insertion of `entity_definition`.
    pub fn insert<ED: EntityDefinition<C>>(&mut self, entity_definition: ED)
        ensures
            final(self)@ == old(self)@.push(entity_definition.components()),
    {
        let ghost comps = entity_definition.components();
        self.commands.push(InsertEntityCommand::new(entity_definition));
        proof {
            assert(self@ =~= old(self)@.push(comps));
        }
    }

    /// Appends every command of `commands`, keeping their order.
    pub fn extend(&mut self, commands: Vec<InsertEntityCommand<C>>)
        ensures
            final(self)@ == old(self)@ + definitions_of(commands@),
    {
        let ghost added = commands@;
        let mut remaining = commands;
        while remaining.len() > 0
            invariant
                old(self)@ + definitions_of(added) == self@ + definitions_of(remaining@),
            decreases remaining.len(),
        {
            let command = remaining.remove(0);
            let ghost before = self@;
            self.commands.push(command);
            proof {
                assert(self@ =~= before.push(command.definition()));
                assert(before + definitions_of(remaining@.insert(0, command)) =~= self@
                    + definitions_of(remaining@));
            }
        }
        proof {
            assert(definitions_of(remaining@) =~= Seq::<Seq<(usize, C)>>::empty());
            assert(old(self)@ + definitions_of(added) =~= self@);
        }
    }

    /// Empties the queue, handing its commands back in order.
    pub fn drain(&mut self) -> (r: Vec<InsertEntityCommand<C>>)
        ensures
            definitions_of(r@) == old(self)@,
            final(self)@ == Seq::<Seq<(usize, C)>>::empty(),
    {
        let mut out: Vec<InsertEntityCommand<C>> = Vec::new();
        core::mem::swap(&mut out, &mut self.commands);
        proof {
            assert(self@ =~= Seq::<Seq<(usize, C)>>::empty());
        }
        out
    }
}

impl<C> Default for CommandQueue<C> {
    /// An empty queue.
    fn default() -> (r: Self)
        ensures
            r@ == Seq::<Seq<(usize, C)>>::empty(),
    {
        CommandQueue::new()
    }
}

} // verus!
