//! Systems: a plain function becomes a schedulable unit that is handed the
//! command queue and the store each time it runs; the host then drains the
//! queue and replays the deferred insertions.

use vstd::prelude::*;
use crate::commands::CommandQueue;
use crate::commands::Command;
use crate::commands::InsertEntityCommand;
use crate::commands::definitions_of;
use crate::ecs::Ecs;
use crate::model::EcsModel;

verus! {

/// A schedulable unit: logic that runs against the store and may defer
/// entity insertions through its command queue.
pub trait System<C>: Sized {
    /// The conditions under which the system may run.
    spec fn wf(&self) -> bool;

    /// The insertions the system has deferred so far.
    spec fn pending(&self) -> Seq<Seq<(usize, C)>>;

    /// Whether one run of the system's logic can take a store with model
    /// `pre` while `pre_pending` insertions are deferred, and leave a store
    /// with model `post` with `post_pending` insertions deferred.
    spec fn run_step(
        &self,
        pre_pending: Seq<Seq<(usize, C)>>,
        pre: EcsModel<C>,
        post_pending: Seq<Seq<(usize, C)>>,
        post: EcsModel<C>,
    ) -> bool;

    /// Runs the system's logic exactly once against the store; the new
    /// store and queue are one `run_step` of the old ones.
    fn run(&mut self, ecs: &mut Ecs<C>)
        requires
            old(self).wf(),
            old(ecs).wf(),
        ensures
            final(self).wf(),
            final(ecs).wf(),
            old(self).run_step(
                old(self).pending(),
                old(ecs)@,
                final(self).pending(),
                final(ecs)@,
            ),
    ;

    /// The system's command queue, for the host to drain.
    fn command_queue(&mut self) -> (r: &mut CommandQueue<C>)
        requires
            old(self).wf(),
        ensures
            r@ == old(self).pending(),
            final(self).pending() == final(r)@,
            final(self).wf(),
    ;
}

/// Whether one hosted run of `system` — its logic once, then its queue
/// drained and replayed — can turn store `pre` into store `post`.
pub open spec fn hosted_run<C, S: System<C>>(system: S, pre: EcsModel<C>, post: EcsModel<C>) -> bool {
    exists|mid_pending: Seq<Seq<(usize, C)>>, mid: EcsModel<C>|
        #[trigger] system.run_step(system.pending(), pre, mid_pending, mid) && post == mid.replay(
            mid_pending,
        )
}

/// A system wrapping a plain function together with its command queue. The
/// function receives the queue and the store each time the system runs, and
/// hands both back when it is done.
pub struct Function<F, C> {
    command_queue: CommandQueue<C>,
    system_fn: F,
}

impl<F, C> Function<F, C> {
    /// The wrapped function.
    pub closed spec fn func(&self) -> F {
        self.system_fn
    }
}

impl<C, F: Fn(CommandQueue<C>, Ecs<C>) -> (CommandQueue<C>, Ecs<C>)> System<C> for Function<
    F,
    C,
> {
    /// The wrapped function accepts any well-formed store, and every store
    /// it hands back is well formed.
    open spec fn wf(&self) -> bool {
        &&& (forall|q: CommandQueue<C>, e: Ecs<C>|
            e.wf() ==> #[trigger] call_requires(self.func(), (q, e)))
        &&& (forall|q: CommandQueue<C>, e: Ecs<C>, r: (CommandQueue<C>, Ecs<C>)|
            e.wf() && #[trigger] call_ensures(self.func(), (q, e), r) ==> r.1.wf())
    }

    closed spec fn pending(&self) -> Seq<Seq<(usize, C)>> {
        self.command_queue@
    }

    /// One call of the wrapped function relates the queues and stores.
    open spec fn run_step(
        &self,
        pre_pending: Seq<Seq<(usize, C)>>,
        pre: EcsModel<C>,
        post_pending: Seq<Seq<(usize, C)>>,
        post: EcsModel<C>,
    ) -> bool {
        exists|q: CommandQueue<C>, e: Ecs<C>, r: (CommandQueue<C>, Ecs<C>)|
            {
                &&& q@ == pre_pending
                &&& e@ == pre
                &&& r.0@ == post_pending
                &&& r.1@ == post
                &&& #[trigger] call_ensures(self.func(), (q, e), r)
            }
    }

    fn run(&mut self, ecs: &mut Ecs<C>) {
        proof {
            assert(self.func() == self.system_fn);
        }
        let mut taken_queue = CommandQueue::new();
        core::mem::swap(&mut taken_queue, &mut self.command_queue);
        let mut taken = Ecs::new();
        core::mem::swap(&mut taken, ecs);
        let ghost pre_queue = taken_queue;
        let ghost pre_store = taken;
        let result = (self.system_fn)(taken_queue, taken);
        let ghost returned = result;
        let (returned_queue, returned_store) = result;
        self.command_queue = returned_queue;
        *ecs = returned_store;
        proof {
            assert(call_ensures(old(self).func(), (pre_queue, pre_store), returned));
        }
    }

    fn command_queue(&mut self) -> (r: &mut CommandQueue<C>) {
        proof {
            assert(self.func() == self.system_fn);
        }
        &mut self.command_queue
    }
}

/// Turns a value into a schedulable system; implemented for every function
/// that takes the command queue and the store and hands both back.
pub trait Into<C>: Sized {
    /// The kind of system the value becomes.
    type SystemType: System<C>;

    /// Whether `system` is the system this value becomes: the value's own
    /// logic behind an empty command queue.
    spec fn is_system_of(self, system: Self::SystemType) -> bool;

    /// Wraps the value as a system with an empty command queue.
    fn into_system(self) -> (r: Self::SystemType)
        ensures
            self.is_system_of(r),
            System::pending(&r).len() == 0,
    ;
}

impl<C, F: Fn(CommandQueue<C>, Ecs<C>) -> (CommandQueue<C>, Ecs<C>)> Into<C> for F {
    type SystemType = Function<F, C>;

    open spec fn is_system_of(self, system: Function<F, C>) -> bool {
        system.func() == self && System::pending(&system) =~= Seq::<Seq<(usize, C)>>::empty()
    }

    fn into_system(self) -> (r: Function<F, C>) {
        Function { command_queue: CommandQueue::new(), system_fn: self }
    }
}

/// What a function value turned into a system guarantees: the system wraps
/// that very function behind an empty command queue, and it may run against
/// any well-formed store whenever the function does.
pub proof fn lemma_function_system<C, F: Fn(CommandQueue<C>, Ecs<C>) -> (CommandQueue<C>, Ecs<C>)>(
    logic: F,
    system: Function<F, C>,
)
    requires
        logic.is_system_of(system),
    ensures
        system.func() == logic,
        System::pending(&system).len() == 0,
        (forall|q: CommandQueue<C>, e: Ecs<C>|
            e.wf() ==> #[trigger] call_requires(logic, (q, e))) && (forall|
            q: CommandQueue<C>,
            e: Ecs<C>,
            r: (CommandQueue<C>, Ecs<C>),
        |
            e.wf() && #[trigger] call_ensures(logic, (q, e), r) ==> r.1.wf()) ==> system.wf(),
{
}

impl<C> Ecs<C> {
    /// Runs the system exactly once, then drains its command queue and
    /// replays the deferred insertions in order: the final store is one
    /// hosted run of the system away from the old one. Exhausting the fixed
    /// slot capacity is fatal to the storage design; since the replay cannot
    /// abort, an insertion that finds the capacity exhausted is dropped
    /// instead.
    pub fn run_system<S: System<C>>(&mut self, system: &mut S)
        requires
            old(self).wf(),
            old(system).wf(),
        ensures
            final(self).wf(),
            final(system).wf(),
            final(system).pending().len() == 0,
            hosted_run(*old(system), old(self)@, final(self)@),
    {
        system.run(self);
        let ghost mid_pending = system.pending();
        let ghost mid_store = self@;
        let queue = system.command_queue();
        let commands = queue.drain();
        self.apply_commands(commands);
        proof {
            assert(old(system).run_step(old(system).pending(), old(self)@, mid_pending, mid_store));
            assert(self@ == mid_store.replay(mid_pending));
        }
    }

    /// Replays a list of deferred insertions in order; an insertion that
    /// finds the fixed slot capacity exhausted is dropped, since the replay
    /// cannot abort.
    pub fn apply_commands(&mut self, commands: Vec<InsertEntityCommand<C>>)
        requires
            old(self).wf(),
        ensures
            final(self).wf(),
            final(self)@ == old(self)@.replay(definitions_of(commands@)),
    {
        let mut remaining = commands;
        while remaining.len() > 0
            invariant
                self.wf(),
                old(self)@.replay(definitions_of(commands@)) == self@.replay(
                    definitions_of(remaining@),
                ),
            decreases remaining.len(),
        {
            let ghost before = remaining@;
            let command = remaining.remove(0);
            proof {
                assert(definitions_of(before).drop_first() =~= definitions_of(remaining@));
                assert(definitions_of(before)[0] == command.definition());
            }
            if self.can_allocate() {
                command.execute(self);
            }
        }
        proof {
            assert(definitions_of(remaining@) =~= Seq::<Seq<(usize, C)>>::empty());
        }
    }
}

} // verus!
