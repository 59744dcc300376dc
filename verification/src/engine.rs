//! The engine shell: a builder collects window settings and systems, and
//! the built engine owns the store and runs its systems once per tick.

use vstd::prelude::*;
use crate::ecs::Ecs;
use crate::model::EcsModel;
use crate::system::System;
use crate::system::hosted_run;
use crate::window::Size;

verus! {

/// Engine-wide configuration.
pub struct Settings {
    pub window_settings: crate::window::Settings,
}

impl Default for Settings {
    /// The stock configuration.
    fn default() -> (r: Self)
        ensures
            r.window_settings.title@ == "Butter application"@,
            r.window_settings.size.width == 800,
            r.window_settings.size.height == 600,
            r.window_settings.wasm_canvas_id@ == "butter-application"@,
    {
        Settings { window_settings: crate::window::Settings::default() }
    }
}

/// Whether running each system of `systems` once, in order — each run
/// followed by draining and replaying its command queue — can turn store
/// `pre` into store `post`.
pub open spec fn ran_in_order<S: System<C>, C>(
    systems: Seq<S>,
    pre: EcsModel<C>,
    post: EcsModel<C>,
) -> bool
    decreases systems.len(),
{
    if systems.len() == 0 {
        post == pre
    } else {
        exists|mid: EcsModel<C>|
            #[trigger] hosted_run(systems[0], pre, mid) && ran_in_order(
                systems.drop_first(),
                mid,
                post,
            )
    }
}

/// Extends a run chain by one more system at its end.
pub proof fn lemma_ran_in_order_snoc<S: System<C>, C>(
    systems: Seq<S>,
    system: S,
    pre: EcsModel<C>,
    mid: EcsModel<C>,
    post: EcsModel<C>,
)
    requires
        ran_in_order(systems, pre, mid),
        hosted_run(system, mid, post),
    ensures
        ran_in_order(systems.push(system), pre, post),
    decreases systems.len(),
{
    if systems.len() == 0 {
        assert(systems.push(system)[0] == system);
        assert(systems.push(system).drop_first() =~= Seq::<S>::empty());
        assert(hosted_run(system, pre, post));
        assert(ran_in_order(systems.push(system).drop_first(), post, post));
    } else {
        let m1 = choose|m1: EcsModel<C>|
            #[trigger] hosted_run(systems[0], pre, m1) && ran_in_order(
                systems.drop_first(),
                m1,
                mid,
            );
        lemma_ran_in_order_snoc(systems.drop_first(), system, m1, mid, post);
        assert(systems.push(system)[0] == systems[0]);
        assert(systems.push(system).drop_first() =~= systems.drop_first().push(system));
        assert(ran_in_order(systems.push(system).drop_first(), m1, post));
    }
}

/// The engine: configuration, the systems registered to run, and the store
/// they run against. The host calls [`ButterEngine::init`] once and then
/// [`ButterEngine::update`] once per tick.
pub struct ButterEngine<S, C> {
    settings: Settings,
    init_systems: Vec<S>,
    systems: Vec<S>,
    ecs: Ecs<C>,
}

impl<S, C> ButterEngine<S, C> {
    /// The engine's configuration.
    pub closed spec fn spec_settings(&self) -> Settings {
        self.settings
    }

    /// The store, as mathematical values.
    pub closed spec fn ecs_model(&self) -> EcsModel<C> {
        self.ecs@
    }

    /// The store is well formed.
    pub closed spec fn ecs_wf(&self) -> bool {
        self.ecs.wf()
    }

    /// The registered startup systems, in registration order.
    pub closed spec fn spec_init_systems(&self) -> Seq<S> {
        self.init_systems@
    }

    /// The registered per-tick systems, in registration order.
    pub closed spec fn spec_systems(&self) -> Seq<S> {
        self.systems@
    }
}

impl<S: System<C>, C> ButterEngine<S, C> {
    /// The store is well formed and every registered system may run.
    pub open spec fn wf(&self) -> bool {
        &&& self.ecs_wf()
        &&& (forall|i: int|
            0 <= i < self.spec_init_systems().len() ==> (
            #[trigger] self.spec_init_systems()[i]).wf())
        &&& (forall|i: int|
            0 <= i < self.spec_systems().len() ==> (#[trigger] self.spec_systems()[i]).wf())
    }

    /// The engine's configuration.
    pub fn settings(&self) -> (r: &Settings)
        ensures
            *r == self.spec_settings(),
    {
        &self.settings
    }

    /// Runs every startup system exactly once, in registration order, each
    /// run followed by draining and replaying its command queue; the
    /// per-tick systems are not touched.
    pub fn init(&mut self)
        requires
            old(self).wf(),
        ensures
            final(self).wf(),
            final(self).spec_settings() == old(self).spec_settings(),
            ran_in_order(
                old(self).spec_init_systems(),
                old(self).ecs_model(),
                final(self).ecs_model(),
            ),
            final(self).spec_init_systems().len() == old(self).spec_init_systems().len(),
            forall|i: int|
                0 <= i < final(self).spec_init_systems().len()
                    ==> (#[trigger] final(self).spec_init_systems()[i]).pending().len() == 0,
            final(self).spec_systems() == old(self).spec_systems(),
    {
        proof {
            assert forall|j: int|
                0 <= j < self.init_systems@.len() implies (#[trigger] self.init_systems@[j]).wf() by {
                assert(self.spec_init_systems()[j] == self.init_systems@[j]);
            }
            assert forall|j: int|
                0 <= j < self.systems@.len() implies (#[trigger] self.systems@[j]).wf() by {
                assert(self.spec_systems()[j] == self.systems@[j]);
            }
        }
        let count = self.init_systems.len();
        let mut i: usize = 0;
        while i < count
            invariant
                self.ecs.wf(),
                forall|j: int| 0 <= j < count ==> (#[trigger] self.init_systems@[j]).wf(),
                forall|j: int|
                    0 <= j < self.systems@.len() ==> (#[trigger] self.systems@[j]).wf(),
                count == self.init_systems@.len(),
                count == old(self).init_systems@.len(),
                i <= count,
                self.settings == old(self).settings,
                self.systems == old(self).systems,
                forall|j: int|
                    i <= j < count ==> #[trigger] self.init_systems@[j] == old(
                        self,
                    ).init_systems@[j],
                forall|j: int|
                    0 <= j < i ==> (#[trigger] self.init_systems@[j]).pending().len() == 0,
                ran_in_order(
                    old(self).init_systems@.subrange(0, i as int),
                    old(self).ecs@,
                    self.ecs@,
                ),
            decreases count - i,
        {
            let ghost chain_pre = self.ecs@;
            let system = &mut self.init_systems[i];
            self.ecs.run_system(system);
            proof {
                lemma_ran_in_order_snoc(
                    old(self).init_systems@.subrange(0, i as int),
                    old(self).init_systems@[i as int],
                    old(self).ecs@,
                    chain_pre,
                    self.ecs@,
                );
                assert(old(self).init_systems@.subrange(0, i + 1) =~= old(
                    self,
                ).init_systems@.subrange(0, i as int).push(old(self).init_systems@[i as int]));
            }
            i += 1;
        }
        proof {
            assert(old(self).init_systems@.subrange(0, count as int) =~= old(
                self,
            ).init_systems@);
            assert forall|j: int|
                0 <= j < self.spec_init_systems().len() implies (
            #[trigger] self.spec_init_systems()[j]).wf() && self.spec_init_systems()[j].pending().len()
                == 0 by {
                assert(self.spec_init_systems()[j] == self.init_systems@[j]);
            }
            assert forall|j: int|
                0 <= j < self.spec_systems().len() implies (
            #[trigger] self.spec_systems()[j]).wf() by {
                assert(self.spec_systems()[j] == self.systems@[j]);
            }
        }
    }

    /// Runs every per-tick system exactly once, in registration order, each
    /// run followed by draining and replaying its command queue; the
    /// startup systems are not touched.
    pub fn update(&mut self)
        requires
            old(self).wf(),
        ensures
            final(self).wf(),
            final(self).spec_settings() == old(self).spec_settings(),
            ran_in_order(
                old(self).spec_systems(),
                old(self).ecs_model(),
                final(self).ecs_model(),
            ),
            final(self).spec_systems().len() == old(self).spec_systems().len(),
            forall|i: int|
                0 <= i < final(self).spec_systems().len()
                    ==> (#[trigger] final(self).spec_systems()[i]).pending().len() == 0,
            final(self).spec_init_systems() == old(self).spec_init_systems(),
    {
        proof {
            assert forall|j: int|
                0 <= j < self.systems@.len() implies (#[trigger] self.systems@[j]).wf() by {
                assert(self.spec_systems()[j] == self.systems@[j]);
            }
            assert forall|j: int|
                0 <= j < self.init_systems@.len() implies (
            #[trigger] self.init_systems@[j]).wf() by {
                assert(self.spec_init_systems()[j] == self.init_systems@[j]);
            }
        }
        let count = self.systems.len();
        let mut i: usize = 0;
        while i < count
            invariant
                self.ecs.wf(),
                forall|j: int| 0 <= j < count ==> (#[trigger] self.systems@[j]).wf(),
                forall|j: int|
                    0 <= j < self.init_systems@.len() ==> (
                    #[trigger] self.init_systems@[j]).wf(),
                count == self.systems@.len(),
                count == old(self).systems@.len(),
                i <= count,
                self.settings == old(self).settings,
                self.init_systems == old(self).init_systems,
                forall|j: int|
                    i <= j < count ==> #[trigger] self.systems@[j] == old(self).systems@[j],
                forall|j: int|
                    0 <= j < i ==> (#[trigger] self.systems@[j]).pending().len() == 0,
                ran_in_order(
                    old(self).systems@.subrange(0, i as int),
                    old(self).ecs@,
                    self.ecs@,
                ),
            decreases count - i,
        {
            let ghost chain_pre = self.ecs@;
            let system = &mut self.systems[i];
            self.ecs.run_system(system);
            proof {
                lemma_ran_in_order_snoc(
                    old(self).systems@.subrange(0, i as int),
                    old(self).systems@[i as int],
                    old(self).ecs@,
                    chain_pre,
                    self.ecs@,
                );
                assert(old(self).systems@.subrange(0, i + 1) =~= old(self).systems@.subrange(
                    0,
                    i as int,
                ).push(old(self).systems@[i as int]));
            }
            i += 1;
        }
        proof {
            assert(old(self).systems@.subrange(0, count as int) =~= old(self).systems@);
            assert forall|j: int|
                0 <= j < self.spec_systems().len() implies (
            #[trigger] self.spec_systems()[j]).wf() && self.spec_systems()[j].pending().len()
                == 0 by {
                assert(self.spec_systems()[j] == self.systems@[j]);
            }
            assert forall|j: int|
                0 <= j < self.spec_init_systems().len() implies (
            #[trigger] self.spec_init_systems()[j]).wf() by {
                assert(self.spec_init_systems()[j] == self.init_systems@[j]);
            }
        }
    }

    /// How many entities the store currently holds.
    pub fn entity_count(&self) -> (r: usize)
        requires
            self.wf(),
        ensures
            r == self.ecs_model().entity_count(),
    {
        self.ecs.entity_count()
    }
}

/// Collects window settings and systems, then builds the engine.
pub struct ButterEngineBuilder<S> {
    pub window_title: Option<String>,
    pub window_size: Option<Size>,
    pub wasm_canvas_id: Option<String>,
    pub init_systems: Vec<S>,
    pub systems: Vec<S>,
}

impl<S> ButterEngineBuilder<S> {
    /// An empty builder.
    pub fn new() -> (r: Self)
        ensures
            r.window_title is None,
            r.window_size is None,
            r.wasm_canvas_id is None,
            r.init_systems@.len() == 0,
            r.systems@.len() == 0,
    {
        ButterEngineBuilder {
            window_title: None,
            window_size: None,
            wasm_canvas_id: None,
            init_systems: Vec::new(),
            systems: Vec::new(),
        }
    }

    /// Sets the window title.
    pub fn with_window_title(&mut self, window_title: &str) -> (r: &mut Self)
        ensures
            *final(self) == *final(r),
            r.window_title matches Some(t) && t@ == window_title@,
            r.window_size == old(self).window_size,
            r.wasm_canvas_id == old(self).wasm_canvas_id,
            r.init_systems == old(self).init_systems,
            r.systems == old(self).systems,
    {
        self.window_title = Some(window_title.to_owned());
        self
    }

    /// Sets the window size.
    pub fn with_window_size(&mut self, window_size: Size) -> (r: &mut Self)
        ensures
            *final(self) == *final(r),
            r.window_size == Some(window_size),
            r.window_title == old(self).window_title,
            r.wasm_canvas_id == old(self).wasm_canvas_id,
            r.init_systems == old(self).init_systems,
            r.systems == old(self).systems,
    {
        self.window_size = Some(window_size);
        self
    }

    /// Sets the canvas the web build renders into.
    pub fn with_wasm_canvas_id(&mut self, wasm_canvas_id: &str) -> (r: &mut Self)
        ensures
            *final(self) == *final(r),
            r.wasm_canvas_id matches Some(c) && c@ == wasm_canvas_id@,
            r.window_title == old(self).window_title,
            r.window_size == old(self).window_size,
            r.init_systems == old(self).init_systems,
            r.systems == old(self).systems,
    {
        self.wasm_canvas_id = Some(wasm_canvas_id.to_owned());
        self
    }

    /// Registers a startup system, run once when the engine starts: the
    /// earlier registrations are kept in place and the new system, made
    /// from `init_system` with an empty queue, is appended.
    pub fn with_init_system<C, IS: crate::system::Into<C, SystemType = S>>(
        &mut self,
        init_system: IS,
    ) -> (r: &mut Self)
        ensures
            *final(self) == *final(r),
            r.init_systems@.len() == old(self).init_systems@.len() + 1,
            r.init_systems@.subrange(0, old(self).init_systems@.len() as int) == old(
                self,
            ).init_systems@,
            init_system.is_system_of(r.init_systems@[old(self).init_systems@.len() as int]),
            r.systems == old(self).systems,
            r.window_title == old(self).window_title,
            r.window_size == old(self).window_size,
            r.wasm_canvas_id == old(self).wasm_canvas_id,
    {
        self.init_systems.push(init_system.into_system());
        proof {
            assert(self.init_systems@.subrange(0, old(self).init_systems@.len() as int) =~= old(
                self,
            ).init_systems@);
        }
        self
    }

    /// Registers a system, run once per tick: the earlier registrations are
    /// kept in place and the new system, made from `system` with an empty
    /// queue, is appended.
    pub fn with_system<C, IS: crate::system::Into<C, SystemType = S>>(&mut self, system: IS) -> (r:
        &mut Self)
        ensures
            *final(self) == *final(r),
            r.systems@.len() == old(self).systems@.len() + 1,
            r.systems@.subrange(0, old(self).systems@.len() as int) == old(self).systems@,
            system.is_system_of(r.systems@[old(self).systems@.len() as int]),
            r.init_systems == old(self).init_systems,
            r.window_title == old(self).window_title,
            r.window_size == old(self).window_size,
            r.wasm_canvas_id == old(self).wasm_canvas_id,
    {
        self.systems.push(system.into_system());
        proof {
            assert(self.systems@.subrange(0, old(self).systems@.len() as int) =~= old(
                self,
            ).systems@);
        }
        self
    }

    /// Builds the engine: the registered systems are carried over in
    /// registration order, the stock title, canvas and size fill in where
    /// none was set, and the store starts empty and well formed; the
    /// builder's two system lists are left empty.
    pub fn build<C>(&mut self) -> (r: ButterEngine<S, C>)
        ensures
            r.spec_settings().window_settings.title@ == (match old(self).window_title {
                Some(t) => t@,
                None => "Butter App"@,
            }),
            r.spec_settings().window_settings.wasm_canvas_id@ == (match old(
                self,
            ).wasm_canvas_id {
                Some(c) => c@,
                None => "butter-app"@,
            }),
            r.spec_settings().window_settings.size == (match old(self).window_size {
                Some(s) => s,
                None => Size { width: 800, height: 600 },
            }),
            r.spec_init_systems() == old(self).init_systems@,
            r.spec_systems() == old(self).systems@,
            r.ecs_model() == EcsModel::<C>::empty(),
            r.ecs_wf(),
            final(self).init_systems@.len() == 0,
            final(self).systems@.len() == 0,
    {
        let title = match self.window_title.take() {
            Some(t) => t,
            None => "Butter App".to_owned(),
        };
        let wasm_canvas_id = match self.wasm_canvas_id.take() {
            Some(c) => c,
            None => "butter-app".to_owned(),
        };
        let size = match self.window_size.take() {
            Some(s) => s,
            None => Size::default(),
        };
        let mut init_systems: Vec<S> = Vec::new();
        core::mem::swap(&mut init_systems, &mut self.init_systems);
        let mut systems: Vec<S> = Vec::new();
        core::mem::swap(&mut systems, &mut self.systems);
        ButterEngine {
            settings: Settings {
                window_settings: crate::window::Settings { title, size, wasm_canvas_id },
            },
            init_systems,
            systems,
            ecs: Ecs::new(),
        }
    }
}

impl<S> Default for ButterEngineBuilder<S> {
    /// An empty builder.
    fn default() -> (r: Self)
        ensures
            r.window_title is None,
            r.window_size is None,
            r.wasm_canvas_id is None,
            r.init_systems@.len() == 0,
            r.systems@.len() == 0,
    {
        ButterEngineBuilder::new()
    }
}

} // verus!
