//! The applicator: turns what mods queued in a registrar into the ordered
//! list of changes to make to the application's world: resources first,
//! then components, then groups of systems.

use vstd::prelude::*;
use crate::registrar::{PendingSystems, Registrar};

verus! {

/// One change to make to the application's world.
pub enum Application<D, S> {
    /// Register a resource with the given descriptor.
    RegisterResource(D),
    /// Register a component with the given descriptor.
    RegisterComponent(D),
    /// Add a group of systems to its schedule, if that schedule exists.
    AddSystems(PendingSystems<S>),
}

/// The changes that apply the given queues: every resource, then every
/// component, then every group of systems, each in the order it was queued.
pub open spec fn application_plan<D, S>(
    resources: Seq<D>,
    components: Seq<D>,
    systems: Seq<PendingSystems<S>>,
) -> Seq<Application<D, S>> {
    resources.map_values(|d: D| Application::<D, S>::RegisterResource(d)) + components.map_values(
        |d: D| Application::<D, S>::RegisterComponent(d),
    ) + systems.map_values(|s: PendingSystems<S>| Application::<D, S>::AddSystems(s))
}

/// Owns the registrar that mods fill, and applies what they queued.
pub struct Applicator<D, S> {
    registrar: Registrar<D, S>,
}

impl<D, S> Applicator<D, S> {
    /// The registrar this applicator drains.
    pub closed spec fn inner(&self) -> Registrar<D, S> {
        self.registrar
    }

    /// Appends a change for each queued group of systems, and empties that
    /// queue.
    fn add_systems(&mut self, plan: &mut Vec<Application<D, S>>)
        ensures
            final(plan)@ == old(plan)@ + old(self).inner().queued_systems().map_values(
                |s: PendingSystems<S>| Application::<D, S>::AddSystems(s),
            ),
            final(self).inner().queued_systems() == Seq::<PendingSystems<S>>::empty(),
            final(self).inner().queued_resources() == old(self).inner().queued_resources(),
            final(self).inner().queued_components() == old(self).inner().queued_components(),
            final(self).inner().registered() == old(self).inner().registered(),
    {
        let drained = self.registrar.drain_systems();
        let ghost base = plan@;
        for systems in it: drained.into_iter()
            invariant
                it.seq() == drained@,
                plan@.len() == base.len() + it.index(),
                forall|j: int| 0 <= j < base.len() ==> plan@[j] == base[j],
                forall|j: int|
                    0 <= j < it.index() ==> plan@[base.len() + j] == Application::<D, S>::AddSystems(
                        drained@[j],
                    ),
        {
            plan.push(Application::AddSystems(systems));
        }
        assert(plan@ =~= base + drained@.map_values(
            |s: PendingSystems<S>| Application::<D, S>::AddSystems(s),
        ));
    }

    /// Appends a change for each queued component, and empties that queue.
    fn register_components(&mut self, plan: &mut Vec<Application<D, S>>)
        ensures
            final(plan)@ == old(plan)@ + old(self).inner().queued_components().map_values(
                |d: D| Application::<D, S>::RegisterComponent(d),
            ),
            final(self).inner().queued_components() == Seq::<D>::empty(),
            final(self).inner().queued_resources() == old(self).inner().queued_resources(),
            final(self).inner().queued_systems() == old(self).inner().queued_systems(),
            final(self).inner().registered() == old(self).inner().registered(),
    {
        let drained = self.registrar.drain_components();
        let ghost base = plan@;
        for descriptor in it: drained.into_iter()
            invariant
                it.seq() == drained@,
                plan@.len() == base.len() + it.index(),
                forall|j: int| 0 <= j < base.len() ==> plan@[j] == base[j],
                forall|j: int|
                    0 <= j < it.index() ==> plan@[base.len() + j]
                        == Application::<D, S>::RegisterComponent(drained@[j]),
        {
            plan.push(Application::RegisterComponent(descriptor));
        }
        assert(plan@ =~= base + drained@.map_values(
            |d: D| Application::<D, S>::RegisterComponent(d),
        ));
    }

    /// Appends a change for each queued resource, and empties that queue.
    fn register_resources(&mut self, plan: &mut Vec<Application<D, S>>)
        ensures
            final(plan)@ == old(plan)@ + old(self).inner().queued_resources().map_values(
                |d: D| Application::<D, S>::RegisterResource(d),
            ),
            final(self).inner().queued_resources() == Seq::<D>::empty(),
            final(self).inner().queued_components() == old(self).inner().queued_components(),
            final(self).inner().queued_systems() == old(self).inner().queued_systems(),
            final(self).inner().registered() == old(self).inner().registered(),
    {
        let drained = self.registrar.drain_resources();
        let ghost base = plan@;
        for descriptor in it: drained.into_iter()
            invariant
                it.seq() == drained@,
                plan@.len() == base.len() + it.index(),
                forall|j: int| 0 <= j < base.len() ==> plan@[j] == base[j],
                forall|j: int|
                    0 <= j < it.index() ==> plan@[base.len() + j]
                        == Application::<D, S>::RegisterResource(drained@[j]),
        {
            plan.push(Application::RegisterResource(descriptor));
        }
        assert(plan@ =~= base + drained@.map_values(
            |d: D| Application::<D, S>::RegisterResource(d),
        ));
    }

    /// Takes everything queued in the registrar and returns the changes that
    /// apply it, resources first, then components, then groups of systems;
    /// the queues are left empty and the record of registered libraries is
    /// left as it is.
    pub fn apply(&mut self) -> (plan: Vec<Application<D, S>>)
        ensures
            plan@ == application_plan(
                old(self).inner().queued_resources(),
                old(self).inner().queued_components(),
                old(self).inner().queued_systems(),
            ),
            final(self).inner().queued_resources() == Seq::<D>::empty(),
            final(self).inner().queued_components() == Seq::<D>::empty(),
            final(self).inner().queued_systems() == Seq::<PendingSystems<S>>::empty(),
            final(self).inner().registered() == old(self).inner().registered(),
    {
        let mut plan: Vec<Application<D, S>> = Vec::new();
        self.register_resources(&mut plan);
        self.register_components(&mut plan);
        self.add_systems(&mut plan);
        plan
    }

    /// An applicator around an empty registrar.
    pub fn new() -> (applicator: Self)
        ensures
            applicator.inner().registered() == Map::<
                crate::registrar::AssetKey,
                Set<crate::dynapp::SystemsRegistrationContext>,
            >::empty(),
            applicator.inner().queued_resources() == Seq::<D>::empty(),
            applicator.inner().queued_components() == Seq::<D>::empty(),
            applicator.inner().queued_systems() == Seq::<PendingSystems<S>>::empty(),
    {
        Applicator { registrar: Registrar::new() }
    }

    /// The registrar, for mods to queue into.
    pub fn registrar(&mut self) -> (registrar: &mut Registrar<D, S>)
        ensures
            *registrar == old(self).inner(),
            final(self).inner() == *final(registrar),
    {
        &mut self.registrar
    }
}

/// Applying twice in a row applies nothing the second time: the first
/// application empties every queue.
pub proof fn law_second_apply_is_empty<D, S>()
    ensures
        application_plan(
            Seq::<D>::empty(),
            Seq::<D>::empty(),
            Seq::<PendingSystems<S>>::empty(),
        ) == Seq::<Application<D, S>>::empty(),
{
    assert(application_plan(
        Seq::<D>::empty(),
        Seq::<D>::empty(),
        Seq::<PendingSystems<S>>::empty(),
    ) =~= Seq::<Application<D, S>>::empty());
}

/// The plan registers every resource before any component, and every
/// component before any group of systems, each in the order queued.
pub proof fn law_plan_order<D, S>(
    resources: Seq<D>,
    components: Seq<D>,
    systems: Seq<PendingSystems<S>>,
)
    ensures
        application_plan(resources, components, systems).len() == resources.len()
            + components.len() + systems.len(),
        forall|i: int|
            0 <= i < resources.len() ==> #[trigger] application_plan(resources, components, systems)[i]
                == Application::<D, S>::RegisterResource(resources[i]),
        forall|i: int|
            0 <= i < components.len() ==> #[trigger] application_plan(resources, components, systems)[resources.len()
                + i] == Application::<D, S>::RegisterComponent(components[i]),
        forall|i: int|
            0 <= i < systems.len() ==> #[trigger] application_plan(resources, components, systems)[resources.len()
                + components.len() + i] == Application::<D, S>::AddSystems(systems[i]),
{
}

} // verus!
