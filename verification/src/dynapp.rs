//! What a dynamic library hands back when its entry point is run: the groups
//! of systems it wants scheduled, each tagged with the schedule it belongs to
//! and the system set that wraps it.

use vstd::prelude::*;

verus! {

/// Where a group of systems goes: the schedule that runs it and the system
/// set it is placed in, each given by the identity of its interned label.
#[derive(Clone, Copy, PartialEq, Eq, Structural, Debug, Hash)]
pub struct SystemsRegistrationContext {
    /// Identity of the interned schedule label.
    pub schedule: u64,
    /// Identity of the interned system-set label.
    pub set: u64,
}

impl SystemsRegistrationContext {
    /// A context for the given schedule and system set.
    pub fn new(schedule: u64, set: u64) -> (context: Self)
        ensures
            context.schedule == schedule,
            context.set == set,
    {
        SystemsRegistrationContext { schedule, set }
    }
}

/// A group of systems together with where it is to be scheduled. The
/// systems themselves (already placed in the context's set) are `configs`.
pub struct SystemsRegistration<C> {
    /// Where the systems go.
    pub context: SystemsRegistrationContext,
    /// The systems, configured to run inside `context.set`.
    pub configs: C,
}

impl<C> SystemsRegistration<C> {
    /// Pairs configured systems with their context.
    pub fn new(context: SystemsRegistrationContext, configs: C) -> (registration: Self)
        ensures
            registration.context == context,
            registration.configs == configs,
    {
        SystemsRegistration { context, configs }
    }
}

/// The application handle given to a dynamic library's entry point; it
/// queues the systems the library asks for, in the order it asks.
pub struct DynamicApp<C> {
    systems: Vec<SystemsRegistration<C>>,
}

impl<C> View for DynamicApp<C> {
    type V = Seq<SystemsRegistration<C>>;

    closed spec fn view(&self) -> Seq<SystemsRegistration<C>> {
        self.systems@
    }
}

impl<C> DynamicApp<C> {
    /// Queues `configs` to run in `schedule`, inside the system set `set`.
    pub fn add_systems(&mut self, schedule: u64, set: u64, configs: C)
        ensures
            final(self)@ == old(self)@.push(
                SystemsRegistration {
                    context: SystemsRegistrationContext { schedule, set },
                    configs,
                },
            ),
    {
        let context = SystemsRegistrationContext::new(schedule, set);
        self.systems.push(SystemsRegistration::new(context, configs));
    }

    /// An application handle with nothing queued.
    pub fn new() -> (app: Self)
        ensures
            app@ == Seq::<SystemsRegistration<C>>::empty(),
    {
        DynamicApp { systems: Vec::new() }
    }

    /// Hands out everything queued so far, oldest first, and empties the queue.
    pub fn systems(&mut self) -> (drained: Vec<SystemsRegistration<C>>)
        ensures
            drained@ == old(self)@,
            final(self)@ == Seq::<SystemsRegistration<C>>::empty(),
    {
        let mut drained: Vec<SystemsRegistration<C>> = Vec::new();
        std::mem::swap(&mut drained, &mut self.systems);
        drained
    }
}

} // verus!
