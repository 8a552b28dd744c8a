//! The registrar: what mods queue for the application (resources,
//! components, groups of systems), and, for every loaded dynamic library,
//! which schedules and system sets its systems were placed in, so that they
//! can be taken out again when the library is reloaded.

use vstd::prelude::*;
use crate::dynapp::SystemsRegistrationContext;

verus! {

/// The identity of a dynamic-library asset: either its slot in the asset
/// storage (index and generation packed into one integer) or its UUID.
#[derive(Clone, Copy, PartialEq, Eq, Structural, Debug, Hash)]
pub enum AssetKey {
    /// A slot in the asset storage, as packed bits.
    Index(u64),
    /// A stable UUID.
    Uuid(u128),
}

/// A group of systems queued by a mod, under a display name, for a schedule.
pub struct PendingSystems<S> {
    /// A name to report the group by.
    pub name: String,
    /// Identity of the interned label of the schedule to run the group in.
    pub schedule: u64,
    /// The systems.
    pub configs: S,
}

/// The contexts recorded for one dynamic library.
struct Registered {
    id: AssetKey,
    contexts: Vec<SystemsRegistrationContext>,
}

/// Queues registrations made by mods, and remembers, for each loaded dynamic
/// library, the contexts its systems were scheduled under.
///
/// `D` is what describes a resource or component to register, `S` a group
/// of configured systems.
pub struct Registrar<D, S> {
    entries: Vec<Registered>,
    resources: Vec<D>,
    components: Vec<D>,
    systems: Vec<PendingSystems<S>>,
}

/// The set of contexts whose schedule was found, among `outcomes`: each
/// outcome is a context and whether its schedule existed.
pub open spec fn scheduled_contexts(outcomes: Seq<(SystemsRegistrationContext, bool)>) -> Set<
    SystemsRegistrationContext,
> {
    Set::new(
        |c: SystemsRegistrationContext|
            exists|i: int| 0 <= i < outcomes.len() && #[trigger] outcomes[i] == (c, true),
    )
}

spec fn entry_index(entries: Seq<Registered>, id: AssetKey) -> int {
    choose|i: int| 0 <= i < entries.len() && entries[i].id == id
}

spec fn entries_map(entries: Seq<Registered>) -> Map<AssetKey, Set<SystemsRegistrationContext>> {
    Map::new(
        |id: AssetKey| exists|i: int| 0 <= i < entries.len() && entries[i].id == id,
        |id: AssetKey| entries[entry_index(entries, id)].contexts@.to_set(),
    )
}

spec fn distinct_ids(entries: Seq<Registered>) -> bool {
    forall|i: int, j: int|
        0 <= i < entries.len() && 0 <= j < entries.len() && i != j ==> entries[i].id
            != entries[j].id
}

proof fn lemma_entry_index(entries: Seq<Registered>, i: int)
    requires
        distinct_ids(entries),
        0 <= i < entries.len(),
    ensures
        entry_index(entries, entries[i].id) == i,
{
    let id: AssetKey = entries[i].id;
    assert(0 <= i < entries.len() && entries[i].id == id);
    let k: int = entry_index(entries, id);
    assert(0 <= k < entries.len() && entries[k].id == id);
}

/// Replacing the contexts of the entry at `j` changes the map only at its id.
proof fn lemma_entries_map_update(entries: Seq<Registered>, j: int, e: Registered)
    requires
        distinct_ids(entries),
        0 <= j < entries.len(),
        e.id == entries[j].id,
    ensures
        distinct_ids(entries.update(j, e)),
        entries_map(entries.update(j, e)) == entries_map(entries).insert(e.id, e.contexts@.to_set()),
{
    let s2 = entries.update(j, e);
    assert(distinct_ids(s2));
    let m1 = entries_map(entries);
    let m2 = entries_map(s2);
    let m3 = m1.insert(e.id, e.contexts@.to_set());
    assert forall|id: AssetKey| m2.dom().contains(id) <==> m3.dom().contains(id) by {
        if m3.dom().contains(id) {
            if id == e.id {
                assert(s2[j].id == id);
            } else {
                let i: int = choose|i: int| 0 <= i < entries.len() && entries[i].id == id;
                assert(s2[i].id == id);
            }
        }
        if m2.dom().contains(id) {
            let i: int = choose|i: int| 0 <= i < s2.len() && s2[i].id == id;
            assert(entries[i].id == id);
        }
    }
    assert forall|id: AssetKey| m2.dom().contains(id) implies m2[id] == m3[id] by {
        let i: int = choose|i: int| 0 <= i < s2.len() && s2[i].id == id;
        lemma_entry_index(s2, i);
        lemma_entry_index(entries, i);
        assert(entries[i].id == id);
    }
    assert(m2 =~= m3);
}

/// Appending an entry with a fresh id adds that id to the map.
proof fn lemma_entries_map_push(entries: Seq<Registered>, e: Registered)
    requires
        distinct_ids(entries),
        forall|i: int| 0 <= i < entries.len() ==> entries[i].id != e.id,
    ensures
        distinct_ids(entries.push(e)),
        entries_map(entries.push(e)) == entries_map(entries).insert(e.id, e.contexts@.to_set()),
{
    let s2 = entries.push(e);
    assert(distinct_ids(s2));
    let m1 = entries_map(entries);
    let m2 = entries_map(s2);
    let m3 = m1.insert(e.id, e.contexts@.to_set());
    let n: int = entries.len() as int;
    assert forall|id: AssetKey| m2.dom().contains(id) <==> m3.dom().contains(id) by {
        if m3.dom().contains(id) {
            if id == e.id {
                assert(s2[n].id == id);
            } else {
                let i: int = choose|i: int| 0 <= i < entries.len() && entries[i].id == id;
                assert(s2[i].id == id);
            }
        }
        if m2.dom().contains(id) {
            let i: int = choose|i: int| 0 <= i < s2.len() && s2[i].id == id;
            if i < n {
                assert(entries[i].id == id);
            }
        }
    }
    assert forall|id: AssetKey| m2.dom().contains(id) implies m2[id] == m3[id] by {
        let i: int = choose|i: int| 0 <= i < s2.len() && s2[i].id == id;
        lemma_entry_index(s2, i);
        if i < n {
            lemma_entry_index(entries, i);
        }
    }
    assert(m2 =~= m3);
}

impl<D, S> Registrar<D, S> {
    /// For each registered dynamic library, the contexts its systems were
    /// scheduled under.
    pub closed spec fn registered(&self) -> Map<AssetKey, Set<SystemsRegistrationContext>> {
        entries_map(self.entries@)
    }

    /// Resources queued for registration, oldest first.
    pub closed spec fn queued_resources(&self) -> Seq<D> {
        self.resources@
    }

    /// Components queued for registration, oldest first.
    pub closed spec fn queued_components(&self) -> Seq<D> {
        self.components@
    }

    /// Groups of systems queued for scheduling, oldest first.
    pub closed spec fn queued_systems(&self) -> Seq<PendingSystems<S>> {
        self.systems@
    }

    /// Well-formedness, kept by every operation: one entry per library, each
    /// context recorded once.
    #[verifier::type_invariant]
    spec fn wf(self) -> bool {
        &&& distinct_ids(self.entries@)
        &&& forall|i: int|
            0 <= i < self.entries@.len() ==> (#[trigger] self.entries@[i]).contexts@.no_duplicates()
    }

    /// A registrar with nothing queued and nothing registered.
    pub fn new() -> (registrar: Self)
        ensures
            registrar.registered() == Map::<AssetKey, Set<SystemsRegistrationContext>>::empty(),
            registrar.queued_resources() == Seq::<D>::empty(),
            registrar.queued_components() == Seq::<D>::empty(),
            registrar.queued_systems() == Seq::<PendingSystems<S>>::empty(),
    {
        let registrar = Registrar {
            entries: Vec::new(),
            resources: Vec::new(),
            components: Vec::new(),
            systems: Vec::new(),
        };
        assert(registrar.registered() =~= Map::<AssetKey, Set<SystemsRegistrationContext>>::empty());
        registrar
    }

    /// Queues a component for registration.
    pub fn register_component(&mut self, descriptor: D)
        ensures
            final(self).queued_components() == old(self).queued_components().push(descriptor),
            final(self).queued_resources() == old(self).queued_resources(),
            final(self).queued_systems() == old(self).queued_systems(),
            final(self).registered() == old(self).registered(),
    {
        let mut components: Vec<D> = Vec::new();
        proof {
            use_type_invariant(&*self);
        }
        std::mem::swap(&mut components, &mut self.components);
        components.push(descriptor);
        self.components = components;
    }

    /// Queues a resource for registration.
    pub fn register_resource(&mut self, descriptor: D)
        ensures
            final(self).queued_resources() == old(self).queued_resources().push(descriptor),
            final(self).queued_components() == old(self).queued_components(),
            final(self).queued_systems() == old(self).queued_systems(),
            final(self).registered() == old(self).registered(),
    {
        let mut resources: Vec<D> = Vec::new();
        proof {
            use_type_invariant(&*self);
        }
        std::mem::swap(&mut resources, &mut self.resources);
        resources.push(descriptor);
        self.resources = resources;
    }

    /// Queues a group of systems, reported as `name`, for `schedule`.
    pub fn add_systems(&mut self, name: String, schedule: u64, configs: S)
        ensures
            final(self).queued_systems() == old(self).queued_systems().push(
                PendingSystems { name, schedule, configs },
            ),
            final(self).queued_resources() == old(self).queued_resources(),
            final(self).queued_components() == old(self).queued_components(),
            final(self).registered() == old(self).registered(),
    {
        let mut systems: Vec<PendingSystems<S>> = Vec::new();
        proof {
            use_type_invariant(&*self);
        }
        std::mem::swap(&mut systems, &mut self.systems);
        systems.push(PendingSystems { name, schedule, configs });
        self.systems = systems;
    }

    /// Hands out the queued components, oldest first, and empties that queue.
    pub fn drain_components(&mut self) -> (drained: Vec<D>)
        ensures
            drained@ == old(self).queued_components(),
            final(self).queued_components() == Seq::<D>::empty(),
            final(self).queued_resources() == old(self).queued_resources(),
            final(self).queued_systems() == old(self).queued_systems(),
            final(self).registered() == old(self).registered(),
    {
        let mut drained: Vec<D> = Vec::new();
        proof {
            use_type_invariant(&*self);
        }
        std::mem::swap(&mut drained, &mut self.components);
        drained
    }

    /// Hands out the queued resources, oldest first, and empties that queue.
    pub fn drain_resources(&mut self) -> (drained: Vec<D>)
        ensures
            drained@ == old(self).queued_resources(),
            final(self).queued_resources() == Seq::<D>::empty(),
            final(self).queued_components() == old(self).queued_components(),
            final(self).queued_systems() == old(self).queued_systems(),
            final(self).registered() == old(self).registered(),
    {
        let mut drained: Vec<D> = Vec::new();
        proof {
            use_type_invariant(&*self);
        }
        std::mem::swap(&mut drained, &mut self.resources);
        drained
    }

    /// Hands out the queued groups of systems, oldest first, and empties that
    /// queue.
    pub fn drain_systems(&mut self) -> (drained: Vec<PendingSystems<S>>)
        ensures
            drained@ == old(self).queued_systems(),
            final(self).queued_systems() == Seq::<PendingSystems<S>>::empty(),
            final(self).queued_resources() == old(self).queued_resources(),
            final(self).queued_components() == old(self).queued_components(),
            final(self).registered() == old(self).registered(),
    {
        let mut drained: Vec<PendingSystems<S>> = Vec::new();
        proof {
            use_type_invariant(&*self);
        }
        std::mem::swap(&mut drained, &mut self.systems);
        drained
    }

    fn find(&self, id: AssetKey) -> (found: Option<usize>)
        ensures
            match found {
                Some(j) => j < self.entries@.len() && self.entries@[j as int].id == id,
                None => forall|i: int| 0 <= i < self.entries@.len() ==> self.entries@[i].id != id,
            },
    {
        let n: usize = self.entries.len();
        for i in 0..n
            invariant
                n == self.entries@.len(),
                forall|k: int| 0 <= k < i ==> self.entries@[k].id != id,
        {
            if self.entries[i].id == id {
                return Some(i);
            }
        }
        None
    }

    /// Whether the dynamic library `id` has been registered.
    pub fn is_registered(&self, id: AssetKey) -> (registered: bool)
        ensures
            registered == self.registered().contains_key(id),
    {
        match self.find(id) {
            Some(j) => {
                assert(self.registered().dom().contains(id));
                true
            },
            None => false,
        }
    }

    /// Records the registration of the dynamic library `id`: the library's
    /// groups of systems were offered to their schedules, and `outcomes`
    /// lists, for each group, its context and whether its schedule existed.
    /// Afterwards exactly the contexts whose schedule existed are recorded
    /// for `id`, whatever was recorded for it before.
    pub fn register(&mut self, id: AssetKey, outcomes: &Vec<(SystemsRegistrationContext, bool)>)
        ensures
            final(self).registered() == after_register(old(self).registered(), id, outcomes@),
            final(self).queued_resources() == old(self).queued_resources(),
            final(self).queued_components() == old(self).queued_components(),
            final(self).queued_systems() == old(self).queued_systems(),
    {
        let mut contexts: Vec<SystemsRegistrationContext> = Vec::new();
        let n: usize = outcomes.len();
        for i in 0..n
            invariant
                n == outcomes@.len(),
                contexts@.no_duplicates(),
                forall|c: SystemsRegistrationContext|
                    contexts@.contains(c) <==> exists|k: int|
                        0 <= k < i && #[trigger] outcomes@[k] == (c, true),
        {
            let (context, scheduled) = outcomes[i];
            if scheduled {
                let mut present: bool = false;
                let m: usize = contexts.len();
                for k in 0..m
                    invariant
                        m == contexts@.len(),
                        present <==> exists|q: int| 0 <= q < k && contexts@[q] == context,
                {
                    if contexts[k] == context {
                        present = true;
                    }
                }
                let ghost before = contexts@;
                if !present {
                    contexts.push(context);
                }
                assert forall|c: SystemsRegistrationContext|
                    contexts@.contains(c) <==> exists|k: int|
                        0 <= k < i + 1 && #[trigger] outcomes@[k] == (c, true) by {
                    if c == context {
                        assert(outcomes@[i as int] == (c, true));
                        if present {
                            let q: int = choose|q: int| 0 <= q < before.len() && before[q] == context;
                            assert(contexts@[q] == c);
                        } else {
                            assert(contexts@[before.len() as int] == c);
                        }
                    } else if contexts@.contains(c) {
                        let q: int = choose|q: int| 0 <= q < contexts@.len() && contexts@[q] == c;
                        assert(q < before.len());
                        assert(before.contains(c));
                    } else if exists|k: int| 0 <= k < i + 1 && #[trigger] outcomes@[k] == (c, true) {
                        let k: int = choose|k: int| 0 <= k < i + 1 && #[trigger] outcomes@[k] == (c, true);
                        assert(k != i);
                        assert(before.contains(c));
                        let q: int = choose|q: int| 0 <= q < before.len() && before[q] == c;
                        assert(contexts@[q] == c);
                    }
                }
            } else {
                assert forall|c: SystemsRegistrationContext|
                    contexts@.contains(c) <==> exists|k: int|
                        0 <= k < i + 1 && #[trigger] outcomes@[k] == (c, true) by {
                    if exists|k: int| 0 <= k < i + 1 && #[trigger] outcomes@[k] == (c, true) {
                        let k: int = choose|k: int| 0 <= k < i + 1 && #[trigger] outcomes@[k] == (c, true);
                        assert(k != i);
                    }
                }
            }
        }
        assert(contexts@.to_set() =~= scheduled_contexts(outcomes@));
        let entry = Registered { id, contexts };
        proof {
            assert(entry.contexts@.to_set() == scheduled_contexts(outcomes@));
        }
        proof {
            use_type_invariant(&*self);
        }
        let found = self.find(id);
        let mut entries: Vec<Registered> = Vec::new();
        std::mem::swap(&mut entries, &mut self.entries);
        match found {
            Some(j) => {
                proof {
                    lemma_entries_map_update(entries@, j as int, entry);
                }
                entries.set(j, entry);
            },
            None => {
                proof {
                    lemma_entries_map_push(entries@, entry);
                }
                entries.push(entry);
            },
        }
        self.entries = entries;
    }

    /// The contexts recorded for the dynamic library `id`, each once: those
    /// whose systems must be taken out of their schedules before the library
    /// is reloaded. The record itself is left as it is.
    pub fn unregister(&self, id: AssetKey) -> (contexts: Vec<SystemsRegistrationContext>)
        requires
            self.registered().contains_key(id),
        ensures
            contexts@.no_duplicates(),
            contexts@.to_set() == self.registered()[id],
    {
        proof {
            use_type_invariant(self);
        }
        match self.find(id) {
            Some(j) => {
                proof {
                    lemma_entry_index(self.entries@, j as int);
                }
                self.entries[j].contexts.clone()
            },
            None => {
                proof {
                    let i: int = choose|i: int| 0 <= i < self.entries@.len() && self.entries@[i].id == id;
                }
                Vec::new()
            },
        }
    }

    /// Reloads the record of the dynamic library `id`: hands out the
    /// contexts recorded for it, as [`Registrar::unregister`] does, and then
    /// records it afresh from `outcomes`, as [`Registrar::register`] does.
    pub fn update(
        &mut self,
        id: AssetKey,
        outcomes: &Vec<(SystemsRegistrationContext, bool)>,
    ) -> (replaced: Vec<SystemsRegistrationContext>)
        requires
            old(self).registered().contains_key(id),
        ensures
            replaced@.no_duplicates(),
            replaced@.to_set() == old(self).registered()[id],
            final(self).registered() == after_register(old(self).registered(), id, outcomes@),
            final(self).queued_resources() == old(self).queued_resources(),
            final(self).queued_components() == old(self).queued_components(),
            final(self).queued_systems() == old(self).queued_systems(),
    {
        let replaced = self.unregister(id);
        self.register(id, outcomes);
        replaced
    }
}

/// The record of registered libraries after the library `id` is registered
/// with `outcomes`.
pub open spec fn after_register(
    record: Map<AssetKey, Set<SystemsRegistrationContext>>,
    id: AssetKey,
    outcomes: Seq<(SystemsRegistrationContext, bool)>,
) -> Map<AssetKey, Set<SystemsRegistrationContext>> {
    record.insert(id, scheduled_contexts(outcomes))
}

/// Reloading a library ([`Registrar::update`]) replaces what was recorded for
/// it. After registering
/// `id`, exactly its newly scheduled contexts are recorded for it; a second
/// registration replaces the first entirely (nothing stale stays behind),
/// registering again with the same outcomes changes nothing, and every other
/// library keeps its record. (`unregister`, which hands out the old
/// contexts in between, changes no record.)
pub proof fn law_reload_replaces_record(
    record: Map<AssetKey, Set<SystemsRegistrationContext>>,
    id: AssetKey,
    earlier: Seq<(SystemsRegistrationContext, bool)>,
    outcomes: Seq<(SystemsRegistrationContext, bool)>,
)
    ensures
        after_register(record, id, outcomes).contains_key(id),
        after_register(record, id, outcomes)[id] == scheduled_contexts(outcomes),
        after_register(after_register(record, id, earlier), id, outcomes) == after_register(
            record,
            id,
            outcomes,
        ),
        after_register(after_register(record, id, outcomes), id, outcomes) == after_register(
            record,
            id,
            outcomes,
        ),
        forall|other: AssetKey|
            other != id ==> (after_register(record, id, outcomes).contains_key(other)
                <==> record.contains_key(other)),
        forall|other: AssetKey|
            other != id && #[trigger] record.contains_key(other) ==> after_register(
                record,
                id,
                outcomes,
            )[other] == record[other],
{
    assert(after_register(after_register(record, id, earlier), id, outcomes) =~= after_register(
        record,
        id,
        outcomes,
    ));
    assert(after_register(after_register(record, id, outcomes), id, outcomes) =~= after_register(
        record,
        id,
        outcomes,
    ));
}

/// A context is recorded for a library exactly when one of the outcomes it
/// was registered with names that context with its schedule found.
pub proof fn law_recorded_iff_scheduled(
    outcomes: Seq<(SystemsRegistrationContext, bool)>,
    context: SystemsRegistrationContext,
)
    ensures
        scheduled_contexts(outcomes).contains(context) <==> exists|i: int|
            0 <= i < outcomes.len() && outcomes[i].0 == context && outcomes[i].1,
{
    if exists|i: int| 0 <= i < outcomes.len() && outcomes[i].0 == context && outcomes[i].1 {
        let i: int = choose|i: int| 0 <= i < outcomes.len() && outcomes[i].0 == context && outcomes[i].1;
        assert(outcomes[i] == (context, true));
    }
}

} // verus!
