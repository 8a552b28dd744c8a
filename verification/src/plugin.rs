//! How the plugin reacts to asset events about dynamic libraries: a newly
//! added library is registered, a modified one is updated (its systems are
//! taken out and it is registered afresh), and every other event is ignored.

use vstd::prelude::*;
use crate::registrar::AssetKey;

verus! {

/// An asset event about a dynamic library, by the library's identity.
pub enum DylibEvent {
    /// The library was added.
    Added(AssetKey),
    /// The library was modified.
    Modified(AssetKey),
    /// The library was removed.
    Removed(AssetKey),
    /// The library is no longer used.
    Unused(AssetKey),
    /// The library and all its dependencies finished loading.
    LoadedWithDependencies(AssetKey),
}

/// What the registrar is to do for a library.
#[derive(Clone, Copy, PartialEq, Eq, Structural, Debug)]
pub enum RegistrarCommand {
    /// Run the library's entry point and register what it asks for.
    Register(AssetKey),
    /// Take out what the library registered, reload it and register afresh.
    Update(AssetKey),
}

/// The command an event calls for, if any.
pub open spec fn command_for(event: DylibEvent) -> Option<RegistrarCommand> {
    match event {
        DylibEvent::Added(id) => Some(RegistrarCommand::Register(id)),
        DylibEvent::Modified(id) => Some(RegistrarCommand::Update(id)),
        _ => None,
    }
}

/// The commands a series of events calls for, in the order of the events.
pub open spec fn commands_for(events: Seq<DylibEvent>) -> Seq<RegistrarCommand>
    decreases events.len(),
{
    if events.len() == 0 {
        Seq::empty()
    } else {
        let earlier = commands_for(events.drop_last());
        match command_for(events.last()) {
            Some(command) => earlier.push(command),
            None => earlier,
        }
    }
}

/// The registrar commands called for by the asset events read this frame,
/// in the order the events came.
pub fn process_dylibs(events: Vec<DylibEvent>) -> (commands: Vec<RegistrarCommand>)
    ensures
        commands@ == commands_for(events@),
        events@.len() == 1 ==> match events@[0] {
            DylibEvent::Added(id) => commands@ == seq![RegistrarCommand::Register(id)],
            DylibEvent::Modified(id) => commands@ == seq![RegistrarCommand::Update(id)],
            _ => commands@.len() == 0,
        },
{
    let ghost all = events@;
    let mut commands: Vec<RegistrarCommand> = Vec::new();
    for event in it: events.into_iter()
        invariant
            it.seq() == all,
            commands@ == commands_for(all.take(it.index() as int)),
    {
        let ghost k: int = it.index() as int;
        proof {
            assert(all.take(k + 1).drop_last() =~= all.take(k as int));
            assert(all.take(k + 1).last() == event);
        }
        match event {
            DylibEvent::Added(id) => commands.push(RegistrarCommand::Register(id)),
            DylibEvent::Modified(id) => commands.push(RegistrarCommand::Update(id)),
            _ => {},
        }
    }
    proof {
        assert(all.take(all.len() as int) =~= all);
        if all.len() == 1 {
            assert(all =~= seq![all[0]]);
            match all[0] {
                DylibEvent::Added(id) => law_event_commands(id),
                DylibEvent::Modified(id) => law_event_commands(id),
                DylibEvent::Removed(id) => law_event_commands(id),
                DylibEvent::Unused(id) => law_event_commands(id),
                DylibEvent::LoadedWithDependencies(id) => law_event_commands(id),
            }
        }
    }
    commands
}

/// Events may be processed in batches: the commands for two batches, one
/// after the other, are the commands for all the events at once.
pub proof fn law_batches_compose(first: Seq<DylibEvent>, second: Seq<DylibEvent>)
    ensures
        commands_for(first + second) == commands_for(first) + commands_for(second),
    decreases second.len(),
{
    if second.len() == 0 {
        assert(first + second =~= first);
        assert(commands_for(first) + commands_for(second) =~= commands_for(first));
    } else {
        let rest = second.drop_last();
        law_batches_compose(first, rest);
        assert((first + second).drop_last() =~= first + rest);
        assert((first + second).last() == second.last());
        match command_for(second.last()) {
            Some(c) => {
                assert(commands_for(first) + commands_for(rest).push(c) =~= (commands_for(first)
                    + commands_for(rest)).push(c));
            },
            None => {},
        }
    }
}

/// Each event calls for its command alone, for every kind of key: an added
/// library is registered, a modified one updated (never registered afresh),
/// and any other event calls for nothing. Together with
/// [`law_batches_compose`] this fixes the commands for any series of events.
pub proof fn law_event_commands(id: AssetKey)
    ensures
        commands_for(seq![DylibEvent::Added(id)]) == seq![RegistrarCommand::Register(id)],
        commands_for(seq![DylibEvent::Modified(id)]) == seq![RegistrarCommand::Update(id)],
        commands_for(seq![DylibEvent::Removed(id)]).len() == 0,
        commands_for(seq![DylibEvent::Unused(id)]).len() == 0,
        commands_for(seq![DylibEvent::LoadedWithDependencies(id)]).len() == 0,
{
    reveal_with_fuel(commands_for, 2);
    assert(seq![DylibEvent::Added(id)].drop_last() =~= Seq::<DylibEvent>::empty());
    assert(seq![DylibEvent::Modified(id)].drop_last() =~= Seq::<DylibEvent>::empty());
    assert(seq![DylibEvent::Removed(id)].drop_last() =~= Seq::<DylibEvent>::empty());
    assert(seq![DylibEvent::Unused(id)].drop_last() =~= Seq::<DylibEvent>::empty());
    assert(seq![DylibEvent::LoadedWithDependencies(id)].drop_last() =~= Seq::<DylibEvent>::empty());
    assert(seq![RegistrarCommand::Register(id)] =~= Seq::<RegistrarCommand>::empty().push(
        RegistrarCommand::Register(id),
    ));
    assert(seq![RegistrarCommand::Update(id)] =~= Seq::<RegistrarCommand>::empty().push(
        RegistrarCommand::Update(id),
    ));
}

} // verus!
