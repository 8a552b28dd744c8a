use hachiya::applicator::{Application, Applicator};
use hachiya::dylib::Dylib;
use hachiya::dynapp::{DynamicApp, SystemsRegistrationContext};
use hachiya::exceptions::HachiyaError;
use hachiya::plugin::{process_dylibs, DylibEvent, RegistrarCommand};
use hachiya::registrar::{AssetKey, Registrar};
use hachiya::repository::{
    BuildPoll, BuildState, BuildTarget, CrateType, ExecutableLookup, Mod, Package, Repository,
    RootCandidate, Target,
};
use hachiya::shared_object::{SharedObject, SharedObjectLoaderError};

fn package(name: &str, kinds: Vec<Vec<CrateType>>) -> Package {
    Package {
        name: name.to_string(),
        targets: kinds
            .into_iter()
            .map(|crate_types| Target { crate_types })
            .collect(),
    }
}

fn ctx(schedule: u64, set: u64) -> SystemsRegistrationContext {
    SystemsRegistrationContext::new(schedule, set)
}

fn sorted(mut v: Vec<SystemsRegistrationContext>) -> Vec<(u64, u64)> {
    let mut out: Vec<(u64, u64)> = v.drain(..).map(|c| (c.schedule, c.set)).collect();
    out.sort();
    out
}

fn is_state(state: &BuildState, expected: &str) -> bool {
    match state {
        BuildState::Building(pid) => expected == format!("building {}", pid),
        BuildState::Built => expected == "built",
        BuildState::Unbuilt => expected == "unbuilt",
    }
}

fn repo_with(members: Vec<Package>) -> Repository {
    match Repository::new("linux", "/srv/mods".to_string(), Some(members)) {
        Ok(r) => r,
        Err(e) => panic!("{}", e.message()),
    }
}

// ---------------------------------------------------------------- dynapp

#[test]
fn dynamic_app_drains_in_order_and_empties() {
    let mut app: DynamicApp<&str> = DynamicApp::new();
    app.add_systems(1, 10, "first");
    app.add_systems(2, 20, "second");
    let drained = app.systems();
    assert_eq!(drained.len(), 2);
    assert_eq!(drained[0].context, ctx(1, 10));
    assert_eq!(drained[0].configs, "first");
    assert_eq!(drained[1].context, ctx(2, 20));
    assert_eq!(drained[1].configs, "second");
    assert!(app.systems().is_empty());
}

#[test]
fn dynamic_app_starts_empty() {
    let mut app: DynamicApp<u8> = DynamicApp::new();
    assert!(app.systems().is_empty());
}

// ---------------------------------------------------------------- registrar

#[test]
fn register_records_only_scheduled_contexts() {
    let mut r: Registrar<u8, u8> = Registrar::new();
    let id = AssetKey::Index(7);
    assert!(!r.is_registered(id));
    r.register(id, &vec![(ctx(1, 1), true), (ctx(2, 2), false), (ctx(3, 3), true)]);
    assert!(r.is_registered(id));
    assert_eq!(sorted(r.unregister(id)), vec![(1, 1), (3, 3)]);
}

#[test]
fn register_records_each_context_once() {
    let mut r: Registrar<u8, u8> = Registrar::new();
    let id = AssetKey::Uuid(99);
    r.register(id, &vec![(ctx(1, 1), true), (ctx(1, 1), true), (ctx(1, 1), false)]);
    assert_eq!(sorted(r.unregister(id)), vec![(1, 1)]);
}

#[test]
fn reload_replaces_record_and_keeps_others() {
    let mut r: Registrar<u8, u8> = Registrar::new();
    let a = AssetKey::Index(1);
    let b = AssetKey::Index(2);
    r.register(a, &vec![(ctx(1, 1), true)]);
    r.register(b, &vec![(ctx(5, 5), true)]);
    // update of `a`: what was recorded is handed out, then `a` registers afresh
    let removed = r.unregister(a);
    assert_eq!(sorted(removed), vec![(1, 1)]);
    assert_eq!(sorted(r.unregister(a)), vec![(1, 1)]);
    r.register(a, &vec![(ctx(2, 2), true), (ctx(3, 3), false)]);
    assert_eq!(sorted(r.unregister(a)), vec![(2, 2)]);
    assert_eq!(sorted(r.unregister(b)), vec![(5, 5)]);
    // registering again with the same outcomes changes nothing
    r.register(a, &vec![(ctx(2, 2), true), (ctx(3, 3), false)]);
    assert_eq!(sorted(r.unregister(a)), vec![(2, 2)]);
}

#[test]
fn index_and_uuid_keys_are_distinct() {
    let mut r: Registrar<u8, u8> = Registrar::new();
    r.register(AssetKey::Index(4), &vec![(ctx(1, 1), true)]);
    assert!(!r.is_registered(AssetKey::Uuid(4)));
    r.register(AssetKey::Uuid(4), &vec![]);
    assert!(r.unregister(AssetKey::Uuid(4)).is_empty());
    assert_eq!(sorted(r.unregister(AssetKey::Index(4))), vec![(1, 1)]);
}

#[test]
fn registrar_queues_drain_in_order() {
    let mut r: Registrar<&str, u8> = Registrar::new();
    r.register_component("apple");
    r.register_component("pear");
    r.register_resource("score");
    r.add_systems("spawn".to_string(), 3, 1);
    assert_eq!(r.drain_components(), vec!["apple", "pear"]);
    assert!(r.drain_components().is_empty());
    assert_eq!(r.drain_resources(), vec!["score"]);
    let systems = r.drain_systems();
    assert_eq!(systems.len(), 1);
    assert_eq!(systems[0].name, "spawn");
    assert_eq!(systems[0].schedule, 3);
    assert_eq!(systems[0].configs, 1);
    assert!(r.drain_systems().is_empty());
}

// ---------------------------------------------------------------- applicator

#[test]
fn apply_orders_resources_components_systems() {
    let mut a: Applicator<&str, u8> = Applicator::new();
    a.registrar().add_systems("late".to_string(), 9, 4);
    a.registrar().register_component("c1");
    a.registrar().register_resource("r1");
    a.registrar().register_component("c2");
    let plan = a.apply();
    let described: Vec<String> = plan
        .iter()
        .map(|step| match step {
            Application::RegisterResource(d) => format!("resource {}", d),
            Application::RegisterComponent(d) => format!("component {}", d),
            Application::AddSystems(s) => format!("systems {} {} {}", s.name, s.schedule, s.configs),
        })
        .collect();
    assert_eq!(
        described,
        vec!["resource r1", "component c1", "component c2", "systems late 9 4"]
    );
    assert!(a.apply().is_empty());
}

#[test]
fn apply_keeps_registered_libraries() {
    let mut a: Applicator<u8, u8> = Applicator::new();
    a.registrar().register(AssetKey::Index(1), &vec![(ctx(1, 2), true)]);
    a.registrar().register_resource(5);
    let plan = a.apply();
    assert_eq!(plan.len(), 1);
    assert!(a.registrar().is_registered(AssetKey::Index(1)));
}

// ---------------------------------------------------------------- plugin

#[test]
fn events_become_commands() {
    let events = vec![
        DylibEvent::Added(AssetKey::Index(1)),
        DylibEvent::Removed(AssetKey::Index(1)),
        DylibEvent::Modified(AssetKey::Index(2)),
        DylibEvent::Unused(AssetKey::Index(3)),
        DylibEvent::LoadedWithDependencies(AssetKey::Index(4)),
        DylibEvent::Added(AssetKey::Uuid(5)),
    ];
    assert_eq!(
        process_dylibs(events),
        vec![
            RegistrarCommand::Register(AssetKey::Index(1)),
            RegistrarCommand::Update(AssetKey::Index(2)),
            RegistrarCommand::Register(AssetKey::Uuid(5)),
        ]
    );
}

#[test]
fn event_batches_compose() {
    let first = vec![DylibEvent::Added(AssetKey::Index(1)), DylibEvent::Unused(AssetKey::Index(1))];
    let second = vec![DylibEvent::Modified(AssetKey::Index(1))];
    let mut all = process_dylibs(vec![
        DylibEvent::Added(AssetKey::Index(1)),
        DylibEvent::Unused(AssetKey::Index(1)),
        DylibEvent::Modified(AssetKey::Index(1)),
    ]);
    let mut split = process_dylibs(first);
    split.extend(process_dylibs(second));
    assert_eq!(all.len(), 2);
    assert_eq!(all.drain(..).collect::<Vec<_>>(), split);
    assert!(process_dylibs(vec![]).is_empty());
}

// ---------------------------------------------------------------- dylib / shared object

#[test]
fn assets_root_prefers_bevy_then_manifest_then_executable() {
    let s = |x: &str| Some(x.to_string());
    match Dylib::resolve_assets(s("/a"), s("/b"), s("/c")) {
        Ok(root) => assert_eq!(root, "/a"),
        Err(_) => panic!(),
    }
    match Dylib::resolve_assets(None, s("/b"), s("/c")) {
        Ok(root) => assert_eq!(root, "/b"),
        Err(_) => panic!(),
    }
    match Dylib::resolve_assets(None, None, s("/c")) {
        Ok(root) => assert_eq!(root, "/c"),
        Err(_) => panic!(),
    }
    match Dylib::resolve_assets(None, None, None) {
        Err(e @ HachiyaError::UnresolvedAssets) => assert_eq!(
            e.message(),
            "failed to resolve the base-path of the assets directory"
        ),
        _ => panic!(),
    }
    assert_eq!(SharedObject::get_assets_root(None, s("/b"), None), s("/b"));
    assert_eq!(SharedObject::get_assets_root(None, None, None), None);
}

#[test]
fn library_path_is_under_assets() {
    assert_eq!(Dylib::library_path("/game", "libmod_a.so"), "/game/assets/libmod_a.so");
    assert_eq!(Dylib::library_path("/game", "/abs/lib.so"), "/abs/lib.so");
}

#[test]
fn shared_object_location_and_error() {
    match SharedObject::load(Some("/g".to_string()), "m.so".to_string()) {
        Ok(path) => assert_eq!(path, "/g/assets/m.so"),
        Err(_) => panic!(),
    }
    match SharedObject::load(None, "m.so".to_string()) {
        Err(e) => {
            let SharedObjectLoaderError::PathError(p) = &e;
            assert_eq!(p, "m.so");
            assert_eq!(e.message(), "failed to resolve path to m.so");
        }
        Ok(_) => panic!(),
    }
}

// ---------------------------------------------------------------- errors

#[test]
fn error_messages() {
    let cases = vec![
        (
            HachiyaError::InvalidHook("no symbol".to_string()),
            "failed to get 'main' symbol from shared object; no symbol",
        ),
        (HachiyaError::LoadFailure("dlopen".to_string()), "failed to load shared object;"),
        (
            HachiyaError::LoadError("mod_a".to_string(), "missing".to_string()),
            "failed to load mod_a; missing",
        ),
        (HachiyaError::InitializationError("x".to_string()), "failed to initialize repository; x"),
        (HachiyaError::BuildError("y".to_string()), "failed to build repository; y"),
        (HachiyaError::IndexingError("z".to_string()), "failed to index repository; z"),
    ];
    for (error, text) in cases {
        assert_eq!(error.message(), text);
    }
}

// ---------------------------------------------------------------- repository

#[test]
fn dylib_extension_per_os() {
    assert_eq!(Repository::determine_dylib_extension("macos"), ".dylib");
    assert_eq!(Repository::determine_dylib_extension("windows"), ".dll");
    assert_eq!(Repository::determine_dylib_extension("linux"), ".so");
    assert_eq!(Repository::determine_dylib_extension("freebsd"), ".so");
    assert!(Repository::recognizes_os("macos"));
    assert!(Repository::recognizes_os("windows"));
    assert!(Repository::recognizes_os("linux"));
    assert!(!Repository::recognizes_os("freebsd"));
    assert!(!Repository::recognizes_os(""));
}

#[test]
fn mod_is_dylib_by_first_target() {
    assert!(Mod::new(package("a", vec![vec![CrateType::Lib, CrateType::DyLib]])).is_dylib());
    assert!(!Mod::new(package("b", vec![vec![CrateType::CDyLib]])).is_dylib());
    assert!(!Mod::new(package("c", vec![vec![CrateType::Bin], vec![CrateType::DyLib]])).is_dylib());
    assert!(!Mod::new(package("d", vec![])).is_dylib());
    assert!(!Mod::new(package("e", vec![vec![CrateType::Unknown("dylib".to_string())]])).is_dylib());
}

#[test]
fn mod_library_files() {
    let m = Mod::new(package("mod_a", vec![vec![CrateType::DyLib]]));
    assert_eq!(m.name(), "mod_a");
    assert_eq!(m.library_file(BuildTarget::Debug, ".so"), "target/debug/libmod_a.so");
    assert_eq!(m.library_file(BuildTarget::Release, ".dll"), "target/release/libmod_a.dll");
}

#[test]
fn root_resolution() {
    match Repository::resolve_root(Some("/proj".to_string()), ExecutableLookup::Failed("x".to_string())) {
        Ok(root) => assert_eq!(root, "/proj/mods"),
        Err(_) => panic!(),
    }
    let found = ExecutableLookup::Found {
        display: "/opt/game/bin/game".to_string(),
        parent: Some("/opt/game/bin".to_string()),
    };
    match Repository::resolve_root(None, found) {
        Ok(root) => assert_eq!(root, "/opt/game/bin/mods"),
        Err(_) => panic!(),
    }
    let orphan = ExecutableLookup::Found { display: "/".to_string(), parent: None };
    match Repository::resolve_root(None, orphan) {
        Err(HachiyaError::InitializationError(m)) => assert_eq!(
            m,
            "repository could not be resolved from executable: / has no parent"
        ),
        _ => panic!(),
    }
    match Repository::resolve_root(None, ExecutableLookup::Failed("denied".to_string())) {
        Err(HachiyaError::InitializationError(m)) => assert_eq!(
            m,
            "repository path could not be resolved from executable: denied"
        ),
        _ => panic!(),
    }
}

#[test]
fn root_checks() {
    match Repository::confirm_root("/x/mods".to_string(), true) {
        Ok(root) => assert_eq!(root, "/x/mods"),
        Err(_) => panic!(),
    }
    match Repository::confirm_root("/x/mods".to_string(), false) {
        Err(HachiyaError::InitializationError(m)) => {
            assert_eq!(m, "expected repository path is not a valid directory: /x/mods")
        }
        _ => panic!(),
    }
    match Repository::validate_user_root(&"/u".to_string(), true) {
        Ok(root) => assert_eq!(root, "/u"),
        Err(_) => panic!(),
    }
    match Repository::validate_user_root(&"/u".to_string(), false) {
        Err(HachiyaError::InitializationError(m)) => {
            assert_eq!(m, "designated repository path is not a valid directory: /u")
        }
        _ => panic!(),
    }
}

#[test]
fn new_repository_is_unbuilt_and_indexed() {
    let r = repo_with(vec![package("a", vec![vec![CrateType::DyLib]])]);
    assert!(is_state(r.state(), "unbuilt"));
    assert_eq!(Repository::manifest_path(r.root_path()), "/srv/mods/Cargo.toml");
    assert_eq!(r.root_path(), "/srv/mods");
}

#[test]
fn new_repository_fails_without_metadata() {
    match Repository::new("linux", "/srv/mods".to_string(), None) {
        Err(HachiyaError::InitializationError(m)) => assert_eq!(
            m,
            "failed to index repository; could not find or deserialize a Cargo.toml under /srv/mods"
        ),
        _ => panic!(),
    }
}

#[test]
fn build_cycle() {
    let mut r = repo_with(vec![]);
    match r.build() {
        Ok(manifest) => assert_eq!(manifest, "/srv/mods/Cargo.toml"),
        Err(_) => panic!(),
    }
    match r.build_started(None) {
        Err(HachiyaError::BuildError(m)) => assert_eq!(m, "failed to spawn build process"),
        _ => panic!(),
    }
    assert!(is_state(r.state(), "unbuilt"));
    assert!(r.build_started(Some(4242)).is_ok());
    assert!(is_state(r.state(), "building 4242"));
    match r.build() {
        Err(HachiyaError::BuildError(m)) => assert_eq!(m, "child process 4242 is already running"),
        _ => panic!(),
    }
    r.update(BuildPoll::Running);
    assert!(is_state(r.state(), "building 4242"));
    r.update(BuildPoll::Exited(true));
    assert!(is_state(r.state(), "built"));
    // polling without a running build changes nothing
    r.update(BuildPoll::Failed);
    assert!(is_state(r.state(), "built"));
}

#[test]
fn failed_builds_leave_repository_unbuilt() {
    let mut r = repo_with(vec![]);
    assert!(r.build_started(Some(0)).is_ok());
    match r.build() {
        Err(HachiyaError::BuildError(m)) => assert_eq!(m, "child process 0 is already running"),
        _ => panic!(),
    }
    r.update(BuildPoll::Exited(false));
    assert!(is_state(r.state(), "unbuilt"));
    assert!(r.build_started(Some(4294967295)).is_ok());
    match r.build() {
        Err(HachiyaError::BuildError(m)) => {
            assert_eq!(m, "child process 4294967295 is already running")
        }
        _ => panic!(),
    }
    r.update(BuildPoll::Failed);
    assert!(is_state(r.state(), "unbuilt"));
}

#[test]
fn loading_requires_a_successful_build() {
    let mut r = repo_with(vec![
        package("a", vec![vec![CrateType::DyLib]]),
        package("b", vec![vec![CrateType::Bin]]),
        package("c", vec![vec![CrateType::Lib, CrateType::DyLib]]),
    ]);
    match r.load_all() {
        Err(e @ HachiyaError::LoadError(_, _)) => {
            assert_eq!(e.message(), "failed to load mods; the repository is unbuilt")
        }
        _ => panic!(),
    }
    assert!(r.build_started(Some(1)).is_ok());
    assert!(r.load_all().is_err());
    r.update(BuildPoll::Exited(true));
    match r.load_all() {
        Ok(list) => {
            let seen: Vec<(String, String, String)> = list
                .into_iter()
                .map(|l| (l.name, l.file, l.path))
                .collect();
            assert_eq!(
                seen,
                vec![
                    (
                        "a".to_string(),
                        "target/debug/liba.so".to_string(),
                        "/srv/mods/target/debug/liba.so".to_string()
                    ),
                    (
                        "c".to_string(),
                        "target/debug/libc.so".to_string(),
                        "/srv/mods/target/debug/libc.so".to_string()
                    ),
                ]
            );
        }
        Err(_) => panic!(),
    }
}

#[test]
fn reindexing_replaces_members_by_name() {
    let mut r = repo_with(vec![
        package("a", vec![vec![CrateType::DyLib]]),
        package("b", vec![vec![CrateType::DyLib]]),
    ]);
    // `a` stops being a dylib; `c` is new
    assert!(r
        .index(Some(vec![
            package("a", vec![vec![CrateType::Lib]]),
            package("c", vec![vec![CrateType::DyLib]]),
        ]))
        .is_ok());
    assert!(r.build_started(Some(2)).is_ok());
    r.update(BuildPoll::Exited(true));
    let names: Vec<String> = match r.load_all() {
        Ok(list) => list.into_iter().map(|l| l.name).collect(),
        Err(_) => panic!(),
    };
    assert_eq!(names, vec!["b".to_string(), "c".to_string()]);
}

#[test]
fn failed_indexing_forgets_members() {
    let mut r = repo_with(vec![package("a", vec![vec![CrateType::DyLib]])]);
    match r.index(None) {
        Err(e @ HachiyaError::IndexingError(_)) => assert_eq!(
            e.message(),
            "failed to index repository; could not find or deserialize a Cargo.toml under /srv/mods"
        ),
        _ => panic!(),
    }
    assert!(r.build_started(Some(3)).is_ok());
    r.update(BuildPoll::Exited(true));
    match r.load_all() {
        Ok(list) => assert!(list.is_empty()),
        Err(_) => panic!(),
    }
}

#[test]
fn duplicate_names_in_one_index_keep_the_last() {
    let r = repo_with(vec![
        package("a", vec![vec![CrateType::Bin]]),
        package("a", vec![vec![CrateType::DyLib]]),
    ]);
    let mut r = r;
    assert!(r.build_started(Some(9)).is_ok());
    r.update(BuildPoll::Exited(true));
    match r.load_all() {
        Ok(list) => {
            assert_eq!(list.len(), 1);
            assert_eq!(list[0].name, "a");
        }
        Err(_) => panic!(),
    }
}

#[test]
fn reindexing_the_same_workspace_changes_nothing() {
    let workspace = || {
        vec![
            package("b", vec![vec![CrateType::DyLib]]),
            package("a", vec![vec![CrateType::DyLib]]),
            package("z", vec![vec![CrateType::RLib]]),
        ]
    };
    let mut r = repo_with(workspace());
    assert!(r.index(Some(workspace())).is_ok());
    assert!(r.index(Some(workspace())).is_ok());
    assert!(r.build_started(Some(5)).is_ok());
    r.update(BuildPoll::Exited(true));
    let names: Vec<String> = match r.load_all() {
        Ok(list) => list.into_iter().map(|l| l.name).collect(),
        Err(_) => panic!(),
    };
    assert_eq!(names, vec!["b".to_string(), "a".to_string()]);
}

#[test]
fn nested_asset_paths_are_under_assets() {
    assert_eq!(
        Dylib::library_path("/game", "mods/liba.so"),
        "/game/assets/mods/liba.so"
    );
    match SharedObject::load(Some("/g".to_string()), "mods/m.so".to_string()) {
        Ok(path) => assert_eq!(path, "/g/assets/mods/m.so"),
        Err(_) => panic!(),
    }
}

#[test]
fn mod_library_paths_under_root() {
    let m = Mod::new(package("mod_a", vec![vec![CrateType::DyLib]]));
    assert_eq!(m.library_path("/r", BuildTarget::Debug, ".so"), "/r/target/debug/libmod_a.so");
    assert_eq!(
        m.library_path("/r", BuildTarget::Release, ".so"),
        "/r/target/release/libmod_a.so"
    );
}

#[test]
fn locating_the_repository() {
    let exe = || ExecutableLookup::Found {
        display: "/opt/game/game".to_string(),
        parent: Some("/opt/game".to_string()),
    };
    match Repository::locate(Some("/designated".to_string()), Some("/proj".to_string()), exe()) {
        Ok(c) => {
            assert_eq!(c.path, "/designated");
            assert!(c.designated);
        }
        Err(_) => panic!(),
    }
    match Repository::locate(None, Some("/proj".to_string()), ExecutableLookup::Failed("x".to_string())) {
        Ok(c) => {
            assert_eq!(c.path, "/proj/mods");
            assert!(!c.designated);
        }
        Err(_) => panic!(),
    }
    match Repository::locate(None, None, exe()) {
        Ok(c) => assert_eq!(c.path, "/opt/game/mods"),
        Err(_) => panic!(),
    }
    match Repository::locate(None, None, ExecutableLookup::Failed("gone".to_string())) {
        Err(HachiyaError::InitializationError(m)) => {
            assert_eq!(m, "repository path could not be resolved from executable: gone")
        }
        _ => panic!(),
    }
}

#[test]
fn accepting_the_repository_root() {
    let designated = || RootCandidate { path: "/d".to_string(), designated: true };
    let resolved = || RootCandidate { path: "/p/mods".to_string(), designated: false };
    match Repository::accept_root(designated(), true) {
        Ok(root) => assert_eq!(root, "/d"),
        Err(_) => panic!(),
    }
    match Repository::accept_root(designated(), false) {
        Err(HachiyaError::InitializationError(m)) => {
            assert_eq!(m, "designated repository path is not a valid directory: /d")
        }
        _ => panic!(),
    }
    match Repository::accept_root(resolved(), false) {
        Err(HachiyaError::InitializationError(m)) => {
            assert_eq!(m, "expected repository path is not a valid directory: /p/mods")
        }
        _ => panic!(),
    }
    match Repository::accept_root(resolved(), true) {
        Ok(root) => assert_eq!(root, "/p/mods"),
        Err(_) => panic!(),
    }
}

#[test]
fn new_repository_takes_the_extension_of_its_os() {
    let mut r = match Repository::new("macos", "/m".to_string(), Some(vec![package("a", vec![vec![CrateType::DyLib]])])) {
        Ok(r) => r,
        Err(_) => panic!(),
    };
    assert!(r.build_started(Some(1)).is_ok());
    r.update(BuildPoll::Exited(true));
    match r.load_all() {
        Ok(list) => {
            assert_eq!(list[0].file, "target/debug/liba.dylib");
            assert_eq!(list[0].path, "/m/target/debug/liba.dylib");
        }
        Err(_) => panic!(),
    }
}

#[test]
fn reindexing_with_repeated_names_changes_nothing() {
    let workspace = || {
        vec![
            package("a", vec![vec![CrateType::Bin]]),
            package("b", vec![vec![CrateType::DyLib]]),
            package("a", vec![vec![CrateType::DyLib]]),
        ]
    };
    let mut r = repo_with(workspace());
    assert!(r.index(Some(workspace())).is_ok());
    assert!(r.build_started(Some(8)).is_ok());
    r.update(BuildPoll::Exited(true));
    let names: Vec<String> = match r.load_all() {
        Ok(list) => list.into_iter().map(|l| l.name).collect(),
        Err(_) => panic!(),
    };
    assert_eq!(names, vec!["a".to_string(), "b".to_string()]);
}

#[test]
fn decimal_rendering_of_process_ids() {
    for (pid, text) in [(7u32, "7"), (10, "10"), (4096, "4096"), (1000000, "1000000")] {
        let mut r = repo_with(vec![]);
        assert!(r.build_started(Some(pid)).is_ok());
        match r.build() {
            Err(HachiyaError::BuildError(m)) => {
                assert_eq!(m, format!("child process {} is already running", text))
            }
            _ => panic!(),
        }
    }
}

#[test]
fn joins_onto_slash_ended_and_empty_bases() {
    assert_eq!(Repository::manifest_path("/srv/"), "/srv/Cargo.toml");
    assert_eq!(Repository::manifest_path(""), "Cargo.toml");
    assert_eq!(Dylib::library_path("/", "m.so"), "/assets/m.so");
    assert_eq!(Dylib::library_path("", "mods/m.so"), "assets/mods/m.so");
    match Repository::resolve_root(Some("/proj/".to_string()), ExecutableLookup::Failed("x".to_string())) {
        Ok(root) => assert_eq!(root, "/proj/mods"),
        Err(_) => panic!(),
    }
    let at_root = ExecutableLookup::Found { display: "/game".to_string(), parent: Some("/".to_string()) };
    match Repository::resolve_root(None, at_root) {
        Ok(root) => assert_eq!(root, "/mods"),
        Err(_) => panic!(),
    }
    let m = Mod::new(package("a", vec![vec![CrateType::DyLib]]));
    assert_eq!(m.library_path("/r/", BuildTarget::Debug, ".so"), "/r/target/debug/liba.so");
}

#[test]
fn registrar_update_hands_out_old_and_records_new() {
    let mut r: Registrar<u8, u8> = Registrar::new();
    let a = AssetKey::Index(1);
    let b = AssetKey::Index(2);
    r.register(a, &vec![(ctx(1, 1), true), (ctx(4, 4), true)]);
    r.register(b, &vec![(ctx(5, 5), true)]);
    let replaced = r.update(a, &vec![(ctx(2, 2), true), (ctx(1, 1), false)]);
    assert_eq!(sorted(replaced), vec![(1, 1), (4, 4)]);
    assert_eq!(sorted(r.unregister(a)), vec![(2, 2)]);
    assert_eq!(sorted(r.unregister(b)), vec![(5, 5)]);
}
