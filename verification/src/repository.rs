//! The mod repository: a Cargo workspace of mods, built in the background
//! and loaded once built.
//!
//! Running `cargo`, reading its metadata, polling the build process and
//! opening libraries are left to the caller; this module keeps the
//! repository's state and decides, from what those steps report, what the
//! repository becomes and what is to be done next.

use vstd::prelude::*;
use crate::exceptions::{HachiyaError, decimal, decimal_text};
use crate::dylib::{is_relative_part, joinable, joins};

verus! {

/// Adjoins `part` to the UTF-8 path `base` with `camino::Utf8Path::join`.
///
/// Trusted. `Utf8Path::join` hands its arguments to `std::path::Path::join`;
/// the contract claims what their documentation shows of pushing a relative
/// path onto a path without a verbatim prefix: it extends `base`, putting
/// the platform's separator between the two when `base` does not already
/// end in one (an empty base takes no separator). It claims this only where
/// `part` is relative on every platform and `base` is [`joinable`]. Which
/// separator is put in, and what happens to absolute or prefixed parts, to
/// verbatim bases (which are normalized) and to bases ending in `\\` or
/// `:` (whose treatment differs between platforms), follows the rules of the
/// platform the crate was built for and is left unsaid.
#[verifier::external_body]
fn utf8_path_join(base: &str, part: &str) -> (joined: String)
    ensures
        joinable(base@) && is_relative_part(part@) ==> joins(base@, part@, joined@),
{
    camino::Utf8Path::new(base).join(part).into_string()
}

/// The kind of artifact a Cargo target produces.
pub enum CrateType {
    /// An executable.
    Bin,
    /// A dynamic system library.
    CDyLib,
    /// A dynamic Rust library.
    DyLib,
    /// A Rust library.
    Lib,
    /// A procedural macro.
    ProcMacro,
    /// A Rust library used as an intermediate artifact.
    RLib,
    /// A static system library.
    StaticLib,
    /// A kind this crate does not know, by its name.
    Unknown(String),
}

/// A Cargo target of a package, by the kinds of artifact it produces.
pub struct Target {
    /// What the target produces.
    pub crate_types: Vec<CrateType>,
}

/// A member package of the mod workspace.
pub struct Package {
    /// The package's name.
    pub name: String,
    /// The package's targets, in the order Cargo lists them.
    pub targets: Vec<Target>,
}

/// Whether a package is built as a dynamic Rust library: its first target
/// produces one. A package without targets is not.
pub open spec fn is_dylib_package(package: Package) -> bool {
    package.targets@.len() > 0 && exists|i: int|
        0 <= i < package.targets@[0].crate_types@.len() && (
        #[trigger] package.targets@[0].crate_types@[i]) is DyLib
}

/// A mod: a member package of the workspace.
pub struct Mod {
    package: Package,
}

impl Mod {
    /// The package this mod is.
    pub closed spec fn package(&self) -> Package {
        self.package
    }

    /// A mod for the given package.
    pub fn new(package: Package) -> (m: Self)
        ensures
            m.package() == package,
    {
        Mod { package }
    }

    /// The mod's package name.
    pub fn name(&self) -> (name: &String)
        ensures
            *name == self.package().name,
    {
        &self.package.name
    }

    /// Whether the mod is built as a dynamic Rust library.
    pub fn is_dylib(&self) -> (is_dylib: bool)
        ensures
            is_dylib == is_dylib_package(self.package()),
            is_dylib <==> (self.package().targets@.len() > 0 && exists|i: int|
                0 <= i < self.package().targets@[0].crate_types@.len()
                    && self.package().targets@[0].crate_types@[i] is DyLib),
    {
        let mut is_dylib: bool = false;
        if self.package.targets.len() > 0 {
            let target = &self.package.targets[0];
            let n: usize = target.crate_types.len();
            for i in 0..n
                invariant
                    n == target.crate_types@.len(),
                    target == self.package.targets@[0],
                    is_dylib <==> exists|k: int|
                        0 <= k < i && (#[trigger] target.crate_types@[k]) is DyLib,
            {
                match &target.crate_types[i] {
                    CrateType::DyLib => {
                        is_dylib = true;
                    },
                    _ => {},
                }
            }
        }
        is_dylib
    }

    /// Where, under the repository root, Cargo puts this mod's library when
    /// building for `target`: `target/debug/lib<name><extension>` or
    /// `target/release/lib<name><extension>`.
    pub fn library_file(&self, target: BuildTarget, extension: &str) -> (file: String)
        ensures
            file@ == library_file_path(target, self.package().name@, extension@),
            target is Debug ==> file@ == "target/debug/lib"@ + self.package().name@ + extension@,
            target is Release ==> file@ == "target/release/lib"@ + self.package().name@ + extension@,
    {
        let mut file = match target {
            BuildTarget::Debug => String::from_str("target/debug/lib"),
            BuildTarget::Release => String::from_str("target/release/lib"),
        };
        file.append(self.package.name.as_str());
        file.append(extension);
        file
    }

    /// The path of this mod's library built for `target` in the repository
    /// at `root`: `root` joined with [`Mod::library_file`], as
    /// [`crate::dylib::joins`] describes where `root` is joinable and that
    /// file is relative.
    pub fn library_path(&self, root: &str, target: BuildTarget, extension: &str) -> (path: String)
        ensures
            joinable(root@) && is_relative_part(
                library_file_path(target, self.package().name@, extension@),
            ) ==> joins(
                root@,
                library_file_path(target, self.package().name@, extension@),
                path@,
            ),
    {
        let file = self.library_file(target, extension);
        utf8_path_join(root, file.as_str())
    }
}

/// The path, relative to the repository root, of the library built for a
/// package named `name`.
pub open spec fn library_file_path(target: BuildTarget, name: Seq<char>, extension: Seq<char>) -> Seq<
    char,
> {
    match target {
        BuildTarget::Debug => "target/debug/lib"@ + name + extension,
        BuildTarget::Release => "target/release/lib"@ + name + extension,
    }
}

/// Where a build of the repository stands.
pub enum BuildState {
    /// A build is running as the child process with this id.
    Building(u32),
    /// The last build succeeded; mods can be loaded.
    Built,
    /// No build succeeded since the last attempt, or none was started.
    Unbuilt,
}

/// The profile a mod is built with.
#[derive(Clone, Copy, Debug)]
pub enum BuildTarget {
    /// The development profile.
    Debug,
    /// The optimized profile.
    Release,
}

/// What polling a running build reported.
pub enum BuildPoll {
    /// The build is still running.
    Running,
    /// The build finished; whether it succeeded.
    Exited(bool),
    /// The build process could not be polled.
    Failed,
}

/// A library to load: the mod's name, its file relative to the repository
/// root, and the file's path.
pub struct LoadRequest {
    /// The mod's package name.
    pub name: String,
    /// The library file, relative to the repository root.
    pub file: String,
    /// The library file under the repository root.
    pub path: String,
}

/// The state after a poll of the build: a running build that exited
/// successfully leaves the repository built, one that exited otherwise or
/// could not be polled leaves it unbuilt; otherwise nothing changes.
pub open spec fn state_after_poll(state: BuildState, poll: BuildPoll) -> BuildState {
    match state {
        BuildState::Building(pid) => match poll {
            BuildPoll::Running => BuildState::Building(pid),
            BuildPoll::Exited(success) => if success {
                BuildState::Built
            } else {
                BuildState::Unbuilt
            },
            BuildPoll::Failed => BuildState::Unbuilt,
        },
        _ => state,
    }
}

/// The shared-library extension expected on the named operating system:
/// `.dylib` on macOS, `.dll` on Windows, and `.so` on Linux and on any other.
pub open spec fn extension_for(os: Seq<char>) -> Seq<char> {
    if os == "macos"@ {
        ".dylib"@
    } else if os == "windows"@ {
        ".dll"@
    } else {
        ".so"@
    }
}

/// Where the repository's directory is looked for when the user designated
/// none: `CARGO_MANIFEST_DIR` if it is set, else the executable's parent
/// directory, if the executable was found and has one.
pub open spec fn root_base(cargo_manifest_dir: Option<String>, executable: ExecutableLookup) -> Option<
    Seq<char>,
> {
    match cargo_manifest_dir {
        Some(dir) => Some(dir@),
        None => match executable {
            ExecutableLookup::Found { parent: Some(parent), .. } => Some(parent@),
            _ => None,
        },
    }
}

/// Why no place for the repository could be found, when none could.
pub open spec fn resolution_error(cargo_manifest_dir: Option<String>, executable: ExecutableLookup) -> Option<
    Seq<char>,
> {
    match cargo_manifest_dir {
        Some(_) => None,
        None => match executable {
            ExecutableLookup::Found { parent: Some(_), .. } => None,
            ExecutableLookup::Found { display, parent: None } => Some(
                "repository could not be resolved from executable: "@ + display@ + " has no parent"@,
            ),
            ExecutableLookup::Failed(reason) => Some(
                "repository path could not be resolved from executable: "@ + reason@,
            ),
        },
    }
}

/// The position of the package named `name` among `packages`.
spec fn name_index(packages: Seq<Package>, name: Seq<char>) -> int {
    choose|i: int| 0 <= i < packages.len() && packages[i].name@ == name
}

/// Whether some package among `packages` is named `name`.
pub open spec fn has_package_named(packages: Seq<Package>, name: Seq<char>) -> bool {
    exists|i: int| 0 <= i < packages.len() && packages[i].name@ == name
}

/// No two packages share a name.
pub open spec fn distinct_names(packages: Seq<Package>) -> bool {
    forall|i: int, j: int|
        0 <= i < packages.len() && 0 <= j < packages.len() && i != j ==> packages[i].name@
            != packages[j].name@
}

/// `packages` with `package` put in: it replaces the package of the same
/// name, if there is one, in its place; otherwise it is appended.
pub closed spec fn insert_package(packages: Seq<Package>, package: Package) -> Seq<Package> {
    if has_package_named(packages, package.name@) {
        packages.update(name_index(packages, package.name@), package)
    } else {
        packages.push(package)
    }
}

/// `packages` with each of `added` put in, in order.
pub open spec fn insert_packages(packages: Seq<Package>, added: Seq<Package>) -> Seq<Package>
    decreases added.len(),
{
    if added.len() == 0 {
        packages
    } else {
        insert_package(insert_packages(packages, added.drop_last()), added.last())
    }
}

/// The names of the packages built as dynamic Rust libraries, in order.
pub open spec fn dylib_names(packages: Seq<Package>) -> Seq<Seq<char>>
    decreases packages.len(),
{
    if packages.len() == 0 {
        Seq::empty()
    } else {
        let earlier = dylib_names(packages.drop_last());
        if is_dylib_package(packages.last()) {
            earlier.push(packages.last().name@)
        } else {
            earlier
        }
    }
}

proof fn lemma_name_index(packages: Seq<Package>, i: int)
    requires
        distinct_names(packages),
        0 <= i < packages.len(),
    ensures
        name_index(packages, packages[i].name@) == i,
{
    let name: Seq<char> = packages[i].name@;
    assert(0 <= i < packages.len() && packages[i].name@ == name);
    let k: int = name_index(packages, name);
    assert(0 <= k < packages.len() && packages[k].name@ == name);
}

/// Putting a package in keeps the names distinct, and afterwards that
/// package stands under its name; every other name keeps its package.
pub proof fn law_insert_package(packages: Seq<Package>, package: Package)
    requires
        distinct_names(packages),
    ensures
        distinct_names(insert_package(packages, package)),
        has_package_named(insert_package(packages, package), package.name@),
        forall|i: int|
            0 <= i < insert_package(packages, package).len() && (#[trigger] insert_package(
                packages,
                package,
            )[i]).name@ == package.name@ ==> insert_package(packages, package)[i] == package,
        forall|name: Seq<char>|
            name != package.name@ ==> (has_package_named(packages, name) <==> has_package_named(
                insert_package(packages, package),
                name,
            )),
        forall|i: int|
            0 <= i < packages.len() && packages[i].name@ != package.name@ ==> #[trigger] insert_package(
                packages,
                package,
            )[i] == packages[i],
{
    let result = insert_package(packages, package);
    if has_package_named(packages, package.name@) {
        let j: int = name_index(packages, package.name@);
        assert(result[j] == package);
        assert forall|name: Seq<char>|
            name != package.name@ implies (has_package_named(packages, name) <==> has_package_named(
                result,
                name,
            )) by {
            if has_package_named(packages, name) {
                let i: int = choose|i: int| 0 <= i < packages.len() && packages[i].name@ == name;
                assert(result[i] == packages[i]);
            }
            if has_package_named(result, name) {
                let i: int = choose|i: int| 0 <= i < result.len() && result[i].name@ == name;
                assert(packages[i] == result[i]);
            }
        }
    } else {
        let n: int = packages.len() as int;
        assert(result[n] == package);
        assert forall|name: Seq<char>|
            name != package.name@ implies (has_package_named(packages, name) <==> has_package_named(
                result,
                name,
            )) by {
            if has_package_named(packages, name) {
                let i: int = choose|i: int| 0 <= i < packages.len() && packages[i].name@ == name;
                assert(result[i] == packages[i]);
            }
            if has_package_named(result, name) {
                let i: int = choose|i: int| 0 <= i < result.len() && result[i].name@ == name;
                assert(i != n);
                assert(packages[i] == result[i]);
            }
        }
    }
}

/// The mod repository.
pub struct Repository {
    extension: String,
    members: Vec<Mod>,
    metadata: Option<Vec<String>>,
    root: String,
    state: BuildState,
}

impl Repository {
    /// The shared-library extension the repository's libraries have.
    pub closed spec fn extension(&self) -> Seq<char> {
        self.extension@
    }

    /// The repository's member packages, in the order they were first indexed.
    pub closed spec fn packages(&self) -> Seq<Package> {
        self.members@.map_values(|m: Mod| m.package())
    }

    /// The names of the workspace members found by the last successful
    /// indexing, or none if the last indexing failed.
    pub closed spec fn indexed(&self) -> Option<Seq<String>> {
        match self.metadata {
            Some(names) => Some(names@),
            None => None,
        }
    }

    /// The repository's root directory.
    pub closed spec fn root(&self) -> Seq<char> {
        self.root@
    }

    /// Where the repository's build stands.
    pub closed spec fn build_state(&self) -> BuildState {
        self.state
    }

    /// Well-formedness, kept by every operation: one member per package name.
    #[verifier::type_invariant]
    spec fn wf(self) -> bool {
        distinct_names(self.packages())
    }

    /// The shared-library extension expected on the operating system named
    /// `os` (as `std::env::consts::OS` names it).
    pub fn determine_dylib_extension(os: &str) -> (extension: String)
        ensures
            extension@ == extension_for(os@),
    {
        let os = String::from_str(os);
        if os.eq(&String::from_str("macos")) {
            String::from_str(".dylib")
        } else if os.eq(&String::from_str("windows")) {
            String::from_str(".dll")
        } else {
            String::from_str(".so")
        }
    }

    /// Whether `os` is one of the operating systems whose shared-library
    /// extension is known (macOS, Windows, Linux); any other is assumed to
    /// use `.so` and deserves a warning.
    pub fn recognizes_os(os: &str) -> (recognized: bool)
        ensures
            recognized == (os@ == "macos"@ || os@ == "windows"@ || os@ == "linux"@),
    {
        let os = String::from_str(os);
        os.eq(&String::from_str("macos")) || os.eq(&String::from_str("windows")) || os.eq(
            &String::from_str("linux"),
        )
    }

    /// Decides where the repository is expected when the user designated no
    /// path: the `mods` directory under `CARGO_MANIFEST_DIR` if that is set,
    /// else the `mods` directory beside the running executable. Whether the
    /// candidate is a directory is then checked by [`Repository::confirm_root`].
    ///
    /// # Errors
    ///
    /// [`HachiyaError::InitializationError`] when `CARGO_MANIFEST_DIR` is not
    /// set and the executable's path could not be found or has no parent.
    pub fn resolve_root(cargo_manifest_dir: Option<String>, executable: ExecutableLookup) -> (root:
        Result<String, HachiyaError>)
        ensures
            root is Err <==> resolution_error(cargo_manifest_dir, executable) is Some,
            resolution_error(cargo_manifest_dir, executable) matches Some(expected) ==> (root matches Err(
                HachiyaError::InitializationError(message),
            ) && message@ == expected),
            root_base(cargo_manifest_dir, executable) matches Some(base) ==> (joinable(base) ==> (
            root matches Ok(r) && joins(base, "mods"@, r@))),
            cargo_manifest_dir matches Some(dir) ==> (root is Ok && (joinable(dir@) ==> (
            root matches Ok(r) && joins(dir@, "mods"@, r@)))),
            cargo_manifest_dir is None ==> (executable matches ExecutableLookup::Found {
                parent: Some(parent),
                ..
            } ==> (root is Ok && (joinable(parent@) ==> (root matches Ok(r) && joins(
                parent@,
                "mods"@,
                r@,
            ))))),
    {
        let base = match cargo_manifest_dir {
            Some(dir) => dir,
            None => match executable {
                ExecutableLookup::Found { display, parent } => match parent {
                    Some(parent) => parent,
                    None => {
                        let mut message = String::from_str(
                            "repository could not be resolved from executable: ",
                        );
                        message.append(display.as_str());
                        message.append(" has no parent");
                        return Err(HachiyaError::InitializationError(message));
                    },
                },
                ExecutableLookup::Failed(reason) => {
                    let mut message = String::from_str(
                        "repository path could not be resolved from executable: ",
                    );
                    message.append(reason.as_str());
                    return Err(HachiyaError::InitializationError(message));
                },
            },
        };
        proof {
            reveal_strlit("mods");
            assert("mods"@ =~= seq!['m', 'o', 'd', 's']);
            assert(is_relative_part("mods"@));
        }
        Ok(utf8_path_join(base.as_str(), "mods"))
    }

    /// Decides where the repository is expected: at the path the user
    /// designated, if any, else where [`Repository::resolve_root`] finds it.
    /// Whether the candidate is a directory is then checked by
    /// [`Repository::accept_root`].
    ///
    /// # Errors
    ///
    /// Those of [`Repository::resolve_root`], when no path was designated.
    pub fn locate(
        repository_path: Option<String>,
        cargo_manifest_dir: Option<String>,
        executable: ExecutableLookup,
    ) -> (candidate: Result<RootCandidate, HachiyaError>)
        ensures
            repository_path matches Some(designated) ==> (candidate matches Ok(c) && c.designated
                && c.path@ == designated@),
            repository_path is None ==> (candidate is Err <==> resolution_error(
                cargo_manifest_dir,
                executable,
            ) is Some),
            repository_path is None ==> (resolution_error(cargo_manifest_dir, executable) matches Some(
                expected,
            ) ==> (candidate matches Err(HachiyaError::InitializationError(message)) && message@
                == expected)),
            repository_path is None ==> (root_base(cargo_manifest_dir, executable) matches Some(base)
                ==> (joinable(base) ==> (candidate matches Ok(c) && !c.designated && joins(
                base,
                "mods"@,
                c.path@,
            )))),
            candidate matches Ok(c) ==> (c.designated <==> repository_path is Some),
            repository_path is None ==> (cargo_manifest_dir matches Some(dir) ==> (candidate is Ok
                && (joinable(dir@) ==> (candidate matches Ok(c) && joins(dir@, "mods"@, c.path@))))),
    {
        match repository_path {
            Some(path) => Ok(RootCandidate { path, designated: true }),
            None => match Repository::resolve_root(cargo_manifest_dir, executable) {
                Ok(path) => Ok(RootCandidate { path, designated: false }),
                Err(error) => Err(error),
            },
        }
    }

    /// Accepts the candidate found by [`Repository::locate`] if it is a
    /// directory: a designated path as [`Repository::validate_user_root`]
    /// does, a resolved one as [`Repository::confirm_root`] does.
    ///
    /// # Errors
    ///
    /// [`HachiyaError::InitializationError`] naming the candidate when it is
    /// not a directory.
    pub fn accept_root(candidate: RootCandidate, is_dir: bool) -> (root: Result<String, HachiyaError>)
        ensures
            is_dir ==> (root matches Ok(r) && r@ == candidate.path@),
            !is_dir ==> (root matches Err(HachiyaError::InitializationError(message)) && message@
                == (if candidate.designated {
                "designated repository path is not a valid directory: "@
            } else {
                "expected repository path is not a valid directory: "@
            }) + candidate.path@),
    {
        if candidate.designated {
            Repository::validate_user_root(&candidate.path, is_dir)
        } else {
            Repository::confirm_root(candidate.path, is_dir)
        }
    }

    /// Accepts the candidate root found by [`Repository::resolve_root`] if
    /// it is a directory.
    ///
    /// # Errors
    ///
    /// [`HachiyaError::InitializationError`] naming the candidate when it is
    /// not a directory.
    pub fn confirm_root(root: String, is_dir: bool) -> (confirmed: Result<String, HachiyaError>)
        ensures
            is_dir ==> (confirmed matches Ok(r) && r@ == root@),
            !is_dir ==> (confirmed matches Err(HachiyaError::InitializationError(message))
                && message@ == "expected repository path is not a valid directory: "@ + root@),
    {
        if is_dir {
            Ok(root)
        } else {
            let mut message = String::from_str(
                "expected repository path is not a valid directory: ",
            );
            message.append(root.as_str());
            Err(HachiyaError::InitializationError(message))
        }
    }

    /// Accepts the root the user designated if it is a directory.
    ///
    /// # Errors
    ///
    /// [`HachiyaError::InitializationError`] naming the path when it is not a
    /// directory (or does not exist).
    pub fn validate_user_root(root: &String, is_dir: bool) -> (validated: Result<
        String,
        HachiyaError,
    >)
        ensures
            is_dir ==> (validated matches Ok(r) && r@ == root@),
            !is_dir ==> (validated matches Err(HachiyaError::InitializationError(message))
                && message@ == "designated repository path is not a valid directory: "@ + root@),
    {
        if is_dir {
            Ok(root.clone())
        } else {
            let mut message = String::from_str(
                "designated repository path is not a valid directory: ",
            );
            message.append(root.as_str());
            Err(HachiyaError::InitializationError(message))
        }
    }

    /// The path of the workspace manifest, `Cargo.toml` under `root`, as
    /// [`crate::dylib::joins`] describes where `root` is joinable.
    pub fn manifest_path(root: &str) -> (path: String)
        ensures
            joinable(root@) ==> joins(root@, "Cargo.toml"@, path@),
    {
        proof {
            reveal_strlit("Cargo.toml");
            assert("Cargo.toml"@ =~= seq!['C', 'a', 'r', 'g', 'o', '.', 't', 'o', 'm', 'l']);
            assert(is_relative_part("Cargo.toml"@));
        }
        utf8_path_join(root, "Cargo.toml")
    }

    /// The repository's root directory.
    pub fn root_path(&self) -> (root: &String)
        ensures
            root@ == self.root(),
    {
        &self.root
    }

    /// Asks to build the whole workspace. Unless a build is already running,
    /// the answer is the manifest to run `cargo build --manifest-path` on;
    /// the caller starts that process and reports it with
    /// [`Repository::build_started`].
    ///
    /// # Errors
    ///
    /// [`HachiyaError::BuildError`] naming the running child process when a
    /// build is already running.
    pub fn build(&self) -> (request: Result<String, HachiyaError>)
        ensures
            request is Err <==> self.build_state() is Building,
            self.build_state() matches BuildState::Building(pid) ==> (request matches Err(
                HachiyaError::BuildError(message),
            ) && message@ == "child process "@ + decimal(pid as nat) + " is already running"@),
            request matches Ok(manifest) ==> (joinable(self.root()) ==> joins(
                self.root(),
                "Cargo.toml"@,
                manifest@,
            )),
    {
        match &self.state {
            BuildState::Building(pid) => {
                let mut message = String::from_str("child process ");
                message.append(decimal_text(*pid).as_str());
                message.append(" is already running");
                Err(HachiyaError::BuildError(message))
            },
            _ => Ok(Repository::manifest_path(self.root.as_str())),
        }
    }

    /// Records the outcome of starting the build asked for by
    /// [`Repository::build`]: the id of the child process, or none if it
    /// could not be spawned.
    ///
    /// # Errors
    ///
    /// [`HachiyaError::BuildError`] when the process could not be spawned;
    /// the state is then left as it was.
    pub fn build_started(&mut self, child: Option<u32>) -> (started: Result<(), HachiyaError>)
        requires
            !(old(self).build_state() is Building),
        ensures
            distinct_names(final(self).packages()),
            final(self).packages() == old(self).packages(),
            final(self).indexed() == old(self).indexed(),
            final(self).root() == old(self).root(),
            final(self).extension() == old(self).extension(),
            match child {
                Some(pid) => started is Ok && final(self).build_state() == BuildState::Building(pid),
                None => started matches Err(HachiyaError::BuildError(message)) && message@
                    == "failed to spawn build process"@ && final(self).build_state() == old(
                    self,
                ).build_state(),
            },
    {
        proof {
            use_type_invariant(&*self);
        }
        match child {
            Some(pid) => {
                self.state = BuildState::Building(pid);
                Ok(())
            },
            None => Err(HachiyaError::BuildError(String::from_str("failed to spawn build process"))),
        }
    }

    /// Puts `package` in as a member, replacing the member of the same name.
    fn insert_member(&mut self, package: Package)
        ensures
            final(self).packages() == insert_package(old(self).packages(), package),
            final(self).indexed() == old(self).indexed(),
            final(self).root() == old(self).root(),
            final(self).extension() == old(self).extension(),
            final(self).build_state() == old(self).build_state(),
    {
        proof {
            use_type_invariant(&*self);
        }
        let ghost before = self.packages();
        proof {
            law_insert_package(before, package);
        }
        let n: usize = self.members.len();
        let mut found: Option<usize> = None;
        for i in 0..n
            invariant
                n == self.members@.len(),
                self.packages() == before,
                match found {
                    Some(j) => j < n && before[j as int].name@ == package.name@,
                    None => forall|k: int| 0 <= k < i ==> before[k].name@ != package.name@,
                },
        {
            if found.is_none() && self.members[i].name().eq(&package.name) {
                found = Some(i);
            }
        }
        let mut members: Vec<Mod> = Vec::new();
        std::mem::swap(&mut members, &mut self.members);
        assert(members@.map_values(|m: Mod| m.package()) == before);
        match found {
            Some(j) => {
                proof {
                    lemma_name_index(before, j as int);
                }
                members.set(j, Mod::new(package));
                assert(members@.map_values(|m: Mod| m.package()) =~= insert_package(before, package));
            },
            None => {
                members.push(Mod::new(package));
                assert(members@.map_values(|m: Mod| m.package()) =~= insert_package(before, package));
            },
        }
        self.members = members;
    }

    /// Takes in the workspace metadata read from the repository's manifest:
    /// the member packages, or none if the manifest could not be found or
    /// read. Each member is put in by name, in order; a failed read forgets
    /// every member.
    ///
    /// # Errors
    ///
    /// [`HachiyaError::IndexingError`] naming the root when the metadata
    /// could not be read.
    pub fn index(&mut self, workspace: Option<Vec<Package>>) -> (indexed: Result<(), HachiyaError>)
        ensures
            distinct_names(final(self).packages()),
            final(self).root() == old(self).root(),
            final(self).extension() == old(self).extension(),
            final(self).build_state() == old(self).build_state(),
            match workspace {
                Some(members) => {
                    &&& indexed is Ok
                    &&& final(self).packages() == insert_packages(old(self).packages(), members@)
                    &&& final(self).indexed() matches Some(names) && names.len() == members@.len()
                        && forall|i: int|
                        0 <= i < members@.len() ==> #[trigger] names[i]@ == members@[i].name@
                },
                None => {
                    &&& indexed matches Err(HachiyaError::IndexingError(message)) && message@
                        == "could not find or deserialize a Cargo.toml under "@ + old(self).root()
                    &&& final(self).packages() == Seq::<Package>::empty()
                    &&& final(self).indexed() is None
                },
            },
    {
        match workspace {
            Some(members) => {
                let ghost all = members@;
                let ghost start = self.packages();
                let mut names: Vec<String> = Vec::new();
                for package in it: members.into_iter()
                    invariant
                        it.seq() == all,
                        self.packages() == insert_packages(start, all.take(it.index() as int)),
                        self.root() == old(self).root(),
                        self.extension() == old(self).extension(),
                        self.build_state() == old(self).build_state(),
                        names@.len() == it.index(),
                        forall|i: int| 0 <= i < it.index() ==> #[trigger] names@[i]@ == all[i].name@,
                {
                    let ghost k: int = it.index() as int;
                    proof {
                        assert(all.take(k + 1).drop_last() =~= all.take(k as int));
                        assert(all.take(k + 1).last() == package);
                    }
                    names.push(package.name.clone());
                    self.insert_member(package);
                }
                proof {
                    assert(all.take(all.len() as int) =~= all);
                    use_type_invariant(&*self);
                }
                self.metadata = Some(names);
                proof {
                    use_type_invariant(&*self);
                }
                Ok(())
            },
            None => {
                self.members = Vec::new();
                self.metadata = None;
                assert(self.packages() =~= Seq::<Package>::empty());
                proof {
                    use_type_invariant(&*self);
                }
                let mut message = String::from_str(
                    "could not find or deserialize a Cargo.toml under ",
                );
                message.append(self.root.as_str());
                Err(HachiyaError::IndexingError(message))
            },
        }
    }

    /// The libraries to load once the repository is built: one for each
    /// member built as a dynamic Rust library, in member order, at its debug
    /// build path under the root ([`Mod::library_path`]).
    ///
    /// # Errors
    ///
    /// [`HachiyaError::LoadError`] for `mods`, saying that the repository is
    /// unbuilt, unless the last build succeeded.
    pub fn load_all(&self) -> (requests: Result<Vec<LoadRequest>, HachiyaError>)
        ensures
            requests is Ok <==> self.build_state() is Built,
            !(self.build_state() is Built) ==> (requests matches Err(
                HachiyaError::LoadError(name, reason),
            ) && name@ == "mods"@ && reason@ == "the repository is unbuilt"@),
            requests matches Ok(list) ==> {
                &&& list@.len() == dylib_names(self.packages()).len()
                &&& forall|i: int|
                    0 <= i < list@.len() ==> (#[trigger] list@[i]).name@ == dylib_names(
                        self.packages(),
                    )[i] && list@[i].file@ == library_file_path(
                        BuildTarget::Debug,
                        list@[i].name@,
                        self.extension(),
                    ) && (joinable(self.root()) && is_relative_part(list@[i].file@) ==> joins(
                        self.root(),
                        list@[i].file@,
                        list@[i].path@,
                    ))
            },
    {
        match self.state {
            BuildState::Built => {
                let mut list: Vec<LoadRequest> = Vec::new();
                let n: usize = self.members.len();
                for i in 0..n
                    invariant
                        n == self.members@.len(),
                        list@.len() == dylib_names(self.packages().take(i as int)).len(),
                        forall|k: int|
                            0 <= k < list@.len() ==> (#[trigger] list@[k]).name@ == dylib_names(
                                self.packages().take(i as int),
                            )[k] && list@[k].file@ == library_file_path(
                                BuildTarget::Debug,
                                list@[k].name@,
                                self.extension(),
                            ) && (joinable(self.root()) && is_relative_part(list@[k].file@)
                                ==> joins(self.root(), list@[k].file@, list@[k].path@)),
                {
                    let ghost taken = self.packages().take(i as int);
                    proof {
                        assert(self.packages().take(i + 1).drop_last() =~= taken);
                        assert(self.packages().take(i + 1).last() == self.members@[i as int].package());
                    }
                    let member = &self.members[i];
                    if member.is_dylib() {
                        let file = member.library_file(BuildTarget::Debug, self.extension.as_str());
                        let path = member.library_path(
                            self.root.as_str(),
                            BuildTarget::Debug,
                            self.extension.as_str(),
                        );
                        list.push(LoadRequest { name: member.name().clone(), file, path });
                    }
                }
                proof {
                    assert(self.packages().take(n as int) =~= self.packages());
                }
                Ok(list)
            },
            _ => Err(
                HachiyaError::LoadError(
                    String::from_str("mods"),
                    String::from_str("the repository is unbuilt"),
                ),
            ),
        }
    }

    /// A repository at `root` on the operating system named `os`: it
    /// expects libraries with that system's extension
    /// ([`Repository::determine_dylib_extension`]), is unbuilt, and has its
    /// members indexed from `workspace` (the metadata read from its manifest,
    /// or none if it could not be read).
    ///
    /// # Errors
    ///
    /// [`HachiyaError::InitializationError`] carrying the indexing error's
    /// text when the metadata could not be read.
    pub fn new(os: &str, root: String, workspace: Option<Vec<Package>>) -> (repository: Result<
        Self,
        HachiyaError,
    >)
        ensures
            repository is Err <==> workspace is None,
            workspace is None ==> (repository matches Err(
                HachiyaError::InitializationError(message),
            ) && message@ == "failed to index repository; "@
                + "could not find or deserialize a Cargo.toml under "@ + root@),
            repository matches Ok(r) ==> {
                &&& distinct_names(r.packages())
                &&& r.extension() == extension_for(os@)
                &&& r.root() == root@
                &&& r.build_state() == BuildState::Unbuilt
                &&& r.packages() == insert_packages(Seq::<Package>::empty(), workspace->0@)
                &&& r.indexed() matches Some(names) && names.len() == workspace->0@.len()
                    && forall|i: int|
                    0 <= i < names.len() ==> #[trigger] names[i]@ == workspace->0@[i].name@
            },
    {
        let extension = Repository::determine_dylib_extension(os);
        let mut repository = Repository {
            extension,
            members: Vec::new(),
            metadata: None,
            root,
            state: BuildState::Unbuilt,
        };
        assert(repository.packages() =~= Seq::<Package>::empty());
        match repository.index(workspace) {
            Ok(()) => Ok(repository),
            Err(error) => Err(HachiyaError::InitializationError(error.message())),
        }
    }

    /// Where the repository's build stands.
    pub fn state(&self) -> (state: &BuildState)
        ensures
            *state == self.build_state(),
    {
        &self.state
    }

    /// Moves the repository on from a running build, given what polling the
    /// build process reported: built if it exited successfully, unbuilt if
    /// it exited otherwise or could not be polled, unchanged while it runs.
    /// When no build is running nothing changes.
    pub fn update(&mut self, poll: BuildPoll)
        ensures
            distinct_names(final(self).packages()),
            final(self).build_state() == state_after_poll(old(self).build_state(), poll),
            final(self).packages() == old(self).packages(),
            final(self).indexed() == old(self).indexed(),
            final(self).root() == old(self).root(),
            final(self).extension() == old(self).extension(),
    {
        proof {
            use_type_invariant(&*self);
        }
        if let BuildState::Building(_) = self.state {
            match poll {
                BuildPoll::Running => {},
                BuildPoll::Exited(success) => {
                    if success {
                        self.state = BuildState::Built;
                    } else {
                        self.state = BuildState::Unbuilt;
                    }
                },
                BuildPoll::Failed => {
                    self.state = BuildState::Unbuilt;
                },
            }
        }
    }
}

/// A place where the repository is expected, before it is checked to be a
/// directory.
pub struct RootCandidate {
    /// The path.
    pub path: String,
    /// Whether the user designated it (rather than it being resolved).
    pub designated: bool,
}

/// What looking up the running executable gave: its path as displayed and
/// its parent directory, if it has one, or the text of the error.
pub enum ExecutableLookup {
    /// The executable's path was found.
    Found {
        /// The path, as displayed.
        display: String,
        /// Its parent directory, if any.
        parent: Option<String>,
    },
    /// The executable's path could not be found; the error's text.
    Failed(String),
}

/// A build runs until polled to an end: a build that exits successfully
/// leaves the repository built (so that its mods can be loaded), one that
/// fails or cannot be polled leaves it unbuilt, one still running stays
/// building; and polling when no build runs changes nothing.
pub proof fn law_build_outcomes(pid: u32, state: BuildState, poll: BuildPoll)
    ensures
        state_after_poll(BuildState::Building(pid), BuildPoll::Exited(true)) == BuildState::Built,
        state_after_poll(BuildState::Building(pid), BuildPoll::Exited(false)) == BuildState::Unbuilt,
        state_after_poll(BuildState::Building(pid), BuildPoll::Failed) == BuildState::Unbuilt,
        state_after_poll(BuildState::Building(pid), BuildPoll::Running) == BuildState::Building(pid),
        !(state is Building) ==> state_after_poll(state, poll) == state,
{
}

/// Indexing keeps one member per name; afterwards every workspace member is
/// present under its name, and a name is present exactly when it was
/// before or is the name of a workspace member.
pub proof fn law_index_members(start: Seq<Package>, added: Seq<Package>)
    requires
        distinct_names(start),
    ensures
        distinct_names(insert_packages(start, added)),
        forall|i: int|
            0 <= i < added.len() ==> has_package_named(
                insert_packages(start, added),
                #[trigger] added[i].name@,
            ),
        forall|name: Seq<char>|
            has_package_named(insert_packages(start, added), name) <==> (has_package_named(
                start,
                name,
            ) || exists|i: int| 0 <= i < added.len() && added[i].name@ == name),
    decreases added.len(),
{
    if added.len() > 0 {
        let earlier = added.drop_last();
        let last = added.last();
        law_index_members(start, earlier);
        let mid = insert_packages(start, earlier);
        law_insert_package(mid, last);
        let result = insert_packages(start, added);
        assert(result == insert_package(mid, last));
        assert forall|i: int| 0 <= i < added.len() implies has_package_named(
            result,
            #[trigger] added[i].name@,
        ) by {
            if i < added.len() - 1 {
                assert(added[i] == earlier[i]);
                if added[i].name@ != last.name@ {
                    assert(has_package_named(mid, earlier[i].name@));
                }
            }
        }
        assert forall|name: Seq<char>|
            has_package_named(result, name) <==> (has_package_named(start, name) || exists|i: int|
                0 <= i < added.len() && added[i].name@ == name) by {
            if name != last.name@ {
                if exists|i: int| 0 <= i < added.len() && added[i].name@ == name {
                    let i: int = choose|i: int| 0 <= i < added.len() && added[i].name@ == name;
                    assert(i != added.len() - 1);
                    assert(earlier[i].name@ == name);
                }
                if exists|i: int| 0 <= i < earlier.len() && earlier[i].name@ == name {
                    let i: int = choose|i: int| 0 <= i < earlier.len() && earlier[i].name@ == name;
                    assert(added[i].name@ == name);
                }
            } else {
                assert(added[added.len() - 1].name@ == name);
            }
        }
    }
}

/// The last of `added` named `name`, if any.
pub open spec fn last_named(added: Seq<Package>, name: Seq<char>) -> Option<Package>
    decreases added.len(),
{
    if added.len() == 0 {
        None
    } else if added.last().name@ == name {
        Some(added.last())
    } else {
        last_named(added.drop_last(), name)
    }
}

/// After indexing, the member under each workspace member's name is the last
/// workspace member of that name.
proof fn lemma_last_named_stands(start: Seq<Package>, added: Seq<Package>)
    requires
        distinct_names(start),
    ensures
        forall|j: int|
            0 <= j < insert_packages(start, added).len() ==> (last_named(
                added,
                (#[trigger] insert_packages(start, added)[j]).name@,
            ) matches Some(p) ==> insert_packages(start, added)[j] == p),
    decreases added.len(),
{
    if added.len() > 0 {
        let earlier = added.drop_last();
        let last = added.last();
        lemma_last_named_stands(start, earlier);
        law_index_members(start, earlier);
        let mid = insert_packages(start, earlier);
        law_insert_package(mid, last);
        let result = insert_packages(start, added);
        assert(result == insert_package(mid, last));
        assert forall|j: int| 0 <= j < result.len() implies (last_named(
            added,
            (#[trigger] result[j]).name@,
        ) matches Some(p) ==> result[j] == p) by {
            if result[j].name@ != last.name@ {
                assert(last_named(added, result[j].name@) == last_named(earlier, result[j].name@));
                if has_package_named(mid, last.name@) {
                    let k: int = name_index(mid, last.name@);
                    assert(result == mid.update(k, last));
                    assert(j != k);
                } else {
                    assert(result == mid.push(last));
                    assert(j != mid.len());
                }
                assert(result[j] == mid[j]);
            }
        }
    }
}

/// Putting in again a prefix of the members indexed into `once` replaces,
/// under each name, the member by the last one of that name in the prefix.
proof fn lemma_reinsert_prefix(once: Seq<Package>, added: Seq<Package>, k: int)
    requires
        0 <= k <= added.len(),
        distinct_names(once),
        forall|i: int| 0 <= i < added.len() ==> has_package_named(once, #[trigger] added[i].name@),
    ensures
        insert_packages(once, added.take(k)).len() == once.len(),
        forall|j: int|
            0 <= j < once.len() ==> (#[trigger] insert_packages(once, added.take(k))[j]).name@
                == once[j].name@,
        forall|j: int|
            0 <= j < once.len() ==> #[trigger] insert_packages(once, added.take(k))[j] == match last_named(
                added.take(k),
                once[j].name@,
            ) {
                Some(p) => p,
                None => once[j],
            },
    decreases k,
{
    if k == 0 {
        assert(added.take(0) =~= Seq::<Package>::empty());
        assert forall|j: int| 0 <= j < once.len() implies #[trigger] insert_packages(
            once,
            added.take(k),
        )[j] == match last_named(added.take(k), once[j].name@) {
            Some(p) => p,
            None => once[j],
        } by {
            assert(last_named(added.take(k), once[j].name@) is None);
        }
    } else {
        lemma_reinsert_prefix(once, added, k - 1);
        let before = insert_packages(once, added.take(k - 1));
        let a = added[k - 1];
        assert(added.take(k).drop_last() =~= added.take(k - 1));
        assert(added.take(k).last() == a);
        let after = insert_packages(once, added.take(k));
        assert(after == insert_package(before, a));
        assert(distinct_names(before)) by {
            assert forall|x: int, y: int|
                0 <= x < before.len() && 0 <= y < before.len() && x != y implies before[x].name@
                != before[y].name@ by {
                assert(before[x].name@ == once[x].name@);
                assert(before[y].name@ == once[y].name@);
            }
        }
        let w: int = choose|w: int| 0 <= w < once.len() && once[w].name@ == a.name@;
        assert(before[w].name@ == a.name@);
        assert(has_package_named(before, a.name@));
        let idx: int = name_index(before, a.name@);
        assert(after == before.update(idx, a));
        assert forall|j: int| 0 <= j < once.len() implies (#[trigger] after[j]).name@
            == once[j].name@ by {
            if j == idx {
                assert(before[idx].name@ == once[idx].name@);
            }
        }
        assert forall|j: int| 0 <= j < once.len() implies #[trigger] after[j] == match last_named(
            added.take(k),
            once[j].name@,
        ) {
            Some(p) => p,
            None => once[j],
        } by {
            if j == idx {
                assert(once[j].name@ == a.name@);
                assert(last_named(added.take(k), once[j].name@) == Some(a));
            } else {
                assert(before[j].name@ != before[idx].name@);
                assert(once[j].name@ != a.name@);
                assert(last_named(added.take(k), once[j].name@) == last_named(
                    added.take(k - 1),
                    once[j].name@,
                ));
                assert(after[j] == before[j]);
            }
        }
    }
}

/// Indexing is idempotent: reading the same workspace again leaves the
/// members as they are.
pub proof fn law_reindex_is_idempotent(start: Seq<Package>, added: Seq<Package>)
    requires
        distinct_names(start),
    ensures
        insert_packages(insert_packages(start, added), added) == insert_packages(start, added),
{
    let once = insert_packages(start, added);
    lemma_last_named_stands(start, added);
    law_index_members(start, added);
    lemma_reinsert_prefix(once, added, added.len() as int);
    assert(added.take(added.len() as int) =~= added);
    let twice = insert_packages(once, added);
    assert forall|j: int| 0 <= j < once.len() implies #[trigger] twice[j] == once[j] by {
        match last_named(added, once[j].name@) {
            Some(p) => {},
            None => {},
        }
    }
    assert(twice =~= once);
}

/// Where the repository is looked for when none is designated:
/// `CARGO_MANIFEST_DIR` wins whenever it is set, whatever the executable
/// lookup reported (and no executable failure is then an error); the
/// executable's directory is used only when `CARGO_MANIFEST_DIR` is unset.
pub proof fn law_manifest_dir_first(dir: String, executable: ExecutableLookup, parent: String, display: String)
    ensures
        root_base(Some(dir), executable) == Some(dir@),
        resolution_error(Some(dir), executable) is None,
        root_base(None, ExecutableLookup::Found { display, parent: Some(parent) }) == Some(parent@),
        resolution_error(None, ExecutableLookup::Found { display, parent: Some(parent) }) is None,
        root_base(None, executable) is None <==> resolution_error(None, executable) is Some,
{
}

/// A member is built as a dynamic library exactly when its first target
/// lists `DyLib`, at whatever position among that target's crate types; no
/// other target counts.
pub proof fn law_dylib_anywhere_in_first_target(package: Package, i: int)
    ensures
        package.targets@.len() > 0 && 0 <= i < package.targets@[0].crate_types@.len()
            && package.targets@[0].crate_types@[i] is DyLib ==> is_dylib_package(package),
        package.targets@.len() == 0 ==> !is_dylib_package(package),
        package.targets@.len() > 0 && (forall|k: int|
            0 <= k < package.targets@[0].crate_types@.len() ==> !(
            #[trigger] package.targets@[0].crate_types@[k] is DyLib)) ==> !is_dylib_package(
            package,
        ),
{
}

/// Every member built as a dynamic library is listed to load, by its name.
pub proof fn law_every_dylib_member_listed(packages: Seq<Package>, j: int)
    requires
        0 <= j < packages.len(),
        is_dylib_package(packages[j]),
    ensures
        dylib_names(packages).contains(packages[j].name@),
    decreases packages.len(),
{
    let n = packages.len() - 1;
    if j == n {
        let earlier = dylib_names(packages.drop_last());
        assert(dylib_names(packages) == earlier.push(packages[j].name@));
        assert(dylib_names(packages)[earlier.len() as int] == packages[j].name@);
    } else {
        assert(packages.drop_last()[j] == packages[j]);
        law_every_dylib_member_listed(packages.drop_last(), j);
        let earlier = dylib_names(packages.drop_last());
        let k: int = choose|k: int| 0 <= k < earlier.len() && earlier[k] == packages[j].name@;
        if is_dylib_package(packages.last()) {
            assert(dylib_names(packages)[k] == earlier[k]);
        }
    }
}

/// The library file of a build lies in the profile's own directory whatever
/// the name and extension: `target/debug/lib<name><extension>` for a debug
/// build, `target/release/lib<name><extension>` for a release build. So two
/// files of one profile share that directory, and the extension never moves
/// a file to another profile.
pub proof fn law_library_file_profile(
    name: Seq<char>,
    extension: Seq<char>,
    other_name: Seq<char>,
    other_extension: Seq<char>,
)
    ensures
        library_file_path(BuildTarget::Debug, name, extension) == "target/debug/lib"@ + name
            + extension,
        library_file_path(BuildTarget::Release, name, extension) == "target/release/lib"@ + name
            + extension,
        library_file_path(BuildTarget::Debug, name, extension).take("target/debug/lib"@.len() as int)
            == library_file_path(BuildTarget::Debug, other_name, other_extension).take(
            "target/debug/lib"@.len() as int,
        ),
        library_file_path(BuildTarget::Release, name, extension).take(
            "target/release/lib"@.len() as int,
        ) == library_file_path(BuildTarget::Release, other_name, other_extension).take(
            "target/release/lib"@.len() as int,
        ),
{
    let d = "target/debug/lib"@;
    let r = "target/release/lib"@;
    assert((d + name + extension).take(d.len() as int) =~= d);
    assert((d + other_name + other_extension).take(d.len() as int) =~= d);
    assert((r + name + extension).take(r.len() as int) =~= r);
    assert((r + other_name + other_extension).take(r.len() as int) =~= r);
}

} // verus!
