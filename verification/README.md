# Hachiya

Hachiya lets a Bevy application be modified by native Rust libraries ("mods")
instead of a scripting engine. Mods live in a Cargo workspace (the
repository), are built in the background, and are loaded as dynamic libraries
whose entry point registers resources, components and systems.

## Layout

- `src/` is the library, verified with Verus. It keeps the loader's state and
  makes its decisions over plain values:
  - `dynapp`: the handle a library's entry point queues groups of systems on;
  - `registrar`: the queues mods fill, and, per loaded library, the schedule
    and system-set contexts its systems were placed under;
  - `applicator`: the ordered changes that apply what was queued;
  - `plugin`: which asset events call for registering or updating a library;
  - `dylib`, `shared_object`: where a library asset is looked for;
  - `repository`: the mod workspace, its members and its build state machine;
  - `exceptions`: the errors and the text each displays.
- `app/` is the Bevy side: asset loaders, resources and systems that read the
  environment, run `cargo`, open libraries and touch the ECS world, and hand
  what they find to the library.
- `tests/` exercises the library on concrete values.
