//! Hachiya: hooking native Rust libraries ("mods") into a Bevy application.
//!
//! This crate holds the bookkeeping and decision logic of the mod loader,
//! stated over plain values and proved with Verus: what a dynamic library
//! registered, which systems must be removed when it is reloaded, in which
//! order queued registrations are applied, how the mod repository moves
//! between its build states, and how the paths and error messages it reports
//! are formed.

pub mod exceptions;
pub mod dynapp;
pub mod registrar;
pub mod applicator;
pub mod dylib;
pub mod shared_object;
pub mod repository;
pub mod plugin;

pub use shared_object::{SharedObject, SharedObjectLoaderError};
