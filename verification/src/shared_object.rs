//! The earlier, simpler asset loader for shared objects: it looks for the
//! assets directory in the same three places as [`crate::dylib`], but
//! reports a missing base path as an error about the asset being loaded.

use vstd::prelude::*;
use crate::dylib::{first_present, is_relative_part, joinable, under_assets, Dylib};

verus! {

/// Why a shared object could not be located.
pub enum SharedObjectLoaderError {
    /// The path of the named asset could not be resolved.
    PathError(String),
}

/// The text that a loader error displays.
pub open spec fn loader_error_message(e: SharedObjectLoaderError) -> Seq<char> {
    match e {
        SharedObjectLoaderError::PathError(path) => "failed to resolve path to "@ + path@,
    }
}

impl SharedObjectLoaderError {
    /// The text this error displays.
    pub fn message(&self) -> (text: String)
        ensures
            text@ == loader_error_message(*self),
    {
        match self {
            SharedObjectLoaderError::PathError(path) => {
                let mut text = String::from_str("failed to resolve path to ");
                text.append(path.as_str());
                text
            },
        }
    }
}

/// A shared object loaded as an asset.
pub struct SharedObject;

impl SharedObject {
    /// The base path of the assets directory: the value of
    /// `BEVY_ASSET_ROOT`, else that of `CARGO_MANIFEST_DIR`, else the
    /// directory of the running executable, else none.
    pub fn get_assets_root(
        bevy_asset_root: Option<String>,
        cargo_manifest_dir: Option<String>,
        executable_parent: Option<String>,
    ) -> (root: Option<String>)
        ensures
            match root {
                Some(root) => first_present(bevy_asset_root, cargo_manifest_dir, executable_parent)
                    == Some(root@),
                None => first_present(bevy_asset_root, cargo_manifest_dir, executable_parent)
                    is None,
            },
            bevy_asset_root matches Some(a) ==> (root matches Some(r) && r@ == a@),
            bevy_asset_root is None ==> (cargo_manifest_dir matches Some(b) ==> (root matches Some(
                r,
            ) && r@ == b@)),
            bevy_asset_root is None && cargo_manifest_dir is None ==> (executable_parent matches Some(
                c,
            ) ==> (root matches Some(r) && r@ == c@)),
            root is None <==> (bevy_asset_root is None && cargo_manifest_dir is None
                && executable_parent is None),
    {
        if let Some(root) = bevy_asset_root {
            Some(root)
        } else if let Some(root) = cargo_manifest_dir {
            Some(root)
        } else if let Some(root) = executable_parent {
            Some(root)
        } else {
            None
        }
    }

    /// Where the asset `asset_path` is to be loaded from, given the base path
    /// of the assets directory, if one was found: the asset under the
    /// `assets` directory of that base, as [`Dylib::library_path`] forms it.
    ///
    /// # Errors
    ///
    /// [`SharedObjectLoaderError::PathError`] naming `asset_path` exactly
    /// when no base path was found.
    pub fn load(root: Option<String>, asset_path: String) -> (location: Result<
        String,
        SharedObjectLoaderError,
    >)
        ensures
            location is Err <==> root is None,
            location matches Err(SharedObjectLoaderError::PathError(path)) ==> path@ == asset_path@,
            root matches Some(r) ==> (joinable(r@) && is_relative_part(asset_path@) ==> (
            location matches Ok(l) && under_assets(r@, asset_path@, l@))),
    {
        match root {
            Some(root) => Ok(Dylib::library_path(root.as_str(), asset_path.as_str())),
            None => Err(SharedObjectLoaderError::PathError(asset_path)),
        }
    }
}

} // verus!
