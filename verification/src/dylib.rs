//! Locating the dynamic libraries that are loaded as assets.
//!
//! The assets directory is looked for, in order, where the
//! `BEVY_ASSET_ROOT` environment variable points, where
//! `CARGO_MANIFEST_DIR` points, and beside the running executable. Reading
//! the environment and opening the library are left to the caller; this
//! module decides between the places found and forms the library's path.

use vstd::prelude::*;
use crate::exceptions::HachiyaError;

verus! {

/// The first of three optional places that is present.
pub open spec fn first_present(
    first: Option<String>,
    second: Option<String>,
    third: Option<String>,
) -> Option<Seq<char>> {
    match first {
        Some(place) => Some(place@),
        None => match second {
            Some(place) => Some(place@),
            None => match third {
                Some(place) => Some(place@),
                None => None,
            },
        },
    }
}

/// A path separator on some platform: `/` everywhere, `\\` on Windows.
pub open spec fn is_separator(c: char) -> bool {
    c == '/' || c == '\\'
}

/// A path that starts like a Windows verbatim prefix (`\\?\`), under which a
/// pushed path is normalized.
pub open spec fn starts_verbatim(base: Seq<char>) -> bool {
    base.len() >= 3 && is_separator(base[0]) && is_separator(base[1]) && base[2] == '?'
}

/// A base path that a relative path is adjoined to with one separator in
/// between, on every platform: not empty, ending neither in a separator nor
/// in `:` (a bare Windows drive such as `C:` takes no separator), and not
/// starting like a verbatim prefix.
pub open spec fn open_ended(base: Seq<char>) -> bool {
    &&& base.len() > 0
    &&& !is_separator(base.last())
    &&& base.last() != ':'
    &&& !starts_verbatim(base)
}

/// A base path ending in `/` (a separator on every platform) and not
/// starting like a verbatim prefix: a relative path is appended to it as it
/// is, with no separator added.
pub open spec fn slash_ended(base: Seq<char>) -> bool {
    base.len() > 0 && base.last() == '/' && !starts_verbatim(base)
}

/// A base path whose join with a relative path is the same on every
/// platform up to the separator put in: empty, ending in `/`, or open-ended.
pub open spec fn joinable(base: Seq<char>) -> bool {
    base.len() == 0 || slash_ended(base) || open_ended(base)
}

/// A path that counts as relative on every platform: not empty, not
/// starting with a separator (so it has no root), and holding no `:` (so it
/// has no Windows drive prefix; every other Windows prefix starts with a
/// separator).
pub open spec fn is_relative_part(part: Seq<char>) -> bool {
    &&& part.len() > 0
    &&& !is_separator(part[0])
    &&& forall|i: int| 0 <= i < part.len() ==> #[trigger] part[i] != ':'
}

/// `joined` is `base`, one separator, then `part`.
pub open spec fn adjoined(base: Seq<char>, part: Seq<char>, joined: Seq<char>) -> bool {
    exists|sep: char| is_separator(sep) && joined == base + seq![sep] + part
}

/// The join of a [`joinable`] base with a relative part: the part alone on
/// an empty base, the two run together on a base ending in `/`, and the two
/// with one separator between them on an open-ended base.
pub open spec fn joins(base: Seq<char>, part: Seq<char>, joined: Seq<char>) -> bool {
    if base.len() == 0 {
        joined == part
    } else if slash_ended(base) {
        joined == base + part
    } else {
        adjoined(base, part, joined)
    }
}

/// Adjoins `part` to the path `base` with `std::path::Path::join`.
///
/// Trusted. The contract claims what the documentation of `Path::join` and
/// `PathBuf::push` shows of pushing a relative path onto a path without a
/// verbatim prefix: it extends `base`, putting the platform's separator
/// between the two when `base` does not already end in one (an empty base
/// takes no separator). It claims this only where `part` is relative on
/// every platform and `base` is [`joinable`]. Which separator is put in, and
/// what happens to absolute or prefixed parts, to verbatim bases (which are
/// normalized) and to bases ending in `\\` or `:` (whose treatment differs
/// between platforms), follows the rules of the platform the crate was built
/// for and is left unsaid.
#[verifier::external_body]
fn path_join(base: &str, part: &str) -> (joined: String)
    ensures
        joinable(base@) && is_relative_part(part@) ==> joins(base@, part@, joined@),
{
    std::path::Path::new(base).join(part).to_string_lossy().into_owned()
}

/// A dynamic library asset and where it is found.
pub struct Dylib;

impl Dylib {
    /// Decides the base path of the assets directory from what the
    /// environment offered: the value of `BEVY_ASSET_ROOT`, else that of
    /// `CARGO_MANIFEST_DIR`, else the directory of the running executable.
    ///
    /// # Errors
    ///
    /// [`HachiyaError::UnresolvedAssets`] when none of the three is present.
    pub fn resolve_assets(
        bevy_asset_root: Option<String>,
        cargo_manifest_dir: Option<String>,
        executable_parent: Option<String>,
    ) -> (resolved: Result<String, HachiyaError>)
        ensures
            match resolved {
                Ok(root) => first_present(bevy_asset_root, cargo_manifest_dir, executable_parent)
                    == Some(root@),
                Err(error) => first_present(bevy_asset_root, cargo_manifest_dir, executable_parent)
                    is None && error is UnresolvedAssets,
            },
            bevy_asset_root matches Some(a) ==> (resolved matches Ok(r) && r@ == a@),
            bevy_asset_root is None ==> (cargo_manifest_dir matches Some(b) ==> (resolved matches Ok(
                r,
            ) && r@ == b@)),
            bevy_asset_root is None && cargo_manifest_dir is None ==> (executable_parent matches Some(
                c,
            ) ==> (resolved matches Ok(r) && r@ == c@)),
            resolved is Err <==> (bevy_asset_root is None && cargo_manifest_dir is None
                && executable_parent is None),
    {
        if let Some(root) = bevy_asset_root {
            Ok(root)
        } else if let Some(root) = cargo_manifest_dir {
            Ok(root)
        } else if let Some(root) = executable_parent {
            Ok(root)
        } else {
            Err(HachiyaError::UnresolvedAssets)
        }
    }

    /// The path of the asset `asset_path` under the `assets` directory of
    /// `assets_root`: `assets_root`, then `assets`, then `asset_path`,
    /// adjoined by the platform's path rules. Where `assets_root` is
    /// [`joinable`] and `asset_path` is relative, that is `assets_root`
    /// joined with `assets`, a separator, and `asset_path`.
    pub fn library_path(assets_root: &str, asset_path: &str) -> (path: String)
        ensures
            joinable(assets_root@) && is_relative_part(asset_path@) ==> under_assets(
                assets_root@,
                asset_path@,
                path@,
            ),
    {
        proof {
            reveal_strlit("assets");
            assert("assets"@ =~= seq!['a', 's', 's', 'e', 't', 's']);
            assert(is_relative_part("assets"@));
        }
        let assets = path_join(assets_root, "assets");
        proof {
            if joinable(assets_root@) {
                lemma_join_open_ended(assets_root@, "assets"@, assets@);
            }
        }
        let path = path_join(assets.as_str(), asset_path);
        proof {
            if joinable(assets_root@) && is_relative_part(asset_path@) {
                assert(joins(assets_root@, "assets"@, assets@) && adjoined(assets@, asset_path@, path@));
            }
        }
        path
    }
}

/// `path` is `root` joined with `assets`, then a separator, then
/// `asset_path`.
pub open spec fn under_assets(root: Seq<char>, asset_path: Seq<char>, path: Seq<char>) -> bool {
    exists|dir: Seq<char>| joins(root, "assets"@, dir) && adjoined(dir, asset_path, path)
}

/// Joining a relative part that ends in neither a separator nor `:`, and
/// does not start with `?`, to a joinable base gives an open-ended path.
pub proof fn lemma_join_open_ended(base: Seq<char>, part: Seq<char>, joined: Seq<char>)
    requires
        joinable(base),
        is_relative_part(part),
        !is_separator(part.last()),
        part[0] != '?',
        joins(base, part, joined),
    ensures
        open_ended(joined),
{
    assert(part[part.len() - 1] != ':');
    if base.len() == 0 {
        assert(joined == part);
    } else if slash_ended(base) {
        assert(joined == base + part);
        assert(joined.last() == part[part.len() - 1]);
        if base.len() >= 3 {
            assert(joined[0] == base[0] && joined[1] == base[1] && joined[2] == base[2]);
        } else if base.len() == 2 {
            assert(joined[0] == base[0] && joined[1] == base[1] && joined[2] == part[0]);
        } else {
            assert(joined[1] == part[0]);
        }
    } else {
        let sep: char = choose|sep: char| is_separator(sep) && joined == base + seq![sep] + part;
        assert(joined.last() == part[part.len() - 1]);
        if base.len() >= 3 {
            assert(joined[0] == base[0] && joined[1] == base[1] && joined[2] == base[2]);
        } else if base.len() == 2 {
            assert(joined[0] == base[0] && joined[1] == base[1]);
            assert(!is_separator(base[1]));
        } else {
            assert(joined[0] == base[0]);
            assert(!is_separator(base[0]));
        }
    }
}

/// The assets root is looked for in a fixed order: `BEVY_ASSET_ROOT` wins
/// whenever it is set, whatever the other two are; `CARGO_MANIFEST_DIR` is
/// used only when `BEVY_ASSET_ROOT` is unset; the executable's directory only
/// when both are unset; and nothing is found only when all three are absent.
pub proof fn law_assets_root_precedence(
    first: Option<String>,
    second: Option<String>,
    third: Option<String>,
)
    ensures
        first matches Some(a) ==> first_present(first, second, third) == Some(a@),
        first is None ==> (second matches Some(b) ==> first_present(first, second, third) == Some(
            b@,
        )),
        first is None && second is None ==> (third matches Some(c) ==> first_present(
            first,
            second,
            third,
        ) == Some(c@)),
        first_present(first, second, third) is None <==> (first is None && second is None
            && third is None),
        first_present(first, second, third) matches Some(found) ==> ((first matches Some(a)
            && found == a@) || (second matches Some(b) && found == b@) || (third matches Some(c)
            && found == c@)),
{
}

} // verus!
