//! Errors reported by the mod loader, and the text each one displays.

use vstd::prelude::*;

verus! {

/// The decimal digits of `n`, most significant first, without sign or padding.
pub open spec fn decimal(n: nat) -> Seq<char>
    decreases n,
{
    if n < 10 {
        seq![digit(n)]
    } else {
        decimal(n / 10).push(digit(n % 10))
    }
}

/// The character of a decimal digit `d < 10`.
pub open spec fn digit(d: nat) -> char {
    (d + 48) as char
}

/// The decimal digit `d` as a string.
fn digit_text(d: u32) -> (text: String)
    requires
        d < 10,
    ensures
        text@ == seq![digit(d as nat)],
{
    match d {
        0 => {
            proof {
                reveal_strlit("0");
                assert("0"@ =~= seq!['0']);
            }
            String::from_str("0")
        },
        1 => {
            proof {
                reveal_strlit("1");
                assert("1"@ =~= seq!['1']);
            }
            String::from_str("1")
        },
        2 => {
            proof {
                reveal_strlit("2");
                assert("2"@ =~= seq!['2']);
            }
            String::from_str("2")
        },
        3 => {
            proof {
                reveal_strlit("3");
                assert("3"@ =~= seq!['3']);
            }
            String::from_str("3")
        },
        4 => {
            proof {
                reveal_strlit("4");
                assert("4"@ =~= seq!['4']);
            }
            String::from_str("4")
        },
        5 => {
            proof {
                reveal_strlit("5");
                assert("5"@ =~= seq!['5']);
            }
            String::from_str("5")
        },
        6 => {
            proof {
                reveal_strlit("6");
                assert("6"@ =~= seq!['6']);
            }
            String::from_str("6")
        },
        7 => {
            proof {
                reveal_strlit("7");
                assert("7"@ =~= seq!['7']);
            }
            String::from_str("7")
        },
        8 => {
            proof {
                reveal_strlit("8");
                assert("8"@ =~= seq!['8']);
            }
            String::from_str("8")
        },
        _ => {
            proof {
                reveal_strlit("9");
                assert("9"@ =~= seq!['9']);
            }
            String::from_str("9")
        },
    }
}

/// `n` in decimal, as `Display` for `u32` writes it.
pub(crate) fn decimal_text(n: u32) -> (text: String)
    ensures
        text@ == decimal(n as nat),
    decreases n,
{
    if n < 10 {
        digit_text(n)
    } else {
        let mut text = decimal_text(n / 10);
        let last = digit_text(n % 10);
        text.append(last.as_str());
        text
    }
}

/// Everything that can go wrong while loading mods.
pub enum HachiyaError {
    /// The `main` symbol could not be resolved from a shared object, or an
    /// ABI mismatch was suspected; holds the loader's own explanation.
    InvalidHook(String),
    /// A shared object could not be loaded from disk or opened; holds the
    /// loader's own explanation.
    LoadFailure(String),
    /// The base path of the assets directory could not be inferred.
    UnresolvedAssets,
    /// A named mod (first field) could not be loaded, for the given reason.
    LoadError(String, String),
    /// The mod repository could not be set up.
    InitializationError(String),
    /// The mod repository could not be built.
    BuildError(String),
    /// The workspace manifest of the mod repository could not be read.
    IndexingError(String),
}

/// The text that an error displays.
pub open spec fn error_message(e: HachiyaError) -> Seq<char> {
    match e {
        HachiyaError::InvalidHook(reason) =>
            "failed to get 'main' symbol from shared object; "@ + reason@,
        HachiyaError::LoadFailure(_) => "failed to load shared object;"@,
        HachiyaError::UnresolvedAssets => "failed to resolve the base-path of the assets directory"@,
        HachiyaError::LoadError(name, reason) => "failed to load "@ + name@ + "; "@ + reason@,
        HachiyaError::InitializationError(reason) => "failed to initialize repository; "@ + reason@,
        HachiyaError::BuildError(reason) => "failed to build repository; "@ + reason@,
        HachiyaError::IndexingError(reason) => "failed to index repository; "@ + reason@,
    }
}

impl HachiyaError {
    /// The text this error displays.
    pub fn message(&self) -> (text: String)
        ensures
            text@ == error_message(*self),
    {
        match self {
            HachiyaError::InvalidHook(reason) => {
                let mut text = String::from_str("failed to get 'main' symbol from shared object; ");
                text.append(reason.as_str());
                text
            },
            HachiyaError::LoadFailure(_) => String::from_str("failed to load shared object;"),
            HachiyaError::UnresolvedAssets => String::from_str(
                "failed to resolve the base-path of the assets directory",
            ),
            HachiyaError::LoadError(name, reason) => {
                let mut text = String::from_str("failed to load ");
                text.append(name.as_str());
                text.append("; ");
                text.append(reason.as_str());
                text
            },
            HachiyaError::InitializationError(reason) => {
                let mut text = String::from_str("failed to initialize repository; ");
                text.append(reason.as_str());
                text
            },
            HachiyaError::BuildError(reason) => {
                let mut text = String::from_str("failed to build repository; ");
                text.append(reason.as_str());
                text
            },
            HachiyaError::IndexingError(reason) => {
                let mut text = String::from_str("failed to index repository; ");
                text.append(reason.as_str());
                text
            },
        }
    }
}

} // verus!
