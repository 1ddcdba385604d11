//! The sources of applications.

use crate::text::same;
use vstd::prelude::*;
use vstd::string::*;

pub mod catalog;
pub mod desktop;
pub mod fts;
pub mod hm_options;
pub mod infos;
pub mod installed;
pub mod nix;
pub mod nix_value;

pub use installed::Package;

verus! {

/// The kinds of sources.
#[derive(Clone, Copy, Debug, Eq, Hash, Ord, PartialEq, PartialOrd, Structural)]
pub enum BackendName {
    /// The unified catalog of Mirror OS
    Catalog,
    FlatpakUser,
    FlatpakSystem,
    Nix,
}

/// The text by which a source is known.
pub open spec fn backend_text(name: BackendName) -> Seq<char> {
    match name {
        BackendName::Catalog => "catalog"@,
        BackendName::FlatpakUser => "flatpak-user"@,
        BackendName::FlatpakSystem => "flatpak-system"@,
        BackendName::Nix => "nix"@,
    }
}

/// The source that is known by a text.
pub open spec fn backend_named(s: Seq<char>) -> Option<BackendName> {
    if s == "catalog"@ {
        Some(BackendName::Catalog)
    } else if s == "flatpak-user"@ {
        Some(BackendName::FlatpakUser)
    } else if s == "flatpak-system"@ {
        Some(BackendName::FlatpakSystem)
    } else if s == "nix"@ {
        Some(BackendName::Nix)
    } else {
        None
    }
}

impl BackendName {
    /// The text by which the source is known.
    pub fn as_str(&self) -> (r: &'static str)
        ensures
            r@ == backend_text(*self),
    {
        match self {
            BackendName::Catalog => "catalog",
            BackendName::FlatpakUser => "flatpak-user",
            BackendName::FlatpakSystem => "flatpak-system",
            BackendName::Nix => "nix",
        }
    }

    /// Whether the source is a Flatpak installation.
    pub fn is_flatpak(&self) -> (r: bool)
        ensures
            r == (*self == BackendName::FlatpakUser || *self == BackendName::FlatpakSystem),
    {
        matches!(self, BackendName::FlatpakUser | BackendName::FlatpakSystem)
    }

    /// The text by which the source is known, for display.
    pub fn to_string(&self) -> (r: String)
        ensures
            r@ == backend_text(*self),
    {
        self.as_str().to_owned()
    }

    /// The source that is known by `s`.
    pub fn from_str(s: &str) -> (r: Result<BackendName, String>)
        ensures
            match r {
                Ok(name) => backend_named(s@) == Some(name),
                Err(message) => backend_named(s@) is None && message@ == "unknown backend name: "@
                    + s@,
            },
    {
        if same(s, "catalog") {
            Ok(BackendName::Catalog)
        } else if same(s, "flatpak-user") {
            Ok(BackendName::FlatpakUser)
        } else if same(s, "flatpak-system") {
            Ok(BackendName::FlatpakSystem)
        } else if same(s, "nix") {
            Ok(BackendName::Nix)
        } else {
            let mut message = "unknown backend name: ".to_owned();
            message.append(s);
            Err(message)
        }
    }
}

impl std::str::FromStr for BackendName {
    type Err = String;

    fn from_str(s: &str) -> (r: Result<BackendName, String>)
        ensures
            match r {
                Ok(name) => backend_named(s@) == Some(name),
                Err(message) => backend_named(s@) is None && message@ == "unknown backend name: "@
                    + s@,
            },
    {
        BackendName::from_str(s)
    }
}

/// The text of a source names that source again, and a text that names a source is that source's
/// text.
pub proof fn backend_texts_round_trip(name: BackendName, s: Seq<char>)
    ensures
        backend_named(backend_text(name)) == Some(name),
        backend_named(s) == Some(name) ==> s == backend_text(name),
{
    reveal_strlit("catalog");
    reveal_strlit("flatpak-user");
    reveal_strlit("flatpak-system");
    reveal_strlit("nix");
    assert("catalog"@.len() == 7);
    assert("flatpak-user"@.len() == 12);
    assert("flatpak-system"@.len() == 14);
    assert("nix"@.len() == 3);
}

} // verus!
