//! Identifiers of applications.

use vstd::prelude::*;

verus! {

/// The identifier of an application: a Flatpak application id or a Nix attribute.
#[derive(Clone, Debug, PartialEq, Eq, PartialOrd, Ord, Hash)]
pub struct AppId {
    raw: String,
}

impl View for AppId {
    type V = Seq<char>;

    closed spec fn view(&self) -> Seq<char> {
        self.raw@
    }
}

impl AppId {
    /// The identifier with the given text.
    pub fn new(id: &str) -> (r: AppId)
        ensures
            r@ == id@,
    {
        AppId { raw: id.to_owned() }
    }

    /// The text of the identifier.
    pub fn raw(&self) -> (r: &str)
        ensures
            r@ == self@,
    {
        self.raw.as_str()
    }
}

} // verus!
