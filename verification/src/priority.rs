//! Which source of an application comes first.

use crate::app_id::AppId;
use crate::backend::BackendName;
use crate::text::same;
use vstd::prelude::*;

verus! {

/// The priority of a source: the user's Flatpak installation is preferred, and in it Flathub.
pub open spec fn source_priority(backend_name: BackendName, source_id: Seq<char>) -> i32 {
    if backend_name != BackendName::FlatpakUser {
        0
    } else if source_id == "flathub"@ {
        3
    } else {
        2
    }
}

/// The priority of a source. It is the same for all applications.
pub fn priority(backend_name: BackendName, source_id: &str, _id: &AppId) -> (r: i32)
    ensures
        r == source_priority(backend_name, source_id@),
{
    let mut priority: i32 = 0;
    if backend_name == BackendName::FlatpakUser {
        priority = priority + 2;
        if same(source_id, "flathub") {
            priority = priority + 1;
        }
    }
    priority
}

/// The user's Flatpak installation comes before every other source, and in it Flathub before
/// every other remote.
pub proof fn flathub_for_the_user_comes_first(
    name: BackendName,
    source_id: Seq<char>,
    other_id: Seq<char>,
)
    requires
        source_id != "flathub"@,
    ensures
        source_priority(BackendName::FlatpakUser, "flathub"@) > source_priority(
            BackendName::FlatpakUser,
            source_id,
        ),
        name != BackendName::FlatpakUser ==> source_priority(BackendName::FlatpakUser, source_id)
            > source_priority(name, other_id),
{
}

/// Outside the user's Flatpak installation no source is preferred to another, and in it no remote
/// but Flathub.
pub proof fn other_sources_are_equal(
    a: BackendName,
    b: BackendName,
    a_id: Seq<char>,
    b_id: Seq<char>,
)
    ensures
        a != BackendName::FlatpakUser && b != BackendName::FlatpakUser ==> source_priority(a, a_id)
            == source_priority(b, b_id),
        a_id != "flathub"@ && b_id != "flathub"@ ==> source_priority(BackendName::FlatpakUser, a_id)
            == source_priority(BackendName::FlatpakUser, b_id),
{
}

} // verus!
