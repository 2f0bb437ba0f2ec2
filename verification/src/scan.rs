//! The folders searched for installed applications, and the applications
//! that are never offered for removal.

use vstd::prelude::*;

use crate::text::{chars_eq_str, chars_of, concat, owned, sseqs, starts, starts_with_str};

verus! {

/// The folders searched for installed applications: the user's
/// Applications folder, then the system's and the shared one.
pub open spec fn app_folders(home: Seq<char>) -> Seq<Seq<char>> {
    seq![home + "/Applications"@, "/Applications"@, "/Users/Shared/Applications"@]
}

/// The folders searched for installed applications (see `app_folders`).
pub fn default_app_folders(home: &str) -> (r: Vec<String>)
    ensures
        sseqs(r@) == app_folders(home@),
{
    let r = vec![
        concat(home, "/Applications"),
        owned("/Applications"),
        owned("/Users/Shared/Applications"),
    ];
    assert(sseqs(r@) =~= app_folders(home@));
    r
}

/// An application never offered for removal: the browser of the system,
/// this cleaner itself, or anything in the system's Utilities folder.
pub open spec fn restricted(path: Seq<char>, bundle_id: Seq<char>) -> bool {
    bundle_id == "com.apple.Safari"@ || bundle_id == "com.alienator88.Pearcleaner"@ || starts(
        path,
        "/Applications/Utilities/"@,
    )
}

/// Whether an application is never offered for removal (see
/// `restricted`).
pub fn is_restricted(path: &str, bundle_id: &str) -> (r: bool)
    ensures
        r == restricted(path@, bundle_id@),
{
    let b = chars_of(bundle_id);
    let p = chars_of(path);
    chars_eq_str(b.as_slice(), "com.apple.Safari") || chars_eq_str(
        b.as_slice(),
        "com.alienator88.Pearcleaner",
    ) || starts_with_str(p.as_slice(), "/Applications/Utilities/")
}

} // verus!
