//! Shared data model: search sensitivity, application description, match
//! results and the per-application rules.

use vstd::prelude::*;

use crate::text::{chars_eq_str, chars_of};
use crate::unicode::{str_to_lower, unicode_str_lower};

verus! {

/// How liberally related files are matched (strict, enhanced or deep).
#[derive(Clone, Copy, PartialEq, Eq, Debug, Structural)]
pub enum Sensitivity {
    Strict,
    Enhanced,
    Deep,
}

impl Default for Sensitivity {
    fn default() -> (r: Sensitivity)
        ensures
            r == Sensitivity::Deep,
    {
        Sensitivity::Deep
    }
}

/// The sensitivity a setting names: "strict" or "enhanced" in any case, and
/// deep for every other text.
pub open spec fn sensitivity_named(s: Seq<char>) -> Sensitivity {
    let l = unicode_str_lower(s);
    if l == seq!['s', 't', 'r', 'i', 'c', 't'] {
        Sensitivity::Strict
    } else if l == seq!['e', 'n', 'h', 'a', 'n', 'c', 'e', 'd'] {
        Sensitivity::Enhanced
    } else {
        Sensitivity::Deep
    }
}

impl Sensitivity {
    /// The sensitivity a setting names (see `sensitivity_named`).
    pub fn parse(s: &str) -> (r: Sensitivity)
        ensures
            r == sensitivity_named(s@),
    {
        let lower = str_to_lower(s);
        let l = chars_of(lower.as_str());
        proof {
            reveal_strlit("strict");
            reveal_strlit("enhanced");
        }
        if chars_eq_str(l.as_slice(), "strict") {
            assert("strict"@ =~= seq!['s', 't', 'r', 'i', 'c', 't']);
            Sensitivity::Strict
        } else if chars_eq_str(l.as_slice(), "enhanced") {
            assert("strict"@ =~= seq!['s', 't', 'r', 'i', 'c', 't']);
            assert("enhanced"@ =~= seq!['e', 'n', 'h', 'a', 'n', 'c', 'e', 'd']);
            Sensitivity::Enhanced
        } else {
            assert("strict"@ =~= seq!['s', 't', 'r', 'i', 'c', 't']);
            assert("enhanced"@ =~= seq!['e', 'n', 'h', 'a', 'n', 'c', 'e', 'd']);
            Sensitivity::Deep
        }
    }
}

/// What the matcher knows of an installed application. `path` is the bundle
/// path (a `/`-separated text).
#[derive(Clone, Debug)]
pub struct AppInfo {
    pub path: String,
    pub bundle_identifier: String,
    pub app_name: String,
    /// Entitlement and helper names found in the bundle.
    pub entitlements: Vec<String>,
    pub team_identifier: Option<String>,
    pub web_app: bool,
    pub steam: bool,
    pub wrapped: bool,
}

/// One matched file.
#[derive(Clone, Debug)]
pub struct MatchedFile {
    pub path: String,
}

impl MatchedFile {
    /// A match for the given path.
    pub fn from_path(path: String) -> (r: MatchedFile)
        ensures
            r.path == path,
    {
        MatchedFile { path }
    }
}

impl From<String> for MatchedFile {
    fn from(path: String) -> (r: MatchedFile) {
        MatchedFile::from_path(path)
    }
}

impl vstd::std_specs::convert::FromSpecImpl<String> for MatchedFile {
    open spec fn obeys_from_spec() -> bool {
        true
    }

    open spec fn from_spec(v: String) -> MatchedFile {
        MatchedFile { path: v }
    }
}

/// Per-application rules: names an application's files always or never match
/// (`bundle_id`, `includes` and `exclude` are in normal form) and paths that
/// always or never belong to it.
#[derive(Clone, Debug)]
pub struct Condition {
    pub bundle_id: String,
    pub includes: Vec<String>,
    pub exclude: Vec<String>,
    pub include_force: Vec<String>,
    pub exclude_force: Vec<String>,
}

/// Names and paths that are never candidates: name prefixes (unless a name
/// also has an allowed prefix) and path prefixes.
#[derive(Clone, Debug)]
pub struct SkipCondition {
    pub skip_prefix: Vec<String>,
    pub allow_prefixes: Vec<String>,
    pub skip_paths: Vec<String>,
}

} // verus!
