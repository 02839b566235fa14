//! The name and the version under which the application presents itself.
//!
//! Both accessors take nothing and read no state, so each has one result
//! only: whoever calls them, however often and in whatever order, is handed
//! the same strings.

use crate::semver::{is_numeric_identifier, is_semver, splits_as_semver, splits_as_version_core};
use vstd::prelude::*;

verus! {

/// The display name of the application.
pub const APP_NAME: &'static str = "TriFlow AI";

/// The version of the application, as its package metadata gives it.
pub const APP_VERSION: &'static str = "0.1.0";

/// The display name as a sequence of characters.
pub open spec fn app_name_spec() -> Seq<char> {
    APP_NAME@
}

/// The version as a sequence of characters.
pub open spec fn app_version_spec() -> Seq<char> {
    APP_VERSION@
}

/// Returns the display name of the application, `TriFlow AI`.
pub fn get_app_name() -> (name: String)
    ensures
        name@ == app_name_spec(),
        name@ == "TriFlow AI"@,
{
    APP_NAME.to_owned()
}

/// Returns the version of the application, a semantic version.
pub fn get_app_version() -> (version: String)
    ensures
        version@ == app_version_spec(),
        is_semver(version@),
{
    proof {
        lemma_app_version_is_semver();
    }
    APP_VERSION.to_owned()
}

/// The version has the format of a semantic version.
pub proof fn lemma_app_version_is_semver()
    ensures
        is_semver(app_version_spec()),
{
    reveal_strlit("0.1.0");
    let s = app_version_spec();
    assert(is_numeric_identifier(s.subrange(0, 1)));
    assert(is_numeric_identifier(s.subrange(2, 3)));
    assert(is_numeric_identifier(s.subrange(4, 5)));
    assert(s.subrange(0, 5) =~= s);
    assert(splits_as_version_core(s, 1, 3));
    assert(splits_as_semver(s, 5, 5));
}

/// Any two results of `get_app_name` are the same string: what the accessor
/// promises of its result leaves one value only, so a call depends neither on
/// the calls before it nor on who makes it.
pub proof fn lemma_app_name_is_fixed(first: String, second: String)
    requires
        first@ == app_name_spec(),
        second@ == app_name_spec(),
    ensures
        first@ == second@,
        first@ == "TriFlow AI"@,
{
}

/// Any two results of `get_app_version` are the same string, and that string
/// is a semantic version.
pub proof fn lemma_app_version_is_fixed(first: String, second: String)
    requires
        first@ == app_version_spec(),
        second@ == app_version_spec(),
    ensures
        first@ == second@,
        is_semver(first@),
{
    lemma_app_version_is_semver();
}

} // verus!
