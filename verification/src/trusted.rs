//! The calls that leave this crate. Every function here has a body that Verus
//! does not read: its contract is taken on trust, and says no more than the
//! called function's documentation and source show.

use std::str::FromStr;
use vstd::prelude::*;

verus! {

/// What `str::to_lowercase` returns for a text.
pub uninterp spec fn lowercase(text: Seq<char>) -> Seq<char>;

/// Whether `serde_json::Number::from_str` reads `text` as a number.
pub uninterp spec fn json_number_accepts(text: Seq<char>) -> bool;

/// Whether `chrono::NaiveDate::parse_from_str` reads `text` as a date written
/// in `format`.
pub uninterp spec fn naive_date_accepts(text: Seq<char>, format: Seq<char>) -> bool;

/// Whether `chrono::NaiveDateTime::parse_from_str` reads `text` as a date and
/// time written in `format`.
pub uninterp spec fn naive_datetime_accepts(text: Seq<char>, format: Seq<char>) -> bool;

/// Whether `chrono::DateTime::parse_from_rfc2822` reads `text` as a date and
/// time.
pub uninterp spec fn rfc2822_accepts(text: Seq<char>) -> bool;

/// Whether `chrono::DateTime::parse_from_rfc3339` reads `text` as a date and
/// time.
pub uninterp spec fn rfc3339_accepts(text: Seq<char>) -> bool;

/// What can come back when the home directory is put in place of a leading
/// `~`. A path that does not start with `~`, or in which something other than
/// a path separator follows the `~`, comes back as it is. Otherwise the path
/// comes back as it is where no home directory is known, and else with the
/// `~` replaced, so that what followed the `~` still ends the path.
pub open spec fn tilde_outcome(path: Seq<char>, expanded: Seq<char>) -> bool {
    if path.len() > 0 && path[0] == '~' && (path.len() == 1 || path[1] == '/' || path[1] == '\\') {
        expanded == path || crate::text::ends_with(expanded, path.skip(1))
    } else {
        expanded == path
    }
}

/// Calls `str::to_lowercase`, which returns the lowercase equivalent of the
/// text. The contract only gives that result its name.
#[verifier::external_body]
pub(crate) fn to_lowercase(text: &str) -> (lowered: String)
    ensures
        lowered@ == lowercase(text@),
{
    text.to_lowercase()
}

/// Calls `serde_json::Number::from_str` and tells whether it returned a
/// number. The contract only gives that answer its name.
#[verifier::external_body]
pub(crate) fn is_json_number(text: &str) -> (accepted: bool)
    ensures
        accepted == json_number_accepts(text@),
{
    serde_json::Number::from_str(text).is_ok()
}

/// Calls `chrono::NaiveDate::parse_from_str` and tells whether it returned a
/// date. The contract only gives that answer its name.
#[verifier::external_body]
pub(crate) fn naive_date_parses(text: &str, format: &str) -> (accepted: bool)
    ensures
        accepted == naive_date_accepts(text@, format@),
{
    chrono::NaiveDate::parse_from_str(text, format).is_ok()
}

/// Calls `chrono::NaiveDateTime::parse_from_str` and tells whether it returned
/// a date and time. The contract only gives that answer its name.
#[verifier::external_body]
pub(crate) fn naive_datetime_parses(text: &str, format: &str) -> (accepted: bool)
    ensures
        accepted == naive_datetime_accepts(text@, format@),
{
    chrono::NaiveDateTime::parse_from_str(text, format).is_ok()
}

/// Calls `chrono::DateTime::parse_from_rfc2822` and tells whether it returned
/// a date and time. The contract only gives that answer its name.
#[verifier::external_body]
pub(crate) fn rfc2822_parses(text: &str) -> (accepted: bool)
    ensures
        accepted == rfc2822_accepts(text@),
{
    chrono::DateTime::parse_from_rfc2822(text).is_ok()
}

/// Calls `chrono::DateTime::parse_from_rfc3339` and tells whether it returned
/// a date and time. The contract only gives that answer its name.
#[verifier::external_body]
pub(crate) fn rfc3339_parses(text: &str) -> (accepted: bool)
    ensures
        accepted == rfc3339_accepts(text@),
{
    chrono::DateTime::parse_from_rfc3339(text).is_ok()
}

/// Calls `shellexpand::tilde`, which replaces a leading `~` by the home
/// directory of the user. The result depends on the environment, so the
/// contract states what holds whichever home directory is found, or none.
#[verifier::external_body]
pub(crate) fn expand_tilde(path: &str) -> (expanded: String)
    ensures
        tilde_outcome(path@, expanded@),
{
    shellexpand::tilde(path).into_owned()
}

/// Calls `directories_next::ProjectDirs::from` and hands back the project's
/// configuration directory where there is one that can be written as text.
/// The result depends on the system and the environment: nothing is claimed
/// of it.
#[verifier::external_body]
pub(crate) fn project_config_dir(qualifier: &str, organization: &str, application: &str) -> (dir:
    Option<String>) {
    match directories_next::ProjectDirs::from(qualifier, organization, application) {
        Some(dirs) => match dirs.config_dir().to_str() {
            Some(text) => Some(text.to_owned()),
            None => None,
        },
        None => None,
    }
}

} // verus!
