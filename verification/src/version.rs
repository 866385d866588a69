//! Semantic versions and version requirements, as the `semver` crate reads them.
//!
//! Nothing here is proved: each function below hands two strings to `semver` and
//! reports what it answered. The spec functions give those answers a name, so
//! that the rest of the library can say exactly which answers it relies on.

use semver::{Version, VersionReq};
use vstd::prelude::*;

verus! {

/// What `semver::VersionReq::parse` makes of `text`: `None` where it accepts
/// the text, else the message of the error it returns.
pub uninterp spec fn requirement_error(text: Seq<char>) -> Option<Seq<char>>;

/// What `semver::Version::parse` makes of `text`: `None` where it rejects the
/// text, else the version it read, as that version displays.
pub uninterp spec fn canonical_version(text: Seq<char>) -> Option<Seq<char>>;

/// Whether `requirement` and `version` both parse and
/// `semver::VersionReq::matches` holds of the two.
pub uninterp spec fn admits(requirement: Seq<char>, version: Seq<char>) -> bool;

/// Whether `lower` and `higher` both parse as versions and the first is less
/// than the second in `semver::Version`'s ordering.
pub uninterp spec fn precedes(lower: Seq<char>, higher: Seq<char>) -> bool;

/// The view of an optional string.
pub open spec fn optional_text(s: Option<String>) -> Option<Seq<char>> {
    match s {
        Some(t) => Some(t@),
        None => None,
    }
}

/// Calls `semver::VersionReq::parse` on `text` and keeps only the error's
/// message. The contract names the answer and claims nothing about it.
#[verifier::external_body]
pub(crate) fn check_requirement(text: &str) -> (r: Option<String>)
    ensures
        optional_text(r) == requirement_error(text@),
{
    match VersionReq::parse(text) {
        Ok(_) => None,
        Err(e) => Some(e.to_string()),
    }
}

/// Calls `semver::Version::parse` on `text` and displays the version read.
/// The contract names the answer and claims nothing about it.
#[verifier::external_body]
pub(crate) fn render_version(text: &str) -> (r: Option<String>)
    ensures
        optional_text(r) == canonical_version(text@),
{
    match Version::parse(text) {
        Ok(v) => Some(v.to_string()),
        Err(_) => None,
    }
}

/// Parses both strings and calls `semver::VersionReq::matches`; `false` where
/// either does not parse. The contract names the answer and claims nothing
/// about it.
#[verifier::external_body]
pub(crate) fn requirement_admits(requirement: &str, version: &str) -> (r: bool)
    ensures
        r == admits(requirement@, version@),
{
    match (VersionReq::parse(requirement), Version::parse(version)) {
        (Ok(req), Ok(v)) => req.matches(&v),
        _ => false,
    }
}

/// Parses both strings and compares the versions with `<`; `false` where
/// either does not parse.
///
/// Besides naming the answer, the contract relies on what `semver` documents
/// under "Total ordering": of any two versions one is less than, greater than
/// or equal to the other. So where `lower` is less than `higher`, whatever is
/// less than `lower` is less than `higher` too, and every version that is not
/// greater than `lower` is less than `higher`.
#[verifier::external_body]
pub(crate) fn version_precedes(lower: &str, higher: &str) -> (r: bool)
    ensures
        r == precedes(lower@, higher@),
        r ==> forall|other: Seq<char>| #[trigger]
            precedes(other, lower@) ==> precedes(other, higher@),
        r ==> forall|other: Seq<char>|
            canonical_version(other) is Some && !(#[trigger] precedes(lower@, other)) ==> precedes(
                other,
                higher@,
            ),
{
    match (Version::parse(lower), Version::parse(higher)) {
        (Ok(a), Ok(b)) => a < b,
        _ => false,
    }
}

} // verus!
