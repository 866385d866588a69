//! Choosing, among the versions a registry lists for a package, the one a
//! dependency resolves to.

use crate::parse::Dep;
use crate::text::same_text;
use crate::version::{
    admits, canonical_version, check_requirement, optional_text, precedes, render_version,
    requirement_admits, requirement_error, version_precedes,
};
use vstd::prelude::*;
use vstd::string::StringExecFns;

verus! {

/// One published version of a package, as the registry lists it.
#[derive(Debug, Clone, PartialEq, Eq)]
pub struct RegistryVersion {
    pub num: String,
    pub license: Option<String>,
}

/// The version a dependency resolves to, and the license declared for it.
#[derive(Debug, Clone, PartialEq, Eq)]
pub struct BestMatch {
    pub version: String,
    pub license: Option<String>,
}

/// Why a dependency could not be resolved.
#[derive(Debug, Clone, PartialEq, Eq)]
pub enum ResolveError {
    /// The request to the registry did not go through.
    Unreachable { crate_name: String },
    /// The registry answered, but not with success.
    Refused { status: String },
    /// The registry's answer was not a list of versions.
    Malformed { crate_name: String },
    /// The dependency's constraint is no version requirement.
    Constraint { detail: String, constraint: String },
    /// No listed version satisfies the constraint.
    NoMatch { constraint: String },
}

/// The requirement a constraint stands for: any version where none was given.
pub open spec fn effective_requirement(constraint: Seq<char>) -> Seq<char> {
    if constraint == "unspecified"@ {
        ">=0"@
    } else {
        constraint
    }
}

/// Whether entry `k` parses as a version and satisfies `requirement`.
pub open spec fn is_candidate(
    versions: Seq<RegistryVersion>,
    requirement: Seq<char>,
    k: int,
) -> bool {
    &&& 0 <= k < versions.len()
    &&& canonical_version(versions[k].num@) is Some
    &&& admits(requirement, versions[k].num@)
}

/// Whether entry `i` is the candidate to choose: every candidate listed before
/// it is lower, and no candidate listed after it is higher.
pub open spec fn is_best(versions: Seq<RegistryVersion>, requirement: Seq<char>, i: int) -> bool {
    &&& is_candidate(versions, requirement, i)
    &&& forall|j: int|
        j < i && #[trigger] is_candidate(versions, requirement, j) ==> precedes(
            versions[j].num@,
            versions[i].num@,
        )
    &&& forall|j: int|
        i < j && #[trigger] is_candidate(versions, requirement, j) ==> !precedes(
            versions[i].num@,
            versions[j].num@,
        )
}

/// What [`select_best_match`] owes for a given outcome.
pub open spec fn selection_holds(
    versions: Seq<RegistryVersion>,
    constraint: Seq<char>,
    outcome: Result<BestMatch, ResolveError>,
) -> bool {
    let requirement = effective_requirement(constraint);
    match outcome {
        Ok(found) => {
            &&& requirement_error(requirement) is None
            &&& exists|i: int|
                {
                    &&& #[trigger] is_best(versions, requirement, i)
                    &&& Some(found.version@) == canonical_version(versions[i].num@)
                    &&& optional_text(found.license) == optional_text(versions[i].license)
                }
        },
        Err(ResolveError::Constraint { detail, constraint: given }) => {
            &&& requirement_error(requirement) == Some(detail@)
            &&& given@ == constraint
        },
        Err(ResolveError::NoMatch { constraint: given }) => {
            &&& requirement_error(requirement) is None
            &&& forall|k: int| !is_candidate(versions, requirement, k)
            &&& given@ == constraint
        },
        Err(_) => false,
    }
}

/// At most one entry is the one to choose.
pub proof fn best_is_unique(
    versions: Seq<RegistryVersion>,
    requirement: Seq<char>,
    i: int,
    j: int,
)
    requires
        is_best(versions, requirement, i),
        is_best(versions, requirement, j),
    ensures
        i == j,
{
}

fn copy_license(license: &Option<String>) -> (r: Option<String>)
    ensures
        r == *license,
{
    match license {
        Some(text) => Some(text.clone()),
        None => None,
    }
}

/// Chooses the highest listed version that satisfies `constraint`, and among
/// equally high ones the first listed. Entries that are no versions are passed
/// over. Fails where the constraint is no requirement, and where nothing
/// satisfies it.
pub fn select_best_match(versions: &[RegistryVersion], constraint: &str) -> (outcome: Result<
    BestMatch,
    ResolveError,
>)
    ensures
        selection_holds(versions@, constraint@, outcome),
{
    let requirement: &str = if same_text(constraint, "unspecified") {
        ">=0"
    } else {
        constraint
    };
    if let Some(detail) = check_requirement(requirement) {
        return Err(ResolveError::Constraint { detail, constraint: constraint.to_owned() });
    }
    let mut best: Option<(usize, String)> = None;
    let mut k: usize = 0;
    while k < versions.len()
        invariant
            k <= versions.len(),
            requirement@ == effective_requirement(constraint@),
            best is None ==> forall|j: int| j < k ==> !is_candidate(versions@, requirement@, j),
            best matches Some((i, rendered)) ==> {
                &&& i < k
                &&& is_candidate(versions@, requirement@, i as int)
                &&& Some(rendered@) == canonical_version(versions[i as int].num@)
                &&& forall|j: int|
                    j < i && #[trigger] is_candidate(versions@, requirement@, j) ==> precedes(
                        versions[j].num@,
                        versions[i as int].num@,
                    )
                &&& forall|j: int|
                    i < j < k && #[trigger] is_candidate(versions@, requirement@, j) ==> !precedes(
                        versions[i as int].num@,
                        versions[j].num@,
                    )
            },
        decreases versions.len() - k,
    {
        let entry = &versions[k];
        if let Some(rendered) = render_version(entry.num.as_str()) {
            if requirement_admits(requirement, entry.num.as_str()) {
                let replace = match &best {
                    None => true,
                    Some((i, _)) => version_precedes(versions[*i].num.as_str(), entry.num.as_str()),
                };
                if replace {
                    best = Some((k, rendered));
                }
            }
        }
        k += 1;
    }
    match best {
        Some((i, rendered)) => {
            let license = copy_license(&versions[i].license);
            assert(is_best(versions@, requirement@, i as int));
            Ok(BestMatch { version: rendered, license })
        },
        None => Err(ResolveError::NoMatch { constraint: constraint.to_owned() }),
    }
}

/// What the registry answered when asked for a package's versions.
#[derive(Debug, Clone, PartialEq, Eq)]
pub enum RegistryReply {
    /// The request did not go through.
    Unreachable,
    /// An answer came, with a status other than success.
    Refused { status: String },
    /// A successful answer came that is no list of versions.
    Malformed,
    /// The versions the registry lists.
    Versions(Vec<RegistryVersion>),
}

/// A dependency together with the registry's answer about it.
#[derive(Debug, Clone, PartialEq, Eq)]
pub struct Lookup {
    pub dep: Dep,
    pub reply: RegistryReply,
}

/// One line of the report: a dependency, the version it resolved to and that
/// version's license, or `unknown` and the reason why not.
#[derive(Debug, Clone, PartialEq, Eq)]
pub struct LicenseReport {
    pub crate_name: String,
    pub matched_version: String,
    pub license: String,
}

/// The contents of a [`LicenseReport`].
pub struct ReportText {
    pub crate_name: Seq<char>,
    pub matched_version: Seq<char>,
    pub license: Seq<char>,
}

impl View for LicenseReport {
    type V = ReportText;

    open spec fn view(&self) -> ReportText {
        ReportText {
            crate_name: self.crate_name@,
            matched_version: self.matched_version@,
            license: self.license@,
        }
    }
}

/// The address that lists the versions of the package `crate_name`.
pub open spec fn versions_url_text(crate_name: Seq<char>) -> Seq<char> {
    "https://crates.io/api/v1/crates/"@ + crate_name + "/versions"@
}

/// The address to ask for the versions of the package `crate_name`.
pub fn versions_url(crate_name: &str) -> (url: String)
    ensures
        url@ == versions_url_text(crate_name@),
{
    let mut url = "https://crates.io/api/v1/crates/".to_owned();
    url.append(crate_name);
    url.append("/versions");
    url
}

impl ResolveError {
    /// The error in words.
    pub open spec fn message_text(self) -> Seq<char> {
        match self {
            ResolveError::Unreachable { crate_name } => "Failed to fetch crates.io for crate="@
                + crate_name@,
            ResolveError::Refused { status } => "crates.io returned status "@ + status@,
            ResolveError::Malformed { crate_name } => "Failed to parse JSON for crate="@
                + crate_name@,
            ResolveError::Constraint { detail, constraint } => "Semver parse error: "@ + detail@
                + " (constraint="@ + constraint@ + ")"@,
            ResolveError::NoMatch { constraint } => "No crates.io versions matched constraint="@
                + constraint@,
        }
    }

    /// The error in words.
    pub fn message(&self) -> (text: String)
        ensures
            text@ == self.message_text(),
    {
        match self {
            ResolveError::Unreachable { crate_name } => {
                let mut text = "Failed to fetch crates.io for crate=".to_owned();
                text.append(crate_name.as_str());
                text
            },
            ResolveError::Refused { status } => {
                let mut text = "crates.io returned status ".to_owned();
                text.append(status.as_str());
                text
            },
            ResolveError::Malformed { crate_name } => {
                let mut text = "Failed to parse JSON for crate=".to_owned();
                text.append(crate_name.as_str());
                text
            },
            ResolveError::Constraint { detail, constraint } => {
                let mut text = "Semver parse error: ".to_owned();
                text.append(detail.as_str());
                text.append(" (constraint=");
                text.append(constraint.as_str());
                text.append(")");
                text
            },
            ResolveError::NoMatch { constraint } => {
                let mut text = "No crates.io versions matched constraint=".to_owned();
                text.append(constraint.as_str());
                text
            },
        }
    }
}

/// What [`fetch_best_match`] owes for a given outcome: a failed request is
/// reported as it failed, and listed versions are chosen from as
/// [`select_best_match`] chooses.
pub open spec fn resolution_holds(
    crate_name: Seq<char>,
    constraint: Seq<char>,
    reply: RegistryReply,
    outcome: Result<BestMatch, ResolveError>,
) -> bool {
    match reply {
        RegistryReply::Unreachable => outcome matches Err(
            ResolveError::Unreachable { crate_name: named },
        ) && named@ == crate_name,
        RegistryReply::Refused { status } => outcome matches Err(
            ResolveError::Refused { status: given },
        ) && given@ == status@,
        RegistryReply::Malformed => outcome matches Err(
            ResolveError::Malformed { crate_name: named },
        ) && named@ == crate_name,
        RegistryReply::Versions(versions) => selection_holds(versions@, constraint, outcome),
    }
}

/// Resolves one dependency from the registry's answer about it.
pub fn fetch_best_match(crate_name: &str, constraint: &str, reply: &RegistryReply) -> (outcome:
    Result<BestMatch, ResolveError>)
    ensures
        resolution_holds(crate_name@, constraint@, *reply, outcome),
{
    match reply {
        RegistryReply::Unreachable => Err(
            ResolveError::Unreachable { crate_name: crate_name.to_owned() },
        ),
        RegistryReply::Refused { status } => Err(ResolveError::Refused { status: status.clone() }),
        RegistryReply::Malformed => Err(
            ResolveError::Malformed { crate_name: crate_name.to_owned() },
        ),
        RegistryReply::Versions(versions) => select_best_match(versions.as_slice(), constraint),
    }
}

/// The report line that an outcome amounts to.
pub open spec fn outcome_report(
    crate_name: Seq<char>,
    outcome: Result<BestMatch, ResolveError>,
) -> ReportText {
    match outcome {
        Ok(found) => ReportText {
            crate_name,
            matched_version: found.version@,
            license: match optional_text(found.license) {
                Some(license) => license,
                None => "No license listed"@,
            },
        },
        Err(error) => ReportText {
            crate_name,
            matched_version: "unknown"@,
            license: "Failed: "@ + error.message_text(),
        },
    }
}

/// Turns the outcome of resolving `crate_name` into its report line; a failure
/// becomes a line too.
pub fn report_for(crate_name: &str, outcome: Result<BestMatch, ResolveError>) -> (report:
    LicenseReport)
    ensures
        report@ == outcome_report(crate_name@, outcome),
{
    match outcome {
        Ok(found) => {
            let license = match found.license {
                Some(license) => license,
                None => "No license listed".to_owned(),
            };
            LicenseReport {
                crate_name: crate_name.to_owned(),
                matched_version: found.version,
                license,
            }
        },
        Err(error) => {
            let mut license = "Failed: ".to_owned();
            let message = error.message();
            license.append(message.as_str());
            LicenseReport {
                crate_name: crate_name.to_owned(),
                matched_version: "unknown".to_owned(),
                license,
            }
        },
    }
}

/// Whether `report` is the line that `lookup` leads to.
pub open spec fn reports_lookup(report: LicenseReport, lookup: Lookup) -> bool {
    exists|outcome: Result<BestMatch, ResolveError>|
        {
            &&& #[trigger] resolution_holds(
                lookup.dep.name@,
                lookup.dep.version_req@,
                lookup.reply,
                outcome,
            )
            &&& report@ == outcome_report(lookup.dep.name@, outcome)
        }
}

/// The report line for one dependency and the registry's answer about it.
pub fn report_lookup(lookup: &Lookup) -> (report: LicenseReport)
    ensures
        reports_lookup(report, *lookup),
{
    let outcome = fetch_best_match(
        lookup.dep.name.as_str(),
        lookup.dep.version_req.as_str(),
        &lookup.reply,
    );
    report_for(lookup.dep.name.as_str(), outcome)
}

/// One report line for each lookup, in the order the lookups came in. No
/// failure of a single lookup fails the whole.
pub fn build_license_report(lookups: &[Lookup]) -> (reports: Vec<LicenseReport>)
    ensures
        reports.len() == lookups.len(),
        forall|i: int| 0 <= i < lookups.len() ==> reports_lookup(#[trigger] reports[i], lookups[i]),
{
    let mut reports: Vec<LicenseReport> = Vec::new();
    let mut i: usize = 0;
    while i < lookups.len()
        invariant
            i <= lookups.len(),
            reports.len() == i,
            forall|j: int| 0 <= j < i ==> reports_lookup(#[trigger] reports[j], lookups[j]),
        decreases lookups.len() - i,
    {
        let report = report_lookup(&lookups[i]);
        reports.push(report);
        i += 1;
    }
    reports
}

/// A dependency whose query failed still has its line in the report: the line
/// names it, its version reads `unknown`, and its license holds the failure,
/// which is never empty.
pub proof fn failed_query_is_reported(report: LicenseReport, lookup: Lookup)
    requires
        reports_lookup(report, lookup),
        !(lookup.reply is Versions),
    ensures
        report@.crate_name == lookup.dep.name@,
        report@.matched_version == "unknown"@,
        report@.license.len() > 0,
{
    reveal_strlit("Failed: ");
}

/// Whatever the failure, its line reads `unknown` for the version and holds
/// the failure, which is never empty, for the license.
pub proof fn failure_is_reported(crate_name: Seq<char>, error: ResolveError)
    ensures
        outcome_report(crate_name, Err(error)).crate_name == crate_name,
        outcome_report(crate_name, Err(error)).matched_version == "unknown"@,
        outcome_report(crate_name, Err(error)).license.len() > 0,
{
    reveal_strlit("Failed: ");
}

} // verus!
