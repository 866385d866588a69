//! What the command line asks for.

use vstd::prelude::*;

verus! {

/// The command line: one command.
#[derive(Debug)]
pub struct Cli {
    pub command: Command,
}

/// What to do.
#[derive(Debug)]
pub enum Command {
    /// Write a license report, as Markdown or as JSON.
    Generate { format: OutputFormat, dev: bool, build: bool, skip_optional: bool },
    /// List the direct dependencies.
    List { dev: bool, build: bool, skip_optional: bool },
    /// Check the licenses against a deny list and an allow list.
    Check { deny: Vec<String>, allow: Vec<String>, dev: bool, build: bool, skip_optional: bool },
    /// Show the tool's version.
    Version,
}

/// The format a report is written in.
#[derive(Debug, Clone, Copy, PartialEq, Eq)]
pub enum OutputFormat {
    Md,
    Json,
}

/// Which dependencies of a manifest a command looks at.
#[derive(Debug, Clone, Copy, PartialEq, Eq)]
pub struct ManifestOptions {
    pub include_dev: bool,
    pub include_build: bool,
    pub skip_optional: bool,
}

impl OutputFormat {
    /// The name of the file a report in this format is written to.
    pub open spec fn report_path_text(self) -> Seq<char> {
        match self {
            OutputFormat::Md => ".license_report.md"@,
            OutputFormat::Json => ".license_report.json"@,
        }
    }

    /// The name of the file a report in this format is written to.
    pub fn report_path(&self) -> (path: String)
        ensures
            path@ == self.report_path_text(),
    {
        match self {
            OutputFormat::Md => ".license_report.md".to_owned(),
            OutputFormat::Json => ".license_report.json".to_owned(),
        }
    }
}

impl Command {
    /// Which dependencies of the manifest the command looks at; `None` for a
    /// command that reads no manifest.
    pub open spec fn wanted(self) -> Option<ManifestOptions> {
        match self {
            Command::Generate { dev, build, skip_optional, .. } => Some(
                ManifestOptions { include_dev: dev, include_build: build, skip_optional },
            ),
            Command::List { dev, build, skip_optional } => Some(
                ManifestOptions { include_dev: dev, include_build: build, skip_optional },
            ),
            Command::Check { dev, build, skip_optional, .. } => Some(
                ManifestOptions { include_dev: dev, include_build: build, skip_optional },
            ),
            Command::Version => None,
        }
    }

    /// Which dependencies of the manifest the command looks at; `None` for a
    /// command that reads no manifest.
    pub fn manifest_options(&self) -> (options: Option<ManifestOptions>)
        ensures
            options == self.wanted(),
    {
        match self {
            Command::Generate { dev, build, skip_optional, .. } => Some(
                ManifestOptions { include_dev: *dev, include_build: *build, skip_optional: *skip_optional },
            ),
            Command::List { dev, build, skip_optional } => Some(
                ManifestOptions { include_dev: *dev, include_build: *build, skip_optional: *skip_optional },
            ),
            Command::Check { dev, build, skip_optional, .. } => Some(
                ManifestOptions { include_dev: *dev, include_build: *build, skip_optional: *skip_optional },
            ),
            Command::Version => None,
        }
    }
}

} // verus!
