//! The report as text.

use crate::fetch::LicenseReport;
use vstd::prelude::*;
use vstd::string::StringExecFns;

verus! {

/// What the Markdown report begins with.
pub open spec fn markdown_heading() -> Seq<char> {
    "# License Report\n"@
        + "This report lists direct dependencies (async) and their matched licenses.\n\n"@
}

/// The line of the Markdown report that shows `report`.
pub open spec fn markdown_line(report: LicenseReport) -> Seq<char> {
    "- **"@ + report.crate_name@ + "** (version: `"@ + report.matched_version@ + "`) → *"@
        + report.license@ + "*\n"@
}

/// The lines of the Markdown report that show `reports`, in order.
pub open spec fn markdown_lines(reports: Seq<LicenseReport>) -> Seq<char>
    decreases reports.len(),
{
    if reports.len() == 0 {
        Seq::empty()
    } else {
        markdown_lines(reports.drop_last()) + markdown_line(reports.last())
    }
}

/// The Markdown report: the heading, then one line for each report.
pub open spec fn markdown_text(reports: Seq<LicenseReport>) -> Seq<char> {
    markdown_heading() + markdown_lines(reports)
}

/// Renders the report as Markdown: a heading, then for each dependency one
/// bullet with its name, the version matched and the license.
pub fn render_markdown(results: &[LicenseReport]) -> (text: String)
    ensures
        text@ == markdown_text(results@),
{
    let mut text = "# License Report\n".to_owned();
    text.append("This report lists direct dependencies (async) and their matched licenses.\n\n");
    let mut i: usize = 0;
    assert(text@ =~= markdown_heading() + markdown_lines(results@.take(0)));
    while i < results.len()
        invariant
            i <= results.len(),
            text@ == markdown_heading() + markdown_lines(results@.take(i as int)),
        decreases results.len() - i,
    {
        assert(results@.take(i as int + 1).drop_last() =~= results@.take(i as int));
        let report = &results[i];
        text.append("- **");
        text.append(report.crate_name.as_str());
        text.append("** (version: `");
        text.append(report.matched_version.as_str());
        text.append("`) → *");
        text.append(report.license.as_str());
        text.append("*\n");
        assert(text@ =~= markdown_heading() + markdown_lines(results@.take(i as int + 1)));
        i += 1;
    }
    assert(results@.take(results.len() as int) =~= results@);
    text
}

} // verus!
