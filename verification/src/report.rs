//! Policy reports and their Markdown rendering.

use vstd::prelude::*;

use crate::cargo::ResolvedPackage;
use crate::diagnostic::{violation_views, Violation, ViolationView};
use crate::rules::Evaluation;
use crate::source::LoadedBaseline;

verus! {

/// Stable identity of the baseline used for a report.
#[derive(Debug, Clone)]
pub struct BaselineIdentity {
    /// Baseline release name.
    pub release: String,
    /// Commit SHA selected by the project.
    pub revision: String,
    /// Human-readable baseline name.
    pub name: String,
}

/// Machine-readable and human-readable policy report data.
#[derive(Debug)]
pub struct Report {
    /// Report schema version.
    pub schema_version: u32,
    /// Baseline identity.
    pub baseline: BaselineIdentity,
    /// Found policy violations.
    pub violations: Vec<Violation>,
    /// Resolved package graph.
    pub packages: Vec<ResolvedPackage>,
}

impl Report {
    /// Builds a report from an evaluation and its baseline. The baseline is
    /// identified by its release, which also serves as its displayed name,
    /// and by the commit the project selected.
    pub fn from_evaluation(evaluation: Evaluation, baseline: &LoadedBaseline) -> (r: Self)
        ensures
            r.schema_version == 1,
            r.baseline.release@ == baseline.baseline.release@,
            r.baseline.revision@ == baseline.commit@,
            r.baseline.name@ == baseline.baseline.release@,
            r.violations == evaluation.violations,
            r.packages == evaluation.packages,
    {
        Report {
            schema_version: 1,
            baseline: BaselineIdentity {
                release: baseline.baseline.release.clone(),
                revision: baseline.commit.clone(),
                name: baseline.baseline.release.clone(),
            },
            violations: evaluation.violations,
            packages: evaluation.packages,
        }
    }
}

/// The Markdown lines listing violations, one `- CODE crate: message` each.
pub open spec fn violation_lines(vs: Seq<ViolationView>) -> Seq<char>
    decreases vs.len(),
{
    if vs.len() == 0 {
        seq![]
    } else {
        let v = vs.last();
        violation_lines(vs.drop_last()) + "- "@ + v.code + " "@ + v.crate_name + ": "@ + v.message
            + "\n"@
    }
}

/// The Markdown report: a heading, the baseline name and revision, then either
/// a note that nothing was found or the list of violations.
pub open spec fn markdown(name: Seq<char>, revision: Seq<char>, vs: Seq<ViolationView>) -> Seq<char> {
    "# Dependency Policy Report\n\n- Baseline: ~"@ + name + "~\n- Revision: ~"@ + revision
        + "~\n\n"@ + if vs.len() == 0 {
        "No violations found.\n"@
    } else {
        "## Violations\n\n"@ + violation_lines(vs)
    }
}

/// Serializes a report as concise Markdown.
pub fn render_markdown(report: &Report) -> (s: String)
    ensures
        s@ == markdown(
            report.baseline.name@,
            report.baseline.revision@,
            violation_views(report.violations@),
        ),
{
    let mut output = String::from_str("# Dependency Policy Report\n\n- Baseline: ~");
    output.append(report.baseline.name.as_str());
    output.append("~\n- Revision: ~");
    output.append(report.baseline.revision.as_str());
    output.append("~\n\n");
    let ghost head = output@;
    if report.violations.len() == 0 {
        output.append("No violations found.\n");
    } else {
        output.append("## Violations\n\n");
        let ghost vs = violation_views(report.violations@);
        let ghost intro = output@;
        let n = report.violations.len();
        let mut i: usize = 0;
        while i < n
            invariant
                n == report.violations@.len(),
                vs == violation_views(report.violations@),
                i <= n,
                output@ == intro + violation_lines(vs.take(i as int)),
            decreases n - i,
        {
            let violation = &report.violations[i];
            proof {
                assert(vs.take(i + 1).drop_last() =~= vs.take(i as int));
                assert(vs.take(i + 1).last() == violation@);
            }
            output.append("- ");
            output.append(violation.code);
            output.append(" ");
            output.append(violation.crate_name.as_str());
            output.append(": ");
            output.append(violation.message.as_str());
            output.append("\n");
            i = i + 1;
        }
        assert(vs.take(n as int) =~= vs);
    }
    output
}

} // verus!
