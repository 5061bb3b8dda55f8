//! Inconsistency reports: which node, when, and what was wrong.

use vstd::prelude::*;
use crate::text::{join_lines, joined_lines};

verus! {

/// The finding on one node. It is made once and only read afterwards.
#[derive(Debug)]
pub struct InconsistencyReport {
    /// The node, by address.
    pub node: String,
    /// When the node was observed.
    pub timestamp: String,
    /// What was wrong.
    pub description: String,
}

/// What the check of one node gave: the node, the time of its
/// observation, and the description of what was wrong, if anything was.
#[derive(Debug)]
pub struct Finding {
    pub node: String,
    pub timestamp: String,
    pub description: Option<String>,
}

/// What a report says, as text.
pub struct ReportText {
    pub node: Seq<char>,
    pub timestamp: Seq<char>,
    pub description: Seq<char>,
}

impl View for InconsistencyReport {
    type V = ReportText;

    open spec fn view(&self) -> ReportText {
        ReportText {
            node: self.node@,
            timestamp: self.timestamp@,
            description: self.description@,
        }
    }
}

impl ReportText {
    /// The line of the report: a dash, the time, the node, a colon and
    /// the description.
    pub open spec fn line(self) -> Seq<char> {
        "- "@ + self.timestamp + " "@ + self.node + ": "@ + self.description
    }
}

/// The views of `reports`, in order.
pub open spec fn report_texts(reports: Seq<InconsistencyReport>) -> Seq<ReportText> {
    Seq::new(reports.len(), |i: int| reports[i]@)
}

/// The lines of `reports`, in order.
pub open spec fn report_lines(reports: Seq<ReportText>) -> Seq<Seq<char>> {
    Seq::new(reports.len(), |i: int| reports[i].line())
}

/// The reports on the first `n` findings: one for each that has a
/// description, in order.
pub open spec fn assembled(findings: Seq<Finding>, n: int) -> Seq<ReportText>
    decreases n,
{
    if n <= 0 {
        Seq::empty()
    } else {
        let before = assembled(findings, n - 1);
        match findings[n - 1].description {
            Some(description) => before.push(
                ReportText {
                    node: findings[n - 1].node@,
                    timestamp: findings[n - 1].timestamp@,
                    description: description@,
                },
            ),
            None => before,
        }
    }
}

impl InconsistencyReport {
    /// The line of the report.
    pub fn line(&self) -> (text: String)
        ensures
            text@ == self@.line(),
    {
        let mut text = String::new();
        text.append("- ");
        text.append(self.timestamp.as_str());
        text.append(" ");
        text.append(self.node.as_str());
        text.append(": ");
        text.append(self.description.as_str());
        assert(text@ =~= self@.line());
        text
    }
}

/// The reports of one check cycle: one for each finding that has a
/// description, with the node's address and the time of its observation.
pub fn assemble(findings: &Vec<Finding>) -> (reports: Vec<InconsistencyReport>)
    ensures
        report_texts(reports@) == assembled(findings@, findings@.len() as int),
        reports@.len() == 0 <==> forall|i: int|
            0 <= i < findings@.len() ==> (#[trigger] findings@[i]).description is None,
{
    let mut reports: Vec<InconsistencyReport> = Vec::new();
    let mut i: usize = 0;
    assert(report_texts(reports@) =~= assembled(findings@, 0));
    while i < findings.len()
        invariant
            i <= findings@.len(),
            report_texts(reports@) == assembled(findings@, i as int),
            reports@.len() == 0 <==> forall|k: int|
                0 <= k < i ==> (#[trigger] findings@[k]).description is None,
        decreases findings@.len() - i,
    {
        let ghost before = reports@;
        match &findings[i].description {
            Some(description) => {
                let report = InconsistencyReport {
                    node: findings[i].node.clone(),
                    timestamp: findings[i].timestamp.clone(),
                    description: description.clone(),
                };
                reports.push(report);
                assert(report_texts(reports@) =~= report_texts(before).push(
                    ReportText {
                        node: findings@[i as int].node@,
                        timestamp: findings@[i as int].timestamp@,
                        description: description@,
                    },
                ));
                assert(findings@[i as int].description is Some);
            },
            None => {},
        }
        i += 1;
    }
    reports
}

/// The text of `reports`: their lines, one below the other.
pub fn render_reports(reports: &Vec<InconsistencyReport>) -> (text: String)
    ensures
        text@ == joined_lines(report_lines(report_texts(reports@))),
{
    let mut lines: Vec<String> = Vec::new();
    let mut i: usize = 0;
    while i < reports.len()
        invariant
            i <= reports@.len(),
            lines@.len() == i,
            forall|k: int| 0 <= k < i ==> (#[trigger] lines@[k])@ == reports@[k]@.line(),
        decreases reports@.len() - i,
    {
        let line = reports[i].line();
        lines.push(line);
        i += 1;
    }
    assert(crate::text::line_views(lines@) =~= report_lines(report_texts(reports@)));
    join_lines(&lines)
}

} // verus!
