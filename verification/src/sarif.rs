//! Findings as results in the SARIF format.
use vstd::prelude::*;

use crate::finding::{views, Finding, FindingModel, Severity};
use crate::text::glue;

verus! {

/// One result.
#[derive(Debug)]
pub struct SarifResult {
    pub rule_id: String,
    pub level: &'static str,
    pub message: String,
    pub uri: String,
    pub start_line: usize,
    pub start_column: usize,
}

/// The contents of a result.
#[verifier::ext_equal]
pub struct SarifModel {
    pub rule_id: Seq<char>,
    pub level: Seq<char>,
    pub message: Seq<char>,
    pub uri: Seq<char>,
    pub start_line: nat,
    pub start_column: nat,
}

impl View for SarifResult {
    type V = SarifModel;

    open spec fn view(&self) -> SarifModel {
        SarifModel {
            rule_id: self.rule_id@,
            level: self.level@,
            message: self.message@,
            uri: self.uri@,
            start_line: self.start_line as nat,
            start_column: self.start_column as nat,
        }
    }
}

/// The contents of a list of results.
pub open spec fn sarif_views(v: Seq<SarifResult>) -> Seq<SarifModel> {
    Seq::new(v.len(), |i: int| v[i]@)
}

/// The level of results of a severity.
pub open spec fn sarif_level(severity: Severity) -> Seq<char> {
    match severity {
        Severity::Critical => "error"@,
        Severity::High => "error"@,
        Severity::Medium => "warning"@,
        Severity::Low => "note"@,
    }
}

/// The result for a finding.
pub open spec fn sarif_result(f: FindingModel) -> SarifModel {
    SarifModel {
        rule_id: "ntscan/"@ + f.category,
        level: sarif_level(f.severity),
        message: f.message,
        uri: f.file,
        start_line: f.line,
        start_column: f.column,
    }
}

/// One result for each finding, in their order.
pub open spec fn sarif_results(all: Seq<FindingModel>) -> Seq<SarifModel> {
    Seq::new(all.len(), |i: int| sarif_result(all[i]))
}

/// The level of results of a severity.
pub fn level_of(severity: Severity) -> (r: &'static str)
    ensures
        r@ == sarif_level(severity),
{
    match severity {
        Severity::Critical => "error",
        Severity::High => "error",
        Severity::Medium => "warning",
        Severity::Low => "note",
    }
}

/// One result for each finding, in their order.
pub fn generate_sarif(findings: &Vec<Finding>) -> (r: Vec<SarifResult>)
    ensures
        sarif_views(r@) == sarif_results(views(findings@)),
{
    let mut out: Vec<SarifResult> = Vec::new();
    let ghost all = views(findings@);
    let mut k: usize = 0;
    while k < findings.len()
        invariant
            k <= findings@.len(),
            out@.len() == k,
            all == views(findings@),
            forall|j: int| 0 <= j < k ==> (#[trigger] out@[j])@ == sarif_result(all[j]),
        decreases findings@.len() - k,
    {
        let f = &findings[k];
        assert(all[k as int] == f@);
        let result = SarifResult {
            rule_id: glue("ntscan/", f.category.as_str()),
            level: level_of(f.severity),
            message: f.message.clone(),
            uri: f.file.clone(),
            start_line: f.line,
            start_column: f.column,
        };
        out.push(result);
        k = k + 1;
    }
    assert(sarif_views(out@) =~= sarif_results(all));
    out
}

/// A result is an error exactly where the finding is at least of high severity.
pub proof fn errors_are_high_or_critical(f: FindingModel)
    ensures
        sarif_result(f).level == "error"@ <==> f.severity.rank() >= Severity::High.rank(),
{
    reveal_strlit("error");
    reveal_strlit("warning");
    reveal_strlit("note");
    assert("error"@.len() == 5);
    assert("warning"@.len() == 7);
    assert("note"@.len() == 4);
}

} // verus!
