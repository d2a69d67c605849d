//! Searches line by line, for sources that cannot be parsed.
use vstd::prelude::*;

use crate::finding::{gather, views, Finding, FindingModel, Severity};
use crate::outside::{lowercase, to_lowercase};
use crate::rule::{finding_on, on_line};
use crate::text::{contains, lines, lines_of, mentions, texts};

verus! {

/// The languages whose sources are searched line by line.
#[derive(Clone, Copy, Debug, PartialEq, Eq, Structural)]
pub enum Pattern {
    Java,
    JavaScript,
    Python,
}

/// The confidence of a finding in a source whose language has a grammar, in percent.
pub const FALLBACK_CONFIDENCE: u8 = 90;

/// The confidence of a finding in a source whose language has none, in percent.
pub const PATTERN_CONFIDENCE: u8 = 85;

impl Pattern {
    /// Whether a line, in lower case, holds what is searched for.
    pub open spec fn holds(self, lower: Seq<char>) -> bool {
        match self {
            Pattern::Java => mentions(lower, "objectinputstream"@) && mentions(
                lower,
                "readobject"@,
            ),
            Pattern::JavaScript => mentions(lower, "eval("@),
            Pattern::Python => mentions(lower, "eval("@) && !mentions(lower, "literal_eval"@),
        }
    }

    /// The category, the message and the suggestion of a finding.
    pub open spec fn wording(self) -> (Seq<char>, Seq<char>, Seq<char>) {
        match self {
            Pattern::Java => (
                "java_deserialization"@,
                "Insecure deserialization"@,
                "Validate class whitelist"@,
            ),
            Pattern::JavaScript => ("js_eval"@, "eval() detected"@, "Never use eval()"@),
            Pattern::Python => ("python_eval"@, "eval() detected"@, "Use ast.literal_eval"@),
        }
    }

    /// What a line is reported as, given its number and its lower case form.
    pub open spec fn line_findings(
        self,
        path: Seq<char>,
        number: nat,
        lower: Seq<char>,
        confidence: nat,
    ) -> Seq<FindingModel> {
        if self.holds(lower) {
            seq![
                on_line(
                    path,
                    number,
                    Severity::Critical,
                    self.wording().0,
                    self.wording().1,
                    self.wording().2,
                    confidence,
                ),
            ]
        } else {
            Seq::empty()
        }
    }

    /// What the lines of a source are reported as, line by line.
    pub open spec fn line_rule(self, path: Seq<char>, source: Seq<char>, confidence: nat) -> spec_fn(
        int,
    ) -> Seq<FindingModel> {
        |i: int|
            self.line_findings(path, (i + 1) as nat, lowercase(lines(source)[i]), confidence)
    }

    /// What a source is reported as.
    pub open spec fn line_scan(self, path: Seq<char>, source: Seq<char>, confidence: nat) -> Seq<
        FindingModel,
    > {
        gather(self.line_rule(path, source, confidence), lines(source).len() as int)
    }

    /// Searches a source line by line.
    pub fn analyze(self, source: &str, path: &str, confidence: u8) -> (r: Vec<Finding>)
        ensures
            views(r@) == self.line_scan(path@, source@, confidence as nat),
    {
        let mut findings: Vec<Finding> = Vec::new();
        assert(views(findings@) =~= Seq::<FindingModel>::empty());
        let all = lines_of(source);
        let mut i: usize = 0;
        while i < all.len()
            invariant
                i <= all@.len(),
                texts(all@) == lines(source@),
                views(findings@) == gather(
                    self.line_rule(path@, source@, confidence as nat),
                    i as int,
                ),
            decreases all@.len() - i,
        {
            let line = all[i];
            assert(texts(all@)[i as int] == line@);
            let lower = to_lowercase(line);
            self.check_line(path, i + 1, &lower, confidence, &mut findings);
            i = i + 1;
        }
        findings
    }

    /// Reports one line, given its number and its lower case form.
    pub fn check_line(
        self,
        path: &str,
        number: usize,
        lower: &str,
        confidence: u8,
        findings: &mut Vec<Finding>,
    )
        ensures
            views(final(findings)@) == views(old(findings)@) + self.line_findings(
                path@,
                number as nat,
                lower@,
                confidence as nat,
            ),
    {
        let ghost before = views(findings@);
        let found = match self {
            Pattern::Java => contains(lower, "objectinputstream") && contains(lower, "readobject"),
            Pattern::JavaScript => contains(lower, "eval("),
            Pattern::Python => contains(lower, "eval(") && !contains(lower, "literal_eval"),
        };
        if found {
            let (category, message, suggestion) = match self {
                Pattern::Java => (
                    "java_deserialization",
                    "Insecure deserialization",
                    "Validate class whitelist",
                ),
                Pattern::JavaScript => ("js_eval", "eval() detected", "Never use eval()"),
                Pattern::Python => ("python_eval", "eval() detected", "Use ast.literal_eval"),
            };
            let f = finding_on(
                path,
                number,
                Severity::Critical,
                category,
                message.to_owned(),
                suggestion,
                confidence,
            );
            findings.push(f);
            assert(views(findings@) =~= before + seq![f@]);
        } else {
            assert(before + Seq::<FindingModel>::empty() =~= before);
        }
    }
}

} // verus!
