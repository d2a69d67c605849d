//! What a scan reports: findings, their severity and how sure the scanner is of them.
use vstd::prelude::*;

verus! {

/// How bad a finding is.
#[derive(Clone, Copy, Debug, PartialEq, Eq, PartialOrd, Ord, Structural)]
pub enum Severity {
    Low,
    Medium,
    High,
    Critical,
}

/// The colours that a terminal shows.
#[derive(Clone, Copy, Debug, PartialEq, Eq, Structural)]
pub enum Colour {
    Black,
    Red,
    Green,
    Yellow,
    Blue,
    Cyan,
    White,
    /// One of the 256 colours of the terminal's palette.
    Fixed(u8),
    /// A colour by its shares of red, green and blue.
    Rgb(u8, u8, u8),
}

impl Severity {
    /// The place of a severity in the order from low to critical.
    pub open spec fn rank(self) -> int {
        match self {
            Severity::Low => 0,
            Severity::Medium => 1,
            Severity::High => 2,
            Severity::Critical => 3,
        }
    }

    /// Whether `self` is as bad as `floor`, or worse.
    pub fn at_least(self, floor: Severity) -> (r: bool)
        ensures
            r == (self.rank() >= floor.rank()),
    {
        match floor {
            Severity::Low => true,
            Severity::Medium => self != Severity::Low,
            Severity::High => self == Severity::High || self == Severity::Critical,
            Severity::Critical => self == Severity::Critical,
        }
    }

    /// The name of a severity in capitals.
    pub open spec fn label_text(self) -> Seq<char> {
        match self {
            Severity::Low => "LOW"@,
            Severity::Medium => "MEDIUM"@,
            Severity::High => "HIGH"@,
            Severity::Critical => "CRITICAL"@,
        }
    }

    /// The name of the severity in capitals.
    pub fn label(&self) -> (r: &'static str)
        ensures
            r@ == self.label_text(),
    {
        match self {
            Severity::Low => "LOW",
            Severity::Medium => "MEDIUM",
            Severity::High => "HIGH",
            Severity::Critical => "CRITICAL",
        }
    }

    /// The colour in which a severity is shown; a critical one in bright red.
    pub open spec fn shade(self) -> Colour {
        match self {
            Severity::Low => Colour::Blue,
            Severity::Medium => Colour::Yellow,
            Severity::High => Colour::Red,
            Severity::Critical => Colour::Fixed(196),
        }
    }

    /// The colour in which the severity is shown.
    pub fn color(&self) -> (r: Colour)
        ensures
            r == self.shade(),
    {
        match self {
            Severity::Low => Colour::Blue,
            Severity::Medium => Colour::Yellow,
            Severity::High => Colour::Red,
            Severity::Critical => Colour::Fixed(196),
        }
    }
}

/// One finding.
#[derive(Debug)]
pub struct Finding {
    pub file: String,
    pub line: usize,
    pub column: usize,
    pub severity: Severity,
    pub category: String,
    pub message: String,
    pub suggestion: Option<String>,
    /// How sure the scanner is, in percent.
    pub confidence: u8,
}

/// The contents of a finding.
#[verifier::ext_equal]
pub struct FindingModel {
    pub file: Seq<char>,
    pub line: nat,
    pub column: nat,
    pub severity: Severity,
    pub category: Seq<char>,
    pub message: Seq<char>,
    pub suggestion: Option<Seq<char>>,
    pub confidence: nat,
}

/// The text that an optional string holds.
pub open spec fn optional_text(s: Option<String>) -> Option<Seq<char>> {
    match s {
        Some(t) => Some(t@),
        None => None,
    }
}

impl View for Finding {
    type V = FindingModel;

    open spec fn view(&self) -> FindingModel {
        FindingModel {
            file: self.file@,
            line: self.line as nat,
            column: self.column as nat,
            severity: self.severity,
            category: self.category@,
            message: self.message@,
            suggestion: optional_text(self.suggestion),
            confidence: self.confidence as nat,
        }
    }
}

/// The contents of a list of findings.
pub open spec fn views(v: Seq<Finding>) -> Seq<FindingModel> {
    Seq::new(v.len(), |i: int| v[i]@)
}

/// The confidence from which on a finding is reported, in percent.
pub const HIGH_CONFIDENCE: u8 = 70;

impl FindingModel {
    /// Whether the scanner is sure enough of the finding to report it.
    pub open spec fn high_confidence(self) -> bool {
        self.confidence >= HIGH_CONFIDENCE
    }
}

impl Finding {
    /// A finding of which the scanner is wholly sure.
    pub fn new(
        file: String,
        line: usize,
        column: usize,
        severity: Severity,
        category: String,
        message: String,
        suggestion: Option<String>,
    ) -> (r: Finding)
        ensures
            r@ == (FindingModel {
                file: file@,
                line: line as nat,
                column: column as nat,
                severity,
                category: category@,
                message: message@,
                suggestion: optional_text(suggestion),
                confidence: 100,
            }),
    {
        Finding { file, line, column, severity, category, message, suggestion, confidence: 100 }
    }

    /// The same finding with another confidence, in percent, which is at most a hundred.
    pub fn with_confidence(self, percent: u8) -> (r: Finding)
        ensures
            r@ == (FindingModel {
                confidence: if percent <= 100 {
                    percent as nat
                } else {
                    100
                },
                ..self@
            }),
    {
        Finding {
            file: self.file,
            line: self.line,
            column: self.column,
            severity: self.severity,
            category: self.category,
            message: self.message,
            suggestion: self.suggestion,
            confidence: if percent <= 100 {
                percent
            } else {
                100
            },
        }
    }

    /// Whether the scanner is sure enough of the finding to report it.
    pub fn is_high_confidence(&self) -> (r: bool)
        ensures
            r == self@.high_confidence(),
    {
        self.confidence >= HIGH_CONFIDENCE
    }
}

impl Clone for Finding {
    fn clone(&self) -> (r: Finding)
        ensures
            r@ == self@,
    {
        Finding {
            file: self.file.clone(),
            line: self.line,
            column: self.column,
            severity: self.severity,
            category: self.category.clone(),
            message: self.message.clone(),
            suggestion: match &self.suggestion {
                Some(s) => Some(s.clone()),
                None => None,
            },
            confidence: self.confidence,
        }
    }
}

/// What an optional finding adds to a list.
pub open spec fn found(f: Option<FindingModel>) -> Seq<FindingModel> {
    match f {
        Some(m) => seq![m],
        None => Seq::empty(),
    }
}

/// The contents of an optional finding.
pub open spec fn finding_view(f: Option<Finding>) -> Option<FindingModel> {
    match f {
        Some(m) => Some(m@),
        None => None,
    }
}

/// What `rule` gives for the numbers below `n`, one after the other.
pub open spec fn gather(rule: spec_fn(int) -> Seq<FindingModel>, n: int) -> Seq<FindingModel>
    decreases n,
{
    if n <= 0 {
        Seq::empty()
    } else {
        gather(rule, n - 1) + rule(n - 1)
    }
}

/// Adds a finding, where there is one, at the end of the list.
pub fn add_found(findings: &mut Vec<Finding>, f: Option<Finding>)
    ensures
        views(final(findings)@) == views(old(findings)@) + found(finding_view(f)),
{
    match f {
        Some(m) => {
            findings.push(m);
            assert(views(findings@) =~= views(old(findings)@).push(m@));
            assert(views(findings@) =~= views(old(findings)@) + found(finding_view(f)));
        },
        None => {
            assert(views(findings@) =~= views(old(findings)@) + found(finding_view(f)));
        },
    }
}

/// Moves the findings of `more` to the end of the list.
pub fn extend(findings: &mut Vec<Finding>, more: Vec<Finding>)
    ensures
        views(final(findings)@) == views(old(findings)@) + views(more@),
{
    let mut more = more;
    let ghost added = more@;
    findings.append(&mut more);
    assert(views(findings@) =~= views(old(findings)@) + views(added));
}

/// What one number gives is in what they all give.
pub proof fn lemma_gathered(
    rule: spec_fn(int) -> Seq<FindingModel>,
    n: int,
    i: int,
    f: FindingModel,
)
    requires
        0 <= i < n,
        rule(i).contains(f),
    ensures
        gather(rule, n).contains(f),
    decreases n,
{
    if i < n - 1 {
        lemma_gathered(rule, n - 1, i, f);
        lemma_in_left(gather(rule, n - 1), rule(n - 1), f);
    } else {
        lemma_in_right(gather(rule, n - 1), rule(n - 1), f);
    }
}

/// What the first list holds, both together hold.
pub broadcast proof fn lemma_in_left(a: Seq<FindingModel>, b: Seq<FindingModel>, f: FindingModel)
    requires
        a.contains(f),
    ensures
        #[trigger] (a + b).contains(f),
{
    let k = choose|k: int| 0 <= k < a.len() && a[k] == f;
    assert((a + b)[k] == f);
}

/// What the second list holds, both together hold.
pub broadcast proof fn lemma_in_right(a: Seq<FindingModel>, b: Seq<FindingModel>, f: FindingModel)
    requires
        b.contains(f),
    ensures
        #[trigger] (a + b).contains(f),
{
    let k = choose|k: int| 0 <= k < b.len() && b[k] == f;
    assert((a + b)[a.len() + k] == f);
}

} // verus!
