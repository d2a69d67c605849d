//! Scans of whole sources: which analysis a source gets, and what it reports.
use vstd::prelude::*;
use vstd::utf8::*;

use crate::advanced::{advanced_rule, AdvancedSecurityAnalyzer};
use crate::c_checks::{
    banned_calls, leaks, overflowing_operations, pattern_findings, unbounded_functions,
    unchecked_allocations, watched_calls, Scanner,
};
use crate::callgraph::{cross_scan, library_summaries, CallGraphAnalyzer};
use crate::dataflow::{all_readable, flow_rule, DataFlowAnalyzer};
use crate::finding::{extend, gather, views, Finding, FindingModel};
use crate::java::{java_scan, JavaAnalyzer};
use crate::javascript::{js_scan, JavaScriptAnalyzer};
use crate::language::{language_of, Language};
use crate::outside::{
    grammar_loads, loads_grammar, lossy, lossy_text, lowercase, parse_nodes, parsed, utf8_text,
};
use crate::patterns::{Pattern, FALLBACK_CONFIDENCE, PATTERN_CONFIDENCE};
use crate::python::{py_scan, PythonAnalyzer};
use crate::symbolic::{symbolic_rule, SymbolicAnalyzer};
use crate::syntax::{node_views, Grammar, NodeModel, SyntaxNode, SyntaxTree, TreeModel};
use crate::taint::{c_taint_sinks, sink_rule, TaintAnalyzer};
use crate::text::byte_len;
use crate::types::{type_rule, TypeAwareChecker};

verus! {

/// Why a source cannot be scanned.
#[derive(Clone, Copy, Debug, PartialEq, Eq, Structural)]
pub enum ScanError {
    /// The parser does not take the grammar of C.
    NoGrammar,
    /// The source is longer than the parser can count.
    TooLong,
    /// What the parser gave is no tree over the source.
    MalformedTree,
    /// In an assignment of a call of `free` a closing parenthesis comes before the first opening
    /// one.
    ReversedParentheses,
}

/// What a source in C or C++ is reported as, given its tree.
pub open spec fn c_scan(t: TreeModel, path: Seq<char>) -> Seq<FindingModel> {
    let top = t.children(0).len() as int;
    gather(watched_calls(t, path, unbounded_functions()), t.len()) + gather(
        unchecked_allocations(t, path),
        top,
    ) + gather(banned_calls(t, path), top) + gather(overflowing_operations(t, path), top) + gather(
        leaks(t, path),
        top,
    ) + pattern_findings(path, t.source) + gather(symbolic_rule(t, path), t.len()) + gather(
        sink_rule(t, path, c_taint_sinks()),
        t.len(),
    ) + gather(advanced_rule(t, path), t.len()) + gather(flow_rule(t, path), t.len()) + gather(
        type_rule(t, path),
        t.len(),
    ) + cross_scan(t, path, library_summaries())
}

/// What a scan gives: the contents of its findings, or why it cannot be made.
pub open spec fn outcome(r: Result<Vec<Finding>, ScanError>) -> Result<
    Seq<FindingModel>,
    ScanError,
> {
    match r {
        Ok(v) => Ok(views(v@)),
        Err(e) => Err(e),
    }
}

/// What the scan of a source in C or C++ gives, given the nodes that the parser gave for it;
/// nothing is reported where it gave none.
pub open spec fn c_outcome(
    path: Seq<char>,
    source: Seq<char>,
    nodes: Option<Seq<NodeModel>>,
) -> Result<Seq<FindingModel>, ScanError> {
    match nodes {
        Some(n) => {
            let t = TreeModel { source, nodes: n };
            if !t.well_formed() {
                Err(ScanError::MalformedTree)
            } else if !all_readable(t) {
                Err(ScanError::ReversedParentheses)
            } else {
                Ok(c_scan(t, path))
            }
        },
        None => Ok(Seq::empty()),
    }
}

/// What the scan of bytes as a source in C or C++ gives; bytes that are no text are not looked at.
pub open spec fn c_bytes_outcome(path: Seq<char>, bytes: Seq<u8>) -> Result<
    Seq<FindingModel>,
    ScanError,
> {
    let source = decode_utf8(bytes);
    if !grammar_loads(Grammar::C) {
        Err(ScanError::NoGrammar)
    } else if !valid_utf8(bytes) {
        Ok(Seq::empty())
    } else if byte_len(source) > u32::MAX {
        Err(ScanError::TooLong)
    } else {
        c_outcome(path, source, parsed(Grammar::C, source))
    }
}

impl Scanner {
    /// Makes all the checks on a source in C or C++.
    pub fn scan_tree(tree: &SyntaxTree, path: &str) -> (r: Vec<Finding>)
        requires
            all_readable(tree@),
        ensures
            views(r@) == c_scan(tree@, path@),
    {
        let mut findings = Self::check_buffer_overflows(tree, path);
        extend(&mut findings, Self::check_null_dereferences(tree, path));
        extend(&mut findings, Self::check_unsafe_functions(tree, path));
        extend(&mut findings, Self::check_integer_overflows(tree, path));
        extend(&mut findings, Self::check_resource_leaks(tree, path));
        extend(&mut findings, Self::check_dangerous_patterns_regex(tree.source(), path));
        extend(&mut findings, SymbolicAnalyzer::analyze_function(tree, path));
        let taint_analyzer = TaintAnalyzer::new();
        extend(&mut findings, taint_analyzer.analyze_file(tree, path));
        extend(&mut findings, AdvancedSecurityAnalyzer::analyze(tree, path));
        extend(&mut findings, DataFlowAnalyzer::analyze(tree, path));
        extend(&mut findings, TypeAwareChecker::analyze(tree, path));
        let call_graph_analyzer = CallGraphAnalyzer::new();
        extend(&mut findings, call_graph_analyzer.analyze_file(tree, path));
        findings
    }

    /// Scans a source in C or C++, given the nodes that the parser gave for it.
    pub fn scan_parsed(path: &str, source: &str, nodes: Option<Vec<SyntaxNode>>) -> (r: Result<
        Vec<Finding>,
        ScanError,
    >)
        ensures
            outcome(r) == c_outcome(path@, source@, nodes_view(nodes)),
    {
        match nodes {
            Some(n) => match SyntaxTree::new(source, n) {
                Some(tree) => if DataFlowAnalyzer::can_read(&tree) {
                    Ok(Self::scan_tree(&tree, path))
                } else {
                    Err(ScanError::ReversedParentheses)
                },
                None => Err(ScanError::MalformedTree),
            },
            None => Ok(no_findings()),
        }
    }

    /// Scans bytes as a source in C or C++.
    pub fn scan_file(path: &str, bytes: &[u8]) -> (r: Result<Vec<Finding>, ScanError>)
        ensures
            outcome(r) == c_bytes_outcome(path@, bytes@),
    {
        if !loads_grammar(Grammar::C) {
            return Err(ScanError::NoGrammar);
        }
        match utf8_text(bytes) {
            Some(source) => {
                proof {
                    encode_utf8_decode_utf8(source@);
                }
                if fits_parser(source) {
                    Self::scan_parsed(path, source, parse_nodes(Grammar::C, source))
                } else {
                    Err(ScanError::TooLong)
                }
            },
            None => Ok(no_findings()),
        }
    }
}

/// The contents of nodes, where there are any.
pub open spec fn nodes_view(nodes: Option<Vec<SyntaxNode>>) -> Option<Seq<NodeModel>> {
    match nodes {
        Some(n) => Some(node_views(n@)),
        None => None,
    }
}

fn no_findings() -> (r: Vec<Finding>)
    ensures
        views(r@) == Seq::<FindingModel>::empty(),
{
    let r: Vec<Finding> = Vec::new();
    assert(views(r@) =~= Seq::<FindingModel>::empty());
    r
}

fn fits_parser(source: &str) -> (r: bool)
    ensures
        r == (byte_len(source@) <= u32::MAX),
{
    source.as_bytes().len() <= u32::MAX as usize
}

/// The analyses of sources.
#[derive(Clone, Copy, Debug, PartialEq, Eq, Structural)]
pub enum Analyzer {
    Cpp,
    Java,
    Python,
    JavaScript,
    /// Line by line, for want of a grammar.
    Lines(Pattern),
}

/// What an analysis of a tree reports.
pub open spec fn tree_scan(analyzer: Analyzer, t: TreeModel, path: Seq<char>) -> Seq<FindingModel> {
    match analyzer {
        Analyzer::Java => java_scan(t, path),
        Analyzer::Python => py_scan(t, path),
        _ => js_scan(t, path),
    }
}

/// The grammar that an analysis parses sources with.
pub open spec fn grammar_for(analyzer: Analyzer) -> Grammar {
    match analyzer {
        Analyzer::Java => Grammar::Java,
        Analyzer::Python => Grammar::Python,
        _ => Grammar::JavaScript,
    }
}

/// The search line by line that takes the place of an analysis.
pub open spec fn pattern_for(analyzer: Analyzer) -> Pattern {
    match analyzer {
        Analyzer::Java => Pattern::Java,
        Analyzer::Python => Pattern::Python,
        _ => Pattern::JavaScript,
    }
}

/// What the analysis of a source gives, given the nodes that the parser gave for it; where it gave
/// none the source is searched line by line.
pub open spec fn tree_outcome(
    analyzer: Analyzer,
    path: Seq<char>,
    source: Seq<char>,
    nodes: Option<Seq<NodeModel>>,
) -> Result<Seq<FindingModel>, ScanError> {
    match nodes {
        Some(n) => {
            let t = TreeModel { source, nodes: n };
            if t.well_formed() {
                Ok(tree_scan(analyzer, t, path))
            } else {
                Err(ScanError::MalformedTree)
            }
        },
        None => Ok(
            pattern_for(analyzer).line_scan(path, source, FALLBACK_CONFIDENCE as nat),
        ),
    }
}

/// What an analysis of bytes gives.
pub open spec fn bytes_outcome(analyzer: Analyzer, path: Seq<char>, bytes: Seq<u8>) -> Result<
    Seq<FindingModel>,
    ScanError,
> {
    match analyzer {
        Analyzer::Cpp => c_bytes_outcome(path, bytes),
        Analyzer::Lines(pattern) => if valid_utf8(bytes) {
            Ok(pattern.line_scan(path, decode_utf8(bytes), PATTERN_CONFIDENCE as nat))
        } else {
            Ok(Seq::empty())
        },
        _ => {
            let source = lossy(bytes);
            if byte_len(source) > u32::MAX {
                Err(ScanError::TooLong)
            } else {
                tree_outcome(analyzer, path, source, parsed(grammar_for(analyzer), source))
            }
        },
    }
}

/// The analysis for sources in a language, for those that have one; without a grammar it goes line
/// by line, except in C and C++.
pub open spec fn analyzer_of(language: Language) -> Option<Analyzer> {
    match language {
        Language::C | Language::Cpp => Some(Analyzer::Cpp),
        Language::Java => Some(
            if grammar_loads(Grammar::Java) {
                Analyzer::Java
            } else {
                Analyzer::Lines(Pattern::Java)
            },
        ),
        Language::Python => Some(
            if grammar_loads(Grammar::Python) {
                Analyzer::Python
            } else {
                Analyzer::Lines(Pattern::Python)
            },
        ),
        Language::JavaScript | Language::TypeScript => Some(
            if grammar_loads(Grammar::JavaScript) {
                Analyzer::JavaScript
            } else {
                Analyzer::Lines(Pattern::JavaScript)
            },
        ),
        _ => None,
    }
}

/// The language and the analysis of a file, by its extension.
pub struct MultiLanguageScanner {
    pub language: Language,
    pub inner: Analyzer,
}

/// The language and the analysis that go with an extension.
pub open spec fn scanner_of(ext: Option<Seq<char>>) -> Option<(Language, Analyzer)> {
    match ext {
        Some(e) => match language_of(lowercase(e)) {
            Some(language) => match analyzer_of(language) {
                Some(analyzer) => Some((language, analyzer)),
                None => None,
            },
            None => None,
        },
        None => None,
    }
}

impl MultiLanguageScanner {
    /// The scanner for files with an extension; `None` where the language is not known or has no
    /// analysis.
    pub fn new(ext: Option<&str>) -> (r: Option<MultiLanguageScanner>)
        ensures
            match r {
                Some(s) => scanner_of(crate::rule::text_view(ext)) == Some((s.language, s.inner)),
                None => scanner_of(crate::rule::text_view(ext)) is None,
            },
    {
        let e = match ext {
            Some(e) => e,
            None => return None,
        };
        let language = match Language::from_extension(e) {
            Some(language) => language,
            None => return None,
        };
        let inner = match language {
            Language::C | Language::Cpp => Analyzer::Cpp,
            Language::Java => if loads_grammar(Grammar::Java) {
                Analyzer::Java
            } else {
                Analyzer::Lines(Pattern::Java)
            },
            Language::Python => if loads_grammar(Grammar::Python) {
                Analyzer::Python
            } else {
                Analyzer::Lines(Pattern::Python)
            },
            Language::JavaScript | Language::TypeScript => if loads_grammar(Grammar::JavaScript) {
                Analyzer::JavaScript
            } else {
                Analyzer::Lines(Pattern::JavaScript)
            },
            _ => return None,
        };
        Some(MultiLanguageScanner { language, inner })
    }

    /// Scans the bytes of a file.
    pub fn scan_file(&self, path: &str, bytes: &[u8]) -> (r: Result<Vec<Finding>, ScanError>)
        ensures
            outcome(r) == bytes_outcome(self.inner, path@, bytes@),
    {
        match self.inner {
            Analyzer::Cpp => Scanner::scan_file(path, bytes),
            Analyzer::Lines(pattern) => match utf8_text(bytes) {
                Some(source) => {
                    proof {
                        encode_utf8_decode_utf8(source@);
                    }
                    Ok(pattern.analyze(source, path, PATTERN_CONFIDENCE))
                },
                None => Ok(no_findings()),
            },
            Analyzer::Java => Self::scan_text(Analyzer::Java, Grammar::Java, path, bytes),
            Analyzer::Python => Self::scan_text(Analyzer::Python, Grammar::Python, path, bytes),
            Analyzer::JavaScript => Self::scan_text(
                Analyzer::JavaScript,
                Grammar::JavaScript,
                path,
                bytes,
            ),
        }
    }

    fn scan_text(analyzer: Analyzer, grammar: Grammar, path: &str, bytes: &[u8]) -> (r: Result<
        Vec<Finding>,
        ScanError,
    >)
        requires
            analyzer == Analyzer::Java || analyzer == Analyzer::Python || analyzer
                == Analyzer::JavaScript,
            grammar == grammar_for(analyzer),
        ensures
            outcome(r) == bytes_outcome(analyzer, path@, bytes@),
    {
        let source = lossy_text(bytes);
        if fits_parser(&source) {
            Self::scan_parsed(analyzer, path, &source, parse_nodes(grammar, &source))
        } else {
            Err(ScanError::TooLong)
        }
    }

    /// Analyses a source, given the nodes that the parser gave for it.
    pub fn scan_parsed(
        analyzer: Analyzer,
        path: &str,
        source: &str,
        nodes: Option<Vec<SyntaxNode>>,
    ) -> (r: Result<Vec<Finding>, ScanError>)
        requires
            analyzer == Analyzer::Java || analyzer == Analyzer::Python || analyzer
                == Analyzer::JavaScript,
        ensures
            outcome(r) == tree_outcome(analyzer, path@, source@, nodes_view(nodes)),
    {
        match nodes {
            Some(n) => match SyntaxTree::new(source, n) {
                Some(tree) => Ok(
                    match analyzer {
                        Analyzer::Java => JavaAnalyzer::analyze(&tree, path),
                        Analyzer::Python => PythonAnalyzer::analyze(&tree, path),
                        _ => JavaScriptAnalyzer::analyze(&tree, path),
                    },
                ),
                None => Err(ScanError::MalformedTree),
            },
            None => {
                let pattern = match analyzer {
                    Analyzer::Java => Pattern::Java,
                    Analyzer::Python => Pattern::Python,
                    _ => Pattern::JavaScript,
                };
                Ok(pattern.analyze(source, path, FALLBACK_CONFIDENCE))
            },
        }
    }
}

/// What the scan of a file gives; one whose language is not known, or has no analysis, is scanned
/// as a source in C.
pub open spec fn file_outcome(path: Seq<char>, ext: Option<Seq<char>>, bytes: Seq<u8>) -> Result<
    Seq<FindingModel>,
    ScanError,
> {
    match scanner_of(ext) {
        Some((language, analyzer)) => bytes_outcome(analyzer, path, bytes),
        None => c_bytes_outcome(path, bytes),
    }
}

/// Scans the bytes of a file, given its extension.
pub fn scan_file(path: &str, ext: Option<&str>, bytes: &[u8]) -> (r: Result<
    Vec<Finding>,
    ScanError,
>)
    ensures
        outcome(r) == file_outcome(path@, crate::rule::text_view(ext), bytes@),
{
    match MultiLanguageScanner::new(ext) {
        Some(scanner) => scanner.scan_file(path, bytes),
        None => Scanner::scan_file(path, bytes),
    }
}

} // verus!
