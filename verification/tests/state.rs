use ntscan::advanced::{AdvancedAnalysisState, AdvancedSecurityAnalyzer};
use ntscan::callgraph::{CallGraphAnalyzer, FunctionSummary, Summaries};
use ntscan::dataflow::{DataFlowAnalyzer, DataFlowState};
use ntscan::finding::{Finding, Severity};
use ntscan::names::NameSet;
use ntscan::symbolic::SymbolicValue;
use ntscan::syntax::{get_position, slice_of, SyntaxNode, SyntaxTree};
use ntscan::taint::TaintAnalyzer;

fn row(kind: &str, field: Option<&str>, depth: usize, start: usize, end: usize) -> SyntaxNode {
    SyntaxNode {
        kind: kind.to_string(),
        field: field.map(|f| f.to_string()),
        depth,
        start,
        end,
    }
}

fn name(s: &str) -> String {
    s.to_string()
}

#[test]
fn last_mark_of_a_variable_counts() {
    let mut state = DataFlowState::new();
    assert!(!state.is_freed("p") && !state.is_null("p") && !state.is_checked("p"));
    state.declare_variable(name("p"), name("char"));
    assert!(state.is_null("p"));
    state.mark_allocated(name("p"));
    assert!(!state.is_null("p"));
    state.mark_freed(name("p"));
    assert!(state.is_freed("p"));
    state.mark_null(name("p"));
    assert!(state.is_null("p") && !state.is_freed("p"));
    state.mark_checked(name("p"));
    assert!(state.is_checked("p") && !state.is_null("p"));
    assert!(!state.is_checked("q"));
}

#[test]
fn names_in_parentheses() {
    assert_eq!(DataFlowAnalyzer::extract_freed_var("free( p )"), Some(name("p")));
    assert_eq!(DataFlowAnalyzer::extract_freed_var("free()"), None);
    assert_eq!(DataFlowAnalyzer::extract_freed_var("free(p"), None);
    assert_eq!(DataFlowAnalyzer::extract_freed_var("free"), None);
    assert_eq!(DataFlowAnalyzer::extract_freed_var("f(g(x), y)"), Some(name("g(x")));
}

#[test]
fn names_in_conditions() {
    assert_eq!(DataFlowAnalyzer::extract_checked_var("p != NULL"), Some(name("p")));
    assert_eq!(DataFlowAnalyzer::extract_checked_var("(p != NULL)"), Some(name("p")));
    assert_eq!(DataFlowAnalyzer::extract_checked_var("(p != 0)"), Some(name("p")));
    assert_eq!(DataFlowAnalyzer::extract_checked_var("((p) != NULL)"), Some(name("p")));
    assert_eq!(DataFlowAnalyzer::extract_checked_var("((p != NULL) && x)"), Some(name("p")));
    assert_eq!(DataFlowAnalyzer::extract_checked_var("(f(x) != NULL)"), Some(name("f(x)")));
    assert_eq!(DataFlowAnalyzer::extract_checked_var("a != b && p != NULL"), Some(name("a")));
    assert_eq!(DataFlowAnalyzer::extract_checked_var("p"), Some(name("p")));
    assert_eq!(DataFlowAnalyzer::extract_checked_var("( (ptr_1) )"), Some(name("ptr_1")));
    assert_eq!(DataFlowAnalyzer::extract_checked_var("(p == NULL)"), None);
    assert_eq!(DataFlowAnalyzer::extract_checked_var("(!p)"), None);
    assert_eq!(DataFlowAnalyzer::extract_checked_var("(1)"), None);
    assert_eq!(DataFlowAnalyzer::extract_checked_var("()"), None);
    assert_eq!(DataFlowAnalyzer::extract_checked_var("(a) && (b)"), None);
}

#[test]
fn checked_variable_may_be_dereferenced() {
    let source = "if (p != NULL) p[0]";
    let nodes = vec![
        row("block", None, 0, 0, 19),
        row("if_statement", None, 1, 0, 14),
        row("parenthesized_expression", Some("condition"), 2, 3, 14),
        row("subscript_expression", None, 1, 15, 19),
        row("identifier", Some("argument"), 2, 15, 16),
    ];
    let tree = SyntaxTree::new(source, nodes).unwrap();
    let mut state = DataFlowState::new();
    let mut found: Vec<Finding> = Vec::new();
    state.mark_null(name("p"));
    DataFlowAnalyzer::track_variables(&tree, "a.c", 3, &mut state, &mut found);
    assert_eq!(found.len(), 1);
    DataFlowAnalyzer::track_variables(&tree, "a.c", 1, &mut state, &mut found);
    assert!(state.is_checked("p"));
    DataFlowAnalyzer::track_variables(&tree, "a.c", 3, &mut state, &mut found);
    assert_eq!(found.len(), 1);
}

#[test]
fn uninitialized_pointer_type() {
    let source = "char* p";
    let nodes = vec![
        row("declaration", None, 0, 0, 7),
        row("type", Some("type"), 1, 0, 5),
        row("identifier", Some("declarator"), 1, 6, 7),
    ];
    let tree = SyntaxTree::new(source, nodes).unwrap();
    let found = DataFlowAnalyzer::analyze(&tree, "a.c");
    assert_eq!(found.len(), 1);
    assert_eq!(found[0].message, "Pointer 'p' declared without initialization");
    assert_eq!(found[0].suggestion.as_deref(), Some("Initialize p to NULL or valid address"));
    assert_eq!(found[0].severity, Severity::Medium);
    assert_eq!(found[0].confidence, 82);
    assert!(!DataFlowAnalyzer::has_initializer(&tree, 0));
    assert_eq!(DataFlowAnalyzer::extract_type(&tree, 0), "char*");
    assert_eq!(DataFlowAnalyzer::extract_type(&tree, 1), "");
    assert_eq!(DataFlowAnalyzer::extract_identifier(&tree, 0), "p");
    assert_eq!(DataFlowAnalyzer::extract_identifier(&tree, 1), "");
}

#[test]
fn star_in_the_declarator() {
    let source = "int **p;";
    let nodes = vec![
        row("declaration", None, 0, 0, 8),
        row("primitive_type", Some("type"), 1, 0, 3),
        row("pointer_declarator", Some("declarator"), 1, 4, 7),
        row("*", None, 2, 4, 5),
        row("pointer_declarator", Some("declarator"), 2, 5, 7),
        row("*", None, 3, 5, 6),
        row("identifier", Some("declarator"), 3, 6, 7),
    ];
    let tree = SyntaxTree::new(source, nodes).unwrap();
    assert_eq!(DataFlowAnalyzer::extract_pointer(&tree, 2), Some("p"));
    assert_eq!(DataFlowAnalyzer::extract_pointer(&tree, 6), None);
    let found = DataFlowAnalyzer::analyze(&tree, "a.c");
    assert_eq!(found.len(), 1);
    assert_eq!(found[0].message, "Pointer 'p' declared without initialization");
}

#[test]
fn only_a_star_dereferences() {
    for (source, count) in [("*p", 1), ("&p", 0)] {
        let nodes = vec![
            row("pointer_expression", None, 0, 0, 2),
            row(&source[0..1], Some("operator"), 1, 0, 1),
            row("identifier", Some("argument"), 1, 1, 2),
        ];
        let tree = SyntaxTree::new(source, nodes).unwrap();
        let mut state = DataFlowState::new();
        let mut found: Vec<Finding> = Vec::new();
        state.mark_null(name("p"));
        state.mark_null(name(""));
        DataFlowAnalyzer::track_variables(&tree, "a.c", 0, &mut state, &mut found);
        assert_eq!(found.len(), count);
        for f in &found {
            assert_eq!(f.message, "Confirmed NULL dereference of 'p'");
            assert_eq!(f.severity, Severity::Critical);
        }
    }
}

#[test]
fn same_argument_freed_twice_in_one_call() {
    let source = "free(p,p)";
    let nodes = vec![
        row("call_expression", None, 0, 0, 9),
        row("identifier", Some("function"), 1, 0, 4),
        row("argument_list", Some("arguments"), 1, 4, 9),
        row("(", None, 2, 4, 5),
        row("identifier", None, 2, 5, 6),
        row(",", None, 2, 6, 7),
        row("identifier", None, 2, 7, 8),
        row(")", None, 2, 8, 9),
    ];
    let tree = SyntaxTree::new(source, nodes).unwrap();
    let found = DataFlowAnalyzer::analyze(&tree, "a.c");
    assert_eq!(found.len(), 1);
    assert_eq!(found[0].category, "double_free");
    assert_eq!(DataFlowAnalyzer::argument_parts(&tree, 0), vec![3, 4, 5, 6, 7]);
}

#[test]
fn trees_that_cannot_be_read() {
    let source = "x=\")free(\"";
    let nodes = vec![
        row("assignment_expression", None, 0, 0, 10),
        row("identifier", Some("left"), 1, 0, 1),
        row("string_literal", Some("right"), 1, 2, 10),
    ];
    let tree = SyntaxTree::new(source, nodes).unwrap();
    assert!(!DataFlowAnalyzer::can_read(&tree));
    let source = "x=free(p)";
    let nodes = vec![
        row("assignment_expression", None, 0, 0, 9),
        row("identifier", Some("left"), 1, 0, 1),
        row("call_expression", Some("right"), 1, 2, 9),
    ];
    let tree = SyntaxTree::new(source, nodes).unwrap();
    assert!(DataFlowAnalyzer::can_read(&tree));
}

#[test]
fn symbolic_values() {
    let zero = SymbolicValue::Concrete(0);
    let five = SymbolicValue::Concrete(5);
    let symbol = SymbolicValue::Symbol(name("n"));
    let op = |op: &str| SymbolicValue::BinaryOp {
        op: name(op),
        left: Box::new(SymbolicValue::Unknown),
        right: Box::new(SymbolicValue::Concrete(1)),
    };
    assert!(zero.is_null() && zero.could_be_null());
    assert!(!five.is_null() && !five.could_be_null());
    assert!(!symbol.is_null() && symbol.could_be_null());
    assert!(SymbolicValue::Unknown.could_be_null() && op("*").could_be_null());
    assert!(five.could_exceed(4) && !five.could_exceed(5));
    assert!(op("*").could_exceed(i64::MAX) && op("+").could_exceed(0) && op("<<").could_exceed(0));
    assert!(!op("-").could_exceed(i64::MIN) && !op("/").could_exceed(0));
    assert!(symbol.could_exceed(i64::MAX) && SymbolicValue::Unknown.could_exceed(0));
}

#[test]
fn sets_of_names() {
    let mut names = NameSet::new();
    assert!(!names.contains("a") && !names.any_in("a"));
    names.insert("cmd");
    names.insert("cmd");
    names.insert("ü");
    assert!(names.contains("cmd") && names.contains("ü") && !names.contains("cm"));
    assert!(names.any_in("run(cmd)") && names.any_in("für") && !names.any_in("run(c)"));
}

#[test]
fn taint_functions_of_the_library() {
    let t = TaintAnalyzer::new();
    for s in ["scanf", "fgets", "recv", "read", "getenv"] {
        assert!(t.taint_sources.contains(s));
        assert!(!t.taint_sinks.contains(s));
    }
    for s in ["system", "popen", "exec"] {
        assert!(t.taint_sinks.contains(s));
        assert!(!t.taint_sources.contains(s));
    }
}

#[test]
fn summaries_of_the_library() {
    let a = CallGraphAnalyzer::new();
    let get = |n: &str| {
        let s = a.function_summaries.get(n).unwrap();
        (s.name.clone(), s.returns_malloc, s.takes_user_input, s.calls_system)
    };
    assert_eq!(get("malloc"), (name("malloc"), true, false, false));
    assert_eq!(get("calloc"), (name("calloc"), true, false, false));
    assert_eq!(get("strdup"), (name("strdup"), true, true, false));
    assert_eq!(get("system"), (name("system"), false, true, true));
    assert_eq!(get("popen"), (name("popen"), false, true, true));
    assert_eq!(get("scanf"), (name("scanf"), false, true, false));
    assert_eq!(get("gets"), (name("gets"), false, true, false));
    assert!(a.function_summaries.get("realloc").is_none());
}

#[test]
fn later_summary_takes_the_place_of_an_earlier_one() {
    let mut s = Summaries::new();
    let summary = |x: bool| FunctionSummary {
        name: name("f"),
        returns_malloc: x,
        takes_user_input: false,
        calls_system: false,
    };
    s.insert(summary(true));
    s.insert(summary(false));
    assert!(!s.get("f").unwrap().returns_malloc);
    assert!(s.get("g").is_none());
}

#[test]
fn summaries_of_definitions() {
    let source = "f(a){malloc()}";
    let nodes = vec![
        row("function_definition", None, 0, 0, 14),
        row("pointer_declarator", Some("declarator"), 1, 0, 4),
        row("*", None, 2, 0, 0),
        row("function_declarator", None, 2, 0, 4),
        row("identifier", Some("declarator"), 3, 0, 1),
        row("identifier", None, 3, 2, 3),
        row("body", Some("body"), 1, 4, 14),
        row("call_expression", None, 2, 5, 13),
        row("identifier", Some("function"), 3, 5, 11),
    ];
    let tree = SyntaxTree::new(source, nodes).unwrap();
    assert_eq!(CallGraphAnalyzer::extract_function_name(&tree, 1), "f");
    let s = CallGraphAnalyzer::build_summaries(&tree);
    let f = s.get("f").unwrap();
    assert!(f.returns_malloc && !f.takes_user_input && !f.calls_system);
}

#[test]
fn remembered_checks_and_handles() {
    let source = "stat(p)\nclose(p)";
    let nodes = vec![
        row("block", None, 0, 0, 16),
        row("call_expression", None, 1, 0, 7),
        row("identifier", Some("function"), 2, 0, 4),
        row("argument_list", Some("arguments"), 2, 4, 7),
        row("call_expression", None, 1, 8, 16),
        row("identifier", Some("function"), 2, 8, 13),
        row("argument_list", Some("arguments"), 2, 13, 16),
    ];
    let tree = SyntaxTree::new(source, nodes).unwrap();
    let mut state = AdvancedAnalysisState::new();
    let mut found: Vec<Finding> = Vec::new();
    AdvancedSecurityAnalyzer::analyze_with_state(&tree, "a.c", 1, &mut state, &mut found);
    assert_eq!(state.check_operations, vec![name("stat")]);
    assert_eq!(state.check_line, 0);
    AdvancedSecurityAnalyzer::analyze_with_state(&tree, "a.c", 4, &mut state, &mut found);
    assert!(state.closed_resources.contains("(p)"));
    assert!(found.is_empty());
    AdvancedSecurityAnalyzer::analyze_with_state(&tree, "a.c", 4, &mut state, &mut found);
    assert_eq!(found.len(), 1);
    assert_eq!(found[0].category, "double_close");
    assert_eq!((found[0].line, found[0].column), (1, 7));
}

#[test]
fn tainted_expressions() {
    let mut names = NameSet::new();
    assert!(AdvancedSecurityAnalyzer::is_externally_tainted("GETENV", "getenv", &names));
    assert!(!AdvancedSecurityAnalyzer::is_externally_tainted("cmd", "cmd", &names));
    names.insert("cmd");
    assert!(AdvancedSecurityAnalyzer::is_externally_tainted("(cmd)", "(cmd)", &names));
    assert!(AdvancedSecurityAnalyzer::is_tainted_source("recv(s)"));
    assert!(AdvancedSecurityAnalyzer::is_tainted_source("argv[1]"));
    assert!(!AdvancedSecurityAnalyzer::is_tainted_source("getenv"));
}

#[test]
fn positions_count_the_lines_before() {
    assert_eq!(get_position("ab\ncd", 0), (0, 0));
    assert_eq!(get_position("ab\ncd", 1), (1, 1));
    assert_eq!(get_position("ab\ncd", 3), (1, 2));
    assert_eq!(get_position("ab\ncd", 4), (2, 1));
    assert_eq!(get_position("é\r\nx", 4), (1, 2));
    assert_eq!(slice_of("aéb", 1, 3), "é");
}

#[test]
fn nodes_of_a_tree() {
    let source = "a b c";
    let nodes = vec![
        row("root", None, 0, 0, 5),
        row("x", Some("f"), 1, 0, 3),
        row("y", None, 2, 2, 3),
        row("z", Some("f"), 1, 4, 5),
    ];
    let tree = SyntaxTree::new(source, nodes).unwrap();
    assert_eq!(tree.len(), 4);
    assert_eq!(tree.source(), "a b c");
    assert_eq!(tree.children(0), vec![1, 3]);
    assert_eq!(tree.children(2), vec![]);
    assert_eq!(tree.child_by_field_name(0, "f"), Some(1));
    assert_eq!(tree.child_by_field_name(0, "g"), None);
    assert_eq!(tree.child_by_field_name(1, "f"), None);
    assert_eq!(tree.first_child(1), Some(2));
    assert_eq!(tree.first_child(3), None);
    assert_eq!(tree.parent(0), None);
    assert_eq!(tree.parent(2), Some(1));
    assert_eq!(tree.parent(3), Some(0));
    assert_eq!(tree.next_sibling(1), Some(3));
    assert_eq!(tree.next_sibling(2), None);
    assert_eq!(tree.subtree_end(1), 3);
    assert_eq!(tree.text(1), "a b");
    assert!(tree.is(2, "y") && !tree.is(2, "x"));
    assert_eq!(tree.start_byte(3), 4);
    assert_eq!(tree.place(3), (1, 4));
}
