use ntscan::c_checks::Scanner;
use ntscan::finding::{Finding, Severity};
use ntscan::scanner::{scan_file, ScanError};
use ntscan::syntax::SyntaxNode;

type Row = (usize, usize, Severity, &'static str, u8);

const LOW: Severity = Severity::Low;
const MEDIUM: Severity = Severity::Medium;
const HIGH: Severity = Severity::High;
const CRITICAL: Severity = Severity::Critical;

fn scan(source: &str) -> Vec<Finding> {
    scan_file("src/main.c", Some("c"), source.as_bytes()).unwrap()
}

fn expect(source: &str, rows: Vec<Row>) {
    let found = scan(source);
    let got: Vec<(usize, usize, Severity, String, u8)> = found
        .iter()
        .map(|f| (f.line, f.column, f.severity, f.category.clone(), f.confidence))
        .collect();
    let want: Vec<(usize, usize, Severity, String, u8)> =
        rows.into_iter().map(|r| (r.0, r.1, r.2, r.3.to_string(), r.4)).collect();
    assert_eq!(got, want);
    for f in found.iter() {
        assert_eq!(f.file, "src/main.c");
        assert!(f.suggestion.is_some());
        assert_ne!(f.severity, LOW);
    }
}

#[test]
fn clean_source_has_no_findings() {
    expect("int add(int a, int b) { return a; }\n", vec![]);
    expect("", vec![]);
}

#[test]
fn overflowing_allocation_is_caught() {
    expect(
        "void f() {\n    size_t total = n * size;\n    malloc(total);\n}\n",
        vec![
            (3, 4, CRITICAL, "integer_overflow_allocation", 88),
            (3, 4, HIGH, "unchecked_malloc_return", 83),
        ],
    );
}

#[test]
fn overflowing_allocation_at_the_top_of_a_file() {
    expect(
        "size_t total = n * size;\nmalloc(total);\n",
        vec![
            (1, 24, CRITICAL, "integer_overflow_allocation", 88),
            (1, 24, HIGH, "unchecked_malloc_return", 83),
        ],
    );
}

#[test]
fn product_assigned_before_allocation_is_remembered() {
    let found = scan("void f() { n = a << 3; p = calloc(n, 1); q = malloc(m); }");
    let sizes: Vec<&Finding> =
        found.iter().filter(|f| f.category == "integer_overflow_allocation").collect();
    assert_eq!(sizes.len(), 1);
    assert_eq!(sizes[0].message, "Integer overflow risk in calloc size calculation");
}

#[test]
fn product_is_forgotten_when_the_variable_is_set_again() {
    let count = |source: &str| -> usize {
        scan(source).iter().filter(|f| f.category == "integer_overflow_allocation").count()
    };
    assert_eq!(count("void f() { n = a * b; n = 16; p = malloc(n); }"), 0);
    assert_eq!(count("void f() { n = 16; n = a * b; p = malloc(n); }"), 1);
    assert_eq!(count("void f() { n = a * b; m = 16; p = malloc(n); }"), 1);
    assert_eq!(count("void f() { int n = a * b; } void g() { int n = 3; p = malloc(n); }"), 0);
    assert_eq!(count("void f() { int n = a * b; } void g(int n) { p = malloc(n); }"), 0);
    assert_eq!(count("void f() { int n = a * b; } void g() { int n; p = malloc(n); }"), 0);
    assert_eq!(count("void f() { n = a * b; n = h(malloc(n)); }"), 1);
    assert_eq!(count("void f() { n = malloc(n) * b; }"), 0);
    assert_eq!(count("void f() { p = malloc(n); n = a * b; }"), 0);
}

#[test]
fn sum_assigned_before_allocation_is_not_an_overflow() {
    let found = scan("void f() { n = a + 3; p = malloc(n); }");
    assert!(found.iter().all(|f| f.category != "integer_overflow_allocation"));
}

#[test]
fn check_then_use_of_a_file_is_caught() {
    expect(
        "void f() {\n    if (access(path, R_OK) == 0)\n        fopen(path, \"r\");\n}\n",
        vec![
            (3, 8, HIGH, "toctou_race_condition", 85),
            (3, 8, HIGH, "unchecked_return", 85),
        ],
    );
    let found = scan("void f() { if (access(path, R_OK) == 0) fopen(path, \"r\"); }");
    assert_eq!(
        found[0].message,
        "TOCTOU: fopen after access - file may change between check and use"
    );
}

#[test]
fn check_and_use_in_one_expression_is_caught() {
    let found = scan("void f() { x = stat(p, &s) + unlink(p); }");
    let races: Vec<&Finding> =
        found.iter().filter(|f| f.category == "toctou_race_condition").collect();
    assert_eq!(races.len(), 1);
    assert_eq!(
        races[0].message,
        "TOCTOU: unlink after stat - file may change between check and use"
    );
}

#[test]
fn use_in_a_later_statement_is_not_a_race() {
    let found = scan("void f() { access(p, 0); rename(p, q); }");
    assert!(found.iter().all(|f| f.category != "toctou_race_condition"));
}

#[test]
fn use_before_the_check_is_not_a_race() {
    let found = scan("void f() { x = unlink(p) + stat(p, &s); }");
    assert!(found.iter().all(|f| f.category != "toctou_race_condition"));
}

#[test]
fn double_close_is_caught() {
    expect(
        "void f() {\n    fclose(f);\n    fclose(f);\n}\n",
        vec![(3, 4, CRITICAL, "double_close", 82)],
    );
    let found = scan("void f() { close(fd); close(other); close(fd); }");
    assert_eq!(found.len(), 1);
    assert_eq!(found[0].message, "Resource (fd) may be closed twice");
}

#[test]
fn taint_across_functions_is_caught() {
    expect(
        "void wrap(const char* cmd) { execute(cmd); }\nvoid execute(const char* c) { system(c); }\n",
        vec![
            (2, 30, CRITICAL, "command_injection", 88),
            (2, 30, CRITICAL, "tainted_system_call", 86),
        ],
    );
}

#[test]
fn function_that_reads_input_and_runs_it_taints_its_callers() {
    expect(
        "void run() { fgets(b, 3, f); system(b); }\nvoid g() { run(); }",
        vec![
            (1, 29, CRITICAL, "command_injection", 88),
            (1, 29, CRITICAL, "tainted_system_call", 86),
            (2, 11, CRITICAL, "tainted_system_call", 86),
        ],
    );
}

#[test]
fn own_function_takes_the_place_of_the_library_one() {
    let found = scan("void system(char *c) { log(c); }\nvoid g() { system(c); }");
    assert!(found.iter().all(|f| f.category != "tainted_system_call"));
}

#[test]
fn dropped_allocation_of_a_local_function() {
    expect(
        "char *dup(void) { char *p = malloc(3); return p; }\nvoid g() { dup(); }",
        vec![(2, 11, HIGH, "unchecked_malloc_return", 83)],
    );
}

#[test]
fn double_free_and_use_after_free_are_caught() {
    expect(
        "void f() {\n    free(p);\n    free(p);\n    use(p);\n}\n",
        vec![
            (3, 4, CRITICAL, "use_after_free", 91),
            (3, 4, CRITICAL, "double_free", 93),
            (4, 4, CRITICAL, "use_after_free", 91),
        ],
    );
    let found = scan("void f() { free(p); free(p); }");
    assert_eq!(found[0].message, "'p' used after free");
    assert_eq!(found[0].suggestion.as_deref(), Some("Remove use of p after free, or set to NULL"));
    assert_eq!(found[1].message, "Double-free of 'p' detected");
}

#[test]
fn null_after_free_is_no_double_free() {
    expect("void f() { free(p); p = NULL; free(p); }", vec![]);
}

#[test]
fn allocation_after_free_is_no_double_free() {
    let found = scan("void f() { free(p); p = malloc(3); free(p); }");
    assert!(found.iter().all(|f| f.category != "double_free" && f.category != "use_after_free"));
}

#[test]
fn freed_in_an_assignment() {
    let found = scan("void f() { x = free(p); use(p); }");
    let categories: Vec<&str> = found.iter().map(|f| f.category.as_str()).collect();
    assert_eq!(categories, vec!["use_after_free", "double_free", "use_after_free"]);
}

#[test]
fn subscript_of_a_null_pointer_is_caught() {
    expect(
        "void f() { p = NULL; x = p[0]; }",
        vec![(1, 25, CRITICAL, "null_dereference_confirmed", 94)],
    );
    let found = scan("void f() { int *q; y = q[1]; }");
    assert_eq!(found.len(), 2);
    assert_eq!(found[0].message, "Pointer 'q' declared without initialization");
    assert_eq!(found[1].message, "Confirmed NULL dereference of 'q'");
    assert_eq!(
        found[1].suggestion.as_deref(),
        Some("Add null check before dereferencing q")
    );
}

#[test]
fn star_of_a_null_pointer_is_caught() {
    expect(
        "void f(void) { p = NULL; *p = 1; }",
        vec![(1, 25, CRITICAL, "null_dereference_confirmed", 94)],
    );
    expect(
        "void f(void) { p = 0; x = *p; }",
        vec![(1, 26, CRITICAL, "null_dereference_confirmed", 94)],
    );
    expect("void f(void) { p = NULL; x = &p; }", vec![]);
    expect("void f(void) { p = NULL; *q = 1; }", vec![]);
}

#[test]
fn pointer_declared_as_null_is_caught() {
    expect(
        "void f(void) { int *p = NULL; *p = 1; }",
        vec![(1, 30, CRITICAL, "null_dereference_confirmed", 94)],
    );
    expect(
        "void f(void) { char **p = 0; x = p[1]; }",
        vec![(1, 33, CRITICAL, "null_dereference_confirmed", 94)],
    );
    let found = scan("void f(void) { int *p = NULL; *p = 1; }");
    assert_eq!(found[0].message, "Confirmed NULL dereference of 'p'");
    expect("void f(void) { int *p = NULL; if (p != NULL) *p = 1; }", vec![]);
    expect("void f(void) { int *p = q; *q = 1; *p = 2; q[0] = 3; }", vec![]);
    expect("void f(void) { int (*h)(int) = g; *g; }", vec![]);
    expect(
        "void f(void) { int **p; *p = 1; }",
        vec![
            (1, 15, MEDIUM, "uninitialized_pointer", 82),
            (1, 24, CRITICAL, "null_dereference_confirmed", 94),
        ],
    );
}

#[test]
fn checked_pointer_may_be_dereferenced() {
    expect("void f(void) { p = NULL; if (p != NULL) *p = 1; }", vec![]);
    expect("void f(void) { p = NULL; if (p != 0) { x = p[0]; } }", vec![]);
    expect("void f(void) { p = NULL; if (p) { *p = 1; } }", vec![]);
    expect(
        "void f(void) { p = NULL; if (q != NULL) *p = 1; }",
        vec![(1, 40, CRITICAL, "null_dereference_confirmed", 94)],
    );
}

#[test]
fn pointers_without_a_value() {
    expect(
        "void f(void) { int *p; }",
        vec![(1, 15, MEDIUM, "uninitialized_pointer", 82)],
    );
    expect(
        "char **names;\nvoid f(void) { x = *(a + 1); y = &z; }",
        vec![(0, 0, MEDIUM, "uninitialized_pointer", 82)],
    );
    expect("int *p = 0; int *f(void); int n; void g(char *s);", vec![]);
}

#[test]
fn subscript_of_an_allocated_pointer_is_not_a_null_dereference() {
    let found = scan("void f() { p = NULL; p = malloc(2); x = p[0]; }");
    assert!(found.iter().all(|f| f.category != "null_dereference_confirmed"));
}

#[test]
fn unchecked_allocation_says_what_to_add() {
    let found = scan("void f() { p = malloc(8); }");
    let f = found.iter().find(|f| f.category == "unchecked_allocation").unwrap();
    assert_eq!(f.message, "'p' allocated but not checked for NULL");
    assert_eq!(f.suggestion.as_deref(), Some("Add: if (!p) { return NULL; }"));
}

#[test]
fn formats_casts_copies_and_bounds() {
    expect(
        "void f() {\n    printf(fmt, 1);\n    printf(\"%d\", 1);\n    memcpy(a, b, n);\n    p = (void*)5;\n    q = (char*)malloc(10);\n    for (i = 0; i <= len; i++) {}\n}\n",
        vec![
            (4, 4, HIGH, "buffer_overflow", 95),
            (4, 4, HIGH, "unbounded_memcpy", 78),
            (7, 16, MEDIUM, "potential_off_by_one", 65),
            (2, 4, CRITICAL, "format_string", 90),
            (6, 4, HIGH, "unchecked_allocation", 88),
            (5, 8, HIGH, "integer_to_pointer", 87),
            (6, 15, HIGH, "integer_to_pointer", 87),
            (6, 15, HIGH, "unchecked_malloc_return", 83),
        ],
    );
}

#[test]
fn sizeof_in_an_allocation_is_pointed_out() {
    let found = scan("void f() { int *p = malloc(n * sizeof(int)); }");
    let f = found.iter().find(|f| f.category == "malloc_sizeof").unwrap();
    assert_eq!(f.confidence, 60);
    assert!(!f.is_high_confidence());
}

#[test]
fn signed_size_is_pointed_out() {
    let found = scan("void f() { p = malloc(n - 1); q = malloc(n - sizeof(x)); }");
    let signed: Vec<&Finding> =
        found.iter().filter(|f| f.category == "signed_size_calculation").collect();
    assert_eq!(signed.len(), 1);
    assert_eq!(signed[0].message, "Signed arithmetic in malloc size may underflow");
}

#[test]
fn tainted_variable_reaches_a_command() {
    expect(
        "void f() { int rc; if (rc != 0) { g(); } cmd = getenv(\"X\"); system(cmd); }",
        vec![
            (1, 60, CRITICAL, "command_injection", 88),
            (1, 60, CRITICAL, "command_injection_tainted", 91),
            (1, 60, CRITICAL, "tainted_system_call", 86),
        ],
    );
}

#[test]
fn names_are_compared_without_case_where_state_is_kept() {
    let found = scan("void f() { FCLOSE(h); fclose(h); SYSTEM(argv[1]); }");
    let categories: Vec<&str> = found.iter().map(|f| f.category.as_str()).collect();
    assert_eq!(categories, vec!["double_close", "command_injection_tainted"]);
}

#[test]
fn unchecked_results() {
    let found = scan("void f() { socket(1, 2, 3); s = socket(1, 2, 3); if (accept(s) < 0) {} }");
    assert_eq!(found.len(), 1);
    assert_eq!(found[0].message, "socket return value not checked");
}

#[test]
fn passwords_and_notes_in_lines() {
    expect(
        "char *password = \"hunter2\";\npassword = \"hunter2\";\n// TODO security\nint x; /* TODO unsafe */\n",
        vec![
            (2, 0, HIGH, "hardcoded_credential", 72),
            (4, 0, MEDIUM, "todo_security", 80),
        ],
    );
}

#[test]
fn test_files_are_spared_the_search_of_lines() {
    let source = "password = \"hunter2\";\n";
    let r = scan_file("src/TEST_main.c", Some("c"), source.as_bytes()).unwrap();
    assert!(r.is_empty());
    let r = scan_file("src/main.c", Some("c"), source.as_bytes()).unwrap();
    assert_eq!(r.len(), 1);
}

#[test]
fn first_node_of_a_file_is_at_its_start() {
    expect(
        "strcpy(a, b);\nmalloc(4);\n",
        vec![
            (0, 0, CRITICAL, "buffer_overflow", 95),
            (1, 13, HIGH, "unchecked_malloc_return", 83),
        ],
    );
}

#[test]
fn reversed_parentheses_cannot_be_read() {
    let r = scan_file("a.c", Some("c"), b"void f() { x = \") free(\"; }");
    assert!(matches!(r, Err(ScanError::ReversedParentheses)));
}

#[test]
fn bytes_that_are_no_text_are_not_looked_at() {
    let r = scan_file("a.c", Some("c"), &[0xff, 0xfe, 0x67]).unwrap();
    assert!(r.is_empty());
}

#[test]
fn unknown_and_missing_extensions_are_scanned_as_c() {
    let source = b"void f() { gets(b); }";
    for ext in [Some("xyz"), Some("rb"), Some("go"), Some("rs"), Some("cs"), None] {
        let r = scan_file("a", ext, source).unwrap();
        assert_eq!(r.len(), 1);
        assert_eq!(r[0].message, "Dangerous function: gets - no bounds checking");
        assert_eq!(r[0].suggestion.as_deref(), Some("Use fgets(buf, sizeof(buf), stdin)"));
    }
}

#[test]
fn extension_in_capitals() {
    let r = scan_file("a", Some("CPP"), b"void f() { strcat(a, b); }").unwrap();
    assert_eq!(r.len(), 1);
    assert_eq!(r[0].category, "buffer_overflow");
}

fn node(kind: &str, field: Option<&str>, depth: usize, start: usize, end: usize) -> SyntaxNode {
    SyntaxNode {
        kind: kind.to_string(),
        field: field.map(|f| f.to_string()),
        depth,
        start,
        end,
    }
}

#[test]
fn calls_directly_below_the_root() {
    let source = "gets(b)";
    let nodes = vec![
        node("translation_unit", None, 0, 0, 7),
        node("call_expression", None, 1, 0, 7),
        node("identifier", Some("function"), 2, 0, 4),
        node("argument_list", Some("arguments"), 2, 4, 7),
        node("(", None, 3, 4, 5),
        node("identifier", None, 3, 5, 6),
        node(")", None, 3, 6, 7),
    ];
    let found = Scanner::scan_parsed("a.c", source, Some(nodes)).unwrap();
    let rows: Vec<(&str, u8)> = found.iter().map(|f| (f.category.as_str(), f.confidence)).collect();
    assert_eq!(rows, vec![("buffer_overflow", 95), ("unsafe_function", 98)]);
    assert_eq!(found[1].message, "Banned function: gets - security risk");
    assert_eq!(found[1].suggestion.as_deref(), Some("Use fgets(buf, sizeof(buf), stdin)"));
}

fn allocation(next: &str) -> Vec<SyntaxNode> {
    vec![
        node("translation_unit", None, 0, 0, 12),
        node("call_expression", None, 1, 0, 9),
        node("identifier", Some("function"), 2, 0, 6),
        node("argument_list", Some("arguments"), 2, 6, 9),
        node(next, None, 1, 10, 12),
    ]
}

#[test]
fn allocation_directly_below_the_root_needs_a_check() {
    let source = "malloc(1) if";
    let found = Scanner::scan_parsed("a.c", source, Some(allocation("expression_statement"))).unwrap();
    assert_eq!(found[0].message, "malloc return value not checked for NULL");
    assert_eq!(found[0].confidence, 85);
    let found = Scanner::scan_parsed("a.c", source, Some(allocation("if_statement"))).unwrap();
    assert!(found.iter().all(|f| f.category != "null_dereference"));
}

#[test]
fn operation_directly_below_the_root_may_overflow() {
    let source = "a*2";
    let nodes = vec![
        node("translation_unit", None, 0, 0, 3),
        node("binary_expression", None, 1, 0, 3),
        node("identifier", Some("left"), 2, 0, 1),
        node("*", Some("operator"), 2, 1, 2),
        node("number_literal", Some("right"), 2, 2, 3),
    ];
    let found = Scanner::scan_parsed("a.c", source, Some(nodes)).unwrap();
    assert_eq!(found.len(), 1);
    assert_eq!(found[0].message, "Potential integer overflow in * operation");
    assert_eq!(found[0].confidence, 65);
}

fn assigned_resource(release: &str) -> (String, Vec<SyntaxNode>) {
    let source = format!("p=open(1) {}p)", release);
    let end = source.len();
    let nodes = vec![
        node("assignment_expression", None, 0, 0, end),
        node("identifier", Some("left"), 1, 0, 1),
        node("call_expression", None, 1, 2, 9),
        node("identifier", Some("function"), 2, 2, 6),
        node("call_expression", None, 1, 10, end),
        node("identifier", Some("function"), 2, 10, 10 + release.len()),
        node("argument_list", Some("arguments"), 2, 10 + release.len(), end),
        node("identifier", None, 3, 10 + release.len(), 11 + release.len()),
    ];
    (source, nodes)
}

#[test]
fn resource_that_is_not_released_leaks() {
    let (source, nodes) = assigned_resource("keep");
    let found = Scanner::scan_parsed("a.c", &source, Some(nodes)).unwrap();
    assert_eq!(found.len(), 1);
    assert_eq!(found[0].message, "Potential resource leak: p not freed");
    assert_eq!((found[0].line, found[0].column, found[0].confidence), (1, 0, 70));
    let (source, nodes) = assigned_resource("close");
    let found = Scanner::scan_parsed("a.c", &source, Some(nodes)).unwrap();
    assert!(found.iter().all(|f| f.category != "resource_leak"));
}

#[test]
fn rows_that_are_no_tree_are_refused() {
    let r = Scanner::scan_parsed("a.c", "x", Some(vec![]));
    assert!(matches!(r, Err(ScanError::MalformedTree)));
    let r = Scanner::scan_parsed("a.c", "x", Some(vec![node("a", None, 0, 0, 2)]));
    assert!(matches!(r, Err(ScanError::MalformedTree)));
    let r = Scanner::scan_parsed("a.c", "é", Some(vec![node("a", None, 0, 0, 1)]));
    assert!(matches!(r, Err(ScanError::MalformedTree)));
    let r = Scanner::scan_parsed(
        "a.c",
        "x",
        Some(vec![node("a", None, 0, 0, 1), node("b", None, 2, 0, 1)]),
    );
    assert!(matches!(r, Err(ScanError::MalformedTree)));
}

#[test]
fn source_without_a_tree_has_no_findings() {
    assert!(Scanner::scan_parsed("a.c", "gets(b)", None).unwrap().is_empty());
}

#[test]
fn alternatives_to_banned_functions() {
    assert_eq!(
        Scanner::suggest_safe_alternative("system"),
        "Use execve() with full path verification"
    );
    assert_eq!(
        Scanner::suggest_safe_alternative("sprintf"),
        "Use snprintf(buf, sizeof(buf), fmt, ...)"
    );
    assert_eq!(Scanner::suggest_safe_alternative("popen"), "Use safer alternative");
}

#[test]
fn assignments_of_values() {
    assert!(Scanner::looks_like_assignment("password = \"x\""));
    assert!(Scanner::looks_like_assignment("  pwd[0] = 'x'"));
    assert!(Scanner::looks_like_assignment("pwd = -12"));
    assert!(Scanner::looks_like_assignment("pwd = 5 = 6"));
    assert!(Scanner::looks_like_assignment("größe = 1"));
    assert!(!Scanner::looks_like_assignment("char *pwd = \"x\""));
    assert!(!Scanner::looks_like_assignment("pwd = get()"));
    assert!(!Scanner::looks_like_assignment("pwd == \"x\""));
    assert!(!Scanner::looks_like_assignment("pwd = 9223372036854775808"));
    assert!(!Scanner::looks_like_assignment("pwd"));
}

#[test]
fn lines_with_single_quotes_or_searches_hold_no_password() {
    let mut found: Vec<Finding> = Vec::new();
    Scanner::check_line("a.c", 3, "pwd = 'x'", "pwd = 'x'", &mut found);
    Scanner::check_line("a.c", 4, "\"todo security\"", "\"todo security\"", &mut found);
    Scanner::check_line("a.c", 5, "todo \"security\"", "todo \"security\"", &mut found);
    assert!(found.is_empty());
    Scanner::check_line("a.c", 6, "x TODO Unsafe pwd = 1", "x todo unsafe pwd = 1", &mut found);
    let rows: Vec<(usize, &str)> = found.iter().map(|f| (f.line, f.category.as_str())).collect();
    assert_eq!(rows, vec![(6, "todo_security"), (6, "hardcoded_credential")]);
}

#[test]
fn paths_of_tests_and_of_generated_code() {
    for path in ["a/test/b.c", "spec.c", "x_mock.c", "generated.c", "vendor/a.c", "deps/a.c", "third_party/a"] {
        assert!(Scanner::is_test_or_generated_file(path));
    }
    assert!(!Scanner::is_test_or_generated_file("src/main.c"));
    assert!(!Scanner::is_test_or_generated_file("src/TEST.c"));
}

#[test]
fn every_finding_names_its_file_and_says_what_to_do() {
    let source = "void f(char *p, int n) { int k = n * 4; char *q; q = malloc(k); strcpy(q, p); system(p); free(q); free(q); fclose(p); fclose(p); if (access(p, 4)) open(p); }";
    let found = scan(source);
    assert!(found.len() > 8);
    for f in &found {
        assert_eq!(f.file, found[0].file);
        assert!(f.suggestion.is_some());
        assert!(0 < f.confidence && f.confidence <= 100);
    }
    for category in [
        "buffer_overflow",
        "command_injection",
        "double_free",
        "use_after_free",
        "double_close",
        "toctou_race_condition",
        "tainted_system_call",
        "integer_overflow_allocation",
    ] {
        assert!(found.iter().any(|f| f.category == category), "{}", category);
    }
}
