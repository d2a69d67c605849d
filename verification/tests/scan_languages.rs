use ntscan::finding::{Finding, Severity};
use ntscan::java::JavaAnalyzer;
use ntscan::javascript::JavaScriptAnalyzer;
use ntscan::names::NameSet;
use ntscan::patterns::{Pattern, FALLBACK_CONFIDENCE, PATTERN_CONFIDENCE};
use ntscan::python::PythonAnalyzer;
use ntscan::scanner::{scan_file, Analyzer, MultiLanguageScanner, ScanError};
use ntscan::syntax::{SyntaxNode, SyntaxTree};

fn rows(found: &Vec<Finding>) -> Vec<(usize, usize, Severity, &str, u8)> {
    found.iter().map(|f| (f.line, f.column, f.severity, f.category.as_str(), f.confidence)).collect()
}

#[test]
fn python_sinks() {
    let source = "x = input()\neval(x)\nexec(x)\nos.system('ls')\npickle.loads(b)\nyaml.load(f)\nsubprocess.call(a, shell=True)\ncursor.execute('%s' % x)\ny = '{{ x }}'\nast.literal_eval(x)\n";
    let found = scan_file("a.py", Some("py"), source.as_bytes()).unwrap();
    assert_eq!(
        rows(&found),
        vec![
            (1, 11, Severity::Critical, "python_tainted_eval", 96),
            (2, 7, Severity::Critical, "python_tainted_exec", 96),
            (3, 7, Severity::Critical, "python_os_system", 88),
            (4, 15, Severity::Critical, "python_pickle", 92),
            (5, 15, Severity::Critical, "python_yaml_load", 94),
            (6, 12, Severity::Critical, "python_shell_injection", 90),
            (7, 30, Severity::Critical, "python_sql_injection", 87),
            (9, 4, Severity::Critical, "python_ssti", 82),
        ]
    );
    assert_eq!(found[0].message, "eval() called with tainted input: eval");
    assert_eq!(
        found[0].suggestion.as_deref(),
        Some("Never eval user input - use ast.literal_eval for safe parsing")
    );
}

#[test]
fn python_without_taint() {
    let source = "x = 1\neval(x)\nexec(x)\nyaml.safe_load(f)\nsubprocess.call(a)\ncursor.execute('a')\n";
    let found = scan_file("a.py", Some("pyw"), source.as_bytes()).unwrap();
    assert!(found.is_empty());
}

#[test]
fn python_taint_sources() {
    for text in [
        "INPUT()", "sys.argv[1]", "request.args", "os.environ['A']", "socket.recv(1)", "f.read()",
        "json.loads(request)",
    ] {
        assert!(PythonAnalyzer::is_taint_source(text));
    }
    assert!(!PythonAnalyzer::is_taint_source("json.loads(text)"));
    assert!(!PythonAnalyzer::is_taint_source("os.environ.get('A')"));
}

#[test]
fn javascript_sinks() {
    let source = "x = req.body;\neval(x);\nFunction(x);\nsetTimeout('a', 1);\nchild_process.exec(x);\nel.innerHTML = x;\ndocument.write = 1;\na.__proto__ = 1;\ndb.$where(x);\n";
    let found = scan_file("a.js", Some("js"), source.as_bytes()).unwrap();
    assert_eq!(
        rows(&found),
        vec![
            (1, 13, Severity::Critical, "js_tainted_eval", 97),
            (2, 8, Severity::Critical, "js_function_constructor", 95),
            (3, 12, Severity::Critical, "js_settimeout_eval", 92),
            (4, 19, Severity::Critical, "js_command_injection", 90),
            (5, 22, Severity::Critical, "js_dom_xss", 94),
            (6, 17, Severity::High, "js_document_write", 85),
            (7, 19, Severity::Critical, "js_prototype_pollution", 91),
            (8, 16, Severity::Critical, "js_nosql_injection", 88),
        ]
    );
}

#[test]
fn javascript_without_taint() {
    let source = "y = 1;\neval(y);\nFunction(y);\nsetTimeout(f, 1);\nel.innerHTML = y;\n";
    let found = scan_file("a.ts", Some("ts"), source.as_bytes()).unwrap();
    assert!(found.is_empty());
}

#[test]
fn javascript_declared_names_and_direct_sources_are_tainted() {
    for source in ["const q = req.query; eval(q);", "let q = req.query.id;\neval('a' + q);"] {
        let found = scan_file("a.js", Some("jsx"), source.as_bytes()).unwrap();
        assert_eq!(found.len(), 1);
        assert_eq!(found[0].category, "js_tainted_eval");
    }
    let found = scan_file("a.js", Some("jsx"), b"const q = 1; eval(q);").unwrap();
    assert!(found.is_empty());
    let found = scan_file("a.js", Some("jsx"), b"eval(req.query);").unwrap();
    assert_eq!(found.len(), 1);
}

#[test]
fn javascript_taint_sources() {
    for text in ["REQ.x", "request.a", "location.hash", "document.cookie", "localStorage", "sessionStorage", "postMessage"] {
        assert!(JavaScriptAnalyzer::is_taint_source(text));
    }
    assert!(!JavaScriptAnalyzer::is_taint_source("response"));
}

#[test]
fn java_sinks() {
    let source = "class A { void f() { String x = request.getParameter(\"a\"); Runtime.getRuntime().exec(x); st.executeQuery(\"a\" + x); xp.compile(x); b.parse(f); ldapSearch(x); new ObjectInputStream(s).readObject(); } }\nclass B { class C implements Serializable {} }\n";
    let found = scan_file("A.java", Some("java"), source.as_bytes()).unwrap();
    assert_eq!(
        rows(&found),
        vec![
            (1, 59, Severity::Critical, "java_command_injection", 91),
            (1, 89, Severity::Critical, "java_sql_injection", 89),
            (1, 115, Severity::High, "java_xpath_injection", 82),
            (1, 130, Severity::High, "java_xxe", 80),
            (1, 142, Severity::High, "java_ldap_injection", 82),
            (1, 157, Severity::Critical, "java_deserialization", 94),
            (1, 199, Severity::Medium, "java_serializable", 75),
        ]
    );
}

#[test]
fn java_serializable_words_in_class_bodies() {
    let places = |source: &str| -> Vec<(usize, usize)> {
        let found = scan_file("A.java", Some("java"), source.as_bytes()).unwrap();
        for f in &found {
            assert_eq!(f.category, "java_serializable");
            assert_eq!(f.message, "Class implements Serializable without validation");
        }
        found.iter().map(|f| (f.line, f.column)).collect()
    };
    assert!(places("class A implements Serializable { int x; }").is_empty());
    assert_eq!(places("class A { class B implements Serializable {} }"), vec![(0, 0)]);
    assert_eq!(places("class A { class B implements java.io.Serializable {} }"), vec![(0, 0)]);
    assert!(places("class A { class B implements Serializable { void readObject() {} } }").is_empty());
    assert!(places("class A { ObjectInputValidation v; class B implements Serializable {} }").is_empty());
}

#[test]
fn java_without_taint() {
    let source = "class A { void f() { String x = \"a\"; r.exec(x); st.executeQuery(\"a\" + x); s.readObject(); } }";
    let found = scan_file("A.java", Some("java"), source.as_bytes()).unwrap();
    assert!(found.is_empty());
}

#[test]
fn java_taint_sources() {
    for text in [
        "r.getParameter(1)", "getHeader", "getInputStream", "getReader", "System.getenv", "BufferedReader.read", "request.x",
    ] {
        assert!(JavaAnalyzer::is_taint_source(text));
    }
    assert!(!JavaAnalyzer::is_taint_source("\"constant\""));
}

#[test]
fn broken_bytes_in_other_languages_are_replaced() {
    let mut bytes = b"eval(req.x); '".to_vec();
    bytes.push(0xff);
    bytes.extend_from_slice(b"'");
    let found = scan_file("a.js", Some("js"), &bytes).unwrap();
    assert_eq!(rows(&found), vec![(0, 0, Severity::Critical, "js_tainted_eval", 97)]);
}

#[test]
fn more_tainted_names_report_more() {
    let source = "eval(a); eval(b);";
    let found = |names: Vec<&str>| -> usize {
        let mut tainted = NameSet::new();
        for n in names {
            tainted.insert(n);
        }
        let nodes = vec![
            row("program", None, 0, 0, 17),
            row("call_expression", None, 1, 0, 7),
            row("identifier", Some("function"), 2, 0, 4),
            row("arguments", Some("arguments"), 2, 4, 7),
            row("call_expression", None, 1, 9, 16),
            row("identifier", Some("function"), 2, 9, 13),
            row("arguments", Some("arguments"), 2, 13, 16),
        ];
        let tree = SyntaxTree::new(source, nodes).unwrap();
        JavaScriptAnalyzer::find_dangerous_sinks(&tree, "a.js", &tainted).len()
    };
    assert_eq!(found(vec![]), 0);
    assert_eq!(found(vec!["(a"]), 1);
    assert_eq!(found(vec!["(a", "(b"]), 2);
}

fn row(kind: &str, field: Option<&str>, depth: usize, start: usize, end: usize) -> SyntaxNode {
    SyntaxNode {
        kind: kind.to_string(),
        field: field.map(|f| f.to_string()),
        depth,
        start,
        end,
    }
}

#[test]
fn tainted_names_in_python_and_java_calls() {
    let mut tainted = NameSet::new();
    tainted.insert("x");
    let source = "f(x)";
    let nodes = vec![
        row("call", None, 0, 0, 4),
        row("identifier", Some("function"), 1, 0, 1),
        row("argument_list", Some("arguments"), 1, 1, 4),
    ];
    let tree = SyntaxTree::new(source, nodes).unwrap();
    assert!(PythonAnalyzer::has_tainted_argument(&tree, 0, &tainted));
    assert!(JavaAnalyzer::has_tainted_argument(&tree, 0, &tainted));
    assert!(PythonAnalyzer::has_tainted_data(&tree, 0, &tainted));
    assert!(!PythonAnalyzer::has_tainted_argument(&tree, 1, &tainted));
    assert!(!PythonAnalyzer::has_tainted_data(&tree, 1, &tainted));
    let found = PythonAnalyzer::check_call(&tree, "a.py", 0, "Eval", "eval", &tainted);
    assert_eq!(found.len(), 1);
    assert_eq!(found[0].message, "eval() called with tainted input: Eval");
    let found = JavaAnalyzer::check_call(&tree, "A.java", 0, "exec", false, &tainted);
    assert_eq!(found[0].category, "java_command_injection");
    let found = JavaAnalyzer::check_call(&tree, "A.java", 0, "readunshared", true, &tainted);
    assert_eq!(found[0].category, "java_deserialization");
}

#[test]
fn source_that_cannot_be_parsed_is_searched_by_lines() {
    let source = "x\neval(1)\nast.literal_eval(2)\nObjectInputStream readObject\n";
    for (analyzer, category, line) in [
        (Analyzer::Python, "python_eval", 2),
        (Analyzer::Java, "java_deserialization", 4),
    ] {
        let found = MultiLanguageScanner::scan_parsed(analyzer, "a", source, None).unwrap();
        assert_eq!(rows(&found), vec![(line, 0, Severity::Critical, category, FALLBACK_CONFIDENCE)]);
    }
    let found = MultiLanguageScanner::scan_parsed(Analyzer::JavaScript, "a", source, None).unwrap();
    let lines: Vec<usize> = found.iter().map(|f| f.line).collect();
    assert_eq!(lines, vec![2, 3]);
}

#[test]
fn rows_that_are_no_tree_are_refused_in_other_languages() {
    let r = MultiLanguageScanner::scan_parsed(Analyzer::Java, "a", "x", Some(vec![]));
    assert!(matches!(r, Err(ScanError::MalformedTree)));
}

#[test]
fn line_searches_without_a_grammar() {
    let found = Pattern::Python.analyze("EVAL(x)\r\n", "a.py", PATTERN_CONFIDENCE);
    assert_eq!(rows(&found), vec![(1, 0, Severity::Critical, "python_eval", 85)]);
    assert_eq!(found[0].suggestion.as_deref(), Some("Use ast.literal_eval"));
    let found = Pattern::JavaScript.analyze("eval(x)", "a.js", PATTERN_CONFIDENCE);
    assert_eq!(found[0].suggestion.as_deref(), Some("Never use eval()"));
    assert!(Pattern::Java.analyze("readObject", "A.java", PATTERN_CONFIDENCE).is_empty());
    let scanner = MultiLanguageScanner {
        language: ntscan::language::Language::Python,
        inner: Analyzer::Lines(Pattern::Python),
    };
    assert_eq!(scanner.scan_file("a.py", b"eval(x)").unwrap().len(), 1);
    assert!(scanner.scan_file("a.py", &[0xff]).unwrap().is_empty());
}

#[test]
fn scanners_by_extension() {
    assert_eq!(MultiLanguageScanner::new(Some("H")).unwrap().inner, Analyzer::Cpp);
    assert_eq!(MultiLanguageScanner::new(Some("java")).unwrap().inner, Analyzer::Java);
    assert_eq!(MultiLanguageScanner::new(Some("PyW")).unwrap().inner, Analyzer::Python);
    assert_eq!(MultiLanguageScanner::new(Some("tsx")).unwrap().inner, Analyzer::JavaScript);
    assert!(MultiLanguageScanner::new(Some("rb")).is_none());
    assert!(MultiLanguageScanner::new(Some("")).is_none());
    assert!(MultiLanguageScanner::new(None).is_none());
}
