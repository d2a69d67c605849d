use ntscan::config::{config_path, min_severity, Config, ScanOptions};
use ntscan::finding::Severity;
use ntscan::language::{from_lowercase_extension, Language};
use ntscan::select::{announce, is_ignored, is_listed, is_selected, shows_bar};
use ntscan::syntax::Grammar;

fn strings(v: &[&str]) -> Vec<String> {
    v.iter().map(|s| s.to_string()).collect()
}

fn no_config() -> Config {
    Config { extensions: None, severity: None, threads: None, ignore: None, format: None }
}

#[test]
fn config_file_sets_what_has_its_default() {
    let config = Config {
        extensions: Some(strings(&["c", "cpp", "py", "js"])),
        severity: Some("medium".to_string()),
        threads: Some(8),
        ignore: Some(strings(&["vendor/.*"])),
        format: Some("json".to_string()),
    };
    let o = ScanOptions::new().with_config(&config);
    assert_eq!(o.extensions, "c,cpp,py,js");
    assert_eq!(o.severity, "medium");
    assert_eq!(o.threads, 8);
    assert_eq!(o.format, "json");
}

#[test]
fn command_line_wins_over_the_config_file() {
    let config = Config {
        extensions: Some(strings(&["py"])),
        severity: Some("medium".to_string()),
        threads: Some(8),
        ignore: None,
        format: Some("json".to_string()),
    };
    let given = ScanOptions {
        extensions: "c".to_string(),
        severity: "high".to_string(),
        threads: 2,
        format: "sarif".to_string(),
    };
    let o = given.with_config(&config);
    assert_eq!(o.extensions, "c");
    assert_eq!(o.severity, "high");
    assert_eq!(o.threads, 2);
    assert_eq!(o.format, "sarif");
}

#[test]
fn empty_config_file_changes_nothing() {
    let o = ScanOptions::new().with_config(&no_config());
    assert_eq!(o.extensions, "c,cpp,h,hpp,java,cs,py,js,ts,go,rs,rb");
    assert_eq!(o.severity, "low");
    assert_eq!(o.threads, 0);
    assert_eq!(o.format, "text");
}

#[test]
fn config_file_by_default() {
    assert_eq!(config_path(None), ".ntscan.toml");
    assert_eq!(config_path(Some("x.toml".to_string())), "x.toml");
}

#[test]
fn names_of_severities() {
    assert_eq!(min_severity("critical"), Severity::Critical);
    assert_eq!(min_severity("high"), Severity::High);
    assert_eq!(min_severity("medium"), Severity::Medium);
    assert_eq!(min_severity("low"), Severity::Low);
    assert_eq!(min_severity("HIGH"), Severity::Low);
}

#[test]
fn ignored_paths() {
    let patterns = strings(&["vendor/.*", "build/.*", "(broken"]);
    assert!(is_ignored(&patterns, "a/vendor/b.c"));
    assert!(!is_ignored(&patterns, "a/vendors.c"));
    assert!(!is_ignored(&patterns, "(broken"));
    assert!(!is_ignored(&vec![], "vendor/a.c"));
}

#[test]
fn listed_extensions_are_compared_exactly() {
    assert!(is_listed("c", "c,cpp"));
    assert!(is_listed("cpp", "c,cpp"));
    assert!(!is_listed("C", "c,cpp"));
    assert!(!is_listed("cp", "c,cpp"));
    assert!(!is_listed("cpp", "c, cpp"));
    assert!(is_listed("", "c,"));
}

#[test]
fn selected_files() {
    let none: Vec<String> = vec![];
    assert!(is_selected("src/a.c", Some("c"), "c,h", &none));
    assert!(!is_selected("src/a.d", Some("d"), "c,h", &none));
    assert!(!is_selected("src/a", None, "c,h", &none));
    assert!(!is_selected("src/a.c", Some("c"), "c,h", &strings(&["^src/"])));
    assert!(is_selected("src/a.c", Some("c"), "c,h", &strings(&["^lib/"])));
}

#[test]
fn announcements() {
    assert_eq!(announce(1, false, false).as_deref(), Some("1 file to analyze"));
    assert_eq!(announce(50, false, false).as_deref(), Some("50 files to analyze"));
    assert_eq!(announce(51, false, true).as_deref(), Some("51 files to analyze"));
    assert_eq!(announce(51, false, false), None);
    assert_eq!(announce(3, true, true), None);
}

#[test]
fn progress_bars() {
    assert!(shows_bar(51, false, true));
    assert!(!shows_bar(50, false, true));
    assert!(!shows_bar(51, true, true));
    assert!(!shows_bar(51, false, false));
}

#[test]
fn languages_by_extension() {
    assert_eq!(Language::from_extension("C"), Some(Language::C));
    for e in ["cpp", "cc", "cxx", "c++", "hpp", "H"] {
        assert_eq!(Language::from_extension(e), Some(Language::Cpp));
    }
    assert_eq!(Language::from_extension("java"), Some(Language::Java));
    assert_eq!(Language::from_extension("CS"), Some(Language::CSharp));
    assert_eq!(Language::from_extension("pyw"), Some(Language::Python));
    assert_eq!(Language::from_extension("jsx"), Some(Language::JavaScript));
    assert_eq!(Language::from_extension("Tsx"), Some(Language::TypeScript));
    assert_eq!(Language::from_extension("go"), Some(Language::Go));
    assert_eq!(Language::from_extension("rs"), Some(Language::Rust));
    assert_eq!(Language::from_extension("rb"), Some(Language::Ruby));
    assert_eq!(Language::from_extension("txt"), None);
    assert_eq!(from_lowercase_extension("C"), None);
}

#[test]
fn grammars_and_tables() {
    assert_eq!(Language::Cpp.get_parser(), Some(Grammar::C));
    assert_eq!(Language::TypeScript.get_parser(), Some(Grammar::JavaScript));
    assert_eq!(Language::Go.get_parser(), None);
    assert_eq!(Language::C.get_dangerous_functions().len(), 10);
    assert_eq!(Language::Java.get_dangerous_functions()[3].0, "ObjectInputStream");
    assert_eq!(Language::Python.get_dangerous_functions().len(), 6);
    assert_eq!(Language::JavaScript.get_dangerous_functions()[4].2, "Use textContent or sanitized HTML");
    assert!(Language::Ruby.get_dangerous_functions().is_empty());
    assert_eq!(
        Language::C.get_alloc_functions(),
        vec!["malloc", "calloc", "realloc", "strdup", "strndup"]
    );
    assert!(Language::Rust.get_alloc_functions().is_empty());
    assert_eq!(Language::Python.get_taint_sources()[2], "os.environ");
    assert!(Language::CSharp.get_taint_sources().is_empty());
    assert_eq!(Language::Java.get_taint_sinks(), vec!["exec", "eval", "Runtime.exec", "ProcessBuilder"]);
    assert!(Language::Go.get_taint_sinks().is_empty());
}

#[test]
fn more_patterns_select_fewer_files() {
    let files = ["src/a.c", "lib/b.c", "lib/c.h"];
    let count = |patterns: &[&str]| -> usize {
        files
            .iter()
            .filter(|f| is_selected(f, Some(&f[f.len() - 1..]), "c,h", &strings(patterns)))
            .count()
    };
    assert_eq!(count(&[]), 3);
    assert_eq!(count(&["^lib/"]), 1);
    assert_eq!(count(&["^lib/", "a"]), 0);
}

#[test]
fn capitals_in_extensions_do_not_matter() {
    for ext in ["C", "Cpp", "H", "C++", "JAVA", "Py", "jSx", "TSX", "Rb", "md", ".C", ""] {
        assert_eq!(
            Language::from_extension(ext),
            Language::from_extension(&ext.to_lowercase())
        );
    }
    assert_eq!(Language::from_extension("h"), Some(Language::Cpp));
    assert_eq!(Language::from_extension("hpp"), Some(Language::Cpp));
    assert_eq!(Language::from_extension(".c"), None);
    assert_eq!(Language::from_extension(""), None);
}
