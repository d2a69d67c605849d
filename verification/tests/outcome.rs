use ntscan::finding::{Colour, Finding, Severity};
use ntscan::results::{
    choose_output, coffee_lines, count_severity, exit_status, filter_findings, filter_severity, filter_known,
    is_the_answer, new_issues_line, next_step, quiet_summary, recommend_coffee, select_findings,
    NextStep, Output,
};
use ntscan::sarif::{generate_sarif, level_of};

fn finding(file: &str, line: usize, severity: Severity, category: &str, confidence: u8) -> Finding {
    Finding::new(
        file.to_string(),
        line,
        5,
        severity,
        category.to_string(),
        format!("{} is dangerous", category),
        None,
    )
    .with_confidence(confidence)
}

fn some() -> Vec<Finding> {
    vec![
        finding("a.c", 1, Severity::Critical, "buffer_overflow", 95),
        finding("a.c", 1, Severity::Low, "note", 100),
        finding("b.c", 2, Severity::Medium, "off_by_one", 69),
        finding("b.c", 3, Severity::High, "leak", 70),
        finding("a.c", 1, Severity::Medium, "buffer_overflow", 80),
    ]
}

#[test]
fn new_findings_are_sure_and_confidence_is_bounded() {
    let f = Finding::new("a".to_string(), 1, 2, Severity::Low, "c".to_string(), "m".to_string(), None);
    assert_eq!(f.confidence, 100);
    let f = f.with_confidence(200);
    assert_eq!(f.confidence, 100);
    let f = f.with_confidence(70);
    assert!(f.is_high_confidence());
    let f = f.with_confidence(69);
    assert!(!f.is_high_confidence());
}

#[test]
fn severities() {
    assert_eq!(Severity::Critical.label(), "CRITICAL");
    assert_eq!(Severity::Low.label(), "LOW");
    assert_eq!(Severity::Medium.color(), Colour::Yellow);
    assert_eq!(Severity::Critical.color(), Colour::Fixed(196));
    let all = [Severity::Low, Severity::Medium, Severity::High, Severity::Critical];
    for a in all {
        for b in all {
            assert_eq!(a.at_least(b), a >= b);
        }
    }
}

#[test]
fn filtered_by_severity_and_confidence() {
    let lines = |floor: Severity| -> Vec<usize> {
        filter_findings(&some(), floor).iter().map(|f| f.line).collect()
    };
    assert_eq!(lines(Severity::Low), vec![1, 1, 3, 1]);
    assert_eq!(lines(Severity::Medium), vec![1, 3, 1]);
    assert_eq!(lines(Severity::High), vec![1, 3]);
    assert_eq!(lines(Severity::Critical), vec![1]);
}

#[test]
fn filtering_twice_changes_nothing() {
    let once = filter_findings(&some(), Severity::Medium);
    let twice = filter_findings(&once, Severity::Medium);
    let text = |v: &Vec<Finding>| -> Vec<String> { v.iter().map(|f| f.message.clone()).collect() };
    assert_eq!(text(&once), text(&twice));
}

#[test]
fn only_new_findings_remain_against_a_baseline() {
    assert!(filter_known(&some(), &some()).is_empty());
    assert_eq!(filter_known(&some(), &vec![]).len(), 5);
    let baseline = vec![
        finding("a.c", 1, Severity::Low, "buffer_overflow", 1),
        finding("b.c", 2, Severity::Low, "leak", 1),
        finding("c.c", 2, Severity::Low, "off_by_one", 1),
    ];
    let left = filter_known(&some(), &baseline);
    let rows: Vec<(usize, &str)> = left.iter().map(|f| (f.line, f.category.as_str())).collect();
    assert_eq!(rows, vec![(1, "note"), (2, "off_by_one"), (3, "leak")]);
    assert_eq!(new_issues_line(3), "  (3 new issues not in baseline)");
}

#[test]
fn counts_of_severities() {
    assert_eq!(count_severity(&some(), Severity::Critical), 1);
    assert_eq!(count_severity(&some(), Severity::High), 1);
    assert_eq!(count_severity(&some(), Severity::Medium), 2);
    assert_eq!(count_severity(&some(), Severity::Low), 1);
}

fn many(critical: usize, high: usize, medium: usize) -> Vec<Finding> {
    let mut v = Vec::new();
    for (n, s) in [(critical, Severity::Critical), (high, Severity::High), (medium, Severity::Medium)] {
        for _ in 0..n {
            v.push(finding("a.c", 1, s, "x", 90));
        }
    }
    v
}

#[test]
fn quiet_mode_prints_one_line() {
    assert_eq!(
        quiet_summary(&many(8, 7, 0), 1),
        "8 critical, 7 high, 0 medium in 1 file (15 issues)"
    );
    assert_eq!(
        quiet_summary(&many(1, 0, 0), 2),
        "1 critical, 0 high, 0 medium in 2 files (1 issue)"
    );
    assert_eq!(quiet_summary(&many(0, 2, 1), 1), "3 issues found in 1 file (no critical)");
    assert_eq!(quiet_summary(&many(0, 0, 0), 0), "No issues found in 0 files");
}

#[test]
fn critical_findings_fail_the_scan() {
    assert_eq!(exit_status(&many(1, 0, 0)), 1);
    assert_eq!(exit_status(&many(0, 9, 9)), 0);
    assert_eq!(exit_status(&vec![]), 0);
}

#[test]
fn the_answer() {
    assert!(is_the_answer(42, false));
    assert!(!is_the_answer(42, true));
    assert!(!is_the_answer(41, false));
}

#[test]
fn coffee_for_code() {
    assert_eq!(recommend_coffee(0, 0).0, 0);
    assert_eq!(recommend_coffee(0, 5), (1, "Light roast", "Just a small one. You've got this."));
    assert_eq!(recommend_coffee(0, 6).0, 2);
    assert_eq!(recommend_coffee(0, 20).1, "Medium roast");
    assert_eq!(recommend_coffee(0, 21).0, 8);
    assert_eq!(recommend_coffee(1, 1).0, 3);
    assert_eq!(recommend_coffee(3, 900).1, "Dark roast");
    assert_eq!(recommend_coffee(4, 4).0, 5);
    assert_eq!(recommend_coffee(10, 10).1, "Espresso");
    assert_eq!(
        recommend_coffee(11, 11),
        (8, "Whatever's strongest", "Have you considered a career change?")
    );
}

#[test]
fn coffee_in_colour() {
    let lines = coffee_lines(&many(1, 0, 0));
    assert_eq!(lines.len(), 2);
    assert_eq!(lines[0], "\u{1b}[38;2;139;69;19mRecommendation: 3 cups of Dark roast\u{1b}[0m");
    assert_eq!(lines[1], "\u{1b}[38;5;240mBuckle up. It's gonna be a long night.\u{1b}[0m");
}

#[test]
fn sarif_results_of_findings() {
    let f = finding("src/main.c", 42, Severity::Critical, "buffer_overflow", 95);
    let r = generate_sarif(&vec![f, finding("b.c", 1, Severity::Low, "note", 70)]);
    assert_eq!(r.len(), 2);
    assert_eq!(r[0].rule_id, "ntscan/buffer_overflow");
    assert_eq!(r[0].level, "error");
    assert_eq!(r[0].message, "buffer_overflow is dangerous");
    assert_eq!(r[0].uri, "src/main.c");
    assert_eq!((r[0].start_line, r[0].start_column), (42, 5));
    assert_eq!(r[1].rule_id, "ntscan/note");
    assert_eq!(r[1].level, "note");
    assert_eq!(level_of(Severity::High), "error");
    assert_eq!(level_of(Severity::Medium), "warning");
}

#[test]
fn saved_baseline_hides_the_same_scan() {
    let saved = select_findings(&some(), Severity::Medium, None);
    assert_eq!(saved.len(), 3);
    assert!(select_findings(&some(), Severity::Medium, Some(&saved)).is_empty());
    let again = select_findings(&some(), Severity::Low, Some(&saved));
    assert_eq!(again.len(), 1);
    assert_eq!(again[0].category, "note");
}

#[test]
fn outputs_by_format() {
    assert_eq!(choose_output("json", false), Output::Json);
    assert_eq!(choose_output("json", true), Output::Nothing);
    assert_eq!(choose_output("text", false), Output::Report);
    assert_eq!(choose_output("anything", true), Output::Summary);
}

#[test]
fn steps_after_a_scan() {
    assert_eq!(next_step(&many(1, 0, 0), true), NextStep::Again);
    assert_eq!(next_step(&many(1, 0, 0), false), NextStep::Exit(1));
    assert_eq!(next_step(&many(0, 1, 0), false), NextStep::Exit(0));
}

#[test]
fn lower_floors_report_more() {
    let floors = [Severity::Critical, Severity::High, Severity::Medium, Severity::Low];
    for pair in floors.windows(2) {
        let few = filter_findings(&some(), pair[0]);
        let more = filter_findings(&some(), pair[1]);
        for f in &few {
            assert!(more.iter().any(|g| g.file == f.file && g.line == f.line && g.message == f.message));
        }
    }
}

#[test]
fn counts_add_up_to_all_findings() {
    let all = some();
    let sum: usize = [Severity::Critical, Severity::High, Severity::Medium, Severity::Low]
        .iter()
        .map(|s| count_severity(&all, *s))
        .sum();
    assert_eq!(sum, all.len());
}

#[test]
fn filtered_by_severity_alone() {
    assert_eq!(filter_severity(&some(), Severity::Low).len(), some().len());
    for floor in [Severity::Critical, Severity::High, Severity::Medium] {
        let kept = filter_severity(&some(), floor);
        assert_eq!(kept.len(), some().iter().filter(|f| f.severity >= floor).count());
        assert!(kept.iter().all(|f| f.severity >= floor));
    }
    assert_eq!(filter_severity(&some(), Severity::Medium).len(), 4);
}
