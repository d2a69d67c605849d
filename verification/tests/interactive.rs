use ntscan::finding::{Colour, Finding, Severity};
use ntscan::paint::{render, style_in, style_on};
use ntscan::tui::{Action, Key, ScanResults, TuiApp, TuiMode};

fn finding(n: usize, severity: Severity) -> Finding {
    Finding::new(
        format!("src/file{}.c", n),
        n,
        0,
        severity,
        "cat".to_string(),
        format!("message number {}", n),
        None,
    )
}

fn results(n: usize) -> ScanResults {
    let mut findings = Vec::new();
    for i in 0..n {
        findings.push(finding(i, if i == 0 { Severity::Critical } else { Severity::Medium }));
    }
    ScanResults { findings, total_files: n, seconds: "0.25".to_string() }
}

#[test]
fn moving_in_the_menu() {
    let mut app = TuiApp::new();
    assert_eq!(app.selected, 0);
    app.press(Key::Up);
    assert_eq!(app.selected, 0);
    for _ in 0..7 {
        app.press(Key::Down);
    }
    assert_eq!(app.selected, 4);
    app.press(Key::Up);
    assert_eq!(app.selected, 3);
    assert!(matches!(app.press(Key::Other), Action::Continue));
}

#[test]
fn entries_of_the_menu() {
    let mut app = TuiApp::new();
    match app.press(Key::Enter) {
        Action::Scan(path) => assert_eq!(path, "."),
        _ => panic!("expected a scan"),
    }
    app.press(Key::Down);
    assert!(matches!(app.press(Key::Enter), Action::Continue));
    assert_eq!(app.mode, TuiMode::PathInput);
    app.press(Key::Esc);
    assert_eq!(app.mode, TuiMode::Menu);
    app.selected = 3;
    app.press(Key::Enter);
    assert_eq!(app.mode, TuiMode::Help);
    assert!(matches!(app.press(Key::Char('q')), Action::Continue));
    assert_eq!(app.mode, TuiMode::Menu);
    app.selected = 4;
    assert!(matches!(app.press(Key::Enter), Action::Quit));
    app.selected = 0;
    assert!(matches!(app.press(Key::Char('q')), Action::Quit));
}

#[test]
fn filters_turn_round() {
    let mut app = TuiApp::new();
    app.selected = 2;
    let mut names = Vec::new();
    for _ in 0..5 {
        names.push(app.severity_name());
        app.press(Key::Enter);
    }
    assert_eq!(names, vec!["low", "critical", "high", "medium", "low"]);
}

#[test]
fn typing_a_path() {
    let mut app = TuiApp::new();
    app.mode = TuiMode::PathInput;
    app.press(Key::Char('/'));
    app.press(Key::Char('ü'));
    assert_eq!(app.path_input, "./ü");
    app.press(Key::Backspace);
    assert_eq!(app.path_input, "./");
    match app.press(Key::Enter) {
        Action::Scan(path) => assert_eq!(path, "./"),
        _ => panic!("expected a scan"),
    }
    for _ in 0..3 {
        app.press(Key::Backspace);
    }
    assert_eq!(app.path_input, "");
    assert_eq!(app.mode, TuiMode::PathInput);
}

#[test]
fn running_a_scan() {
    let mut app = TuiApp::new();
    app.begin_scan();
    assert_eq!(app.mode, TuiMode::Scanning);
    assert!(matches!(app.press(Key::Char('q')), Action::Continue));
    app.scroll_offset = 4;
    app.finish_scan(results(2));
    assert_eq!(app.mode, TuiMode::Results);
    assert_eq!(app.scroll_offset, 0);
}

#[test]
fn keys_in_results() {
    let mut app = TuiApp::new();
    app.finish_scan(results(2));
    app.press(Key::Up);
    assert_eq!(app.scroll_offset, 0);
    app.press(Key::Down);
    app.press(Key::Down);
    app.press(Key::Up);
    assert_eq!(app.scroll_offset, 1);
    assert!(matches!(app.press(Key::Char('s')), Action::Save));
    assert!(matches!(app.press(Key::Char('q')), Action::Quit));
    assert!(matches!(app.press(Key::Char('x')), Action::Continue));
    app.press(Key::Char('r'));
    assert_eq!(app.mode, TuiMode::Menu);
    assert_eq!(app.scan_results.as_ref().unwrap().findings.len(), 2);
}

#[test]
fn screen_of_the_menu() {
    let mut app = TuiApp::new();
    app.selected = 1;
    let lines = app.draw(0);
    assert_eq!(lines.len(), 12);
    assert_eq!(
        lines[1],
        "\u{1b}[36m║        ntscan - Security Scanner         ║\u{1b}[0m"
    );
    assert_eq!(lines[4], "  🚀 Quick Scan (current directory)");
    assert_eq!(lines[5], "\u{1b}[44;37m> 📁 Scan specific folder\u{1b}[0m");
    assert_eq!(lines[8], "  🚪 Exit");
    assert_eq!(
        lines[10],
        "\u{1b}[38;5;240mControls: ↑↓ to navigate, Enter to select, q to quit\u{1b}[0m"
    );
}

#[test]
fn other_screens() {
    let mut app = TuiApp::new();
    app.mode = TuiMode::PathInput;
    assert_eq!(app.draw(0)[4], "  > .");
    app.mode = TuiMode::Scanning;
    app.scroll_offset = 12;
    assert_eq!(app.draw(0)[1], "\u{1b}[1;36m⠹ Scanning...\u{1b}[0m");
    app.mode = TuiMode::Help;
    let help = app.draw(0);
    assert_eq!(help.len(), 20);
    assert_eq!(help[14], "  • Buffer overflow detection");
    app.mode = TuiMode::Results;
    assert!(app.draw(0).is_empty());
}

#[test]
fn screen_of_results() {
    let mut app = TuiApp::new();
    app.finish_scan(results(12));
    assert!(app.fits(80));
    let lines = app.draw(80);
    assert_eq!(lines[0], "\u{1b}[1;36m📊 Scan Results\u{1b}[0m");
    assert_eq!(lines[2], "  \u{1b}[32mScanned\u{1b}[0m: 12 files in 0.25s");
    assert_eq!(lines[4], "  \u{1b}[1;31m●\u{1b}[0m 1 Critical issues");
    assert_eq!(lines[5], "  \u{1b}[1;34m●\u{1b}[0m 11 Medium issues");
    assert_eq!(
        lines[8],
        "  \u{1b}[31m[Critical]\u{1b}[0m \u{1b}[38;5;240msrc/file0.c\u{1b}[0m:0 - message number 0"
    );
    assert_eq!(lines[18], "  ... and 2 more (scroll with ↑↓)");
    assert_eq!(lines.len(), 21);
    app.press(Key::Down);
    app.press(Key::Down);
    app.press(Key::Down);
    assert_eq!(app.draw(80).len(), 20);
    app.finish_scan(results(0));
    assert_eq!(app.draw(80)[4], "\u{1b}[1;42;30m ✓ No issues found! \u{1b}[0m");
}

#[test]
fn narrow_screens_of_results() {
    let mut app = TuiApp::new();
    app.finish_scan(results(1));
    assert!(!app.fits(49));
    let lines = app.draw(60);
    assert!(lines[7].ends_with(":0 - message nu"));
    let mut f = finding(1, Severity::Low);
    f.file = "0123456789abcdefghijklmnop.c".to_string();
    f.message = "é".to_string();
    app.finish_scan(ScanResults { findings: vec![f], total_files: 1, seconds: "0".to_string() });
    assert!(!app.fits(51));
    assert!(app.fits(52));
    let lines = app.draw(52);
    assert_eq!(
        lines[6],
        "  \u{1b}[38;5;240m[Low]\u{1b}[0m \u{1b}[38;5;240m...9abcdefghijklmnop.c\u{1b}[0m:1 - é"
    );
}

#[test]
fn layout_of_screens() {
    let mut app = TuiApp::new();
    let menu = app.lay_out(0);
    assert_eq!(menu.len(), 12);
    assert_eq!(menu[4][0].style, style_on(Colour::White, Colour::Blue, false));
    assert_eq!(menu[4][0].text, "> 🚀 Quick Scan (current directory)");
    assert_eq!(menu[10][0].style, style_in(Colour::Fixed(240)));
    assert_eq!(render(&menu), app.draw(0));
    app.finish_scan(results(12));
    assert_eq!(render(&app.lay_out(80)), app.draw(80));
}

#[test]
fn results_are_kept_by_keys() {
    let mut app = TuiApp::new();
    app.finish_scan(results(3));
    for key in [Key::Up, Key::Down, Key::Enter, Key::Esc, Key::Char('r'), Key::Char('x')] {
        app.press(key);
        assert_eq!(app.scan_results.as_ref().unwrap().findings.len(), 3);
        assert!(app.selected <= 4);
    }
}

#[test]
fn backspace_takes_back_what_was_typed() {
    let mut app = TuiApp::new();
    app.mode = TuiMode::PathInput;
    for c in ['a', 'é', '/'] {
        let before = app.path_input.clone();
        app.press(Key::Char(c));
        app.press(Key::Backspace);
        assert_eq!(app.path_input, before);
        app.press(Key::Char(c));
    }
    assert_eq!(app.path_input, ".aé/");
}

#[test]
fn filter_chooses_findings() {
    let all = [Severity::Low, Severity::Critical, Severity::High, Severity::Medium];
    let kept = |filter: usize| -> Vec<Severity> {
        let mut app = TuiApp::new();
        app.severity_filter = filter;
        app.selected = 2;
        let findings = all.iter().enumerate().map(|(n, s)| finding(n, *s)).collect();
        app.finish_scan(ScanResults { findings, total_files: 7, seconds: "1.00".to_string() });
        assert_eq!(app.mode, TuiMode::Results);
        assert_eq!((app.selected, app.severity_filter, app.scroll_offset), (2, filter, 0));
        assert_eq!(app.path_input, ".");
        let results = app.scan_results.unwrap();
        assert_eq!((results.total_files, results.seconds.as_str()), (7, "1.00"));
        results.findings.iter().map(|f| f.severity).collect()
    };
    assert_eq!(kept(0), all.to_vec());
    assert_eq!(kept(1), vec![Severity::Critical]);
    assert_eq!(kept(2), vec![Severity::Critical, Severity::High]);
    assert_eq!(kept(3), vec![Severity::Critical, Severity::High, Severity::Medium]);
}
