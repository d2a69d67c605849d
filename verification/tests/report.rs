use ntscan::finding::{Colour, Finding, Severity};
use ntscan::paint::{
    raw_span, render, render_line, span, style_bold, style_bold_in, style_in, style_on, Span,
    TextStyle,
};
use ntscan::report::{
    findings_in, fits_report, group_files, lay_out_report, print_beautiful_report,
};
use ntscan::results::filter_findings;

fn finding(file: &str, severity: Severity, confidence: u8, suggestion: Option<&str>) -> Finding {
    Finding::new(
        file.to_string(),
        3,
        7,
        severity,
        "cat".to_string(),
        "message".to_string(),
        suggestion.map(|s| s.to_string()),
    )
    .with_confidence(confidence)
}

fn plain(lines: Vec<String>) -> Vec<String> {
    lines
        .iter()
        .map(|l| {
            let mut out = String::new();
            let mut inside = false;
            for c in l.chars() {
                if c == '\u{1b}' {
                    inside = true;
                } else if inside && c == 'm' {
                    inside = false;
                } else if !inside {
                    out.push(c);
                }
            }
            out
        })
        .collect()
}

#[test]
fn report_without_findings() {
    assert_eq!(
        print_beautiful_report(&vec![], 3, "0.10", 0),
        vec![
            "\n\u{1b}[1;42;30m ✓ No issues found \u{1b}[0m",
            "  Your code is either clean or you're not looking hard enough.\n",
        ]
    );
}

#[test]
fn report_with_findings() {
    let found = vec![
        finding("b.c", Severity::Critical, 95, Some("Do this")),
        finding("a.c", Severity::Low, 60, None),
        finding("b.c", Severity::Medium, 70, None),
    ];
    assert!(fits_report(&found, 30));
    let lines = plain(print_beautiful_report(&found, 2, "1.50", 30));
    assert_eq!(
        lines,
        vec![
            "\n══ ntscan - Security Report ══",
            "  ● 1 Critical  ● 0 High  ● 1 Medium",
            "  2 files scanned in 1.50s\n",
            "┌ a.c",
            "  └  LOW   ● 3:7 message",
            "",
            "├ b.c",
            "  ├  CRIT  ● 3:7 message",
            "  │  → Do this",
            "  └  MED   ● 3:7 message",
            "",
            "══════════════════════════════",
            " 3 issues found in 2 files \n",
        ]
    );
}

#[test]
fn colours_of_a_report() {
    let found = vec![finding("a.c", Severity::High, 90, Some("Fix"))];
    let lines = print_beautiful_report(&found, 1, "0.00", 100);
    assert_eq!(lines[3], "\u{1b}[36m┌\u{1b}[0m \u{1b}[1;4ma.c\u{1b}[0m");
    assert_eq!(
        lines[4],
        "  \u{1b}[36m└\u{1b}[0m \u{1b}[1;43;30m HIGH \u{1b}[0m \u{1b}[32m●\u{1b}[0m \u{1b}[2m3:7\u{1b}[0m \u{1b}[1mmessage\u{1b}[0m"
    );
    assert_eq!(
        lines[5],
        "  \u{1b}[36m  \u{1b}[0m \u{1b}[38;5;240m[cat]\u{1b}[0m \u{1b}[38;5;240m90% confidence\u{1b}[0m"
    );
    assert_eq!(
        lines[6],
        "  \u{1b}[36m  \u{1b}[0m \u{1b}[32m→\u{1b}[0m \u{1b}[32mFix\u{1b}[0m"
    );
    assert_eq!(lines[9], "\u{1b}[1;43;30m 1 issue found in 1 file \u{1b}[0m\n");
}

#[test]
fn categories_need_a_wide_terminal() {
    let found = vec![finding("a.c", Severity::High, 90, None)];
    assert_eq!(print_beautiful_report(&found, 1, "0.00", 80).len(), 8);
    assert_eq!(print_beautiful_report(&found, 1, "0.00", 81).len(), 9);
}

#[test]
fn long_names_and_suggestions_are_cut() {
    let found = vec![finding("0123456789abcdefghij.c", Severity::High, 90, Some("0123456789abcdef"))];
    let lines = plain(print_beautiful_report(&found, 1, "0.00", 30));
    assert_eq!(lines[3], "┌ ...56789abcdefghij.c");
    assert_eq!(lines[5], "     → 0123456789ab...");
    let lines = plain(print_beautiful_report(&found, 1, "0.00", 32));
    assert_eq!(lines[3], "┌ 0123456789abcdefghij.c");
    assert_eq!(lines[5], "     → 0123456789abcdef");
}

#[test]
fn reports_that_do_not_fit() {
    let found = vec![finding("a.c", Severity::High, 90, None)];
    assert!(!fits_report(&found, 25));
    assert!(fits_report(&found, 26));
    assert!(fits_report(&vec![], 0));
    let found = vec![finding("a.c", Severity::High, 90, Some("0123456789aééé"))];
    assert!(!fits_report(&found, 30));
    assert!(fits_report(&found, 29));
}

#[test]
fn files_are_sorted_and_named_once() {
    let found: Vec<Finding> = ["b", "a/c", "a", "b", "a/c", "B"]
        .iter()
        .map(|f| finding(f, Severity::Low, 90, None))
        .collect();
    assert_eq!(group_files(&found), vec!["B", "a", "a/c", "b"]);
    assert!(group_files(&filter_findings(&found, Severity::High)).is_empty());
}

const PLAIN: TextStyle =
    TextStyle { fg: None, bg: None, bold: false, dimmed: false, underline: false };

fn pieces(line: &Vec<Span>) -> Vec<(TextStyle, &str)> {
    line.iter().map(|s| (s.style, s.text.as_str())).collect()
}

#[test]
fn spans_of_a_report() {
    let lines = lay_out_report(&vec![], 0, "0.00", 0);
    assert_eq!(lines.len(), 2);
    assert_eq!(
        pieces(&lines[0]),
        vec![
            (PLAIN, "\n"),
            (style_on(Colour::Black, Colour::Green, true), " ✓ No issues found "),
        ]
    );
    let found = vec![finding("a.c", Severity::Low, 60, Some("Fix"))];
    let lines = lay_out_report(&found, 1, "0.00", 26);
    assert_eq!(lines.len(), 9);
    assert_eq!(
        pieces(&lines[0]),
        vec![
            (PLAIN, "\n"),
            (style_in(Colour::Cyan), ""),
            (style_bold(), " ntscan - Security Report "),
            (style_in(Colour::Cyan), ""),
        ]
    );
    assert_eq!(pieces(&lines[1])[3], (style_bold_in(Colour::Yellow), "● 0 High"));
    assert_eq!(pieces(&lines[2]), vec![(PLAIN, "  1 file scanned in 0.00s\n")]);
    assert_eq!(
        pieces(&lines[4]),
        vec![
            (PLAIN, "  "),
            (style_in(Colour::Cyan), "└"),
            (PLAIN, " "),
            (style_on(Colour::White, Colour::Fixed(240), false), " LOW  "),
            (PLAIN, " "),
            (style_in(Colour::Red), "●"),
            (PLAIN, " "),
            (TextStyle { fg: None, bg: None, bold: false, dimmed: true, underline: false }, "3:7"),
            (PLAIN, " "),
            (style_bold(), "message"),
        ]
    );
    assert_eq!(pieces(&lines[5])[5], (style_in(Colour::Green), "Fix"));
    assert_eq!(
        pieces(&lines[8]),
        vec![
            (style_on(Colour::White, Colour::Blue, true), " 1 issue found in 1 file "),
            (PLAIN, "\n"),
        ]
    );
}

#[test]
fn printed_report_is_the_rendered_layout() {
    let found = vec![
        finding("a.c", Severity::Critical, 95, Some("Fix")),
        finding("b.c", Severity::Low, 60, None),
    ];
    let layout = lay_out_report(&found, 2, "0.10", 90);
    let printed = print_beautiful_report(&found, 2, "0.10", 90);
    assert_eq!(render(&layout), printed);
    assert_eq!(layout.len(), printed.len());
}

#[test]
fn plain_text_is_sent_as_it_stands() {
    assert_eq!(render_line(&vec![raw_span("a é"), raw_span("\n")]), "a é\n");
    assert_eq!(render_line(&vec![]), "");
    assert_eq!(
        render_line(&vec![span(style_bold_in(Colour::Rgb(1, 2, 3)), "x"), raw_span("y")]),
        "\u{1b}[1;38;2;1;2;3mx\u{1b}[0my"
    );
}

#[test]
fn every_finding_is_shown_under_its_file() {
    let found = vec![
        finding("b", Severity::Low, 90, None),
        finding("a", Severity::High, 90, None),
        finding("b", Severity::Medium, 90, None),
    ];
    let severities = |file: &str| -> Vec<Severity> {
        findings_in(&found, file).iter().map(|f| f.severity).collect()
    };
    assert_eq!(severities("a"), vec![Severity::High]);
    assert_eq!(severities("b"), vec![Severity::Low, Severity::Medium]);
    assert!(severities("c").is_empty());
}
