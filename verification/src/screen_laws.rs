//! What the report and the interactive mode show of findings, and what keys do.
use vstd::prelude::*;
use vstd::utf8::*;

use crate::c_laws::one_if;
use crate::finding::{Colour, FindingModel, Severity};
use crate::paint::SpanModel;
use crate::report::{
    file_lines, files_lines, files_of, finding_lines, footer_lines,
    group_lines, header_lines, headline, in_file, report_lines, shown_file, shown_suggestion,
};
use crate::results::count_of;
use crate::syntax::slice;
use crate::text::{byte_len, decimal, lemma_encode_concat, repeated};
use crate::tui::{
    found_lines, help_lines, menu_lines, path_lines, pressed, result_row, result_rows, results_lines, screen,
    short_file, short_message, shown_findings, spinner, tui_start, ActionModel, Key, ResultsModel,
    TuiMode, TuiModel,
};

verus! {

proof fn lemma_cut(a: Seq<char>, b: Seq<char>)
    ensures
        byte_len(a + b) == byte_len(a) + byte_len(b),
        slice(a + b, byte_len(a) as int, byte_len(a + b) as int) == b,
        slice(a + b, 0, byte_len(a) as int) == a,
{
    lemma_encode_concat(a, b);
    let bytes = encode_utf8(a + b);
    assert(bytes.subrange(byte_len(a) as int, byte_len(a + b) as int) =~= encode_utf8(b));
    assert(bytes.subrange(0, byte_len(a) as int) =~= encode_utf8(a));
    encode_utf8_decode_utf8(a);
    encode_utf8_decode_utf8(b);
}

/// Of a file's name that is too long for a report the end is shown, after three dots, and of a
/// suggestion the beginning, before three dots; a shorter one is shown whole.
pub proof fn long_texts_are_cut_in_reports(a: Seq<char>, b: Seq<char>, width: int)
    ensures
        byte_len(a + b) <= width - 10 ==> shown_file(a + b, width) == a + b,
        byte_len(a + b) > width - 10 && byte_len(b) == width - 13 ==> shown_file(a + b, width)
            == "..."@ + b,
        byte_len(a + b) <= width - 15 ==> shown_suggestion(a + b, width) == a + b,
        byte_len(a + b) > width - 15 && byte_len(a) == width - 18 ==> shown_suggestion(a + b, width)
            == a + "..."@,
{
    lemma_cut(a, b);
}

/// Of a file's name that is too long for the results the end is shown, after three dots, and of a
/// message the beginning; a shorter one is shown whole.
pub proof fn long_texts_are_cut_in_results(a: Seq<char>, b: Seq<char>, width: int)
    ensures
        byte_len(a + b) <= width - 30 ==> short_file(a + b, width) == a + b,
        byte_len(a + b) > width - 30 && byte_len(b) == width - 33 ==> short_file(a + b, width)
            == "..."@ + b,
        byte_len(a + b) < width - 50 ==> short_message(a + b, width) == a + b,
        byte_len(a + b) >= width - 50 && byte_len(a) == width - 50 ==> short_message(a + b, width)
            == a,
{
    lemma_cut(a, b);
    lemma_cut(a + b, Seq::empty());
    assert(a + b + Seq::<char>::empty() =~= a + b);
}

/// What the first line of a finding shows: its badge, its place and its message; the last finding
/// of a file has another mark than those before it.
pub proof fn first_lines_of_findings(f: FindingModel, last: bool)
    ensures
        ({
            let line = headline(f, last);
            &&& line.len() == 10
            &&& line[1].text == if last {
                "└"@
            } else {
                "├"@
            }
            &&& line[3].text == match f.severity {
                Severity::Critical => " CRIT "@,
                Severity::High => " HIGH "@,
                Severity::Medium => " MED  "@,
                Severity::Low => " LOW  "@,
            }
            &&& line[5].text == "●"@
            &&& line[7].text == decimal(f.line) + ":"@ + decimal(f.column)
            &&& line[7].style.dimmed
            &&& line[9].text == f.message
            &&& line[9].style.bold
        }),
{
}

/// How a finding is coloured: by its severity and by its confidence.
pub proof fn colours_of_findings(f: FindingModel, last: bool)
    ensures
        ({
            let line = headline(f, last);
            &&& line[1].style.fg == Some(Colour::Cyan)
            &&& line[5].style.fg == if f.confidence >= 90 {
                Some(Colour::Green)
            } else if f.confidence >= 70 {
                Some(Colour::Yellow)
            } else {
                Some(Colour::Red)
            }
            &&& line[3].style.bg == match f.severity {
                Severity::Critical => Some(Colour::Red),
                Severity::High => Some(Colour::Yellow),
                Severity::Medium => Some(Colour::Blue),
                Severity::Low => Some(Colour::Fixed(240)),
            }
            &&& line[3].style.fg == if f.severity == Severity::High {
                Some(Colour::Black)
            } else {
                Some(Colour::White)
            }
            &&& line[3].style.bold == (f.severity == Severity::Critical || f.severity
                == Severity::High)
        }),
{
}

/// Which lines a finding has: the first one always, one with its category where it has one and the
/// terminal is wider than eighty columns, and one with its suggestion where it has one.
pub proof fn lines_of_findings(f: FindingModel, last: bool, width: int)
    ensures
        ({
            let all = finding_lines(f, last, width);
            let category = f.category.len() > 0 && width > 80;
            let n = all.len();
            &&& n == 1 + (if category {
                1nat
            } else {
                0nat
            }) + (if f.suggestion is Some {
                1nat
            } else {
                0nat
            })
            &&& all[0] == headline(f, last)
            &&& category ==> {
                let line = all[1];
                &&& line.len() == 6
                &&& line[1].text == if last {
                    "  "@
                } else {
                    "│ "@
                }
                &&& line[3].text == "["@ + f.category + "]"@
                &&& line[5].text == decimal(f.confidence) + "% confidence"@
            }
            &&& f.suggestion matches Some(s) ==> {
                let line = all[n - 1];
                &&& line.len() == 6
                &&& line[1].text == if last {
                    "  "@
                } else {
                    "│ "@
                }
                &&& line[3].text == "→"@
                &&& line[5].text == shown_suggestion(s, width)
                &&& line[5].style.fg == Some(Colour::Green)
            }
        }),
{
}

/// Each finding of a file has its lines among those of the file, and only the last of them has the
/// mark of the last.
pub proof fn findings_stand_under_their_file(group: Seq<FindingModel>, k: int, n: int, width: int, j: int)
    requires
        0 <= k < n <= group.len(),
        0 <= j < finding_lines(group[k], k == group.len() - 1, width).len(),
    ensures
        group_lines(group, n, width).contains(
            finding_lines(group[k], k == group.len() - 1, width)[j],
        ),
    decreases n,
{
    let before = group_lines(group, n - 1, width);
    let more = finding_lines(group[n - 1], n == group.len(), width);
    let line = finding_lines(group[k], k == group.len() - 1, width)[j];
    if k == n - 1 {
        assert((before + more)[before.len() + j] == line);
    } else {
        findings_stand_under_their_file(group, k, n - 1, width, j);
        let m = choose|m: int| 0 <= m < before.len() && before[m] == line;
        assert((before + more)[m] == line);
    }
}

proof fn lemma_lines_in_files(
    all: Seq<FindingModel>,
    files: Seq<Seq<char>>,
    n: int,
    width: int,
    m: int,
    line: Seq<SpanModel>,
)
    requires
        0 <= m < n <= files.len(),
        file_lines(in_file(all, files[m]), files[m], m == 0, width).contains(line),
    ensures
        files_lines(all, files, n, width).contains(line),
    decreases n,
{
    let before = files_lines(all, files, n - 1, width);
    let more = file_lines(in_file(all, files[n - 1]), files[n - 1], n == 1, width);
    if m == n - 1 {
        let j = choose|j: int| 0 <= j < more.len() && more[j] == line;
        assert((before + more)[before.len() + j] == line);
    } else {
        lemma_lines_in_files(all, files, n - 1, width, m, line);
        let j = choose|j: int| 0 <= j < before.len() && before[j] == line;
        assert((before + more)[j] == line);
    }
}

/// Every finding has its lines in the report, and its file has a line as well.
pub proof fn reports_show_every_finding(
    all: Seq<FindingModel>,
    k: int,
    total_files: nat,
    seconds: Seq<char>,
    width: int,
)
    requires
        0 <= k < all.len(),
    ensures
        exists|last: bool| #[trigger]
            report_lines(all, total_files, seconds, width).contains(headline(all[k], last)),
        exists|line: Seq<SpanModel>| #[trigger]
            report_lines(all, total_files, seconds, width).contains(line) && line.len() == 3
                && line[2].text == shown_file(all[k].file, width),
{
    let files = files_of(all);
    let n = files.len() as int;
    let file = all[k].file;
    crate::report::every_finding_is_shown(all, k, file);
    let m = choose|m: int| 0 <= m < files.len() && files[m] == file;
    let group = in_file(all, file);
    let j = choose|j: int| 0 <= j < group.len() && group[j] == all[k];
    let last = j == group.len() - 1;
    let line = headline(all[k], last);
    assert(finding_lines(group[j], last, width)[0] == line);
    findings_stand_under_their_file(group, j, group.len() as int, width, 0);
    let lines = file_lines(group, file, m == 0, width);
    let inner = group_lines(group, group.len() as int, width);
    let p = choose|p: int| 0 <= p < inner.len() && inner[p] == line;
    assert(lines[p + 1] == line);
    assert(lines.contains(line));
    lemma_lines_in_files(all, files, n, width, m, line);
    lemma_lines_in_report(all, total_files, seconds, width, line);
    let top = lines[0];
    assert(lines.contains(top));
    lemma_lines_in_files(all, files, n, width, m, top);
    lemma_lines_in_report(all, total_files, seconds, width, top);
}

proof fn lemma_lines_in_report(
    all: Seq<FindingModel>,
    total_files: nat,
    seconds: Seq<char>,
    width: int,
    line: Seq<SpanModel>,
)
    requires
        all.len() > 0,
        files_lines(all, files_of(all), files_of(all).len() as int, width).contains(line),
    ensures
        report_lines(all, total_files, seconds, width).contains(line),
{
    let head = header_lines(all, total_files, seconds, width);
    let body = files_lines(all, files_of(all), files_of(all).len() as int, width);
    let foot = footer_lines(all, total_files, width);
    let j = choose|j: int| 0 <= j < body.len() && body[j] == line;
    assert((head + body + foot)[head.len() + j] == line);
}

/// How a report begins and ends: with the numbers of critical, high and medium findings and of
/// files, and with the number of all findings.
pub proof fn frames_of_reports(
    all: Seq<FindingModel>,
    total_files: nat,
    seconds: Seq<char>,
    width: int,
)
    requires
        all.len() > 0,
    ensures
        ({
            let lines = report_lines(all, total_files, seconds, width);
            let n = lines.len();
            let file = if total_files == 1 {
                "file"@
            } else {
                "files"@
            };
            &&& n >= 5
            &&& lines[0].len() == 4
            &&& lines[0][2].text == " ntscan - Security Report "@
            &&& lines[0][1].text == repeated("═"@, ((width - 26) / 2) as nat)
            &&& lines[0][3] == lines[0][1]
            &&& lines[1].len() == 6
            &&& lines[1][1].text == "● "@ + decimal(count_of(all, Severity::Critical))
                + " Critical"@
            &&& lines[1][3].text == "● "@ + decimal(count_of(all, Severity::High)) + " High"@
            &&& lines[1][5].text == "● "@ + decimal(count_of(all, Severity::Medium)) + " Medium"@
            &&& lines[1][1].style.fg == Some(Colour::Red)
            &&& lines[1][3].style.fg == Some(Colour::Yellow)
            &&& lines[1][5].style.fg == Some(Colour::Blue)
            &&& lines[2].len() == 1
            &&& lines[2][0].text == "  "@ + decimal(total_files) + " "@ + file + " scanned in "@
                + seconds + "s\n"@
            &&& lines[n - 2].len() == 1
            &&& lines[n - 2][0].text == repeated("═"@, width as nat)
            &&& lines[n - 1].len() == 2
            &&& lines[n - 1][0].text == " "@ + decimal(all.len()) + " "@ + (if all.len() == 1 {
                "issue"@
            } else {
                "issues"@
            }) + " found in "@ + decimal(total_files) + " "@ + file + " "@
            &&& lines[n - 1][0].style.bg == if count_of(all, Severity::Critical) > 0 {
                Some(Colour::Red)
            } else if count_of(all, Severity::High) > 0 {
                Some(Colour::Yellow)
            } else {
                Some(Colour::Blue)
            }
        }),
{
    let head = header_lines(all, total_files, seconds, width);
    let body = files_lines(all, files_of(all), files_of(all).len() as int, width);
    let foot = footer_lines(all, total_files, width);
    let lines = report_lines(all, total_files, seconds, width);
    assert(lines == head + body + foot);
    assert(lines[0] == head[0]);
    assert(lines[1] == head[1]);
    assert(lines[2] == head[2]);
    assert(lines[lines.len() - 2] == foot[0]);
    assert(lines[lines.len() - 1] == foot[1]);
}

/// What a report without findings says.
pub proof fn reports_on_nothing(total_files: nat, seconds: Seq<char>, width: int)
    ensures
        ({
            let lines = report_lines(Seq::empty(), total_files, seconds, width);
            &&& lines.len() == 2
            &&& lines[0].len() == 2
            &&& lines[0][1].text == " ✓ No issues found "@
            &&& lines[0][1].style.bg == Some(Colour::Green)
            &&& lines[1].len() == 1
            &&& lines[1][0].text
                == "  Your code is either clean or you're not looking hard enough.\n"@
        }),
{
}

/// Where the interactive mode begins: in the menu, on the first entry, with all findings asked
/// for.
pub proof fn start_of_interactive_mode()
    ensures
        tui_start().mode == TuiMode::Menu,
        tui_start().selected == 0,
        tui_start().path_input == "."@,
        tui_start().severity_filter == 0,
        tui_start().output_format == 0,
        tui_start().scan_results is None,
        tui_start().scroll_offset == 0,
{
}

/// What keys do in the menu: up and down mark another entry, as far as there is one, `q` ends, and
/// the marked entry is chosen with the enter key; every other key does nothing.
pub proof fn keys_in_the_menu(s: TuiModel, key: Key)
    requires
        s.mode == TuiMode::Menu,
        s.selected < 5,
    ensures
        ({
            let (after, action) = pressed(s, key);
            &&& key == Key::Up ==> action == ActionModel::Continue && after == (TuiModel {
                selected: if s.selected == 0 {
                    0
                } else {
                    (s.selected - 1) as nat
                },
                ..s
            })
            &&& key == Key::Down ==> action == ActionModel::Continue && after == (TuiModel {
                selected: if s.selected == 4 {
                    4
                } else {
                    s.selected + 1
                },
                ..s
            })
            &&& key == Key::Char('q') ==> action == ActionModel::Quit && after == s
            &&& key == Key::Enter && s.selected == 0 ==> action == ActionModel::Scan("."@) && after
                == s
            &&& key == Key::Enter && s.selected == 1 ==> action == ActionModel::Continue && after
                == (TuiModel { mode: TuiMode::PathInput, ..s })
            &&& key == Key::Enter && s.selected == 2 ==> action == ActionModel::Continue && after
                == (TuiModel { severity_filter: (s.severity_filter + 1) % 4, ..s })
            &&& key == Key::Enter && s.selected == 3 ==> action == ActionModel::Continue && after
                == (TuiModel { mode: TuiMode::Help, ..s })
            &&& key == Key::Enter && s.selected == 4 ==> action == ActionModel::Quit && after == s
            &&& key != Key::Up && key != Key::Down && key != Key::Char('q') && key != Key::Enter
                ==> action == ActionModel::Continue && after == s
        }),
{
}

/// What keys do while a path is typed: a character is added, backspace takes the last one away,
/// enter scans the path, and escape goes back; every other key does nothing.
pub proof fn keys_in_the_path(s: TuiModel, key: Key)
    requires
        s.mode == TuiMode::PathInput,
    ensures
        ({
            let (after, action) = pressed(s, key);
            &&& key matches Key::Char(c) ==> action == ActionModel::Continue && after == (TuiModel {
                path_input: s.path_input + seq![c],
                ..s
            })
            &&& key == Key::Backspace ==> action == ActionModel::Continue && (s.path_input.len() > 0
                ==> after == (TuiModel {
                path_input: s.path_input.take(s.path_input.len() - 1),
                ..s
            })) && (s.path_input.len() == 0 ==> after == s)
            &&& key == Key::Enter ==> action == ActionModel::Scan(s.path_input) && after == s
            &&& key == Key::Esc ==> action == ActionModel::Continue && after == (TuiModel {
                mode: TuiMode::Menu,
                ..s
            })
            &&& key == Key::Up || key == Key::Down || key == Key::Other ==> action
                == ActionModel::Continue && after == s
        }),
{
    if let Key::Char(c) = key {
        assert(s.path_input.push(c) =~= s.path_input + seq![c]);
    }
    if s.path_input.len() > 0 {
        assert(s.path_input.drop_last() =~= s.path_input.take(s.path_input.len() - 1));
    }
}

/// What keys do while results are shown: up and down scroll, `r` and escape go back to the menu,
/// `s` saves and `q` ends; every other key does nothing.
pub proof fn keys_in_the_results(s: TuiModel, key: Key)
    requires
        s.mode == TuiMode::Results,
    ensures
        ({
            let (after, action) = pressed(s, key);
            &&& key == Key::Up ==> action == ActionModel::Continue && after == (TuiModel {
                scroll_offset: if s.scroll_offset == 0 {
                    0
                } else {
                    (s.scroll_offset - 1) as nat
                },
                ..s
            })
            &&& key == Key::Down ==> action == ActionModel::Continue && after == (TuiModel {
                scroll_offset: s.scroll_offset + 1,
                ..s
            })
            &&& key == Key::Char('r') || key == Key::Esc ==> action == ActionModel::Continue && after
                == (TuiModel { mode: TuiMode::Menu, ..s })
            &&& key == Key::Char('s') ==> action == ActionModel::Save && after == s
            &&& key == Key::Char('q') ==> action == ActionModel::Quit && after == s
            &&& key != Key::Up && key != Key::Down && key != Key::Esc && key != Key::Char('r') && key
                != Key::Char('s') && key != Key::Char('q') ==> action == ActionModel::Continue
                && after == s
        }),
{
}

/// What keys do while the help is shown: `q` and escape go back to the menu, and every other key
/// does nothing; while a scan runs no key does anything.
pub proof fn keys_in_the_help(s: TuiModel, key: Key)
    requires
        s.mode == TuiMode::Help || s.mode == TuiMode::Scanning,
    ensures
        ({
            let (after, action) = pressed(s, key);
            &&& action == ActionModel::Continue
            &&& s.mode == TuiMode::Help && (key == Key::Char('q') || key == Key::Esc) ==> after == (
            TuiModel { mode: TuiMode::Menu, ..s })
            &&& s.mode == TuiMode::Scanning || key != Key::Char('q') && key != Key::Esc ==> after
                == s
        }),
{
}

/// Which findings a page of results shows: ten at most, from the first that is not scrolled past.
pub proof fn pages_of_results(all: Seq<FindingModel>, offset: nat, k: int)
    requires
        0 <= k < 10,
    ensures
        offset + k < all.len() ==> shown_findings(all, offset).len() > k && shown_findings(
            all,
            offset,
        )[k] == all[offset + k],
        offset + k >= all.len() ==> shown_findings(all, offset).len() <= k,
        shown_findings(all, offset).len() <= 10,
{
}

proof fn lemma_rows(shown: Seq<FindingModel>, n: int, width: int, k: int)
    requires
        0 <= k < n <= shown.len(),
    ensures
        result_rows(shown, n, width).len() == n,
        result_rows(shown, n, width)[k] == result_row(shown[k], width),
    decreases n,
{
    if n > 1 {
        if k < n - 1 {
            lemma_rows(shown, n - 1, width, k);
        } else {
            lemma_rows(shown, n - 1, width, 0);
        }
    } else {
        assert(result_rows(shown, 0, width).len() == 0);
    }
}

/// What a row of the results shows: the severity, the file, the line and the message.
pub proof fn rows_of_results(shown: Seq<FindingModel>, n: int, width: int, k: int)
    requires
        0 <= k < n <= shown.len(),
    ensures
        ({
            let f = shown[k];
            let row = result_rows(shown, n, width)[k];
            &&& result_rows(shown, n, width).len() == n
            &&& row.len() == 5
            &&& row[1].text == match f.severity {
                Severity::Low => "["@ + "Low"@ + "]"@,
                Severity::Medium => "["@ + "Medium"@ + "]"@,
                Severity::High => "["@ + "High"@ + "]"@,
                Severity::Critical => "["@ + "Critical"@ + "]"@,
            }
            &&& row[1].style.fg == match f.severity {
                Severity::Critical => Some(Colour::Red),
                Severity::High => Some(Colour::Yellow),
                Severity::Medium => Some(Colour::Blue),
                Severity::Low => Some(Colour::Fixed(240)),
            }
            &&& row[3].text == short_file(f.file, width)
            &&& row[4].text == ":"@ + decimal(f.line) + " - "@ + short_message(f.message, width)
        }),
{
    lemma_rows(shown, n, width, k);
}

/// Which screen is shown in which mode, and what the menu marks.
pub proof fn screens_of_modes(s: TuiModel, width: int, i: int)
    requires
        0 <= i < 5,
    ensures
        s.mode == TuiMode::PathInput ==> screen(s, width) == path_lines(s.path_input),
        s.mode == TuiMode::Help ==> screen(s, width) == help_lines(),
        s.mode == TuiMode::Results && s.scan_results is None ==> screen(s, width).len() == 0,
        s.mode == TuiMode::Results ==> (s.scan_results matches Some(r) ==> screen(s, width)
            == results_lines(r, s.scroll_offset, width)),
        s.mode == TuiMode::Scanning ==> screen(s, width).len() == 4 && screen(s, width)[1].len()
            == 1 && screen(s, width)[1][0].text == spinner((s.scroll_offset % 10) as int)
            + " Scanning..."@,
        s.mode == TuiMode::Menu ==> screen(s, width) == menu_lines(s.selected),
        menu_lines(s.selected).len() == 12,
        menu_lines(s.selected)[4 + i].len() == 1,
        menu_lines(s.selected)[4 + i][0].text == (if i == s.selected {
            "> "@
        } else {
            "  "@
        }) + (if i == 0 {
            "🚀"@
        } else if i == 1 {
            "📁"@
        } else if i == 2 {
            "⚙️"@
        } else if i == 3 {
            "❓"@
        } else {
            "🚪"@
        }) + " "@ + (if i == 0 {
            "Quick Scan (current directory)"@
        } else if i == 1 {
            "Scan specific folder"@
        } else if i == 2 {
            "Configure options"@
        } else if i == 3 {
            "Help / About"@
        } else {
            "Exit"@
        }),
        menu_lines(s.selected)[4 + i][0].style.bg == if i == s.selected {
            Some(Colour::Blue)
        } else {
            None
        },
        path_lines(s.path_input).len() == 7,
        path_lines(s.path_input)[4].len() == 1,
        path_lines(s.path_input)[4][0].text == "  > "@ + s.path_input,
{
}

/// What the results show: the number of files, and either that there is nothing or what was found,
/// with how many more there are than a page holds.
pub proof fn screens_of_results(r: ResultsModel, offset: nat, width: int)
    ensures
        ({
            let lines = results_lines(r, offset, width);
            let n = lines.len();
            let file = if r.total_files == 1 {
                "file"@
            } else {
                "files"@
            };
            &&& n >= 7
            &&& lines[2].len() == 3
            &&& lines[2][1].text == "Scanned"@
            &&& lines[2][2].text == ": "@ + decimal(r.total_files) + " "@ + file + " in "@
                + r.seconds + "s"@
            &&& r.findings.len() == 0 ==> n == 7 && lines[4].len() == 1 && lines[4][0].text
                == " ✓ No issues found! "@
            &&& r.findings.len() > 10 ==> n >= 8 && lines[n - 3].len() == 1 && lines[n - 3][0].text
                == "  ... and "@ + decimal((r.findings.len() - 10) as nat)
                + " more (scroll with ↑↓)"@
            &&& lines[n - 1].len() == 1
            &&& lines[n - 1][0].text
                == "Controls: r = return to menu, s = save, q = quit, ↑↓ = scroll"@
        }),
{
    let found = found_lines(r.findings, offset, width);
    if r.findings.len() > 10 {
        let shown = shown_findings(r.findings, offset);
        let lines = results_lines(r, offset, width);
        assert(lines[lines.len() - 3] == found[found.len() - 1]);
    }
}

/// Where results and reports can be shown: results on fifty columns or more, and a report on as many
/// as its title takes; neither needs any width to say that nothing was found.
pub proof fn widths_that_are_needed(all: Seq<FindingModel>, offset: nat, width: int)
    ensures
        all.len() == 0 ==> crate::tui::results_fit(all, offset, width) && crate::report::report_fits(
            all,
            width,
        ),
        all.len() > 0 && width < 26 ==> !crate::report::report_fits(all, width),
        all.len() > offset && width < 50 ==> !crate::tui::results_fit(all, offset, width),
        width >= 50 && (forall|k: int|
            0 <= k < all.len() ==> byte_len((#[trigger] all[k]).file) <= width - 30 && byte_len(
                all[k].message,
            ) < width - 50) ==> crate::tui::results_fit(all, offset, width),
        width >= 26 && (forall|k: int|
            0 <= k < all.len() ==> byte_len((#[trigger] all[k]).file) <= width - 10 && (
            all[k].suggestion matches Some(s) ==> byte_len(s) <= width - 15))
            ==> crate::report::report_fits(all, width),
{
    let shown = shown_findings(all, offset);
    if width >= 50 && (forall|k: int|
        0 <= k < all.len() ==> byte_len((#[trigger] all[k]).file) <= width - 30 && byte_len(
            all[k].message,
        ) < width - 50) {
        assert forall|k: int| 0 <= k < shown.len() implies crate::tui::row_fits(
            #[trigger] shown[k],
            width,
        ) by {
            assert(shown[k] == all[offset + k]);
        }
    }
}

/// What the help says, line by line.
pub proof fn lines_of_the_help()
    ensures
        help_lines().len() == 20,
        help_lines()[0].len() == 1 && help_lines()[0][0].text == "❓ ntscan Help"@,
        help_lines()[2].len() == 1 && help_lines()[2][0].text == "About:"@,
        help_lines()[3].len() == 1,
        help_lines()[3][0].text
            == "  Lightning-fast security scanner for C, C++, Python, JavaScript, and Java."@,
        help_lines()[4].len() == 1,
        help_lines()[4][0].text
            == "  Finds vulnerabilities in ~7 seconds instead of 20 minutes."@,
        help_lines()[6].len() == 1 && help_lines()[6][0].text == "Quick CLI Usage:"@,
        help_lines()[7].len() == 1,
        help_lines()[7][0].text
            == "  ntscan .                    # Scan current directory"@,
        help_lines()[8].len() == 1,
        help_lines()[8][0].text
            == "  ntscan --quiet .            # Minimal output (CI-friendly)"@,
        help_lines()[9].len() == 1,
        help_lines()[9][0].text
            == "  ntscan --format json .      # JSON output"@,
        help_lines()[10].len() == 1,
        help_lines()[10][0].text
            == "  ntscan --sarif results.sarif .  # SARIF for GitHub"@,
        help_lines()[11].len() == 1,
        help_lines()[11][0].text
            == "  ntscan --tui                # Interactive mode (this menu)"@,
        help_lines()[13].len() == 1 && help_lines()[13][0].text == "Features:"@,
        help_lines()[14].len() == 1 && help_lines()[14][0].text == "  • Buffer overflow detection"@,
        help_lines()[15].len() == 1 && help_lines()[15][0].text == "  • Null pointer analysis"@,
        help_lines()[16].len() == 1,
        help_lines()[16][0].text
            == "  • Taint tracking for injection bugs"@,
        help_lines()[17].len() == 1,
        help_lines()[17][0].text
            == "  • Cross-function data flow analysis"@,
        help_lines()[19].len() == 1,
        help_lines()[19][0].text
            == "Press Esc or q to return to menu"@,
{
}

/// The frames of the symbol that turns while a scan runs: ten, each its own.
pub proof fn frames_of_the_spinner()
    ensures
        spinner(0) == "⠋"@,
        spinner(1) == "⠙"@,
        spinner(2) == "⠹"@,
        spinner(3) == "⠸"@,
        spinner(4) == "⠼"@,
        spinner(5) == "⠴"@,
        spinner(6) == "⠦"@,
        spinner(7) == "⠧"@,
        spinner(8) == "⠇"@,
        spinner(9) == "⠏"@,
{
}

/// What frames the menu, the screen on which a path is typed, and the one while a scan runs.
pub proof fn frames_of_screens(s: TuiModel, width: int)
    ensures
        menu_lines(s.selected)[0][0].text == "╔══════════════════════════════════════════╗"@,
        menu_lines(s.selected)[1][0].text == "║        ntscan - Security Scanner         ║"@,
        menu_lines(s.selected)[2][0].text == "╚══════════════════════════════════════════╝"@,
        menu_lines(s.selected)[10][0].text
            == "Controls: ↑↓ to navigate, Enter to select, q to quit"@,
        menu_lines(s.selected)[11][0].text == "CLI: ntscan [path] [--flags]"@,
        path_lines(s.path_input)[0][0].text == "📁 Scan Specific Folder"@,
        path_lines(s.path_input)[2][0].text == "Enter path to scan:"@,
        path_lines(s.path_input)[6][0].text == "Press Enter to scan, Esc to cancel"@,
        s.mode == TuiMode::Scanning ==> screen(s, width)[3][0].text
            == "This may take a few seconds depending on codebase size"@,
{
}

/// What the results say of findings: first how many there are of each severity but the lowest,
/// where there are any, and then the rows of the page.
pub proof fn counts_and_rows_of_results(all: Seq<FindingModel>, offset: nat, width: int, k: int)
    requires
        0 <= k < shown_findings(all, offset).len(),
    ensures
        ({
            let lines = found_lines(all, offset, width);
            let critical = count_of(all, Severity::Critical);
            let high = count_of(all, Severity::High);
            let medium = count_of(all, Severity::Medium);
            let a = one_if(critical > 0) as int;
            let b = a + one_if(high > 0);
            let c = b + one_if(medium > 0);
            let shown = shown_findings(all, offset);
            &&& critical > 0 ==> lines[0].len() == 3 && lines[0][1].text == "●"@
                && lines[0][1].style.fg == Some(Colour::Red) && lines[0][2].text == " "@ + decimal(
                critical,
            ) + " Critical issues"@
            &&& high > 0 ==> lines[a].len() == 3 && lines[a][1].style.fg == Some(Colour::Yellow)
                && lines[a][2].text == " "@ + decimal(high) + " High issues"@
            &&& medium > 0 ==> lines[b].len() == 3 && lines[b][1].style.fg == Some(Colour::Blue)
                && lines[b][2].text == " "@ + decimal(medium) + " Medium issues"@
            &&& lines[c + 1].len() == 1
            &&& lines[c + 1][0].text == "Top Findings:"@
            &&& lines[c + 2 + k] == result_row(shown[k], width)
            &&& lines.len() == c + 2 + shown.len() + one_if(all.len() > 10)
        }),
{
    let shown = shown_findings(all, offset);
    lemma_rows(shown, shown.len() as int, width, k);
}

/// What a file has in a report: a line with its mark, which differs for the first file, the lines of
/// its findings, and an empty line.
pub proof fn lines_of_files(group: Seq<FindingModel>, file: Seq<char>, first: bool, width: int)
    ensures
        ({
            let lines = file_lines(group, file, first, width);
            let inner = group_lines(group, group.len() as int, width);
            let n = lines.len();
            &&& n == inner.len() + 2
            &&& lines[0].len() == 3
            &&& lines[0][0].text == if first {
                "┌"@
            } else {
                "├"@
            }
            &&& lines[0][2].text == shown_file(file, width)
            &&& lines[0][2].style.bold && lines[0][2].style.underline
            &&& forall|k: int| 0 <= k < inner.len() ==> lines[k + 1] == #[trigger] inner[k]
            &&& lines[n - 1].len() == 1
            &&& lines[n - 1][0].text.len() == 0
        }),
{
    reveal_strlit("");
}

} // verus!
