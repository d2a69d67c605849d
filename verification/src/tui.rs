//! The interactive mode: what keys do, and what the screen shows.
use vstd::prelude::*;
use vstd::string::*;
use vstd::utf8::*;

use crate::config::{min_severity, severity_floor};
use crate::finding::{views, Colour, Finding, FindingModel, Severity};
use crate::paint::{
    add_line, add_lines, bold, bold_in, in_colour, line_view, on_colour, page_view, raw, raw_line,
    raw_span, render, sent_page, span, style_bold, style_bold_in, style_in, style_on, styled,
    styled_line, Span, SpanModel,
};
use crate::results::{
    count_of, count_severity, filter_severity, lemma_filter_contains, severe_findings,
};
use crate::select::{file_word, word_for_files};
use crate::syntax::{boundary, slice, slice_of};
use crate::text::{byte_len, decimal, decimal_text, glue, glue3, glue4, strings};

verus! {

/// What the screen shows.
#[derive(Clone, Copy, Debug, PartialEq, Eq, Structural)]
pub enum TuiMode {
    Menu,
    PathInput,
    Scanning,
    Results,
    Help,
}

/// A key.
#[derive(Clone, Copy, Debug, PartialEq, Eq, Structural)]
pub enum Key {
    Up,
    Down,
    Enter,
    Esc,
    Backspace,
    Char(char),
    Other,
}

/// What is to be done after a key.
#[derive(Debug)]
pub enum Action {
    /// Nothing but to show the screen again.
    Continue,
    /// End the interactive mode.
    Quit,
    /// Scan the directory or the file.
    Scan(String),
    /// Save the findings.
    Save,
}

/// What is to be done after a key, with the contents of its text.
pub enum ActionModel {
    Continue,
    Quit,
    Scan(Seq<char>),
    Save,
}

impl View for Action {
    type V = ActionModel;

    open spec fn view(&self) -> ActionModel {
        match self {
            Action::Continue => ActionModel::Continue,
            Action::Quit => ActionModel::Quit,
            Action::Scan(path) => ActionModel::Scan(path@),
            Action::Save => ActionModel::Save,
        }
    }
}

/// What a scan gave.
pub struct ScanResults {
    pub findings: Vec<Finding>,
    pub total_files: usize,
    /// How long it took, in seconds.
    pub seconds: String,
}

/// The contents of what a scan gave.
#[verifier::ext_equal]
pub struct ResultsModel {
    pub findings: Seq<FindingModel>,
    pub total_files: nat,
    pub seconds: Seq<char>,
}

impl View for ScanResults {
    type V = ResultsModel;

    open spec fn view(&self) -> ResultsModel {
        ResultsModel {
            findings: views(self.findings@),
            total_files: self.total_files as nat,
            seconds: self.seconds@,
        }
    }
}

/// The number of entries of the menu.
pub const MENU_LEN: usize = 5;

/// The interactive mode.
pub struct TuiApp {
    /// The entry of the menu that is marked.
    pub selected: usize,
    /// The path that is typed.
    pub path_input: String,
    /// Which findings are asked for: all of them, critical ones, high ones and up, or medium ones
    /// and up.
    pub severity_filter: usize,
    /// How findings are printed: as text, as JSON or as SARIF.
    pub output_format: usize,
    pub mode: TuiMode,
    pub scan_results: Option<ScanResults>,
    /// How many findings are scrolled past.
    pub scroll_offset: usize,
}

/// The contents of the interactive mode.
#[verifier::ext_equal]
pub struct TuiModel {
    pub selected: nat,
    pub path_input: Seq<char>,
    pub severity_filter: nat,
    pub output_format: nat,
    pub mode: TuiMode,
    pub scan_results: Option<ResultsModel>,
    pub scroll_offset: nat,
}

impl View for TuiApp {
    type V = TuiModel;

    open spec fn view(&self) -> TuiModel {
        TuiModel {
            selected: self.selected as nat,
            path_input: self.path_input@,
            severity_filter: self.severity_filter as nat,
            output_format: self.output_format as nat,
            mode: self.mode,
            scan_results: match self.scan_results {
                Some(r) => Some(r@),
                None => None,
            },
            scroll_offset: self.scroll_offset as nat,
        }
    }
}

impl TuiModel {
    /// An entry of the menu is marked, and one of the four filters is chosen.
    pub open spec fn well_formed(self) -> bool {
        self.selected < MENU_LEN && self.severity_filter < 4
    }
}

/// The state at the start.
pub open spec fn tui_start() -> TuiModel {
    TuiModel {
        selected: 0,
        path_input: "."@,
        severity_filter: 0,
        output_format: 0,
        mode: TuiMode::Menu,
        scan_results: None,
        scroll_offset: 0,
    }
}

/// What the entry of the menu that is marked does.
pub open spec fn enter_menu(s: TuiModel) -> (TuiModel, ActionModel) {
    if s.selected == 0 {
        (s, ActionModel::Scan("."@))
    } else if s.selected == 1 {
        (TuiModel { mode: TuiMode::PathInput, ..s }, ActionModel::Continue)
    } else if s.selected == 2 {
        (
            TuiModel { severity_filter: (s.severity_filter + 1) % 4, ..s },
            ActionModel::Continue,
        )
    } else if s.selected == 3 {
        (TuiModel { mode: TuiMode::Help, ..s }, ActionModel::Continue)
    } else if s.selected == 4 {
        (s, ActionModel::Quit)
    } else {
        (s, ActionModel::Continue)
    }
}

/// What a key does in the menu.
pub open spec fn menu_key(s: TuiModel, key: Key) -> (TuiModel, ActionModel) {
    match key {
        Key::Up => (
            TuiModel {
                selected: if s.selected > 0 {
                    (s.selected - 1) as nat
                } else {
                    s.selected
                },
                ..s
            },
            ActionModel::Continue,
        ),
        Key::Down => (
            TuiModel {
                selected: if s.selected < MENU_LEN - 1 {
                    s.selected + 1
                } else {
                    s.selected
                },
                ..s
            },
            ActionModel::Continue,
        ),
        Key::Enter => enter_menu(s),
        Key::Char('q') => (s, ActionModel::Quit),
        _ => (s, ActionModel::Continue),
    }
}

/// What a key does while a path is typed.
pub open spec fn path_key(s: TuiModel, key: Key) -> (TuiModel, ActionModel) {
    match key {
        Key::Enter => (s, ActionModel::Scan(s.path_input)),
        Key::Char(c) => (
            TuiModel { path_input: s.path_input.push(c), ..s },
            ActionModel::Continue,
        ),
        Key::Backspace => (
            TuiModel {
                path_input: if s.path_input.len() > 0 {
                    s.path_input.drop_last()
                } else {
                    s.path_input
                },
                ..s
            },
            ActionModel::Continue,
        ),
        Key::Esc => (TuiModel { mode: TuiMode::Menu, ..s }, ActionModel::Continue),
        _ => (s, ActionModel::Continue),
    }
}

/// What a key does while results are shown.
pub open spec fn results_key(s: TuiModel, key: Key) -> (TuiModel, ActionModel) {
    match key {
        Key::Up => (
            TuiModel {
                scroll_offset: if s.scroll_offset > 0 {
                    (s.scroll_offset - 1) as nat
                } else {
                    s.scroll_offset
                },
                ..s
            },
            ActionModel::Continue,
        ),
        Key::Down => (
            TuiModel { scroll_offset: s.scroll_offset + 1, ..s },
            ActionModel::Continue,
        ),
        Key::Char('r') => (TuiModel { mode: TuiMode::Menu, ..s }, ActionModel::Continue),
        Key::Char('q') => (s, ActionModel::Quit),
        Key::Esc => (TuiModel { mode: TuiMode::Menu, ..s }, ActionModel::Continue),
        Key::Char('s') => (s, ActionModel::Save),
        _ => (s, ActionModel::Continue),
    }
}

/// What a key does while the help is shown.
pub open spec fn help_key(s: TuiModel, key: Key) -> (TuiModel, ActionModel) {
    match key {
        Key::Esc => (TuiModel { mode: TuiMode::Menu, ..s }, ActionModel::Continue),
        Key::Char('q') => (TuiModel { mode: TuiMode::Menu, ..s }, ActionModel::Continue),
        _ => (s, ActionModel::Continue),
    }
}

/// What a key does.
pub open spec fn pressed(s: TuiModel, key: Key) -> (TuiModel, ActionModel) {
    match s.mode {
        TuiMode::Menu => menu_key(s, key),
        TuiMode::PathInput => path_key(s, key),
        TuiMode::Results => results_key(s, key),
        TuiMode::Help => help_key(s, key),
        TuiMode::Scanning => (s, ActionModel::Continue),
    }
}

/// The severity that the filter asks a scan for.
pub open spec fn filter_name(severity_filter: nat) -> Seq<char> {
    if severity_filter == 1 {
        "critical"@
    } else if severity_filter == 2 {
        "high"@
    } else if severity_filter == 3 {
        "medium"@
    } else {
        "low"@
    }
}

/// What a scan gave, with those of its findings that the filter asks for.
pub open spec fn filtered_results(r: ResultsModel, severity_filter: nat) -> ResultsModel {
    ResultsModel {
        findings: severe_findings(r.findings, severity_floor(filter_name(severity_filter))),
        ..r
    }
}

impl TuiApp {
    /// The state at the start.
    pub fn new() -> (r: TuiApp)
        ensures
            r@ == tui_start(),
            r@.well_formed(),
    {
        TuiApp {
            selected: 0,
            path_input: ".".to_owned(),
            severity_filter: 0,
            output_format: 0,
            mode: TuiMode::Menu,
            scan_results: None,
            scroll_offset: 0,
        }
    }

    /// What a key does; neither how far the results are scrolled nor the filter is counted past what
    /// a number holds.
    pub fn press(&mut self, key: Key) -> (r: Action)
        requires
            old(self)@.mode == TuiMode::Results && key == Key::Down ==> old(self)@.scroll_offset
                < usize::MAX,
            old(self)@.mode == TuiMode::Menu && key == Key::Enter && old(self)@.selected == 2
                ==> old(self)@.severity_filter < usize::MAX,
        ensures
            final(self)@ == pressed(old(self)@, key).0,
            r@ == pressed(old(self)@, key).1,
    {
        match self.mode {
            TuiMode::Menu => self.press_in_menu(key),
            TuiMode::PathInput => self.press_in_path(key),
            TuiMode::Results => self.press_in_results(key),
            TuiMode::Help => {
                match key {
                    Key::Esc => self.mode = TuiMode::Menu,
                    Key::Char('q') => self.mode = TuiMode::Menu,
                    _ => {},
                }
                Action::Continue
            },
            TuiMode::Scanning => Action::Continue,
        }
    }

    fn press_in_menu(&mut self, key: Key) -> (r: Action)
        requires
            key == Key::Enter && old(self)@.selected == 2 ==> old(self)@.severity_filter
                < usize::MAX,
        ensures
            final(self)@ == menu_key(old(self)@, key).0,
            r@ == menu_key(old(self)@, key).1,
    {
        match key {
            Key::Up => {
                if self.selected > 0 {
                    self.selected = self.selected - 1;
                }
                Action::Continue
            },
            Key::Down => {
                if self.selected < MENU_LEN - 1 {
                    self.selected = self.selected + 1;
                }
                Action::Continue
            },
            Key::Enter => {
                if self.selected == 0 {
                    Action::Scan(".".to_owned())
                } else if self.selected == 1 {
                    self.mode = TuiMode::PathInput;
                    Action::Continue
                } else if self.selected == 2 {
                    self.configure_options();
                    Action::Continue
                } else if self.selected == 3 {
                    self.mode = TuiMode::Help;
                    Action::Continue
                } else if self.selected == 4 {
                    Action::Quit
                } else {
                    Action::Continue
                }
            },
            Key::Char('q') => Action::Quit,
            _ => Action::Continue,
        }
    }

    fn press_in_path(&mut self, key: Key) -> (r: Action)
        ensures
            final(self)@ == path_key(old(self)@, key).0,
            r@ == path_key(old(self)@, key).1,
    {
        match key {
            Key::Enter => Action::Scan(self.path_input.clone()),
            Key::Char(c) => {
                self.path_input.push(c);
                Action::Continue
            },
            Key::Backspace => {
                let _last = self.path_input.pop();
                Action::Continue
            },
            Key::Esc => {
                self.mode = TuiMode::Menu;
                Action::Continue
            },
            _ => Action::Continue,
        }
    }

    fn press_in_results(&mut self, key: Key) -> (r: Action)
        requires
            key == Key::Down ==> old(self)@.scroll_offset < usize::MAX,
        ensures
            final(self)@ == results_key(old(self)@, key).0,
            r@ == results_key(old(self)@, key).1,
    {
        match key {
            Key::Up => {
                if self.scroll_offset > 0 {
                    self.scroll_offset = self.scroll_offset - 1;
                }
                Action::Continue
            },
            Key::Down => {
                self.scroll_offset = self.scroll_offset + 1;
                Action::Continue
            },
            Key::Char('r') => {
                self.mode = TuiMode::Menu;
                Action::Continue
            },
            Key::Char('q') => Action::Quit,
            Key::Esc => {
                self.mode = TuiMode::Menu;
                Action::Continue
            },
            Key::Char('s') => Action::Save,
            _ => Action::Continue,
        }
    }

    /// Chooses the next filter.
    pub fn configure_options(&mut self)
        requires
            old(self)@.severity_filter < usize::MAX,
        ensures
            final(self)@ == (TuiModel {
                severity_filter: (old(self)@.severity_filter + 1) % 4,
                ..old(self)@
            }),
    {
        self.severity_filter = (self.severity_filter + 1) % 4;
    }

    /// Shows that a scan runs.
    pub fn begin_scan(&mut self)
        ensures
            final(self)@ == (TuiModel { mode: TuiMode::Scanning, ..old(self)@ }),
    {
        self.mode = TuiMode::Scanning;
    }

    /// Shows what a scan gave, from its beginning: those of its findings that the filter asks for.
    pub fn finish_scan(&mut self, results: ScanResults)
        ensures
            final(self)@ == (TuiModel {
                mode: TuiMode::Results,
                scan_results: Some(filtered_results(results@, old(self)@.severity_filter)),
                scroll_offset: 0,
                ..old(self)@
            }),
    {
        let floor = min_severity(self.severity_name());
        let findings = filter_severity(&results.findings, floor);
        self.scan_results =
        Some(
            ScanResults {
                findings,
                total_files: results.total_files,
                seconds: results.seconds,
            },
        );
        self.mode = TuiMode::Results;
        self.scroll_offset = 0;
    }

    /// The severity that the filter asks a scan for.
    pub fn severity_name(&self) -> (r: &'static str)
        ensures
            r@ == filter_name(self@.severity_filter),
    {
        if self.severity_filter == 1 {
            "critical"
        } else if self.severity_filter == 2 {
            "high"
        } else if self.severity_filter == 3 {
            "medium"
        } else {
            "low"
        }
    }
}

/// Keys keep the state sound.
pub proof fn keys_keep_state_well_formed(s: TuiModel, key: Key)
    requires
        s.well_formed(),
    ensures
        pressed(s, key).0.well_formed(),
{
}

/// Four choices of the next filter lead back to the first.
pub proof fn filters_go_round(s: TuiModel)
    requires
        s.well_formed(),
        s.mode == TuiMode::Menu,
        s.selected == 2,
    ensures
        ({
            let a = pressed(s, Key::Enter).0;
            let b = pressed(a, Key::Enter).0;
            let c = pressed(b, Key::Enter).0;
            pressed(c, Key::Enter).0 == s
        }),
{
    let f = s.severity_filter;
    assert(((((f + 1) % 4 + 1) % 4 + 1) % 4 + 1) % 4 == f);
}

/// A typed character that is taken back leaves the path as it was.
pub proof fn backspace_undoes_typing(s: TuiModel, c: char)
    requires
        s.mode == TuiMode::PathInput,
    ensures
        pressed(pressed(s, Key::Char(c)).0, Key::Backspace).0 == s,
{
    assert(s.path_input.push(c).drop_last() =~= s.path_input);
}

/// The findings themselves are changed by no key.
pub proof fn keys_keep_results(s: TuiModel, key: Key)
    ensures
        pressed(s, key).0.scan_results == s.scan_results,
{
}

/// The results hold exactly those findings of a scan that are as bad as the filter asks for, or
/// worse: all of them, the critical ones, the high ones and up, or the medium ones and up.
pub proof fn filter_chooses_by_severity(r: ResultsModel, severity_filter: nat, f: FindingModel)
    requires
        severity_filter < 4,
    ensures
        filtered_results(r, severity_filter).findings.contains(f) <==> r.findings.contains(f)
            && f.severity.rank() >= (if severity_filter == 1 {
            Severity::Critical.rank()
        } else if severity_filter == 2 {
            Severity::High.rank()
        } else if severity_filter == 3 {
            Severity::Medium.rank()
        } else {
            Severity::Low.rank()
        }),
{
    let floor = severity_floor(filter_name(severity_filter));
    reveal_strlit("critical");
    reveal_strlit("high");
    reveal_strlit("medium");
    reveal_strlit("low");
    assert("critical"@.len() == 8);
    assert("high"@.len() == 4);
    assert("medium"@.len() == 6);
    assert("low"@.len() == 3);
    lemma_filter_contains(r.findings, |g: FindingModel| g.severity.rank() >= floor.rank(), f);
}

/// The symbol and the text of an entry of the menu.
pub open spec fn menu_item(i: int) -> (Seq<char>, Seq<char>) {
    if i == 0 {
        ("🚀"@, "Quick Scan (current directory)"@)
    } else if i == 1 {
        ("📁"@, "Scan specific folder"@)
    } else if i == 2 {
        ("⚙️"@, "Configure options"@)
    } else if i == 3 {
        ("❓"@, "Help / About"@)
    } else {
        ("🚪"@, "Exit"@)
    }
}

/// The line of an entry of the menu.
pub open spec fn menu_line(i: int, selected: nat) -> Seq<SpanModel> {
    if i == selected {
        seq![
            styled(
                on_colour(Colour::White, Colour::Blue, false),
                "> "@ + menu_item(i).0 + " "@ + menu_item(i).1,
            ),
        ]
    } else {
        seq![raw("  "@ + menu_item(i).0 + " "@ + menu_item(i).1)]
    }
}

/// A line in grey.
pub open spec fn grey(text: Seq<char>) -> Seq<SpanModel> {
    seq![styled(in_colour(Colour::Fixed(240)), text)]
}

/// A line in cyan.
pub open spec fn cyan(text: Seq<char>) -> Seq<SpanModel> {
    seq![styled(in_colour(Colour::Cyan), text)]
}

/// A line in bold type in cyan.
pub open spec fn title(text: Seq<char>) -> Seq<SpanModel> {
    seq![styled(bold_in(Colour::Cyan), text)]
}

/// A line in bold type.
pub open spec fn section(text: Seq<char>) -> Seq<SpanModel> {
    seq![styled(bold(), text)]
}

/// A plain line.
pub open spec fn text_line(text: Seq<char>) -> Seq<SpanModel> {
    seq![raw(text)]
}

/// The menu.
pub open spec fn menu_lines(selected: nat) -> Seq<Seq<SpanModel>> {
    seq![
        cyan("╔══════════════════════════════════════════╗"@),
        cyan("║        ntscan - Security Scanner         ║"@),
        cyan("╚══════════════════════════════════════════╝"@),
        text_line(""@),
        menu_line(0, selected),
        menu_line(1, selected),
        menu_line(2, selected),
        menu_line(3, selected),
        menu_line(4, selected),
        text_line(""@),
        grey("Controls: ↑↓ to navigate, Enter to select, q to quit"@),
        grey("CLI: ntscan [path] [--flags]"@),
    ]
}

/// The screen on which a path is typed.
pub open spec fn path_lines(path_input: Seq<char>) -> Seq<Seq<SpanModel>> {
    seq![
        title("📁 Scan Specific Folder"@),
        text_line(""@),
        text_line("Enter path to scan:"@),
        text_line(""@),
        text_line("  > "@ + path_input),
        text_line(""@),
        grey("Press Enter to scan, Esc to cancel"@),
    ]
}

/// The frames of the symbol that turns while a scan runs.
pub open spec fn spinner(n: int) -> Seq<char> {
    if n == 0 {
        "⠋"@
    } else if n == 1 {
        "⠙"@
    } else if n == 2 {
        "⠹"@
    } else if n == 3 {
        "⠸"@
    } else if n == 4 {
        "⠼"@
    } else if n == 5 {
        "⠴"@
    } else if n == 6 {
        "⠦"@
    } else if n == 7 {
        "⠧"@
    } else if n == 8 {
        "⠇"@
    } else {
        "⠏"@
    }
}

/// The screen while a scan runs.
pub open spec fn scanning_lines(scroll_offset: nat) -> Seq<Seq<SpanModel>> {
    seq![
        text_line("\n\n"@),
        title(spinner((scroll_offset % 10) as int) + " Scanning..."@),
        text_line(""@),
        grey("This may take a few seconds depending on codebase size"@),
    ]
}

/// The help.
pub open spec fn help_lines() -> Seq<Seq<SpanModel>> {
    seq![
        title("❓ ntscan Help"@),
        text_line(""@),
        section("About:"@),
        text_line(
            "  Lightning-fast security scanner for C, C++, Python, JavaScript, and Java."@,
        ),
        text_line("  Finds vulnerabilities in ~7 seconds instead of 20 minutes."@),
        text_line(""@),
        section("Quick CLI Usage:"@),
        text_line("  ntscan .                    # Scan current directory"@),
        text_line("  ntscan --quiet .            # Minimal output (CI-friendly)"@),
        text_line("  ntscan --format json .      # JSON output"@),
        text_line("  ntscan --sarif results.sarif .  # SARIF for GitHub"@),
        text_line("  ntscan --tui                # Interactive mode (this menu)"@),
        text_line(""@),
        section("Features:"@),
        text_line("  • Buffer overflow detection"@),
        text_line("  • Null pointer analysis"@),
        text_line("  • Taint tracking for injection bugs"@),
        text_line("  • Cross-function data flow analysis"@),
        text_line(""@),
        grey("Press Esc or q to return to menu"@),
    ]
}

/// How many findings the screen shows at once.
pub const PAGE: usize = 10;

/// The least width of a terminal on which results can be shown.
pub const RESULTS_WIDTH: usize = 50;

/// The name of a severity as results show it.
pub open spec fn severity_name(severity: Severity) -> Seq<char> {
    match severity {
        Severity::Low => "Low"@,
        Severity::Medium => "Medium"@,
        Severity::High => "High"@,
        Severity::Critical => "Critical"@,
    }
}

/// The colour of a severity in results.
pub open spec fn severity_colour(severity: Severity) -> Colour {
    match severity {
        Severity::Critical => Colour::Red,
        Severity::High => Colour::Yellow,
        Severity::Medium => Colour::Blue,
        Severity::Low => Colour::Fixed(240),
    }
}

/// A file's name in results, without its beginning where it is too long.
pub open spec fn short_file(file: Seq<char>, width: int) -> Seq<char> {
    if byte_len(file) > width - 30 {
        "..."@ + slice(file, byte_len(file) - (width - 33), byte_len(file) as int)
    } else {
        file
    }
}

/// A message in results, without its end where it is too long.
pub open spec fn short_message(message: Seq<char>, width: int) -> Seq<char> {
    slice(
        message,
        0,
        if byte_len(message) < width - 50 {
            byte_len(message) as int
        } else {
            width - 50
        },
    )
}

/// Whether the name and the message of a finding that are too long can be cut: between two
/// characters.
pub open spec fn row_fits(f: FindingModel, width: int) -> bool {
    &&& byte_len(f.file) > width - 30 ==> boundary(f.file, byte_len(f.file) - (width - 33))
    &&& byte_len(f.message) >= width - 50 ==> boundary(f.message, width - 50)
}

/// The row of a finding.
pub open spec fn result_row(f: FindingModel, width: int) -> Seq<SpanModel> {
    seq![
        raw("  "@),
        styled(
            in_colour(severity_colour(f.severity)),
            "["@ + severity_name(f.severity) + "]"@,
        ),
        raw(" "@),
        styled(in_colour(Colour::Fixed(240)), short_file(f.file, width)),
        raw(":"@ + decimal(f.line) + " - "@ + short_message(f.message, width)),
    ]
}

/// The findings that are shown: from the first that is not scrolled past, at most a page.
pub open spec fn shown_findings(all: Seq<FindingModel>, scroll_offset: nat) -> Seq<FindingModel> {
    let rest = if scroll_offset <= all.len() {
        all.skip(scroll_offset as int)
    } else {
        Seq::empty()
    };
    if rest.len() <= PAGE {
        rest
    } else {
        rest.take(PAGE as int)
    }
}

/// The rows of the first `n` findings.
pub open spec fn result_rows(shown: Seq<FindingModel>, n: int, width: int) -> Seq<Seq<SpanModel>>
    decreases n,
{
    if n <= 0 {
        Seq::empty()
    } else {
        result_rows(shown, n - 1, width) + seq![result_row(shown[n - 1], width)]
    }
}

/// Whether the results fit the width of a terminal.
pub open spec fn results_fit(all: Seq<FindingModel>, scroll_offset: nat, width: int) -> bool {
    shown_findings(all, scroll_offset).len() > 0 ==> width >= RESULTS_WIDTH && forall|k: int|
        0 <= k < shown_findings(all, scroll_offset).len() ==> row_fits(
            #[trigger] shown_findings(all, scroll_offset)[k],
            width,
        )
}

/// The line with the number of findings of a severity, where there are any.
pub open spec fn count_line(count: nat, colour: Colour, name: Seq<char>) -> Seq<Seq<SpanModel>> {
    if count > 0 {
        seq![seq![raw("  "@), styled(bold_in(colour), "●"@), raw(" "@ + decimal(count) + name)]]
    } else {
        Seq::empty()
    }
}

/// What is shown of findings, where there are any.
pub open spec fn found_lines(all: Seq<FindingModel>, scroll_offset: nat, width: int) -> Seq<
    Seq<SpanModel>,
> {
    let shown = shown_findings(all, scroll_offset);
    count_line(count_of(all, Severity::Critical), Colour::Red, " Critical issues"@) + count_line(
        count_of(all, Severity::High),
        Colour::Yellow,
        " High issues"@,
    ) + count_line(count_of(all, Severity::Medium), Colour::Blue, " Medium issues"@) + seq![
        text_line(""@),
        title("Top Findings:"@),
    ] + result_rows(shown, shown.len() as int, width) + (if all.len() > PAGE {
        seq![
            text_line(
                "  ... and "@ + decimal((all.len() - PAGE) as nat) + " more (scroll with ↑↓)"@,
            ),
        ]
    } else {
        Seq::empty()
    })
}

/// The screen with the results of a scan.
pub open spec fn results_lines(r: ResultsModel, scroll_offset: nat, width: int) -> Seq<
    Seq<SpanModel>,
> {
    seq![
        title("📊 Scan Results"@),
        text_line(""@),
        seq![
            raw("  "@),
            styled(in_colour(Colour::Green), "Scanned"@),
            raw(
                ": "@ + decimal(r.total_files) + " "@ + file_word(r.total_files) + " in "@
                    + r.seconds + "s"@,
            ),
        ],
        text_line(""@),
    ] + (if r.findings.len() == 0 {
        seq![
            seq![
                styled(on_colour(Colour::Black, Colour::Green, true), " ✓ No issues found! "@),
            ],
        ]
    } else {
        found_lines(r.findings, scroll_offset, width)
    }) + seq![
        text_line(""@),
        grey("Controls: r = return to menu, s = save, q = quit, ↑↓ = scroll"@),
    ]
}

/// Whether the screen fits the width of a terminal.
pub open spec fn screen_fits(s: TuiModel, width: int) -> bool {
    s.mode == TuiMode::Results ==> (s.scan_results matches Some(r) ==> results_fit(
        r.findings,
        s.scroll_offset,
        width,
    ))
}

/// The lines of the screen.
pub open spec fn screen(s: TuiModel, width: int) -> Seq<Seq<SpanModel>> {
    match s.mode {
        TuiMode::Menu => menu_lines(s.selected),
        TuiMode::PathInput => path_lines(s.path_input),
        TuiMode::Scanning => scanning_lines(s.scroll_offset),
        TuiMode::Results => match s.scan_results {
            Some(r) => results_lines(r, s.scroll_offset, width),
            None => Seq::empty(),
        },
        TuiMode::Help => help_lines(),
    }
}

fn grey_line(text: &str) -> (r: Vec<Span>)
    ensures
        line_view(r@) == grey(text@),
{
    styled_line(style_in(Colour::Fixed(240)), text)
}

fn cyan_line(text: &str) -> (r: Vec<Span>)
    ensures
        line_view(r@) == cyan(text@),
{
    styled_line(style_in(Colour::Cyan), text)
}

fn title_line(text: &str) -> (r: Vec<Span>)
    ensures
        line_view(r@) == title(text@),
{
    styled_line(style_bold_in(Colour::Cyan), text)
}

fn section_line(text: &str) -> (r: Vec<Span>)
    ensures
        line_view(r@) == section(text@),
{
    styled_line(style_bold(), text)
}

fn item_of_menu(i: usize) -> (r: (&'static str, &'static str))
    ensures
        (r.0@, r.1@) == menu_item(i as int),
{
    if i == 0 {
        ("🚀", "Quick Scan (current directory)")
    } else if i == 1 {
        ("📁", "Scan specific folder")
    } else if i == 2 {
        ("⚙️", "Configure options")
    } else if i == 3 {
        ("❓", "Help / About")
    } else {
        ("🚪", "Exit")
    }
}

fn line_of_menu(i: usize, selected: usize) -> (r: Vec<Span>)
    ensures
        line_view(r@) == menu_line(i as int, selected as nat),
{
    let (icon, text) = item_of_menu(i);
    if i == selected {
        let line = glue4("> ", icon, " ", text);
        styled_line(style_on(Colour::White, Colour::Blue, false), line.as_str())
    } else {
        let line = glue4("  ", icon, " ", text);
        raw_line(line.as_str())
    }
}

fn frame_of_spinner(n: usize) -> (r: &'static str)
    ensures
        r@ == spinner(n as int),
{
    if n == 0 {
        "⠋"
    } else if n == 1 {
        "⠙"
    } else if n == 2 {
        "⠹"
    } else if n == 3 {
        "⠸"
    } else if n == 4 {
        "⠼"
    } else if n == 5 {
        "⠴"
    } else if n == 6 {
        "⠦"
    } else if n == 7 {
        "⠧"
    } else if n == 8 {
        "⠇"
    } else {
        "⠏"
    }
}

fn name_of_severity(severity: Severity) -> (r: &'static str)
    ensures
        r@ == severity_name(severity),
{
    match severity {
        Severity::Low => "Low",
        Severity::Medium => "Medium",
        Severity::High => "High",
        Severity::Critical => "Critical",
    }
}

fn colour_of_severity(severity: Severity) -> (r: Colour)
    ensures
        r == severity_colour(severity),
{
    match severity {
        Severity::Critical => Colour::Red,
        Severity::High => Colour::Yellow,
        Severity::Medium => Colour::Blue,
        Severity::Low => Colour::Fixed(240),
    }
}

fn row_of(f: &Finding, width: usize) -> (r: Vec<Span>)
    requires
        width >= RESULTS_WIDTH,
        row_fits(f@, width as int),
    ensures
        line_view(r@) == result_row(f@, width as int),
{
    let file = f.file.as_str();
    let message = f.message.as_str();
    proof {
        encode_utf8_valid_utf8(file@);
        is_char_boundary_start_end_of_seq(encode_utf8(file@));
        encode_utf8_valid_utf8(message@);
        is_char_boundary_start_end_of_seq(encode_utf8(message@));
    }
    let n: usize = file.as_bytes().len();
    let short = if n > width - 30 {
        let tail = slice_of(file, n - (width - 33), n);
        glue("...", tail)
    } else {
        file.to_owned()
    };
    let m: usize = message.as_bytes().len();
    let end: usize = if m < width - 50 {
        m
    } else {
        width - 50
    };
    let cut = slice_of(message, 0, end);
    let tag = glue3("[", name_of_severity(f.severity), "]");
    let rest = glue4(":", decimal_text(f.line).as_str(), " - ", cut);
    let mut line: Vec<Span> = Vec::new();
    line.push(raw_span("  "));
    line.push(span(style_in(colour_of_severity(f.severity)), tag.as_str()));
    line.push(raw_span(" "));
    line.push(span(style_in(Colour::Fixed(240)), short.as_str()));
    line.push(raw_span(rest.as_str()));
    assert(line_view(line@) =~= result_row(f@, width as int));
    line
}

fn line_of_count(count: usize, colour: Colour, name: &str) -> (r: Vec<Vec<Span>>)
    ensures
        page_view(r@) == count_line(count as nat, colour, name@),
{
    let mut lines: Vec<Vec<Span>> = Vec::new();
    if count > 0 {
        let rest = glue3(" ", decimal_text(count).as_str(), name);
        let mut line: Vec<Span> = Vec::new();
        line.push(raw_span("  "));
        line.push(span(style_bold_in(colour), "●"));
        line.push(raw_span(rest.as_str()));
        assert(line_view(line@) =~= count_line(count as nat, colour, name@)[0]);
        lines.push(line);
    }
    assert(page_view(lines@) =~= count_line(count as nat, colour, name@));
    lines
}

fn first_shown(findings: &Vec<Finding>, scroll_offset: usize) -> (r: (usize, usize))
    ensures
        r.0 <= r.1 <= findings@.len(),
        shown_findings(views(findings@), scroll_offset as nat) == views(findings@).subrange(
            r.0 as int,
            r.1 as int,
        ),
{
    let n: usize = findings.len();
    let ghost all = views(findings@);
    assert(all.len() == n);
    if scroll_offset >= n {
        assert(shown_findings(all, scroll_offset as nat) =~= all.subrange(n as int, n as int));
        (n, n)
    } else if n - scroll_offset <= PAGE {
        assert(shown_findings(all, scroll_offset as nat) =~= all.subrange(
            scroll_offset as int,
            n as int,
        ));
        (scroll_offset, n)
    } else {
        assert(shown_findings(all, scroll_offset as nat) =~= all.subrange(
            scroll_offset as int,
            scroll_offset + PAGE,
        ));
        (scroll_offset, scroll_offset + PAGE)
    }
}

fn rows_of(findings: &Vec<Finding>, scroll_offset: usize, width: usize) -> (r: Vec<Vec<Span>>)
    requires
        results_fit(views(findings@), scroll_offset as nat, width as int),
    ensures
        page_view(r@) == result_rows(
            shown_findings(views(findings@), scroll_offset as nat),
            shown_findings(views(findings@), scroll_offset as nat).len() as int,
            width as int,
        ),
{
    let ghost all = views(findings@);
    let ghost shown = shown_findings(all, scroll_offset as nat);
    let (from, to) = first_shown(findings, scroll_offset);
    let mut lines: Vec<Vec<Span>> = Vec::new();
    assert(page_view(lines@) =~= Seq::<Seq<SpanModel>>::empty());
    let mut k: usize = from;
    while k < to
        invariant
            from <= k <= to,
            to <= findings@.len(),
            all == views(findings@),
            shown == all.subrange(from as int, to as int),
            shown == shown_findings(all, scroll_offset as nat),
            results_fit(all, scroll_offset as nat, width as int),
            page_view(lines@) == result_rows(shown, k - from, width as int),
        decreases to - k,
    {
        assert(shown[k - from] == findings@[k as int]@);
        assert(row_fits(shown[k - from], width as int));
        add_line(&mut lines, row_of(&findings[k], width));
        k = k + 1;
    }
    lines
}

fn lines_of_found(findings: &Vec<Finding>, scroll_offset: usize, width: usize) -> (r: Vec<Vec<Span>>)
    requires
        results_fit(views(findings@), scroll_offset as nat, width as int),
    ensures
        page_view(r@) == found_lines(views(findings@), scroll_offset as nat, width as int),
{
    let n: usize = findings.len();
    assert(views(findings@).len() == n);
    let mut lines = line_of_count(
        count_severity(findings, Severity::Critical),
        Colour::Red,
        " Critical issues",
    );
    add_lines(
        &mut lines,
        line_of_count(count_severity(findings, Severity::High), Colour::Yellow, " High issues"),
    );
    add_lines(
        &mut lines,
        line_of_count(count_severity(findings, Severity::Medium), Colour::Blue, " Medium issues"),
    );
    add_line(&mut lines, raw_line(""));
    add_line(&mut lines, title_line("Top Findings:"));
    let ghost counts = count_line(
        count_of(views(findings@), Severity::Critical),
        Colour::Red,
        " Critical issues"@,
    ) + count_line(
        count_of(views(findings@), Severity::High),
        Colour::Yellow,
        " High issues"@,
    ) + count_line(
        count_of(views(findings@), Severity::Medium),
        Colour::Blue,
        " Medium issues"@,
    );
    assert(page_view(lines@) =~= counts + seq![text_line(""@), title("Top Findings:"@)]);
    add_lines(&mut lines, rows_of(findings, scroll_offset, width));
    let mut more: Vec<Vec<Span>> = Vec::new();
    if n > PAGE {
        let text = glue3("  ... and ", decimal_text(n - PAGE).as_str(), " more (scroll with ↑↓)");
        more.push(raw_line(text.as_str()));
    }
    assert(page_view(more@) =~= if n > PAGE {
        seq![
            text_line(
                "  ... and "@ + decimal((n - PAGE) as nat) + " more (scroll with ↑↓)"@,
            ),
        ]
    } else {
        Seq::empty()
    });
    add_lines(&mut lines, more);
    lines
}

fn fits_results(findings: &Vec<Finding>, scroll_offset: usize, width: usize) -> (r: bool)
    ensures
        r == results_fit(views(findings@), scroll_offset as nat, width as int),
{
    let ghost all = views(findings@);
    let ghost shown = shown_findings(all, scroll_offset as nat);
    let (from, to) = first_shown(findings, scroll_offset);
    if from == to {
        return true;
    }
    if width < RESULTS_WIDTH {
        return false;
    }
    let mut k: usize = from;
    while k < to
        invariant
            from <= k <= to,
            to <= findings@.len(),
            all == views(findings@),
            shown == all.subrange(from as int, to as int),
            shown == shown_findings(all, scroll_offset as nat),
            width >= RESULTS_WIDTH,
            forall|j: int| 0 <= j < k - from ==> row_fits(#[trigger] shown[j], width as int),
        decreases to - k,
    {
        let f = &findings[k];
        assert(shown[k - from] == f@);
        let n: usize = f.file.as_str().as_bytes().len();
        if n > width - 30 && !f.file.as_str().is_char_boundary(n - (width - 33)) {
            assert(!row_fits(shown[k - from], width as int));
            return false;
        }
        let m: usize = f.message.as_str().as_bytes().len();
        if m >= width - 50 && !f.message.as_str().is_char_boundary(width - 50) {
            assert(!row_fits(shown[k - from], width as int));
            return false;
        }
        assert(row_fits(shown[k - from], width as int));
        k = k + 1;
    }
    true
}

impl TuiApp {
    /// Whether the screen fits the width of a terminal.
    pub fn fits(&self, width: usize) -> (r: bool)
        ensures
            r == screen_fits(self@, width as int),
    {
        if self.mode != TuiMode::Results {
            return true;
        }
        match &self.scan_results {
            Some(results) => fits_results(&results.findings, self.scroll_offset, width),
            None => true,
        }
    }

    /// The lines of the screen as a terminal is sent them, each to be printed on a line of its own.
    pub fn draw(&self, width: usize) -> (r: Vec<String>)
        requires
            screen_fits(self@, width as int),
        ensures
            strings(r@) == sent_page(screen(self@, width as int)),
    {
        render(&self.lay_out(width))
    }

    /// The lines of the screen, in their styles.
    pub fn lay_out(&self, width: usize) -> (r: Vec<Vec<Span>>)
        requires
            screen_fits(self@, width as int),
        ensures
            page_view(r@) == screen(self@, width as int),
    {
        match self.mode {
            TuiMode::Menu => self.draw_menu(),
            TuiMode::PathInput => self.draw_path_input(),
            TuiMode::Scanning => self.draw_scanning(),
            TuiMode::Results => match &self.scan_results {
                Some(results) => Self::draw_results(results, self.scroll_offset, width),
                None => {
                    let lines: Vec<Vec<Span>> = Vec::new();
                    assert(page_view(lines@) =~= Seq::<Seq<SpanModel>>::empty());
                    lines
                },
            },
            TuiMode::Help => Self::draw_help(),
        }
    }

    /// The menu.
    pub fn draw_menu(&self) -> (r: Vec<Vec<Span>>)
        ensures
            page_view(r@) == menu_lines(self@.selected),
    {
        let mut lines: Vec<Vec<Span>> = Vec::new();
        lines.push(cyan_line("╔══════════════════════════════════════════╗"));
        lines.push(cyan_line("║        ntscan - Security Scanner         ║"));
        lines.push(cyan_line("╚══════════════════════════════════════════╝"));
        lines.push(raw_line(""));
        lines.push(line_of_menu(0, self.selected));
        lines.push(line_of_menu(1, self.selected));
        lines.push(line_of_menu(2, self.selected));
        lines.push(line_of_menu(3, self.selected));
        lines.push(line_of_menu(4, self.selected));
        lines.push(raw_line(""));
        lines.push(grey_line("Controls: ↑↓ to navigate, Enter to select, q to quit"));
        lines.push(grey_line("CLI: ntscan [path] [--flags]"));
        assert(page_view(lines@) =~= menu_lines(self@.selected));
        lines
    }

    /// The screen on which a path is typed.
    pub fn draw_path_input(&self) -> (r: Vec<Vec<Span>>)
        ensures
            page_view(r@) == path_lines(self@.path_input),
    {
        let mut lines: Vec<Vec<Span>> = Vec::new();
        lines.push(title_line("📁 Scan Specific Folder"));
        lines.push(raw_line(""));
        lines.push(raw_line("Enter path to scan:"));
        lines.push(raw_line(""));
        let typed = glue("  > ", self.path_input.as_str());
        lines.push(raw_line(typed.as_str()));
        lines.push(raw_line(""));
        lines.push(grey_line("Press Enter to scan, Esc to cancel"));
        assert(page_view(lines@) =~= path_lines(self@.path_input));
        lines
    }

    /// The screen while a scan runs.
    pub fn draw_scanning(&self) -> (r: Vec<Vec<Span>>)
        ensures
            page_view(r@) == scanning_lines(self@.scroll_offset),
    {
        let text = glue(frame_of_spinner(self.scroll_offset % 10), " Scanning...");
        let mut lines: Vec<Vec<Span>> = Vec::new();
        lines.push(raw_line("\n\n"));
        lines.push(title_line(text.as_str()));
        lines.push(raw_line(""));
        lines.push(grey_line("This may take a few seconds depending on codebase size"));
        assert(page_view(lines@) =~= scanning_lines(self@.scroll_offset));
        lines
    }

    /// The screen with the results of a scan.
    pub fn draw_results(results: &ScanResults, scroll_offset: usize, width: usize) -> (r: Vec<
        Vec<Span>,
    >)
        requires
            results_fit(results@.findings, scroll_offset as nat, width as int),
        ensures
            page_view(r@) == results_lines(results@, scroll_offset as nat, width as int),
    {
        let total: usize = results.total_files;
        assert(results@.findings.len() == results.findings@.len());
        let mut scanned = glue4(": ", decimal_text(total).as_str(), " ", word_for_files(total));
        scanned.append(" in ");
        scanned.append(results.seconds.as_str());
        scanned.append("s");
        let mut third: Vec<Span> = Vec::new();
        third.push(raw_span("  "));
        third.push(span(style_in(Colour::Green), "Scanned"));
        third.push(raw_span(scanned.as_str()));
        let ghost expected = seq![
            title("📊 Scan Results"@),
            text_line(""@),
            seq![
                raw("  "@),
                styled(in_colour(Colour::Green), "Scanned"@),
                raw(scanned@),
            ],
            text_line(""@),
        ];
        assert(line_view(third@) =~= expected[2]);
        let mut lines: Vec<Vec<Span>> = Vec::new();
        lines.push(title_line("📊 Scan Results"));
        lines.push(raw_line(""));
        lines.push(third);
        lines.push(raw_line(""));
        assert(page_view(lines@) =~= expected);
        if results.findings.len() == 0 {
            add_line(
                &mut lines,
                styled_line(style_on(Colour::Black, Colour::Green, true), " ✓ No issues found! "),
            );
        } else {
            add_lines(&mut lines, lines_of_found(&results.findings, scroll_offset, width));
        }
        let mut end: Vec<Vec<Span>> = Vec::new();
        end.push(raw_line(""));
        end.push(grey_line("Controls: r = return to menu, s = save, q = quit, ↑↓ = scroll"));
        assert(page_view(end@) =~= seq![
            text_line(""@),
            grey("Controls: r = return to menu, s = save, q = quit, ↑↓ = scroll"@),
        ]);
        add_lines(&mut lines, end);
        lines
    }

    /// The help.
    pub fn draw_help() -> (r: Vec<Vec<Span>>)
        ensures
            page_view(r@) == help_lines(),
    {
        let mut lines: Vec<Vec<Span>> = Vec::new();
        lines.push(title_line("❓ ntscan Help"));
        lines.push(raw_line(""));
        lines.push(section_line("About:"));
        lines.push(raw_line("  Lightning-fast security scanner for C, C++, Python, JavaScript, and Java."));
        lines.push(raw_line("  Finds vulnerabilities in ~7 seconds instead of 20 minutes."));
        lines.push(raw_line(""));
        lines.push(section_line("Quick CLI Usage:"));
        lines.push(raw_line("  ntscan .                    # Scan current directory"));
        lines.push(raw_line("  ntscan --quiet .            # Minimal output (CI-friendly)"));
        lines.push(raw_line("  ntscan --format json .      # JSON output"));
        lines.push(raw_line("  ntscan --sarif results.sarif .  # SARIF for GitHub"));
        lines.push(raw_line("  ntscan --tui                # Interactive mode (this menu)"));
        lines.push(raw_line(""));
        lines.push(section_line("Features:"));
        lines.push(raw_line("  • Buffer overflow detection"));
        lines.push(raw_line("  • Null pointer analysis"));
        lines.push(raw_line("  • Taint tracking for injection bugs"));
        lines.push(raw_line("  • Cross-function data flow analysis"));
        lines.push(raw_line(""));
        lines.push(grey_line("Press Esc or q to return to menu"));
        assert(page_view(lines@) =~= help_lines());
        lines
    }
}

} // verus!
