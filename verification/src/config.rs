//! Options of a scan, and the file that sets them.
use vstd::prelude::*;

use crate::finding::{optional_text, Severity};
use crate::text::{join, joined, same, strings};

verus! {

/// What a configuration file sets; what it leaves out is `None`.
pub struct Config {
    pub extensions: Option<Vec<String>>,
    pub severity: Option<String>,
    pub threads: Option<usize>,
    pub ignore: Option<Vec<String>>,
    pub format: Option<String>,
}

/// The options of a scan that a configuration file can set.
pub struct ScanOptions {
    pub extensions: String,
    pub severity: String,
    pub threads: usize,
    pub format: String,
}

/// The contents of options.
#[verifier::ext_equal]
pub struct OptionsModel {
    pub extensions: Seq<char>,
    pub severity: Seq<char>,
    pub threads: nat,
    pub format: Seq<char>,
}

impl View for ScanOptions {
    type V = OptionsModel;

    open spec fn view(&self) -> OptionsModel {
        OptionsModel {
            extensions: self.extensions@,
            severity: self.severity@,
            threads: self.threads as nat,
            format: self.format@,
        }
    }
}

/// The extensions that are scanned where nothing else is said.
pub open spec fn default_extensions() -> Seq<char> {
    "c,cpp,h,hpp,java,cs,py,js,ts,go,rs,rb"@
}

/// The options where nothing is said.
pub open spec fn default_options() -> OptionsModel {
    OptionsModel {
        extensions: default_extensions(),
        severity: "low"@,
        threads: 0,
        format: "text"@,
    }
}

/// What a configuration file sets an option to that has its default value; any other value, which
/// comes from the command line, stays.
pub open spec fn overridden<T>(value: T, default: T, set: Option<T>) -> T {
    if value == default && set is Some {
        set->0
    } else {
        value
    }
}

/// The extensions that a configuration file lists, as one text.
pub open spec fn listed_extensions(list: Option<Vec<String>>) -> Option<Seq<char>> {
    match list {
        Some(v) => Some(join(strings(v@), ","@)),
        None => None,
    }
}

/// The number that an optional number holds.
pub open spec fn optional_number(n: Option<usize>) -> Option<nat> {
    match n {
        Some(k) => Some(k as nat),
        None => None,
    }
}

/// The options with what a configuration file sets.
pub open spec fn configured(options: OptionsModel, config: Config) -> OptionsModel {
    OptionsModel {
        extensions: overridden(
            options.extensions,
            default_extensions(),
            listed_extensions(config.extensions),
        ),
        severity: overridden(options.severity, "low"@, optional_text(config.severity)),
        threads: overridden(options.threads, 0, optional_number(config.threads)),
        format: overridden(options.format, "text"@, optional_text(config.format)),
    }
}

impl ScanOptions {
    /// The options where nothing is said.
    pub fn new() -> (r: ScanOptions)
        ensures
            r@ == default_options(),
    {
        ScanOptions {
            extensions: "c,cpp,h,hpp,java,cs,py,js,ts,go,rs,rb".to_owned(),
            severity: "low".to_owned(),
            threads: 0,
            format: "text".to_owned(),
        }
    }

    /// The options with what a configuration file sets.
    pub fn with_config(self, config: &Config) -> (r: ScanOptions)
        ensures
            r@ == configured(self@, *config),
    {
        let mut extensions = self.extensions;
        if same(extensions.as_str(), "c,cpp,h,hpp,java,cs,py,js,ts,go,rs,rb") {
            if let Some(list) = &config.extensions {
                extensions = joined(list, ",");
            }
        }
        let mut severity = self.severity;
        if same(severity.as_str(), "low") {
            if let Some(s) = &config.severity {
                severity = s.clone();
            }
        }
        let mut threads: usize = self.threads;
        if threads == 0 {
            if let Some(n) = config.threads {
                threads = n;
            }
        }
        let mut format = self.format;
        if same(format.as_str(), "text") {
            if let Some(f) = &config.format {
                format = f.clone();
            }
        }
        ScanOptions { extensions, severity, threads, format }
    }
}

/// The file that is read for options where none is named.
pub open spec fn config_file(named: Option<Seq<char>>) -> Seq<char> {
    match named {
        Some(path) => path,
        None => ".ntscan.toml"@,
    }
}

/// The file that is read for options.
pub fn config_path(named: Option<String>) -> (r: String)
    ensures
        r@ == config_file(optional_text(named)),
{
    match named {
        Some(path) => path,
        None => ".ntscan.toml".to_owned(),
    }
}

/// The least severity that is reported, by its name; any other name stands for the lowest.
pub open spec fn severity_floor(name: Seq<char>) -> Severity {
    if name == "critical"@ {
        Severity::Critical
    } else if name == "high"@ {
        Severity::High
    } else if name == "medium"@ {
        Severity::Medium
    } else {
        Severity::Low
    }
}

/// The least severity that is reported, by its name.
pub fn min_severity(name: &str) -> (r: Severity)
    ensures
        r == severity_floor(name@),
{
    if same(name, "critical") {
        Severity::Critical
    } else if same(name, "high") {
        Severity::High
    } else if same(name, "medium") {
        Severity::Medium
    } else {
        Severity::Low
    }
}

/// What the command line sets stays, whatever a configuration file sets.
pub proof fn command_line_wins(options: OptionsModel, config: Config)
    ensures
        options.extensions != default_extensions() ==> configured(options, config).extensions
            == options.extensions,
        options.severity != "low"@ ==> configured(options, config).severity == options.severity,
        options.threads != 0 ==> configured(options, config).threads == options.threads,
        options.format != "text"@ ==> configured(options, config).format == options.format,
{
}

/// A configuration file that sets nothing changes nothing.
pub proof fn empty_config_changes_nothing(options: OptionsModel, config: Config)
    requires
        config.extensions is None,
        config.severity is None,
        config.threads is None,
        config.format is None,
    ensures
        configured(options, config) == options,
{
}

} // verus!
