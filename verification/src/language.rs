//! The languages that the scanner knows, and what it knows of each.
use vstd::prelude::*;
use vstd::utf8::is_ascii_chars;

use crate::finding::Severity;
use crate::outside::{ascii_lower, grammar_loads, loads_grammar, lowercase, to_lowercase};
use crate::syntax::Grammar;
use crate::text::{same, texts};

verus! {

/// A programming language.
#[derive(Clone, Copy, Debug, PartialEq, Eq, Hash, Structural)]
pub enum Language {
    C,
    Cpp,
    Java,
    CSharp,
    Python,
    JavaScript,
    TypeScript,
    Go,
    Rust,
    Ruby,
}

/// A function to watch for: its name, how bad a call of it is, and what to do instead.
pub type Watched = (&'static str, Severity, &'static str);

/// The contents of a table of functions to watch for.
pub open spec fn table(v: Seq<(&str, Severity, &str)>) -> Seq<(Seq<char>, Severity, Seq<char>)> {
    Seq::new(v.len(), |i: int| (v[i].0@, v[i].1, v[i].2@))
}

/// The language whose files have the given extension, in lower case.
pub open spec fn language_of(ext: Seq<char>) -> Option<Language> {
    if ext == "c"@ {
        Some(Language::C)
    } else if ext == "cpp"@ || ext == "cc"@ || ext == "cxx"@ || ext == "c++"@ || ext == "hpp"@ || ext
        == "h"@ {
        Some(Language::Cpp)
    } else if ext == "java"@ {
        Some(Language::Java)
    } else if ext == "cs"@ {
        Some(Language::CSharp)
    } else if ext == "py"@ || ext == "pyw"@ {
        Some(Language::Python)
    } else if ext == "js"@ || ext == "jsx"@ {
        Some(Language::JavaScript)
    } else if ext == "ts"@ || ext == "tsx"@ {
        Some(Language::TypeScript)
    } else if ext == "go"@ {
        Some(Language::Go)
    } else if ext == "rs"@ {
        Some(Language::Rust)
    } else if ext == "rb"@ {
        Some(Language::Ruby)
    } else {
        None
    }
}

/// An extension of ASCII characters in lower case.
pub open spec fn ascii_lowered(ext: Seq<char>) -> Seq<char> {
    ext.map_values(|c: char| ascii_lower(c))
}

/// The language whose files have the extension `ext`, which is in lower case.
pub fn from_lowercase_extension(ext: &str) -> (r: Option<Language>)
    ensures
        r == language_of(ext@),
{
    if same(ext, "c") {
        Some(Language::C)
    } else if same(ext, "cpp") || same(ext, "cc") || same(ext, "cxx") || same(ext, "c++") || same(
        ext,
        "hpp",
    ) || same(ext, "h") {
        Some(Language::Cpp)
    } else if same(ext, "java") {
        Some(Language::Java)
    } else if same(ext, "cs") {
        Some(Language::CSharp)
    } else if same(ext, "py") || same(ext, "pyw") {
        Some(Language::Python)
    } else if same(ext, "js") || same(ext, "jsx") {
        Some(Language::JavaScript)
    } else if same(ext, "ts") || same(ext, "tsx") {
        Some(Language::TypeScript)
    } else if same(ext, "go") {
        Some(Language::Go)
    } else if same(ext, "rs") {
        Some(Language::Rust)
    } else if same(ext, "rb") {
        Some(Language::Ruby)
    } else {
        None
    }
}

impl Language {
    /// The language whose files have the extension `ext`, in capitals or not.
    pub fn from_extension(ext: &str) -> (r: Option<Language>)
        ensures
            r == language_of(lowercase(ext@)),
            is_ascii_chars(ext@) ==> r == language_of(ascii_lowered(ext@)),
    {
        let lower = to_lowercase(ext);
        assert(ext@.map_values(|c: char| ascii_lower(c)) =~= ascii_lowered(ext@));
        from_lowercase_extension(&lower)
    }

    /// The grammar for a language, for those that have one.
    pub open spec fn grammar(self) -> Option<Grammar> {
        match self {
            Language::C | Language::Cpp => Some(Grammar::C),
            Language::Python => Some(Grammar::Python),
            Language::Java => Some(Grammar::Java),
            Language::JavaScript | Language::TypeScript => Some(Grammar::JavaScript),
            _ => None,
        }
    }

    /// The grammar to parse the language with, where there is one and the parser takes it.
    pub fn get_parser(&self) -> (r: Option<Grammar>)
        ensures
            r == match self.grammar() {
                Some(g) => if grammar_loads(g) {
                    Some(g)
                } else {
                    None
                },
                None => None,
            },
    {
        let grammar = match self {
            Language::C | Language::Cpp => Grammar::C,
            Language::Python => Grammar::Python,
            Language::Java => Grammar::Java,
            Language::JavaScript | Language::TypeScript => Grammar::JavaScript,
            _ => return None,
        };
        if loads_grammar(grammar) {
            Some(grammar)
        } else {
            None
        }
    }

    /// The functions that are dangerous to call.
    pub open spec fn dangerous_functions(self) -> Seq<(Seq<char>, Severity, Seq<char>)> {
        match self {
            Language::C | Language::Cpp => seq![
                ("strcpy"@, Severity::Critical, "Use strncpy(dest, src, sizeof(dest)-1)"@),
                ("strcat"@, Severity::Critical, "Use strncat(dest, src, remaining)"@),
                ("sprintf"@, Severity::Critical, "Use snprintf(buf, sizeof(buf), ...)"@),
                ("gets"@, Severity::Critical, "Use fgets(buf, sizeof(buf), stdin)"@),
                ("wcscpy"@, Severity::Critical, "Use wcsncpy"@),
                ("memcpy"@, Severity::High, "Verify size <= destination buffer"@),
                ("memset"@, Severity::Medium, "Verify size is correct"@),
                ("system"@, Severity::Critical, "Avoid system() - use execve() with full path"@),
                ("popen"@, Severity::Critical, "Validate command input thoroughly"@),
                ("scanf"@, Severity::High, "Use scanf_s or validate format string"@),
            ],
            Language::Java => seq![
                ("exec"@, Severity::Critical, "Validate command, use ProcessBuilder with array"@),
                ("eval"@, Severity::Critical, "Never eval user input - use sandboxing"@),
                ("Runtime.getRuntime"@, Severity::High, "Validate external commands"@),
                (
                    "ObjectInputStream"@,
                    Severity::Critical,
                    "Deserialize only trusted data (prevent RCE)"@,
                ),
                ("readObject"@, Severity::Critical, "Implement look-ahead deserialization"@),
            ],
            Language::Python => seq![
                ("eval"@, Severity::Critical, "Never eval user input - use ast.literal_eval"@),
                ("exec"@, Severity::Critical, "Never exec user input - massive RCE risk"@),
                ("subprocess.call"@, Severity::High, "Use list args, not shell=True"@),
                ("os.system"@, Severity::Critical, "Use subprocess with array, no shell"@),
                ("pickle.loads"@, Severity::Critical, "Only unpickle trusted data"@),
                ("yaml.load"@, Severity::Critical, "Use yaml.safe_load, not load"@),
            ],
            Language::JavaScript | Language::TypeScript => seq![
                ("eval"@, Severity::Critical, "Never eval user input"@),
                ("Function"@, Severity::Critical, "Never construct functions from user input"@),
                ("setTimeout"@, Severity::High, "Don't pass strings, use function references"@),
                ("setInterval"@, Severity::High, "Don't pass strings, use function references"@),
                ("innerHTML"@, Severity::High, "Use textContent or sanitized HTML"@),
                ("document.write"@, Severity::High, "Use DOM methods instead"@),
            ],
            _ => Seq::empty(),
        }
    }

    /// The functions that are dangerous to call.
    pub fn get_dangerous_functions(&self) -> (r: Vec<Watched>)
        ensures
            table(r@) == self.dangerous_functions(),
    {
        let r: Vec<Watched> = match self {
            Language::C | Language::Cpp => vec![
                ("strcpy", Severity::Critical, "Use strncpy(dest, src, sizeof(dest)-1)"),
                ("strcat", Severity::Critical, "Use strncat(dest, src, remaining)"),
                ("sprintf", Severity::Critical, "Use snprintf(buf, sizeof(buf), ...)"),
                ("gets", Severity::Critical, "Use fgets(buf, sizeof(buf), stdin)"),
                ("wcscpy", Severity::Critical, "Use wcsncpy"),
                ("memcpy", Severity::High, "Verify size <= destination buffer"),
                ("memset", Severity::Medium, "Verify size is correct"),
                ("system", Severity::Critical, "Avoid system() - use execve() with full path"),
                ("popen", Severity::Critical, "Validate command input thoroughly"),
                ("scanf", Severity::High, "Use scanf_s or validate format string"),
            ],
            Language::Java => vec![
                ("exec", Severity::Critical, "Validate command, use ProcessBuilder with array"),
                ("eval", Severity::Critical, "Never eval user input - use sandboxing"),
                ("Runtime.getRuntime", Severity::High, "Validate external commands"),
                (
                    "ObjectInputStream",
                    Severity::Critical,
                    "Deserialize only trusted data (prevent RCE)",
                ),
                ("readObject", Severity::Critical, "Implement look-ahead deserialization"),
            ],
            Language::Python => vec![
                ("eval", Severity::Critical, "Never eval user input - use ast.literal_eval"),
                ("exec", Severity::Critical, "Never exec user input - massive RCE risk"),
                ("subprocess.call", Severity::High, "Use list args, not shell=True"),
                ("os.system", Severity::Critical, "Use subprocess with array, no shell"),
                ("pickle.loads", Severity::Critical, "Only unpickle trusted data"),
                ("yaml.load", Severity::Critical, "Use yaml.safe_load, not load"),
            ],
            Language::JavaScript | Language::TypeScript => vec![
                ("eval", Severity::Critical, "Never eval user input"),
                ("Function", Severity::Critical, "Never construct functions from user input"),
                ("setTimeout", Severity::High, "Don't pass strings, use function references"),
                ("setInterval", Severity::High, "Don't pass strings, use function references"),
                ("innerHTML", Severity::High, "Use textContent or sanitized HTML"),
                ("document.write", Severity::High, "Use DOM methods instead"),
            ],
            _ => Vec::new(),
        };
        assert(table(r@) =~= self.dangerous_functions());
        r
    }

    /// The calls that allocate memory or open a resource.
    pub open spec fn alloc_functions(self) -> Seq<Seq<char>> {
        match self {
            Language::C | Language::Cpp => seq![
                "malloc"@,
                "calloc"@,
                "realloc"@,
                "strdup"@,
                "strndup"@,
            ],
            Language::Java => seq!["new "@, "FileInputStream"@, "ObjectInputStream"@, "Socket"@],
            Language::Python => seq!["open("@, "socket."@, "subprocess."@],
            Language::JavaScript | Language::TypeScript => seq![
                "new "@,
                "fetch("@,
                "XMLHttpRequest"@,
            ],
            _ => Seq::empty(),
        }
    }

    /// The calls that allocate memory or open a resource.
    pub fn get_alloc_functions(&self) -> (r: Vec<&'static str>)
        ensures
            texts(r@) == self.alloc_functions(),
    {
        let r: Vec<&'static str> = match self {
            Language::C | Language::Cpp => vec!["malloc", "calloc", "realloc", "strdup", "strndup"],
            Language::Java => vec!["new ", "FileInputStream", "ObjectInputStream", "Socket"],
            Language::Python => vec!["open(", "socket.", "subprocess."],
            Language::JavaScript | Language::TypeScript => vec!["new ", "fetch(", "XMLHttpRequest"],
            _ => Vec::new(),
        };
        assert(texts(r@) =~= self.alloc_functions());
        r
    }

    /// The expressions through which user input enters a program.
    pub open spec fn taint_sources(self) -> Seq<Seq<char>> {
        match self {
            Language::C | Language::Cpp => seq![
                "scanf"@,
                "fgets"@,
                "read"@,
                "recv"@,
                "getenv"@,
                "argv["@,
                "fread"@,
            ],
            Language::Java => seq![
                "getParameter"@,
                "getHeader"@,
                "getInputStream"@,
                "getReader"@,
                "System.getenv"@,
                "System.getProperty"@,
                "BufferedReader.read"@,
            ],
            Language::Python => seq![
                "input("@,
                "sys.argv"@,
                "os.environ"@,
                "request."@,
                "socket.recv"@,
            ],
            Language::JavaScript | Language::TypeScript => seq![
                "req.query"@,
                "req.body"@,
                "req.params"@,
                "req.headers"@,
                "localStorage"@,
                "sessionStorage"@,
                "document.cookie"@,
                "window.location"@,
            ],
            _ => Seq::empty(),
        }
    }

    /// The expressions through which user input enters a program.
    pub fn get_taint_sources(&self) -> (r: Vec<&'static str>)
        ensures
            texts(r@) == self.taint_sources(),
    {
        let r: Vec<&'static str> = match self {
            Language::C | Language::Cpp => vec![
                "scanf",
                "fgets",
                "read",
                "recv",
                "getenv",
                "argv[",
                "fread",
            ],
            Language::Java => vec![
                "getParameter",
                "getHeader",
                "getInputStream",
                "getReader",
                "System.getenv",
                "System.getProperty",
                "BufferedReader.read",
            ],
            Language::Python => vec![
                "input(",
                "sys.argv",
                "os.environ",
                "request.",
                "socket.recv",
            ],
            Language::JavaScript | Language::TypeScript => vec![
                "req.query",
                "req.body",
                "req.params",
                "req.headers",
                "localStorage",
                "sessionStorage",
                "document.cookie",
                "window.location",
            ],
            _ => Vec::new(),
        };
        assert(texts(r@) =~= self.taint_sources());
        r
    }

    /// The functions that must not get user input.
    pub open spec fn taint_sinks(self) -> Seq<Seq<char>> {
        match self {
            Language::C | Language::Cpp => seq![
                "system"@,
                "popen"@,
                "exec"@,
                "eval"@,
                "sprintf"@,
                "strcpy"@,
            ],
            Language::Java => seq!["exec"@, "eval"@, "Runtime.exec"@, "ProcessBuilder"@],
            Language::Python => seq![
                "eval"@,
                "exec"@,
                "os.system"@,
                "subprocess.call"@,
                "subprocess.Popen"@,
            ],
            Language::JavaScript | Language::TypeScript => seq![
                "eval"@,
                "Function"@,
                "exec"@,
                "innerHTML"@,
            ],
            _ => Seq::empty(),
        }
    }

    /// The functions that must not get user input.
    pub fn get_taint_sinks(&self) -> (r: Vec<&'static str>)
        ensures
            texts(r@) == self.taint_sinks(),
    {
        let r: Vec<&'static str> = match self {
            Language::C | Language::Cpp => vec![
                "system",
                "popen",
                "exec",
                "eval",
                "sprintf",
                "strcpy",
            ],
            Language::Java => vec!["exec", "eval", "Runtime.exec", "ProcessBuilder"],
            Language::Python => vec![
                "eval",
                "exec",
                "os.system",
                "subprocess.call",
                "subprocess.Popen",
            ],
            Language::JavaScript | Language::TypeScript => vec![
                "eval",
                "Function",
                "exec",
                "innerHTML",
            ],
            _ => Vec::new(),
        };
        assert(texts(r@) =~= self.taint_sinks());
        r
    }
}

/// An extension of ASCII characters and its lower case form give the same language.
pub proof fn capitals_do_not_matter(ext: Seq<char>)
    requires
        is_ascii_chars(ext),
    ensures
        is_ascii_chars(ascii_lowered(ext)),
        language_of(ascii_lowered(ascii_lowered(ext))) == language_of(ascii_lowered(ext)),
{
    let lower = ascii_lowered(ext);
    assert forall|i: int| 0 <= i < lower.len() implies '\0' <= #[trigger] lower[i] <= '\u{7f}' by {
        assert(lower[i] == ascii_lower(ext[i]));
        assert('\0' <= ext[i] <= '\u{7f}');
    }
    assert(ascii_lowered(lower) =~= lower);
}

/// An extension and its lower case form give the same language, wherever the lower case form is its
/// own lower case form.
pub proof fn lower_case_form_gives_the_same(ext: Seq<char>)
    requires
        lowercase(lowercase(ext)) == lowercase(ext),
    ensures
        language_of(lowercase(lowercase(ext))) == language_of(lowercase(ext)),
{
}

/// The extensions that give a language, in lower case.
pub open spec fn extensions() -> Seq<Seq<char>> {
    seq![
        "c"@,
        "cpp"@,
        "cc"@,
        "cxx"@,
        "c++"@,
        "hpp"@,
        "h"@,
        "java"@,
        "cs"@,
        "py"@,
        "pyw"@,
        "js"@,
        "jsx"@,
        "ts"@,
        "tsx"@,
        "go"@,
        "rs"@,
        "rb"@,
    ]
}

/// Exactly these extensions give a language, and only one of them gives C.
pub proof fn known_extensions(ext: Seq<char>)
    ensures
        language_of(ext) is Some <==> extensions().contains(ext),
        language_of(ext) == Some(Language::C) <==> ext == "c"@,
{
    let all = extensions();
    if language_of(ext) is Some {
        assert(ext == all[0] || ext == all[1] || ext == all[2] || ext == all[3] || ext == all[4]
            || ext == all[5] || ext == all[6] || ext == all[7] || ext == all[8] || ext == all[9]
            || ext == all[10] || ext == all[11] || ext == all[12] || ext == all[13] || ext
            == all[14] || ext == all[15] || ext == all[16] || ext == all[17]);
    }
}

/// A language has a grammar exactly where the scanner knows functions to watch for in it.
pub proof fn grammar_and_tables_go_together(language: Language)
    ensures
        language.grammar() is Some <==> language.dangerous_functions().len() > 0,
        language.grammar() is Some <==> language.alloc_functions().len() > 0,
        language.grammar() is Some <==> language.taint_sources().len() > 0,
        language.grammar() is Some <==> language.taint_sinks().len() > 0,
{
}

} // verus!
