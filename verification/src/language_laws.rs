//! What the scanner knows of each language, and which analysis a file gets.
use vstd::prelude::*;
use vstd::utf8::{decode_utf8, valid_utf8};

use crate::finding::{lemma_gathered, FindingModel, Severity};
use crate::c_laws::{one_if, says_of_line};
use crate::java::java_scan;
use crate::javascript::js_scan;
use crate::language::{language_of, Language};
use crate::outside::{grammar_loads, lossy, lowercase, parsed};
use crate::patterns::Pattern;
use crate::python::py_scan;
use crate::scanner::{
    bytes_outcome, c_bytes_outcome, c_scan, file_outcome, Analyzer, ScanError,
};
use crate::syntax::{Grammar, NodeModel, TreeModel};
use crate::text::{byte_len, lines, mentions};

verus! {

proof fn lemma_extensions_differ()
    ensures
        "c"@ != "cpp"@,
        "c"@ != "cc"@,
        "c"@ != "cxx"@,
        "c"@ != "c++"@,
        "c"@ != "hpp"@,
        "c"@ != "h"@,
        "c"@ != "java"@,
        "c"@ != "cs"@,
        "c"@ != "py"@,
        "c"@ != "pyw"@,
        "c"@ != "js"@,
        "c"@ != "jsx"@,
        "c"@ != "ts"@,
        "c"@ != "tsx"@,
        "c"@ != "go"@,
        "c"@ != "rs"@,
        "c"@ != "rb"@,
        "cpp"@ != "cc"@,
        "cpp"@ != "cxx"@,
        "cpp"@ != "c++"@,
        "cpp"@ != "hpp"@,
        "cpp"@ != "h"@,
        "cpp"@ != "java"@,
        "cpp"@ != "cs"@,
        "cpp"@ != "py"@,
        "cpp"@ != "pyw"@,
        "cpp"@ != "js"@,
        "cpp"@ != "jsx"@,
        "cpp"@ != "ts"@,
        "cpp"@ != "tsx"@,
        "cpp"@ != "go"@,
        "cpp"@ != "rs"@,
        "cpp"@ != "rb"@,
        "cc"@ != "cxx"@,
        "cc"@ != "c++"@,
        "cc"@ != "hpp"@,
        "cc"@ != "h"@,
        "cc"@ != "java"@,
        "cc"@ != "cs"@,
        "cc"@ != "py"@,
        "cc"@ != "pyw"@,
        "cc"@ != "js"@,
        "cc"@ != "jsx"@,
        "cc"@ != "ts"@,
        "cc"@ != "tsx"@,
        "cc"@ != "go"@,
        "cc"@ != "rs"@,
        "cc"@ != "rb"@,
        "cxx"@ != "c++"@,
        "cxx"@ != "hpp"@,
        "cxx"@ != "h"@,
        "cxx"@ != "java"@,
        "cxx"@ != "cs"@,
        "cxx"@ != "py"@,
        "cxx"@ != "pyw"@,
        "cxx"@ != "js"@,
        "cxx"@ != "jsx"@,
        "cxx"@ != "ts"@,
        "cxx"@ != "tsx"@,
        "cxx"@ != "go"@,
        "cxx"@ != "rs"@,
        "cxx"@ != "rb"@,
        "c++"@ != "hpp"@,
        "c++"@ != "h"@,
        "c++"@ != "java"@,
        "c++"@ != "cs"@,
        "c++"@ != "py"@,
        "c++"@ != "pyw"@,
        "c++"@ != "js"@,
        "c++"@ != "jsx"@,
        "c++"@ != "ts"@,
        "c++"@ != "tsx"@,
        "c++"@ != "go"@,
        "c++"@ != "rs"@,
        "c++"@ != "rb"@,
        "hpp"@ != "h"@,
        "hpp"@ != "java"@,
        "hpp"@ != "cs"@,
        "hpp"@ != "py"@,
        "hpp"@ != "pyw"@,
        "hpp"@ != "js"@,
        "hpp"@ != "jsx"@,
        "hpp"@ != "ts"@,
        "hpp"@ != "tsx"@,
        "hpp"@ != "go"@,
        "hpp"@ != "rs"@,
        "hpp"@ != "rb"@,
        "h"@ != "java"@,
        "h"@ != "cs"@,
        "h"@ != "py"@,
        "h"@ != "pyw"@,
        "h"@ != "js"@,
        "h"@ != "jsx"@,
        "h"@ != "ts"@,
        "h"@ != "tsx"@,
        "h"@ != "go"@,
        "h"@ != "rs"@,
        "h"@ != "rb"@,
        "java"@ != "cs"@,
        "java"@ != "py"@,
        "java"@ != "pyw"@,
        "java"@ != "js"@,
        "java"@ != "jsx"@,
        "java"@ != "ts"@,
        "java"@ != "tsx"@,
        "java"@ != "go"@,
        "java"@ != "rs"@,
        "java"@ != "rb"@,
        "cs"@ != "py"@,
        "cs"@ != "pyw"@,
        "cs"@ != "js"@,
        "cs"@ != "jsx"@,
        "cs"@ != "ts"@,
        "cs"@ != "tsx"@,
        "cs"@ != "go"@,
        "cs"@ != "rs"@,
        "cs"@ != "rb"@,
        "py"@ != "pyw"@,
        "py"@ != "js"@,
        "py"@ != "jsx"@,
        "py"@ != "ts"@,
        "py"@ != "tsx"@,
        "py"@ != "go"@,
        "py"@ != "rs"@,
        "py"@ != "rb"@,
        "pyw"@ != "js"@,
        "pyw"@ != "jsx"@,
        "pyw"@ != "ts"@,
        "pyw"@ != "tsx"@,
        "pyw"@ != "go"@,
        "pyw"@ != "rs"@,
        "pyw"@ != "rb"@,
        "js"@ != "jsx"@,
        "js"@ != "ts"@,
        "js"@ != "tsx"@,
        "js"@ != "go"@,
        "js"@ != "rs"@,
        "js"@ != "rb"@,
        "jsx"@ != "ts"@,
        "jsx"@ != "tsx"@,
        "jsx"@ != "go"@,
        "jsx"@ != "rs"@,
        "jsx"@ != "rb"@,
        "ts"@ != "tsx"@,
        "ts"@ != "go"@,
        "ts"@ != "rs"@,
        "ts"@ != "rb"@,
        "tsx"@ != "go"@,
        "tsx"@ != "rs"@,
        "tsx"@ != "rb"@,
        "go"@ != "rs"@,
        "go"@ != "rb"@,
        "rs"@ != "rb"@,
{
    reveal_strlit("c");
    reveal_strlit("cpp");
    reveal_strlit("cc");
    reveal_strlit("cxx");
    reveal_strlit("c++");
    reveal_strlit("hpp");
    reveal_strlit("h");
    reveal_strlit("java");
    reveal_strlit("cs");
    reveal_strlit("py");
    reveal_strlit("pyw");
    reveal_strlit("js");
    reveal_strlit("jsx");
    reveal_strlit("ts");
    reveal_strlit("tsx");
    reveal_strlit("go");
    reveal_strlit("rs");
    reveal_strlit("rb");
    assert("c"@.len() == 1 && "c"@[0] == 'c');
    assert("cpp"@.len() == 3 && "cpp"@[0] == 'c' && "cpp"@[1] == 'p' && "cpp"@[2] == 'p');
    assert("cc"@.len() == 2 && "cc"@[0] == 'c' && "cc"@[1] == 'c');
    assert("cxx"@.len() == 3 && "cxx"@[0] == 'c' && "cxx"@[1] == 'x' && "cxx"@[2] == 'x');
    assert("c++"@.len() == 3 && "c++"@[0] == 'c' && "c++"@[1] == '+' && "c++"@[2] == '+');
    assert("hpp"@.len() == 3 && "hpp"@[0] == 'h' && "hpp"@[1] == 'p' && "hpp"@[2] == 'p');
    assert("h"@.len() == 1 && "h"@[0] == 'h');
    assert("java"@.len() == 4 && "java"@[0] == 'j' && "java"@[1] == 'a' && "java"@[2] == 'v'
        && "java"@[3] == 'a');
    assert("cs"@.len() == 2 && "cs"@[0] == 'c' && "cs"@[1] == 's');
    assert("py"@.len() == 2 && "py"@[0] == 'p' && "py"@[1] == 'y');
    assert("pyw"@.len() == 3 && "pyw"@[0] == 'p' && "pyw"@[1] == 'y' && "pyw"@[2] == 'w');
    assert("js"@.len() == 2 && "js"@[0] == 'j' && "js"@[1] == 's');
    assert("jsx"@.len() == 3 && "jsx"@[0] == 'j' && "jsx"@[1] == 's' && "jsx"@[2] == 'x');
    assert("ts"@.len() == 2 && "ts"@[0] == 't' && "ts"@[1] == 's');
    assert("tsx"@.len() == 3 && "tsx"@[0] == 't' && "tsx"@[1] == 's' && "tsx"@[2] == 'x');
    assert("go"@.len() == 2 && "go"@[0] == 'g' && "go"@[1] == 'o');
    assert("rs"@.len() == 2 && "rs"@[0] == 'r' && "rs"@[1] == 's');
    assert("rb"@.len() == 2 && "rb"@[0] == 'r' && "rb"@[1] == 'b');
}

/// Which extensions, in lower case, belong to which language.
pub proof fn extensions_of_languages(ext: Seq<char>)
    ensures
        language_of(ext) == Some(Language::C) <==> ext == "c"@,
        language_of(ext) == Some(Language::Cpp) <==> ext == "cpp"@ || ext == "cc"@
            || ext == "cxx"@ || ext == "c++"@ || ext == "hpp"@ || ext == "h"@,
        language_of(ext) == Some(Language::Java) <==> ext == "java"@,
        language_of(ext) == Some(Language::CSharp) <==> ext == "cs"@,
        language_of(ext) == Some(Language::Python) <==> ext == "py"@ || ext == "pyw"@,
        language_of(ext) == Some(Language::JavaScript) <==> ext == "js"@ || ext == "jsx"@,
        language_of(ext) == Some(Language::TypeScript) <==> ext == "ts"@ || ext == "tsx"@,
        language_of(ext) == Some(Language::Go) <==> ext == "go"@,
        language_of(ext) == Some(Language::Rust) <==> ext == "rs"@,
        language_of(ext) == Some(Language::Ruby) <==> ext == "rb"@,
{
    lemma_extensions_differ();
}

/// Which grammar a language is parsed with: C and C++ share one, and so do JavaScript and
/// TypeScript; four languages have none.
pub proof fn grammars_of_languages(language: Language)
    ensures
        language.grammar() == Some(Grammar::C) <==> language == Language::C || language
            == Language::Cpp,
        language.grammar() == Some(Grammar::Java) <==> language == Language::Java,
        language.grammar() == Some(Grammar::Python) <==> language == Language::Python,
        language.grammar() == Some(Grammar::JavaScript) <==> language == Language::JavaScript
            || language == Language::TypeScript,
        language.grammar() is None <==> language == Language::CSharp || language == Language::Go
            || language == Language::Rust || language == Language::Ruby,
{
}

/// The functions that are dangerous to call in C and C++: these, and no others.
pub proof fn dangerous_functions_of_c(language: Language)
    requires
        language == Language::C || language == Language::Cpp,
    ensures
        language.dangerous_functions().len() == 10,
        language.dangerous_functions().contains(
            ("strcpy"@, Severity::Critical, "Use strncpy(dest, src, sizeof(dest)-1)"@),
        ),
        language.dangerous_functions().contains(
            ("strcat"@, Severity::Critical, "Use strncat(dest, src, remaining)"@),
        ),
        language.dangerous_functions().contains(
            ("sprintf"@, Severity::Critical, "Use snprintf(buf, sizeof(buf), ...)"@),
        ),
        language.dangerous_functions().contains(
            ("gets"@, Severity::Critical, "Use fgets(buf, sizeof(buf), stdin)"@),
        ),
        language.dangerous_functions().contains(("wcscpy"@, Severity::Critical, "Use wcsncpy"@)),
        language.dangerous_functions().contains(
            ("memcpy"@, Severity::High, "Verify size <= destination buffer"@),
        ),
        language.dangerous_functions().contains(
            ("memset"@, Severity::Medium, "Verify size is correct"@),
        ),
        language.dangerous_functions().contains(
            ("system"@, Severity::Critical, "Avoid system() - use execve() with full path"@),
        ),
        language.dangerous_functions().contains(
            ("popen"@, Severity::Critical, "Validate command input thoroughly"@),
        ),
        language.dangerous_functions().contains(
            ("scanf"@, Severity::High, "Use scanf_s or validate format string"@),
        ),
{
    let all = language.dangerous_functions();
    assert(all[0] == ("strcpy"@, Severity::Critical, "Use strncpy(dest, src, sizeof(dest)-1)"@));
    assert(all[1] == ("strcat"@, Severity::Critical, "Use strncat(dest, src, remaining)"@));
    assert(all[2] == ("sprintf"@, Severity::Critical, "Use snprintf(buf, sizeof(buf), ...)"@));
    assert(all[3] == ("gets"@, Severity::Critical, "Use fgets(buf, sizeof(buf), stdin)"@));
    assert(all[4] == ("wcscpy"@, Severity::Critical, "Use wcsncpy"@));
    assert(all[5] == ("memcpy"@, Severity::High, "Verify size <= destination buffer"@));
    assert(all[6] == ("memset"@, Severity::Medium, "Verify size is correct"@));
    assert(all[7] == (
        "system"@,
        Severity::Critical,
        "Avoid system() - use execve() with full path"@,
    ));
    assert(all[8] == ("popen"@, Severity::Critical, "Validate command input thoroughly"@));
    assert(all[9] == ("scanf"@, Severity::High, "Use scanf_s or validate format string"@));
}

/// The functions that are dangerous to call in Java: these, and no others.
pub proof fn dangerous_functions_of_java(language: Language)
    requires
        language == Language::Java,
    ensures
        language.dangerous_functions().len() == 5,
        language.dangerous_functions().contains(
            ("exec"@, Severity::Critical, "Validate command, use ProcessBuilder with array"@),
        ),
        language.dangerous_functions().contains(
            ("eval"@, Severity::Critical, "Never eval user input - use sandboxing"@),
        ),
        language.dangerous_functions().contains(
            ("Runtime.getRuntime"@, Severity::High, "Validate external commands"@),
        ),
        language.dangerous_functions().contains(
            ("ObjectInputStream"@, Severity::Critical, "Deserialize only trusted data (prevent RCE)"@),
        ),
        language.dangerous_functions().contains(
            ("readObject"@, Severity::Critical, "Implement look-ahead deserialization"@),
        ),
{
    let all = language.dangerous_functions();
    assert(all[0] == (
        "exec"@,
        Severity::Critical,
        "Validate command, use ProcessBuilder with array"@,
    ));
    assert(all[1] == ("eval"@, Severity::Critical, "Never eval user input - use sandboxing"@));
    assert(all[2] == ("Runtime.getRuntime"@, Severity::High, "Validate external commands"@));
    assert(all[3] == (
        "ObjectInputStream"@,
        Severity::Critical,
        "Deserialize only trusted data (prevent RCE)"@,
    ));
    assert(all[4] == ("readObject"@, Severity::Critical, "Implement look-ahead deserialization"@));
}

/// The functions that are dangerous to call in Python: these, and no others.
pub proof fn dangerous_functions_of_python(language: Language)
    requires
        language == Language::Python,
    ensures
        language.dangerous_functions().len() == 6,
        language.dangerous_functions().contains(
            ("eval"@, Severity::Critical, "Never eval user input - use ast.literal_eval"@),
        ),
        language.dangerous_functions().contains(
            ("exec"@, Severity::Critical, "Never exec user input - massive RCE risk"@),
        ),
        language.dangerous_functions().contains(
            ("subprocess.call"@, Severity::High, "Use list args, not shell=True"@),
        ),
        language.dangerous_functions().contains(
            ("os.system"@, Severity::Critical, "Use subprocess with array, no shell"@),
        ),
        language.dangerous_functions().contains(
            ("pickle.loads"@, Severity::Critical, "Only unpickle trusted data"@),
        ),
        language.dangerous_functions().contains(
            ("yaml.load"@, Severity::Critical, "Use yaml.safe_load, not load"@),
        ),
{
    let all = language.dangerous_functions();
    assert(all[0] == (
        "eval"@,
        Severity::Critical,
        "Never eval user input - use ast.literal_eval"@,
    ));
    assert(all[1] == ("exec"@, Severity::Critical, "Never exec user input - massive RCE risk"@));
    assert(all[2] == ("subprocess.call"@, Severity::High, "Use list args, not shell=True"@));
    assert(all[3] == ("os.system"@, Severity::Critical, "Use subprocess with array, no shell"@));
    assert(all[4] == ("pickle.loads"@, Severity::Critical, "Only unpickle trusted data"@));
    assert(all[5] == ("yaml.load"@, Severity::Critical, "Use yaml.safe_load, not load"@));
}

/// The functions that are dangerous to call in JavaScript and TypeScript: these, and no others.
pub proof fn dangerous_functions_of_javascript(language: Language)
    requires
        language == Language::JavaScript || language == Language::TypeScript,
    ensures
        language.dangerous_functions().len() == 6,
        language.dangerous_functions().contains(
            ("eval"@, Severity::Critical, "Never eval user input"@),
        ),
        language.dangerous_functions().contains(
            ("Function"@, Severity::Critical, "Never construct functions from user input"@),
        ),
        language.dangerous_functions().contains(
            ("setTimeout"@, Severity::High, "Don't pass strings, use function references"@),
        ),
        language.dangerous_functions().contains(
            ("setInterval"@, Severity::High, "Don't pass strings, use function references"@),
        ),
        language.dangerous_functions().contains(
            ("innerHTML"@, Severity::High, "Use textContent or sanitized HTML"@),
        ),
        language.dangerous_functions().contains(
            ("document.write"@, Severity::High, "Use DOM methods instead"@),
        ),
{
    let all = language.dangerous_functions();
    assert(all[0] == ("eval"@, Severity::Critical, "Never eval user input"@));
    assert(all[1] == (
        "Function"@,
        Severity::Critical,
        "Never construct functions from user input"@,
    ));
    assert(all[2] == (
        "setTimeout"@,
        Severity::High,
        "Don't pass strings, use function references"@,
    ));
    assert(all[3] == (
        "setInterval"@,
        Severity::High,
        "Don't pass strings, use function references"@,
    ));
    assert(all[4] == ("innerHTML"@, Severity::High, "Use textContent or sanitized HTML"@));
    assert(all[5] == ("document.write"@, Severity::High, "Use DOM methods instead"@));
}

/// The calls that allocate memory or open a resource in C and C++: these, and no others.
pub proof fn alloc_functions_of_c(language: Language)
    requires
        language == Language::C || language == Language::Cpp,
    ensures
        language.alloc_functions().len() == 5,
        language.alloc_functions().contains("malloc"@),
        language.alloc_functions().contains("calloc"@),
        language.alloc_functions().contains("realloc"@),
        language.alloc_functions().contains("strdup"@),
        language.alloc_functions().contains("strndup"@),
{
    let all = language.alloc_functions();
    assert(all[0] == "malloc"@);
    assert(all[1] == "calloc"@);
    assert(all[2] == "realloc"@);
    assert(all[3] == "strdup"@);
    assert(all[4] == "strndup"@);
}

/// The calls that allocate memory or open a resource in Java: these, and no others.
pub proof fn alloc_functions_of_java(language: Language)
    requires
        language == Language::Java,
    ensures
        language.alloc_functions().len() == 4,
        language.alloc_functions().contains("new "@),
        language.alloc_functions().contains("FileInputStream"@),
        language.alloc_functions().contains("ObjectInputStream"@),
        language.alloc_functions().contains("Socket"@),
{
    let all = language.alloc_functions();
    assert(all[0] == "new "@);
    assert(all[1] == "FileInputStream"@);
    assert(all[2] == "ObjectInputStream"@);
    assert(all[3] == "Socket"@);
}

/// The calls that allocate memory or open a resource in Python: these, and no others.
pub proof fn alloc_functions_of_python(language: Language)
    requires
        language == Language::Python,
    ensures
        language.alloc_functions().len() == 3,
        language.alloc_functions().contains("open("@),
        language.alloc_functions().contains("socket."@),
        language.alloc_functions().contains("subprocess."@),
{
    let all = language.alloc_functions();
    assert(all[0] == "open("@);
    assert(all[1] == "socket."@);
    assert(all[2] == "subprocess."@);
}

/// The calls that allocate memory or open a resource in JavaScript and TypeScript: these, and no others.
pub proof fn alloc_functions_of_javascript(language: Language)
    requires
        language == Language::JavaScript || language == Language::TypeScript,
    ensures
        language.alloc_functions().len() == 3,
        language.alloc_functions().contains("new "@),
        language.alloc_functions().contains("fetch("@),
        language.alloc_functions().contains("XMLHttpRequest"@),
{
    let all = language.alloc_functions();
    assert(all[0] == "new "@);
    assert(all[1] == "fetch("@);
    assert(all[2] == "XMLHttpRequest"@);
}

/// The expressions through which user input enters a program in C and C++: these, and no others.
pub proof fn taint_sources_of_c(language: Language)
    requires
        language == Language::C || language == Language::Cpp,
    ensures
        language.taint_sources().len() == 7,
        language.taint_sources().contains("scanf"@),
        language.taint_sources().contains("fgets"@),
        language.taint_sources().contains("read"@),
        language.taint_sources().contains("recv"@),
        language.taint_sources().contains("getenv"@),
        language.taint_sources().contains("argv["@),
        language.taint_sources().contains("fread"@),
{
    let all = language.taint_sources();
    assert(all[0] == "scanf"@);
    assert(all[1] == "fgets"@);
    assert(all[2] == "read"@);
    assert(all[3] == "recv"@);
    assert(all[4] == "getenv"@);
    assert(all[5] == "argv["@);
    assert(all[6] == "fread"@);
}

/// The expressions through which user input enters a program in Java: these, and no others.
pub proof fn taint_sources_of_java(language: Language)
    requires
        language == Language::Java,
    ensures
        language.taint_sources().len() == 7,
        language.taint_sources().contains("getParameter"@),
        language.taint_sources().contains("getHeader"@),
        language.taint_sources().contains("getInputStream"@),
        language.taint_sources().contains("getReader"@),
        language.taint_sources().contains("System.getenv"@),
        language.taint_sources().contains("System.getProperty"@),
        language.taint_sources().contains("BufferedReader.read"@),
{
    let all = language.taint_sources();
    assert(all[0] == "getParameter"@);
    assert(all[1] == "getHeader"@);
    assert(all[2] == "getInputStream"@);
    assert(all[3] == "getReader"@);
    assert(all[4] == "System.getenv"@);
    assert(all[5] == "System.getProperty"@);
    assert(all[6] == "BufferedReader.read"@);
}

/// The expressions through which user input enters a program in Python: these, and no others.
pub proof fn taint_sources_of_python(language: Language)
    requires
        language == Language::Python,
    ensures
        language.taint_sources().len() == 5,
        language.taint_sources().contains("input("@),
        language.taint_sources().contains("sys.argv"@),
        language.taint_sources().contains("os.environ"@),
        language.taint_sources().contains("request."@),
        language.taint_sources().contains("socket.recv"@),
{
    let all = language.taint_sources();
    assert(all[0] == "input("@);
    assert(all[1] == "sys.argv"@);
    assert(all[2] == "os.environ"@);
    assert(all[3] == "request."@);
    assert(all[4] == "socket.recv"@);
}

/// The expressions through which user input enters a program in JavaScript and TypeScript: these, and no others.
pub proof fn taint_sources_of_javascript(language: Language)
    requires
        language == Language::JavaScript || language == Language::TypeScript,
    ensures
        language.taint_sources().len() == 8,
        language.taint_sources().contains("req.query"@),
        language.taint_sources().contains("req.body"@),
        language.taint_sources().contains("req.params"@),
        language.taint_sources().contains("req.headers"@),
        language.taint_sources().contains("localStorage"@),
        language.taint_sources().contains("sessionStorage"@),
        language.taint_sources().contains("document.cookie"@),
        language.taint_sources().contains("window.location"@),
{
    let all = language.taint_sources();
    assert(all[0] == "req.query"@);
    assert(all[1] == "req.body"@);
    assert(all[2] == "req.params"@);
    assert(all[3] == "req.headers"@);
    assert(all[4] == "localStorage"@);
    assert(all[5] == "sessionStorage"@);
    assert(all[6] == "document.cookie"@);
    assert(all[7] == "window.location"@);
}

/// The functions that must not get user input in C and C++: these, and no others.
pub proof fn taint_sinks_of_c(language: Language)
    requires
        language == Language::C || language == Language::Cpp,
    ensures
        language.taint_sinks().len() == 6,
        language.taint_sinks().contains("system"@),
        language.taint_sinks().contains("popen"@),
        language.taint_sinks().contains("exec"@),
        language.taint_sinks().contains("eval"@),
        language.taint_sinks().contains("sprintf"@),
        language.taint_sinks().contains("strcpy"@),
{
    let all = language.taint_sinks();
    assert(all[0] == "system"@);
    assert(all[1] == "popen"@);
    assert(all[2] == "exec"@);
    assert(all[3] == "eval"@);
    assert(all[4] == "sprintf"@);
    assert(all[5] == "strcpy"@);
}

/// The functions that must not get user input in Java: these, and no others.
pub proof fn taint_sinks_of_java(language: Language)
    requires
        language == Language::Java,
    ensures
        language.taint_sinks().len() == 4,
        language.taint_sinks().contains("exec"@),
        language.taint_sinks().contains("eval"@),
        language.taint_sinks().contains("Runtime.exec"@),
        language.taint_sinks().contains("ProcessBuilder"@),
{
    let all = language.taint_sinks();
    assert(all[0] == "exec"@);
    assert(all[1] == "eval"@);
    assert(all[2] == "Runtime.exec"@);
    assert(all[3] == "ProcessBuilder"@);
}

/// The functions that must not get user input in Python: these, and no others.
pub proof fn taint_sinks_of_python(language: Language)
    requires
        language == Language::Python,
    ensures
        language.taint_sinks().len() == 5,
        language.taint_sinks().contains("eval"@),
        language.taint_sinks().contains("exec"@),
        language.taint_sinks().contains("os.system"@),
        language.taint_sinks().contains("subprocess.call"@),
        language.taint_sinks().contains("subprocess.Popen"@),
{
    let all = language.taint_sinks();
    assert(all[0] == "eval"@);
    assert(all[1] == "exec"@);
    assert(all[2] == "os.system"@);
    assert(all[3] == "subprocess.call"@);
    assert(all[4] == "subprocess.Popen"@);
}

/// The functions that must not get user input in JavaScript and TypeScript: these, and no others.
pub proof fn taint_sinks_of_javascript(language: Language)
    requires
        language == Language::JavaScript || language == Language::TypeScript,
    ensures
        language.taint_sinks().len() == 4,
        language.taint_sinks().contains("eval"@),
        language.taint_sinks().contains("Function"@),
        language.taint_sinks().contains("exec"@),
        language.taint_sinks().contains("innerHTML"@),
{
    let all = language.taint_sinks();
    assert(all[0] == "eval"@);
    assert(all[1] == "Function"@);
    assert(all[2] == "exec"@);
    assert(all[3] == "innerHTML"@);
}

/// Which analysis a file gets. One in C or C++, or of a language that is not known or has no
/// analysis, is scanned as C; one in Java, Python, JavaScript or TypeScript gets its own analysis,
/// and without its grammar is searched line by line.
pub proof fn analyses_of_files(path: Seq<char>, ext: Option<Seq<char>>, bytes: Seq<u8>)
    ensures
        ({
            let lower = lowercase(ext->0);
            let java = ext is Some && lower == "java"@;
            let python = ext is Some && (lower == "py"@ || lower == "pyw"@);
            let script = ext is Some && (lower == "js"@ || lower == "jsx"@ || lower == "ts"@ || lower
                == "tsx"@);
            &&& !java && !python && !script ==> file_outcome(path, ext, bytes) == c_bytes_outcome(
                path,
                bytes,
            )
            &&& java ==> file_outcome(path, ext, bytes) == bytes_outcome(
                if grammar_loads(Grammar::Java) {
                    Analyzer::Java
                } else {
                    Analyzer::Lines(Pattern::Java)
                },
                path,
                bytes,
            )
            &&& python ==> file_outcome(path, ext, bytes) == bytes_outcome(
                if grammar_loads(Grammar::Python) {
                    Analyzer::Python
                } else {
                    Analyzer::Lines(Pattern::Python)
                },
                path,
                bytes,
            )
            &&& script ==> file_outcome(path, ext, bytes) == bytes_outcome(
                if grammar_loads(Grammar::JavaScript) {
                    Analyzer::JavaScript
                } else {
                    Analyzer::Lines(Pattern::JavaScript)
                },
                path,
                bytes,
            )
        }),
{
    if let Some(e) = ext {
        extensions_of_languages(lowercase(e));
    }
    lemma_extensions_differ();
}

/// What an analysis with a grammar gives: what the scan of the tree says, where the parser gives a
/// tree over the source; and what the search line by line finds, surer than where there is no
/// grammar at all, where it gives none.
pub proof fn analyses_follow_the_tree(
    path: Seq<char>,
    bytes: Seq<u8>,
    nodes: Seq<NodeModel>,
)
    requires
        byte_len(lossy(bytes)) <= u32::MAX,
    ensures
        ({
            let source = lossy(bytes);
            let t = TreeModel { source, nodes };
            &&& parsed(Grammar::Java, source) == Some(nodes) && t.well_formed() ==> bytes_outcome(
                Analyzer::Java,
                path,
                bytes,
            ) == Ok::<Seq<FindingModel>, ScanError>(java_scan(t, path))
            &&& parsed(Grammar::Python, source) == Some(nodes) && t.well_formed() ==> bytes_outcome(
                Analyzer::Python,
                path,
                bytes,
            ) == Ok::<Seq<FindingModel>, ScanError>(py_scan(t, path))
            &&& parsed(Grammar::JavaScript, source) == Some(nodes) && t.well_formed()
                ==> bytes_outcome(Analyzer::JavaScript, path, bytes) == Ok::<
                Seq<FindingModel>,
                ScanError,
            >(js_scan(t, path))
            &&& parsed(Grammar::Java, source) is None ==> bytes_outcome(Analyzer::Java, path, bytes)
                == Ok::<Seq<FindingModel>, ScanError>(Pattern::Java.line_scan(path, source, 90))
            &&& parsed(Grammar::Python, source) is None ==> bytes_outcome(
                Analyzer::Python,
                path,
                bytes,
            ) == Ok::<Seq<FindingModel>, ScanError>(Pattern::Python.line_scan(path, source, 90))
            &&& parsed(Grammar::JavaScript, source) is None ==> bytes_outcome(
                Analyzer::JavaScript,
                path,
                bytes,
            ) == Ok::<Seq<FindingModel>, ScanError>(Pattern::JavaScript.line_scan(path, source, 90))
        }),
{
}

/// What a scan as C gives: what the scan of the tree says, where the parser gives a tree over a
/// text that can be read, and nothing of bytes that are no text or that the parser gives up on.
pub proof fn scans_as_c_follow_the_tree(path: Seq<char>, bytes: Seq<u8>, nodes: Seq<NodeModel>)
    requires
        grammar_loads(Grammar::C),
        byte_len(decode_utf8(bytes)) <= u32::MAX,
    ensures
        ({
            let source = decode_utf8(bytes);
            let t = TreeModel { source, nodes };
            &&& valid_utf8(bytes) && parsed(Grammar::C, source) == Some(nodes) && t.well_formed()
                && crate::dataflow::all_readable(t) ==> c_bytes_outcome(path, bytes) == Ok::<
                Seq<FindingModel>,
                ScanError,
            >(c_scan(t, path))
            &&& !valid_utf8(bytes) || parsed(Grammar::C, source) is None ==> c_bytes_outcome(
                path,
                bytes,
            ) == Ok::<Seq<FindingModel>, ScanError>(Seq::empty())
        }),
{
}

/// What a search line by line gives without a grammar; bytes that are no text are not searched.
pub proof fn searches_without_a_grammar(path: Seq<char>, bytes: Seq<u8>, pattern: Pattern)
    ensures
        valid_utf8(bytes) ==> bytes_outcome(Analyzer::Lines(pattern), path, bytes) == Ok::<
            Seq<FindingModel>,
            ScanError,
        >(pattern.line_scan(path, decode_utf8(bytes), 85)),
        !valid_utf8(bytes) ==> bytes_outcome(Analyzer::Lines(pattern), path, bytes) == Ok::<
            Seq<FindingModel>,
            ScanError,
        >(Seq::empty()),
{
}

/// Which lines a search reports: each line of Java that reads an object from a stream, each line of
/// JavaScript with a call of `eval`, and each line of Python with one that is no `literal_eval`;
/// and no other line.
pub proof fn lines_are_searched(
    path: Seq<char>,
    source: Seq<char>,
    confidence: nat,
    k: int,
)
    requires
        0 <= k < lines(source).len(),
    ensures
        ({
            let lower = lowercase(lines(source)[k]);
            let java = mentions(lower, "objectinputstream"@) && mentions(lower, "readobject"@);
            let script = mentions(lower, "eval("@);
            let python = mentions(lower, "eval("@) && !mentions(lower, "literal_eval"@);
            &&& Pattern::Java.line_rule(path, source, confidence)(k).len() == one_if(java)
            &&& Pattern::JavaScript.line_rule(path, source, confidence)(k).len() == one_if(script)
            &&& Pattern::Python.line_rule(path, source, confidence)(k).len() == one_if(python)
            &&& java ==> says_of_line(
                Pattern::Java.line_scan(path, source, confidence),
                path,
                (k + 1) as nat,
                Severity::Critical,
                "java_deserialization"@,
                "Insecure deserialization"@,
                "Validate class whitelist"@,
                confidence,
            )
            &&& script ==> says_of_line(
                Pattern::JavaScript.line_scan(path, source, confidence),
                path,
                (k + 1) as nat,
                Severity::Critical,
                "js_eval"@,
                "eval() detected"@,
                "Never use eval()"@,
                confidence,
            )
            &&& python ==> says_of_line(
                Pattern::Python.line_scan(path, source, confidence),
                path,
                (k + 1) as nat,
                Severity::Critical,
                "python_eval"@,
                "eval() detected"@,
                "Use ast.literal_eval"@,
                confidence,
            )
        }),
{
    lemma_line_searched(Pattern::Java, path, source, confidence, k);
    lemma_line_searched(Pattern::JavaScript, path, source, confidence, k);
    lemma_line_searched(Pattern::Python, path, source, confidence, k);
}

proof fn lemma_line_searched(
    pattern: Pattern,
    path: Seq<char>,
    source: Seq<char>,
    confidence: nat,
    k: int,
)
    requires
        0 <= k < lines(source).len(),
    ensures
        ({
            let found = pattern.line_rule(path, source, confidence)(k);
            found.len() > 0 ==> pattern.line_scan(path, source, confidence).contains(found[0])
        }),
{
    let rule = pattern.line_rule(path, source, confidence);
    if rule(k).len() > 0 {
        assert(rule(k).contains(rule(k)[0]));
        lemma_gathered(rule, lines(source).len() as int, k, rule(k)[0]);
    }
}

/// Why a scan as C cannot be made: the parser does not take the grammar, the text is too long for
/// it, it gives no tree, or something in the tree cannot be read.
pub proof fn scans_as_c_that_fail(path: Seq<char>, bytes: Seq<u8>, nodes: Seq<NodeModel>)
    ensures
        ({
            let source = decode_utf8(bytes);
            let t = TreeModel { source, nodes };
            let tried = grammar_loads(Grammar::C) && valid_utf8(bytes);
            &&& !grammar_loads(Grammar::C) ==> c_bytes_outcome(path, bytes) == Err::<
                Seq<FindingModel>,
                ScanError,
            >(ScanError::NoGrammar)
            &&& tried && byte_len(source) > u32::MAX ==> c_bytes_outcome(path, bytes) == Err::<
                Seq<FindingModel>,
                ScanError,
            >(ScanError::TooLong)
            &&& tried && byte_len(source) <= u32::MAX && parsed(Grammar::C, source) == Some(nodes)
                && !t.well_formed() ==> c_bytes_outcome(path, bytes) == Err::<
                Seq<FindingModel>,
                ScanError,
            >(ScanError::MalformedTree)
            &&& tried && byte_len(source) <= u32::MAX && parsed(Grammar::C, source) == Some(nodes)
                && t.well_formed() && !crate::dataflow::all_readable(t) ==> c_bytes_outcome(
                path,
                bytes,
            ) == Err::<Seq<FindingModel>, ScanError>(ScanError::ReversedParentheses)
        }),
{
}

/// Why an analysis with a grammar cannot be made: the text is too long for the parser, or it gives
/// no tree.
pub proof fn analyses_that_fail(
    analyzer: Analyzer,
    grammar: Grammar,
    path: Seq<char>,
    bytes: Seq<u8>,
    nodes: Seq<NodeModel>,
)
    requires
        analyzer == Analyzer::Java && grammar == Grammar::Java || analyzer == Analyzer::Python
            && grammar == Grammar::Python || analyzer == Analyzer::JavaScript && grammar
            == Grammar::JavaScript,
    ensures
        ({
            let source = lossy(bytes);
            let t = TreeModel { source, nodes };
            &&& byte_len(source) > u32::MAX ==> bytes_outcome(analyzer, path, bytes) == Err::<
                Seq<FindingModel>,
                ScanError,
            >(ScanError::TooLong)
            &&& byte_len(source) <= u32::MAX && parsed(grammar, source) == Some(nodes)
                && !t.well_formed() ==> bytes_outcome(analyzer, path, bytes) == Err::<
                Seq<FindingModel>,
                ScanError,
            >(ScanError::MalformedTree)
        }),
{
}

} // verus!
