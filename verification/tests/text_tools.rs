use ntscan::text::{
    bare_text, before_text, chars_of, contains, decimal_text, glue, glue3, is_less, joined,
    lines_of, parses_as_integer, repeat_text, same, split_all, split_once, starts_with, trimmed,
};

#[test]
fn searching() {
    assert!(contains("a needle here", "needle"));
    assert!(contains("größe", "ö"));
    assert!(contains("", ""));
    assert!(contains("x", ""));
    assert!(!contains("x", "xx"));
    assert!(starts_with("//x", "//") && !starts_with("/", "//"));
    assert!(same("ab", "ab") && !same("ab", "ac") && !same("ab", "abc"));
    assert_eq!(before_text("a != b != c", "!="), Some("a "));
    assert_eq!(before_text("a = b", "!="), None);
    assert_eq!(before_text("é!=", "!="), Some("é"));
}

#[test]
fn splitting() {
    assert_eq!(split_once("a=b=c", b'='), Some(("a", "b=c")));
    assert_eq!(split_once("abc", b'='), None);
    assert_eq!(split_all("c,cpp,,h", b','), vec!["c", "cpp", "", "h"]);
    assert_eq!(split_all("", b','), vec![""]);
    assert_eq!(lines_of("a\nb\r\nc"), vec!["a", "b", "c"]);
    assert_eq!(lines_of("a\n\n"), vec!["a", ""]);
    assert!(lines_of("").is_empty());
    assert_eq!(lines_of("a\r"), vec!["a\r"]);
}

#[test]
fn trimming() {
    assert_eq!(trimmed(" \t x y\u{a0}\n"), "x y");
    assert_eq!(trimmed("   "), "");
    assert_eq!(trimmed("\u{200b}x"), "\u{200b}x");
}

#[test]
fn numbers() {
    for s in ["0", "-1", "+7", "9223372036854775807", "-9223372036854775808", "007"] {
        assert!(parses_as_integer(s));
    }
    for s in ["", "-", "+", "1.0", " 1", "9223372036854775808", "-9223372036854775809", "0x1", "٣"] {
        assert!(!parses_as_integer(s));
    }
    assert_eq!(decimal_text(0), "0");
    assert_eq!(decimal_text(1024), "1024");
    assert_eq!(decimal_text(usize::MAX), usize::MAX.to_string());
}

#[test]
fn joining() {
    assert_eq!(glue("a", "b"), "ab");
    assert_eq!(glue3("a", "", "c"), "ac");
    assert_eq!(repeat_text("═", 3), "═══");
    assert_eq!(repeat_text("x", 0), "");
    assert_eq!(joined(&vec!["c".to_string(), "h".to_string()], ","), "c,h");
    assert_eq!(joined(&vec!["c".to_string()], ","), "c");
    assert_eq!(joined(&vec![], ","), "");
    assert_eq!(chars_of("aé"), vec!['a', 'é']);
}

#[test]
fn order_of_texts() {
    let texts = ["", "B", "a", "a/b", "ab", "é", "\u{10000}"];
    for i in 0..texts.len() {
        for j in 0..texts.len() {
            assert_eq!(is_less(texts[i], texts[j]), texts[i] < texts[j]);
            assert_eq!(is_less(texts[i], texts[j]), i < j);
        }
    }
}

#[test]
fn parentheses_round_a_text() {
    assert_eq!(bare_text(" ( (é) ) "), "é");
    assert_eq!(bare_text("((a)"), "a");
    assert_eq!(bare_text("(a) + (b)"), "(a) + (b)");
    assert_eq!(bare_text("((a) + (b))"), "(a) + (b)");
    assert_eq!(bare_text("f(a)"), "f(a)");
    assert_eq!(bare_text("a)"), "a)");
    assert_eq!(bare_text("()"), "");
    assert_eq!(bare_text("("), "");
    assert_eq!(bare_text(""), "");
}
