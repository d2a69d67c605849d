//! What the library takes from the standard library and from other crates without proof: each
//! function here makes one outside call, and its contract says what is believed of that call.
use ansi_term::Colour as AnsiColour;
use tree_sitter_c::LANGUAGE as C_LANGUAGE;
use tree_sitter_java::LANGUAGE as JAVA_LANGUAGE;
use tree_sitter_javascript::LANGUAGE as JAVASCRIPT_LANGUAGE;
use tree_sitter_python::LANGUAGE as PYTHON_LANGUAGE;
use vstd::prelude::*;
use vstd::string::*;
use vstd::utf8::*;

use crate::finding::Colour;
use crate::paint::{plain, TextStyle};
use crate::syntax::{node_views, Grammar, NodeModel, SyntaxNode};
use crate::text::{byte_len, mentions};

verus! {

/// A name for the lowercase form of a text, as `str::to_lowercase` gives it.
pub uninterp spec fn lowercase(text: Seq<char>) -> Seq<char>;

/// The lowercase form of an ASCII letter; any other character unchanged.
pub open spec fn ascii_lower(c: char) -> char {
    if 'A' <= c <= 'Z' {
        ((c as u32) + 32) as char
    } else {
        c
    }
}

/// `str::to_lowercase`, which follows the Unicode tables: the result depends on the text alone.
/// Claimed besides: of a text of ASCII characters it lowers the letters A to Z and keeps the rest.
#[verifier::external_body]
pub(crate) fn to_lowercase(text: &str) -> (r: String)
    ensures
        r@ == lowercase(text@),
        is_ascii_chars(text@) ==> r@ == text@.map_values(|c: char| ascii_lower(c)),
{
    text.to_lowercase()
}

/// The characters with the Unicode property White_Space.
pub open spec fn white_space(c: char) -> bool {
    ||| '\u{9}' <= c <= '\u{d}'
    ||| c == '\u{20}'
    ||| c == '\u{85}'
    ||| c == '\u{a0}'
    ||| c == '\u{1680}'
    ||| '\u{2000}' <= c <= '\u{200a}'
    ||| c == '\u{2028}'
    ||| c == '\u{2029}'
    ||| c == '\u{202f}'
    ||| c == '\u{205f}'
    ||| c == '\u{3000}'
}

/// `char::is_whitespace`: whether the character has the Unicode property White_Space.
#[verifier::external_body]
pub(crate) fn is_white_space(c: char) -> (r: bool)
    ensures
        r == white_space(c),
{
    c.is_whitespace()
}

/// A name for what `char::is_alphanumeric` says of a character.
pub uninterp spec fn alphanumeric(c: char) -> bool;

/// `char::is_alphanumeric`: whether the character is a letter or a numeral by the Unicode tables.
/// Claimed besides: among the ASCII characters these are the letters and the digits.
#[verifier::external_body]
pub(crate) fn is_alphanumeric(c: char) -> (r: bool)
    ensures
        r == alphanumeric(c),
        c <= '\u{7f}' ==> r == ('a' <= c <= 'z' || 'A' <= c <= 'Z' || '0' <= c <= '9'),
{
    c.is_alphanumeric()
}

/// A name for whether the parser takes a grammar: `tree_sitter::Parser::set_language` refuses one
/// that was generated for an incompatible version.
pub uninterp spec fn grammar_loads(grammar: Grammar) -> bool;

/// `tree_sitter::Parser::set_language` on a new parser: whether it takes the grammar. That rests
/// on the versions that the grammar and the parser were built with, so on the grammar alone.
#[verifier::external_body]
pub(crate) fn loads_grammar(grammar: Grammar) -> (r: bool)
    ensures
        r == grammar_loads(grammar),
{
    let language = match grammar {
        Grammar::C => C_LANGUAGE,
        Grammar::Java => JAVA_LANGUAGE,
        Grammar::JavaScript => JAVASCRIPT_LANGUAGE,
        Grammar::Python => PYTHON_LANGUAGE,
    };
    tree_sitter::Parser::new().set_language(&language.into()).is_ok()
}

/// A name for the nodes of the tree that `tree_sitter::Parser::parse` gives for a source, the
/// root first and every node before its children; `None` where it gives no tree.
pub uninterp spec fn parsed(grammar: Grammar, source: Seq<char>) -> Option<Seq<NodeModel>>;

/// `tree_sitter::Parser::parse` on a new parser with the grammar set, then a walk over the tree
/// with `tree_sitter::TreeCursor`, one row for each node. A parser without a time limit, a
/// cancellation flag or an old tree goes by the grammar and the source alone, and gives a tree for
/// every source where it takes the grammar. Offsets have 32 bits there, so a longer source is left
/// out. That the rows form a tree over the source is not claimed: `SyntaxTree::new` tests it.
#[verifier::external_body]
pub(crate) fn parse_nodes(grammar: Grammar, source: &str) -> (r: Option<Vec<SyntaxNode>>)
    requires
        byte_len(source@) <= u32::MAX,
    ensures
        match r {
            Some(nodes) => parsed(grammar, source@) == Some(node_views(nodes@)),
            None => parsed(grammar, source@) is None,
        },
        r is Some == grammar_loads(grammar),
{
    let mut parser = tree_sitter::Parser::new();
    parser.set_language(&match grammar {
        Grammar::C => C_LANGUAGE, Grammar::Java => JAVA_LANGUAGE,
        Grammar::JavaScript => JAVASCRIPT_LANGUAGE, Grammar::Python => PYTHON_LANGUAGE,
    }.into()).ok()?;
    let tree = parser.parse(source, None)?;
    let mut rows = Vec::new();
    let mut at = tree.walk();
    loop {
        let node = at.node();
        rows.push(SyntaxNode { kind: node.kind().into(), field: at.field_name().map(String::from),
            depth: at.depth() as usize, start: node.start_byte(), end: node.end_byte() });
        if at.goto_first_child() { continue; }
        while !at.goto_next_sibling() { if !at.goto_parent() { return Some(rows); } }
    }
}

/// `std::str::from_utf8`: the text that the bytes encode, where they are valid UTF-8.
#[verifier::external_body]
pub(crate) fn utf8_text<'a>(bytes: &'a [u8]) -> (r: Option<&'a str>)
    ensures
        r is Some <==> valid_utf8(bytes@),
        r matches Some(text) ==> encode_utf8(text@) == bytes@,
{
    std::str::from_utf8(bytes).ok()
}

/// A name for the text that `String::from_utf8_lossy` gives for bytes.
pub uninterp spec fn lossy(bytes: Seq<u8>) -> Seq<char>;

/// `String::from_utf8_lossy`: the text that the bytes encode, with a replacement character for
/// what is not valid UTF-8. Claimed besides: valid bytes give the text that they encode.
#[verifier::external_body]
pub(crate) fn lossy_text(bytes: &[u8]) -> (r: String)
    ensures
        r@ == lossy(bytes@),
        valid_utf8(bytes@) ==> encode_utf8(r@) == bytes@,
{
    String::from_utf8_lossy(bytes).into_owned()
}

/// A name for whether the pattern is found in the text, by the syntax of the crate `regex`;
/// `None` where the pattern is refused.
pub uninterp spec fn regex_found(pattern: Seq<char>, text: Seq<char>) -> Option<bool>;

/// `regex::Regex::new`, and `regex::Regex::is_match` of what it gives: whether the pattern is
/// found anywhere in the text, where the pattern is accepted. Both go by their arguments alone.
#[verifier::external_body]
pub(crate) fn regex_match(pattern: &str, text: &str) -> (r: Option<bool>)
    ensures
        r == regex_found(pattern@, text@),
{
    regex::Regex::new(pattern).ok().map(|r| r.is_match(text))
}

/// A name for a text with the codes by which a terminal shows it in a style, as
/// `ansi_term::Style::paint` puts them.
pub uninterp spec fn painted(style: TextStyle, text: Seq<char>) -> Seq<char>;

/// `ansi_term::Style::paint`, as a string: the codes for the style, the text and the code that
/// ends the style. Claimed besides: the text is a part of the result, and it is the whole of it
/// where the style is plain. Which codes the style gives is not said.
#[verifier::external_body]
pub(crate) fn paint(style: TextStyle, text: &str) -> (r: String)
    ensures
        r@ == painted(style, text@),
        mentions(r@, text@),
        style == plain() ==> r@ == text@,
{
    let colour = |c: Colour| match c {
        Colour::Black => AnsiColour::Black, Colour::Red => AnsiColour::Red,
        Colour::Green => AnsiColour::Green, Colour::Yellow => AnsiColour::Yellow,
        Colour::Blue => AnsiColour::Blue, Colour::Cyan => AnsiColour::Cyan,
        Colour::White => AnsiColour::White, Colour::Fixed(n) => AnsiColour::Fixed(n),
        Colour::Rgb(r, g, b) => AnsiColour::RGB(r, g, b),
    };
    ansi_term::Style {
        foreground: style.fg.map(colour), background: style.bg.map(colour), is_bold: style.bold,
        is_dimmed: style.dimmed, is_underline: style.underline, ..Default::default()
    }.paint(text).to_string()
}

/// `String::push`: appends the character to the end of the string.
pub assume_specification[ String::push ](s: &mut String, c: char)
    ensures
        final(s)@ == old(s)@.push(c),
;

/// `String::pop`: removes the last character of the string and gives it; `None` where the string
/// is empty.
pub assume_specification[ String::pop ](s: &mut String) -> (r: Option<char>)
    ensures
        match r {
            Some(c) => old(s)@.len() > 0 && c == old(s)@.last() && final(s)@ == old(s)@.drop_last(),
            None => old(s)@.len() == 0 && final(s)@ == old(s)@,
        },
;

} // verus!
