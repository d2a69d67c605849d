//! Styles of text on a terminal.
use vstd::prelude::*;

use crate::finding::Colour;
use crate::outside::{paint, painted};
use crate::text::strings;

verus! {

/// How a text is shown.
#[derive(Clone, Copy, Debug, PartialEq, Eq, Structural)]
pub struct TextStyle {
    pub fg: Option<Colour>,
    pub bg: Option<Colour>,
    pub bold: bool,
    pub dimmed: bool,
    pub underline: bool,
}

/// As the terminal shows text by itself.
pub open spec fn plain() -> TextStyle {
    TextStyle { fg: None, bg: None, bold: false, dimmed: false, underline: false }
}

/// In a colour.
pub open spec fn in_colour(c: Colour) -> TextStyle {
    TextStyle { fg: Some(c), bg: None, bold: false, dimmed: false, underline: false }
}

/// In bold type in a colour.
pub open spec fn bold_in(c: Colour) -> TextStyle {
    TextStyle { fg: Some(c), bg: None, bold: true, dimmed: false, underline: false }
}

/// In bold type.
pub open spec fn bold() -> TextStyle {
    TextStyle { fg: None, bg: None, bold: true, dimmed: false, underline: false }
}

/// In one colour on another.
pub open spec fn on_colour(fg: Colour, bg: Colour, bold: bool) -> TextStyle {
    TextStyle { fg: Some(fg), bg: Some(bg), bold, dimmed: false, underline: false }
}

/// In a colour.
pub fn style_in(c: Colour) -> (r: TextStyle)
    ensures
        r == in_colour(c),
{
    TextStyle { fg: Some(c), bg: None, bold: false, dimmed: false, underline: false }
}

/// In bold type in a colour.
pub fn style_bold_in(c: Colour) -> (r: TextStyle)
    ensures
        r == bold_in(c),
{
    TextStyle { fg: Some(c), bg: None, bold: true, dimmed: false, underline: false }
}

/// In bold type.
pub fn style_bold() -> (r: TextStyle)
    ensures
        r == bold(),
{
    TextStyle { fg: None, bg: None, bold: true, dimmed: false, underline: false }
}

/// In one colour on another.
pub fn style_on(fg: Colour, bg: Colour, bold: bool) -> (r: TextStyle)
    ensures
        r == on_colour(fg, bg, bold),
{
    TextStyle { fg: Some(fg), bg: Some(bg), bold, dimmed: false, underline: false }
}

/// A piece of text in one style.
#[derive(Debug)]
pub struct Span {
    pub style: TextStyle,
    pub text: String,
}

/// The contents of a span.
#[verifier::ext_equal]
pub struct SpanModel {
    pub style: TextStyle,
    pub text: Seq<char>,
}

impl View for Span {
    type V = SpanModel;

    open spec fn view(&self) -> SpanModel {
        SpanModel { style: self.style, text: self.text@ }
    }
}

/// The contents of a line of spans.
pub open spec fn line_view(line: Seq<Span>) -> Seq<SpanModel> {
    Seq::new(line.len(), |i: int| line[i]@)
}

/// The contents of lines of spans.
pub open spec fn page_view(lines: Seq<Vec<Span>>) -> Seq<Seq<SpanModel>> {
    Seq::new(lines.len(), |i: int| line_view(lines[i]@))
}

/// A text in a style.
pub open spec fn styled(style: TextStyle, text: Seq<char>) -> SpanModel {
    SpanModel { style, text }
}

/// A text in the plain style.
pub open spec fn raw(text: Seq<char>) -> SpanModel {
    SpanModel { style: plain(), text }
}

/// What a terminal is sent for a span: plain text as it stands, any other with the codes for its
/// style.
pub open spec fn sent(span: SpanModel) -> Seq<char> {
    if span.style == plain() {
        span.text
    } else {
        painted(span.style, span.text)
    }
}

/// What a terminal is sent for a line.
pub open spec fn sent_line(line: Seq<SpanModel>) -> Seq<char>
    decreases line.len(),
{
    if line.len() == 0 {
        Seq::empty()
    } else {
        sent_line(line.drop_last()) + sent(line.last())
    }
}

/// What a terminal is sent for lines.
pub open spec fn sent_page(lines: Seq<Seq<SpanModel>>) -> Seq<Seq<char>> {
    Seq::new(lines.len(), |i: int| sent_line(lines[i]))
}

/// A text in a style.
pub fn span(style: TextStyle, text: &str) -> (r: Span)
    ensures
        r@ == styled(style, text@),
{
    Span { style, text: text.to_owned() }
}

/// A text in the plain style.
pub fn raw_span(text: &str) -> (r: Span)
    ensures
        r@ == raw(text@),
{
    Span {
        style: TextStyle { fg: None, bg: None, bold: false, dimmed: false, underline: false },
        text: text.to_owned(),
    }
}

/// What a terminal is sent for a line.
pub fn render_line(line: &Vec<Span>) -> (r: String)
    ensures
        r@ == sent_line(line_view(line@)),
{
    let ghost all = line_view(line@);
    let mut out = String::new();
    let mut k: usize = 0;
    assert(out@ =~= sent_line(all.take(0)));
    while k < line.len()
        invariant
            k <= line@.len(),
            all == line_view(line@),
            out@ == sent_line(all.take(k as int)),
        decreases line@.len() - k,
    {
        let ghost more = all.take(k + 1);
        assert(more.drop_last() =~= all.take(k as int));
        assert(more.last() == line@[k as int]@);
        let piece = paint(line[k].style, line[k].text.as_str());
        out.append(piece.as_str());
        k = k + 1;
    }
    assert(all.take(k as int) =~= all);
    out
}

/// What a terminal is sent for lines, each to be printed on a line of its own.
pub fn render(lines: &Vec<Vec<Span>>) -> (r: Vec<String>)
    ensures
        strings(r@) == sent_page(page_view(lines@)),
{
    let ghost all = page_view(lines@);
    let mut out: Vec<String> = Vec::new();
    let mut k: usize = 0;
    while k < lines.len()
        invariant
            k <= lines@.len(),
            out@.len() == k,
            all == page_view(lines@),
            forall|j: int| 0 <= j < k ==> (#[trigger] out@[j])@ == sent_line(all[j]),
        decreases lines@.len() - k,
    {
        assert(all[k as int] == line_view(lines@[k as int]@));
        out.push(render_line(&lines[k]));
        k = k + 1;
    }
    assert(strings(out@) =~= sent_page(all));
    out
}

/// A line of one plain text.
pub fn raw_line(text: &str) -> (r: Vec<Span>)
    ensures
        line_view(r@) == seq![raw(text@)],
{
    let mut line: Vec<Span> = Vec::new();
    line.push(raw_span(text));
    assert(line_view(line@) =~= seq![raw(text@)]);
    line
}

/// A line of one text in a style.
pub fn styled_line(style: TextStyle, text: &str) -> (r: Vec<Span>)
    ensures
        line_view(r@) == seq![styled(style, text@)],
{
    let mut line: Vec<Span> = Vec::new();
    line.push(span(style, text));
    assert(line_view(line@) =~= seq![styled(style, text@)]);
    line
}

/// Adds a line.
pub fn add_line(lines: &mut Vec<Vec<Span>>, line: Vec<Span>)
    ensures
        page_view(final(lines)@) == page_view(old(lines)@) + seq![line_view(line@)],
{
    let ghost before = page_view(lines@);
    let ghost added = line_view(line@);
    lines.push(line);
    assert(page_view(lines@) =~= before + seq![added]);
}

/// Adds lines.
pub fn add_lines(lines: &mut Vec<Vec<Span>>, more: Vec<Vec<Span>>)
    ensures
        page_view(final(lines)@) == page_view(old(lines)@) + page_view(more@),
{
    let mut more = more;
    let ghost added = more@;
    lines.append(&mut more);
    assert(page_view(lines@) =~= page_view(old(lines)@) + page_view(added));
}

/// Rendering keeps the number of lines.
pub proof fn rendering_keeps_lines(lines: Seq<Seq<SpanModel>>)
    ensures
        sent_page(lines).len() == lines.len(),
{
}

/// A line of plain texts is sent as it stands.
pub proof fn plain_line_is_sent_as_it_stands(text: Seq<char>)
    ensures
        sent_line(seq![raw(text)]) == text,
{
    let line = seq![raw(text)];
    assert(line.drop_last() =~= Seq::<SpanModel>::empty());
    assert(sent_line(line.drop_last()) =~= Seq::<char>::empty());
    assert(Seq::<char>::empty() + text =~= text);
}

} // verus!
