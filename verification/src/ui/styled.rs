//! Lines of styled text.

use vstd::prelude::*;

verus! {

/// A colour, by its role.
#[derive(Debug, Clone, Copy, PartialEq, Eq)]
pub enum Color {
    White,
    Yellow,
    Green,
    /// The accent colour of the theme.
    RustOrange,
    /// Secondary text.
    Dim,
    StatusError,
    StatusWarning,
    /// A colour that the caller chose, by its place in a palette of the caller's.
    Palette(u32),
}

/// How a span looks.
#[derive(Debug, Clone, Copy, PartialEq, Eq)]
pub struct Style {
    pub fg: Color,
    pub bold: bool,
}

/// A run of text in one style.
#[derive(Debug, PartialEq, Eq)]
pub struct Span {
    pub content: String,
    pub style: Style,
}

/// A line of text.
#[derive(Debug, PartialEq, Eq)]
pub struct Line {
    pub spans: Vec<Span>,
}

/// The content of a [`Span`].
pub struct SpanView {
    pub content: Seq<char>,
    pub style: Style,
}

impl DeepView for Span {
    type V = SpanView;

    open spec fn deep_view(&self) -> SpanView {
        SpanView { content: self.content@, style: self.style }
    }
}

impl DeepView for Line {
    type V = Seq<SpanView>;

    open spec fn deep_view(&self) -> Seq<SpanView> {
        self.spans.deep_view()
    }
}

/// A span in an ordinary weight.
pub open spec fn plain(content: Seq<char>, fg: Color) -> SpanView {
    SpanView { content, style: Style { fg, bold: false } }
}

/// A span in bold.
pub open spec fn bold(content: Seq<char>, fg: Color) -> SpanView {
    SpanView { content, style: Style { fg, bold: true } }
}

/// [`plain`]: a span in an ordinary weight.
pub fn plain_span(content: String, fg: Color) -> (r: Span)
    ensures
        r.deep_view() == plain(content@, fg),
{
    Span { content, style: Style { fg, bold: false } }
}

/// [`bold`]: a span in bold.
pub fn bold_span(content: String, fg: Color) -> (r: Span)
    ensures
        r.deep_view() == bold(content@, fg),
{
    Span { content, style: Style { fg, bold: true } }
}

impl Span {
    /// The same span once more.
    pub fn copy(&self) -> (r: Span)
        ensures
            r.deep_view() == self.deep_view(),
    {
        Span { content: self.content.clone(), style: self.style }
    }
}

/// A line of one span.
pub fn line_of(span: Span) -> (r: Line)
    ensures
        r.deep_view() == seq![span.deep_view()],
{
    let mut spans: Vec<Span> = Vec::new();
    let ghost one = span.deep_view();
    spans.push(span);
    assert(spans.deep_view() =~= seq![one]);
    Line { spans }
}

/// Appends a span.
pub fn add_span(spans: &mut Vec<Span>, span: Span)
    ensures
        final(spans).deep_view() == old(spans).deep_view().push(span.deep_view()),
{
    let ghost before = spans.deep_view();
    let ghost one = span.deep_view();
    spans.push(span);
    assert(spans.deep_view() =~= before.push(one));
}

/// Appends copies of the spans.
pub fn add_spans(spans: &mut Vec<Span>, more: &Vec<Span>)
    ensures
        final(spans).deep_view() == old(spans).deep_view() + more.deep_view(),
{
    let ghost before = spans.deep_view();
    let ghost all = more.deep_view();
    let mut i: usize = 0;
    assert(spans.deep_view() =~= before + all.take(0));
    while i < more.len()
        invariant
            i <= more@.len(),
            all == more.deep_view(),
            spans.deep_view() == before + all.take(i as int),
        decreases more@.len() - i,
    {
        add_span(spans, more[i].copy());
        assert(spans.deep_view() =~= before + all.take(i as int + 1));
        i = i + 1;
    }
    assert(all.take(i as int) =~= all);
}

/// Appends a line.
pub fn add_line(lines: &mut Vec<Line>, line: Line)
    ensures
        final(lines).deep_view() == old(lines).deep_view().push(line.deep_view()),
{
    let ghost before = lines.deep_view();
    let ghost one = line.deep_view();
    lines.push(line);
    assert(lines.deep_view() =~= before.push(one));
}

/// Appends copies of the lines from position `from` on.
pub fn add_lines_from(lines: &mut Vec<Line>, more: &Vec<Line>, from: usize)
    requires
        from <= more@.len(),
    ensures
        final(lines).deep_view() == old(lines).deep_view() + more.deep_view().skip(from as int),
{
    let ghost before = lines.deep_view();
    let ghost all = more.deep_view();
    let mut i: usize = from;
    assert(lines.deep_view() =~= before + all.subrange(from as int, from as int));
    while i < more.len()
        invariant
            from <= i <= more@.len(),
            all == more.deep_view(),
            lines.deep_view() == before + all.subrange(from as int, i as int),
        decreases more@.len() - i,
    {
        let mut spans: Vec<Span> = Vec::new();
        add_spans(&mut spans, &more[i].spans);
        assert(spans.deep_view() =~= all[i as int]);
        add_line(lines, Line { spans });
        assert(lines.deep_view() =~= before + all.subrange(from as int, i as int + 1));
        i = i + 1;
    }
    assert(all.subrange(from as int, i as int) =~= all.skip(from as int));
}

/// Appends copies of the lines.
pub fn add_lines(lines: &mut Vec<Line>, more: &Vec<Line>)
    ensures
        final(lines).deep_view() == old(lines).deep_view() + more.deep_view(),
{
    assert(more.deep_view().skip(0) =~= more.deep_view());
    add_lines_from(lines, more, 0);
}

} // verus!
