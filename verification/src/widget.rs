//! What is drawn: styled text, frames, lists and bars, each in its area.

use crate::layout::{Area, BORDER_ALL};
use crate::style::{Color, Style};
use crate::text;
use crate::text::push_view;
use vstd::prelude::*;

verus! {

/// A piece of text in one style.
#[derive(Debug)]
pub struct Span {
    pub text: String,
    pub style: Style,
}

/// [`Span`] as a mathematical value.
pub ghost struct SpanModel {
    pub text: Seq<char>,
    pub style: Style,
}

impl View for Span {
    type V = SpanModel;

    open spec fn view(&self) -> SpanModel {
        SpanModel { text: self.text@, style: self.style }
    }
}

/// A line of text.
#[derive(Debug)]
pub struct Line {
    pub spans: Vec<Span>,
}

impl View for Line {
    type V = Seq<SpanModel>;

    open spec fn view(&self) -> Seq<SpanModel> {
        text::views(self.spans@)
    }
}

/// A row of a list.
#[derive(Debug)]
pub struct Row {
    pub line: Line,
    /// The background.
    pub bg: Option<Color>,
}

/// [`Row`] as a mathematical value.
pub ghost struct RowModel {
    pub line: Seq<SpanModel>,
    pub bg: Option<Color>,
}

impl View for Row {
    type V = RowModel;

    open spec fn view(&self) -> RowModel {
        RowModel { line: self.line@, bg: self.bg }
    }
}

/// How the lines of a frame look.
#[derive(Clone, Copy, PartialEq, Eq, Debug, Structural)]
pub enum BorderKind {
    Plain,
    Rounded,
    Double,
}

/// A frame with a title.
#[derive(Debug)]
pub struct Frame {
    /// The sides that have a line, one bit each.
    pub borders: u8,
    pub kind: BorderKind,
    /// The style of the lines.
    pub style: Style,
    /// The background.
    pub bg: Option<Color>,
    pub title: Line,
}

/// [`Frame`] as a mathematical value.
pub ghost struct FrameModel {
    pub borders: u8,
    pub kind: BorderKind,
    pub style: Style,
    pub bg: Option<Color>,
    pub title: Seq<SpanModel>,
}

impl View for Frame {
    type V = FrameModel;

    open spec fn view(&self) -> FrameModel {
        FrameModel {
            borders: self.borders,
            kind: self.kind,
            style: self.style,
            bg: self.bg,
            title: self.title@,
        }
    }
}

/// Something that is drawn.
#[derive(Debug)]
pub enum Widget {
    /// Nothing, in place of what was there.
    Clear,
    Frame(Frame),
    Text(Vec<Line>),
    /// Text in the middle of its area.
    Centered(Line),
    /// A line of text inside a frame.
    Framed(Line, Frame),
    /// A line of text on a background.
    Bar(Line, Color),
    /// A list, with the place of the row that has to be in sight.
    List(Vec<Row>, usize),
    /// A bar that is filled to a percentage, with a text on it.
    Gauge(Style, u8, String),
}

/// [`Widget`] as a mathematical value.
pub ghost enum WidgetModel {
    Clear,
    Frame(FrameModel),
    Text(Seq<Seq<SpanModel>>),
    Centered(Seq<SpanModel>),
    Framed(Seq<SpanModel>, FrameModel),
    Bar(Seq<SpanModel>, Color),
    List(Seq<RowModel>, usize),
    Gauge(Style, u8, Seq<char>),
}

impl View for Widget {
    type V = WidgetModel;

    open spec fn view(&self) -> WidgetModel {
        match *self {
            Widget::Clear => WidgetModel::Clear,
            Widget::Frame(f) => WidgetModel::Frame(f@),
            Widget::Text(lines) => WidgetModel::Text(text::views(lines@)),
            Widget::Centered(l) => WidgetModel::Centered(l@),
            Widget::Framed(l, f) => WidgetModel::Framed(l@, f@),
            Widget::Bar(l, c) => WidgetModel::Bar(l@, c),
            Widget::List(rows, at) => WidgetModel::List(text::views(rows@), at),
            Widget::Gauge(style, percent, label) => WidgetModel::Gauge(style, percent, label@),
        }
    }
}

/// Something that is drawn in an area.
#[derive(Debug)]
pub struct Drawing {
    pub area: Area,
    pub widget: Widget,
}

/// [`Drawing`] as a mathematical value.
pub ghost struct DrawingModel {
    pub area: Area,
    pub widget: WidgetModel,
}

impl View for Drawing {
    type V = DrawingModel;

    open spec fn view(&self) -> DrawingModel {
        DrawingModel { area: self.area, widget: self.widget@ }
    }
}

/// A piece of text.
pub open spec fn sp(text: Seq<char>, style: Style) -> SpanModel {
    SpanModel { text, style }
}

/// Something that is drawn in an area.
pub open spec fn at(area: Area, widget: WidgetModel) -> DrawingModel {
    DrawingModel { area, widget }
}

/// An empty list.
pub fn nothing<T: View>() -> (r: Vec<T>)
    ensures
        r@.len() == 0,
        text::views(r@) == Seq::<T::V>::empty(),
{
    let r: Vec<T> = Vec::new();
    assert(text::views(r@) =~= Seq::<T::V>::empty());
    r
}

/// A piece of text.
pub fn span(text: &str, style: Style) -> (r: Span)
    ensures
        r@ == sp(text@, style),
{
    Span { text: text.to_owned(), style }
}

/// A piece of text.
pub fn span_of(text: String, style: Style) -> (r: Span)
    ensures
        r@ == sp(text@, style),
{
    Span { text, style }
}

/// A line without text.
pub fn line0() -> (r: Line)
    ensures
        r@ == Seq::<SpanModel>::empty(),
{
    Line { spans: nothing() }
}

/// A line of one piece.
pub fn line1(a: Span) -> (r: Line)
    ensures
        r@ == seq![a@],
{
    line0().and(a)
}

/// A line of two pieces.
pub fn line2(a: Span, b: Span) -> (r: Line)
    ensures
        r@ == seq![a@, b@],
{
    line0().and(a).and(b)
}

impl Line {
    /// The line with one piece more.
    pub fn and(self, s: Span) -> (r: Line)
        ensures
            r@ == self@.push(s@),
    {
        let mut spans = self.spans;
        push_view(&mut spans, s);
        Line { spans }
    }
}

/// A frame with round corners on all sides.
pub open spec fn round_frame(style: Style, title: Seq<SpanModel>) -> FrameModel {
    FrameModel { borders: BORDER_ALL, kind: BorderKind::Rounded, style, bg: None, title }
}

/// A frame with round corners on all sides.
pub fn rounded(style: Style, title: Line) -> (r: Frame)
    ensures
        r@ == round_frame(style, title@),
{
    Frame { borders: BORDER_ALL, kind: BorderKind::Rounded, style, bg: None, title }
}

/// Lines of text, each behind a bullet.
pub open spec fn bulleted(
    bullet: SpanModel,
    lines: Seq<Seq<char>>,
    style: Style,
) -> Seq<Seq<SpanModel>> {
    lines.map_values(|l: Seq<char>| seq![bullet, sp(l, style)])
}

/// The lines from the place `from` up to the place `to`, each behind a bullet.
pub fn bullets(
    bullet: &str,
    bullet_style: Style,
    lines: &Vec<String>,
    from: usize,
    to: usize,
    style: Style,
) -> (r: Vec<Line>)
    requires
        from <= to <= lines@.len(),
    ensures
        text::views(r@) == bulleted(
            sp(bullet@, bullet_style),
            text::views(lines@).subrange(from as int, to as int),
            style,
        ),
{
    let ghost all = bulleted(
        sp(bullet@, bullet_style),
        text::views(lines@).subrange(from as int, to as int),
        style,
    );
    let mut r: Vec<Line> = nothing();
    let mut i: usize = from;
    assert(text::views(r@) =~= all.take(0));
    while i < to
        invariant
            from <= i <= to <= lines@.len(),
            all == bulleted(
                sp(bullet@, bullet_style),
                text::views(lines@).subrange(from as int, to as int),
                style,
            ),
            text::views(r@) == all.take(i - from),
        decreases to - i,
    {
        push_view(&mut r, line2(span(bullet, bullet_style), span(lines[i].as_str(), style)));
        assert(text::views(r@) =~= all.take(i - from + 1));
        i += 1;
    }
    assert(all.take(all.len() as int) =~= all);
    r
}

/// Adds something that is drawn in an area.
pub fn draw_at(out: &mut Vec<Drawing>, area: Area, widget: Widget)
    ensures
        text::views(final(out)@) == text::views(old(out)@).push(at(area, widget@)),
{
    push_view(out, Drawing { area, widget });
}

/// What a drawing is made of is taken as it is: nothing of it is left out.
pub proof fn drawings_are_taken_as_they_are(
    span: Span,
    line: Line,
    row: Row,
    frame: Frame,
    drawing: Drawing,
    k: int,
)
    ensures
        span@ == (SpanModel { text: span.text@, style: span.style }),
        line@.len() == line.spans@.len(),
        0 <= k < line@.len() ==> line@[k] == line.spans@[k]@,
        row@ == (RowModel { line: row.line@, bg: row.bg }),
        frame@ == (FrameModel {
            borders: frame.borders,
            kind: frame.kind,
            style: frame.style,
            bg: frame.bg,
            title: frame.title@,
        }),
        drawing@ == (DrawingModel { area: drawing.area, widget: drawing.widget@ }),
{
}

/// What is drawn is taken as it is: nothing of it is left out.
pub proof fn widgets_are_taken_as_they_are(
    frame: Frame,
    lines: Vec<Line>,
    line: Line,
    rows: Vec<Row>,
    at: usize,
    style: Style,
    color: Color,
    percent: u8,
    label: String,
)
    ensures
        Widget::Clear@ == WidgetModel::Clear,
        Widget::Frame(frame)@ == WidgetModel::Frame(frame@),
        Widget::Text(lines)@ == WidgetModel::Text(text::views(lines@)),
        Widget::Centered(line)@ == WidgetModel::Centered(line@),
        Widget::Framed(line, frame)@ == WidgetModel::Framed(line@, frame@),
        Widget::Bar(line, color)@ == WidgetModel::Bar(line@, color),
        Widget::List(rows, at)@ == WidgetModel::List(text::views(rows@), at),
        Widget::Gauge(style, percent, label)@ == WidgetModel::Gauge(style, percent, label@),
{
}

/// A piece of text keeps its characters, and a drawing its place.
pub proof fn pieces_keep_what_they_are_given(
    text: Seq<char>,
    style: Style,
    area: Area,
    widget: WidgetModel,
    title: Seq<SpanModel>,
)
    ensures
        sp(text, style).text == text,
        sp(text, style).style == style,
        at(area, widget).area == area,
        at(area, widget).widget == widget,
        round_frame(style, title).borders == 15,
        round_frame(style, title).kind == BorderKind::Rounded,
        round_frame(style, title).style == style,
        round_frame(style, title).bg is None,
        round_frame(style, title).title == title,
{
}

/// Behind bullets there is one line for each text, with the bullet and the whole text.
pub proof fn bullets_leave_nothing_out(
    bullet: SpanModel,
    lines: Seq<Seq<char>>,
    style: Style,
    k: int,
)
    ensures
        bulleted(bullet, lines, style).len() == lines.len(),
        0 <= k < lines.len() ==> bulleted(bullet, lines, style)[k] == seq![
            bullet,
            SpanModel { text: lines[k], style },
        ],
{
}

} // verus!
