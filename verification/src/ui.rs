//! What is drawn: styled text in framed panes. Nothing here knows a terminal.

use vstd::prelude::*;

verus! {

#[derive(Clone, Copy, Debug, PartialEq, Eq, Structural)]
pub enum Color {
    Black,
    White,
    Yellow,
    Green,
    Cyan,
    Red,
    DarkGray,
}

/// How text looks.
#[derive(Clone, Copy, Debug, PartialEq, Eq, Structural)]
pub enum Style {
    /// As the terminal has it.
    Plain,
    Dim,
    Red,
    Yellow,
    Cyan,
    Bold,
    /// Black on yellow: the cursor, and the tab that is open.
    Marked,
    /// Black on white: the name of the program.
    Banner,
    GreenBold,
    CyanBold,
}

impl Style {
    pub fn fg(self) -> (r: Option<Color>)
        ensures
            r == match self {
                Style::Plain | Style::Bold => None,
                Style::Dim => Some(Color::DarkGray),
                Style::Red => Some(Color::Red),
                Style::Yellow => Some(Color::Yellow),
                Style::Cyan | Style::CyanBold => Some(Color::Cyan),
                Style::Marked | Style::Banner => Some(Color::Black),
                Style::GreenBold => Some(Color::Green),
            },
    {
        match self {
            Style::Plain | Style::Bold => None,
            Style::Dim => Some(Color::DarkGray),
            Style::Red => Some(Color::Red),
            Style::Yellow => Some(Color::Yellow),
            Style::Cyan | Style::CyanBold => Some(Color::Cyan),
            Style::Marked | Style::Banner => Some(Color::Black),
            Style::GreenBold => Some(Color::Green),
        }
    }

    pub fn bg(self) -> (r: Option<Color>)
        ensures
            r == match self {
                Style::Marked => Some(Color::Yellow),
                Style::Banner => Some(Color::White),
                _ => None,
            },
    {
        match self {
            Style::Marked => Some(Color::Yellow),
            Style::Banner => Some(Color::White),
            _ => None,
        }
    }

    pub fn bold(self) -> (r: bool)
        ensures
            r == (self is Bold || self is GreenBold || self is CyanBold),
    {
        match self {
            Style::Bold | Style::GreenBold | Style::CyanBold => true,
            _ => false,
        }
    }
}

// ---- text ----

/// A run of text in one style.
pub struct Span {
    pub text: String,
    pub style: Style,
}

#[verifier::ext_equal]
pub struct SpanModel {
    pub text: Seq<char>,
    pub style: Style,
}

impl View for Span {
    type V = SpanModel;

    open spec fn view(&self) -> SpanModel {
        SpanModel { text: self.text@, style: self.style }
    }
}

pub open spec fn span_of(text: Seq<char>, style: Style) -> SpanModel {
    SpanModel { text, style }
}

pub fn span(text: String, style: Style) -> (r: Span)
    ensures
        r@ == span_of(text@, style),
{
    Span { text, style }
}

pub open spec fn spans_view(spans: Seq<Span>) -> Seq<SpanModel> {
    spans.map_values(|s: Span| s@)
}

pub fn no_spans() -> (r: Vec<Span>)
    ensures
        spans_view(r@) == Seq::<SpanModel>::empty(),
{
    let v: Vec<Span> = Vec::new();
    assert(spans_view(v@) =~= Seq::<SpanModel>::empty());
    v
}

pub fn push_span(v: &mut Vec<Span>, s: Span)
    ensures
        spans_view(final(v)@) == spans_view(old(v)@).push(s@),
{
    v.push(s);
    assert(spans_view(v@) =~= spans_view(old(v)@).push(s@));
}

/// Add the spans of one list to another.
pub fn append_spans(v: &mut Vec<Span>, more: Vec<Span>)
    ensures
        spans_view(final(v)@) == spans_view(old(v)@) + spans_view(more@),
{
    let mut more = more;
    let ghost m = more@;
    v.append(&mut more);
    assert(spans_view(v@) =~= spans_view(old(v)@) + spans_view(m));
}

/// A line of spans, with a style for the whole of it.
pub struct Line {
    pub spans: Vec<Span>,
    pub style: Style,
}

#[verifier::ext_equal]
pub struct LineModel {
    pub spans: Seq<SpanModel>,
    pub style: Style,
}

impl View for Line {
    type V = LineModel;

    open spec fn view(&self) -> LineModel {
        LineModel { spans: spans_view(self.spans@), style: self.style }
    }
}

/// A line of one span.
pub open spec fn text_line(text: Seq<char>, style: Style) -> LineModel {
    LineModel { spans: seq![span_of(text, Style::Plain)], style }
}

/// A line of several spans.
pub open spec fn span_line(spans: Seq<SpanModel>) -> LineModel {
    LineModel { spans, style: Style::Plain }
}

pub fn line_of_text(text: String, style: Style) -> (r: Line)
    ensures
        r@ == text_line(text@, style),
{
    let mut spans = no_spans();
    push_span(&mut spans, span(text, Style::Plain));
    Line { spans, style }
}

pub fn line_of_spans(spans: Vec<Span>) -> (r: Line)
    ensures
        r@ == span_line(spans_view(spans@)),
{
    Line { spans, style: Style::Plain }
}

pub open spec fn lines_view(lines: Seq<Line>) -> Seq<LineModel> {
    lines.map_values(|l: Line| l@)
}

pub fn no_rows() -> (r: Vec<Line>)
    ensures
        lines_view(r@) == Seq::<LineModel>::empty(),
{
    let v: Vec<Line> = Vec::new();
    assert(lines_view(v@) =~= Seq::<LineModel>::empty());
    v
}

pub fn push_line(v: &mut Vec<Line>, l: Line)
    ensures
        lines_view(final(v)@) == lines_view(old(v)@).push(l@),
{
    v.push(l);
    assert(lines_view(v@) =~= lines_view(old(v)@).push(l@));
}

// ---- panes ----

/// A rectangle of the terminal.
#[derive(Clone, Copy, Debug, PartialEq, Eq, Structural)]
pub struct Area {
    pub x: u16,
    pub y: u16,
    pub width: u16,
    pub height: u16,
}

/// How text meets the right edge.
#[derive(Clone, Copy, Debug, PartialEq, Eq, Structural)]
pub enum Wrap {
    /// It is cut off.
    Cut,
    /// It goes on below, blanks at the break dropped.
    Trim,
    /// It goes on below as it is.
    Keep,
}

/// A frame around a pane: its title, and the colour of the border.
pub struct Border {
    pub title: String,
    pub color: Color,
}

#[verifier::ext_equal]
pub struct BorderModel {
    pub title: Seq<char>,
    pub color: Color,
}

impl View for Border {
    type V = BorderModel;

    open spec fn view(&self) -> BorderModel {
        BorderModel { title: self.title@, color: self.color }
    }
}

pub open spec fn border_view(b: Option<Border>) -> Option<BorderModel> {
    match b {
        Some(b) => Some(b@),
        None => None,
    }
}

/// Lines in a place on the screen.
pub struct Pane {
    pub area: Area,
    pub border: Option<Border>,
    pub lines: Vec<Line>,
    pub style: Style,
    pub wrap: Wrap,
    /// Lines scrolled out at the top.
    pub scroll: u16,
    /// What lies below is wiped first.
    pub clear: bool,
}

#[verifier::ext_equal]
pub struct PaneModel {
    pub area: Area,
    pub border: Option<BorderModel>,
    pub lines: Seq<LineModel>,
    pub style: Style,
    pub wrap: Wrap,
    pub scroll: u16,
    pub clear: bool,
}

impl View for Pane {
    type V = PaneModel;

    open spec fn view(&self) -> PaneModel {
        PaneModel {
            area: self.area,
            border: border_view(self.border),
            lines: lines_view(self.lines@),
            style: self.style,
            wrap: self.wrap,
            scroll: self.scroll,
            clear: self.clear,
        }
    }
}

pub open spec fn panes_view(panes: Seq<Pane>) -> Seq<PaneModel> {
    panes.map_values(|p: Pane| p@)
}

pub fn push_pane(v: &mut Vec<Pane>, p: Pane)
    ensures
        panes_view(final(v)@) == panes_view(old(v)@).push(p@),
{
    v.push(p);
    assert(panes_view(v@) =~= panes_view(old(v)@).push(p@));
}

/// The usual frame: a dim border and the title with a blank on either side.
pub open spec fn panel_of(title: Seq<char>) -> BorderModel {
    BorderModel { title: " "@ + title + " "@, color: Color::DarkGray }
}

pub fn panel(title: &str) -> (r: Border)
    ensures
        r@ == panel_of(title@),
{
    Border { title: " ".to_owned().concat(title).concat(" "), color: Color::DarkGray }
}

/// A framed pane with nothing special about it.
pub open spec fn framed_of(area: Area, title: Seq<char>, lines: Seq<LineModel>) -> PaneModel {
    PaneModel {
        area,
        border: Some(panel_of(title)),
        lines,
        style: Style::Plain,
        wrap: Wrap::Cut,
        scroll: 0,
        clear: false,
    }
}

pub fn framed(area: Area, title: &str, lines: Vec<Line>) -> (r: Pane)
    ensures
        r@ == framed_of(area, title@, lines_view(lines@)),
{
    Pane {
        area,
        border: Some(panel(title)),
        lines,
        style: Style::Plain,
        wrap: Wrap::Cut,
        scroll: 0,
        clear: false,
    }
}

/// A pane of one line without a frame.
pub open spec fn bare_of(area: Area, line: LineModel, style: Style) -> PaneModel {
    PaneModel {
        area,
        border: None,
        lines: seq![line],
        style,
        wrap: Wrap::Cut,
        scroll: 0,
        clear: false,
    }
}

pub fn bare(area: Area, line: Line, style: Style) -> (r: Pane)
    ensures
        r@ == bare_of(area, line@, style),
{
    let mut lines = no_rows();
    push_line(&mut lines, line);
    Pane { area, border: None, lines, style, wrap: Wrap::Cut, scroll: 0, clear: false }
}

// ---- placing ----

/// The part of an area of at most this size that lies in its middle.
pub open spec fn centered(area: Area, w: u16, h: u16) -> Area {
    let w = if w < area.width {
        w
    } else {
        area.width
    };
    let h = if h < area.height {
        h
    } else {
        area.height
    };
    Area {
        x: (area.x + (area.width - w) / 2) as u16,
        y: (area.y + (area.height - h) / 2) as u16,
        width: w,
        height: h,
    }
}

/// The area ends within the range of its coordinates.
pub open spec fn area_fits(area: Area) -> bool {
    area.x + area.width <= u16::MAX && area.y + area.height <= u16::MAX
}

pub fn center(area: Area, w: u16, h: u16) -> (r: Area)
    requires
        area_fits(area),
    ensures
        r == centered(area, w, h),
{
    let w: u16 = if w < area.width {
        w
    } else {
        area.width
    };
    let h: u16 = if h < area.height {
        h
    } else {
        area.height
    };
    Area {
        x: area.x + (area.width - w) / 2,
        y: area.y + (area.height - h) / 2,
        width: w,
        height: h,
    }
}

/// A centred area lies within the one it is centred in, with margins on
/// opposite sides that differ by no more than one.
pub proof fn centered_lies_within(area: Area, w: u16, h: u16)
    requires
        area_fits(area),
    ensures
        ({
            let c = centered(area, w, h);
            let left = c.x - area.x;
            let right = area.x + area.width - (c.x + c.width);
            let above = c.y - area.y;
            let below = area.y + area.height - (c.y + c.height);
            &&& 0 <= left <= right <= left + 1
            &&& 0 <= above <= below <= above + 1
        }),
{
}

/// What a line says, whatever it looks like.
pub open spec fn said_by(spans: Seq<SpanModel>) -> Seq<char>
    decreases spans.len(),
{
    if spans.len() == 0 {
        Seq::empty()
    } else {
        said_by(spans.drop_last()) + spans.last().text
    }
}

/// A line of one span says its text, and spans side by side say theirs in
/// order.
pub proof fn lines_say_their_spans(text: Seq<char>, style: Style, a: SpanModel, b: SpanModel, c: SpanModel)
    ensures
        said_by(text_line(text, style).spans) == text,
        text_line(text, style).style == style,
        said_by(seq![a, b]) == a.text + b.text,
        said_by(seq![a, b, c]) == a.text + b.text + c.text,
{
    reveal_with_fuel(said_by, 4);
    let one = seq![span_of(text, Style::Plain)];
    assert(one.drop_last() =~= Seq::empty());
    assert(said_by(one) =~= text);
    assert(seq![a, b].drop_last() =~= seq![a]);
    assert(seq![a].drop_last() =~= Seq::empty());
    assert(said_by(seq![a, b]) =~= a.text + b.text);
    assert(seq![a, b, c].drop_last() =~= seq![a, b]);
    assert(said_by(seq![a, b, c]) =~= a.text + b.text + c.text);
}

/// A framed pane shows its lines from the first on, under its title; a bare one
/// shows its one line without a frame. Neither wipes what lies below.
pub proof fn panes_show_their_lines(
    area: Area,
    title: Seq<char>,
    lines: Seq<LineModel>,
    line: LineModel,
    style: Style,
)
    ensures
        ({
            let p = framed_of(area, title, lines);
            &&& p.area == area && p.lines == lines && p.scroll == 0 && !p.clear
            &&& p.wrap is Cut && p.style is Plain
            &&& p.border matches Some(b) && b.title == " "@ + title + " "@ && b.color is DarkGray
        }),
        ({
            let p = bare_of(area, line, style);
            &&& p.area == area && p.lines == seq![line] && p.scroll == 0 && !p.clear
            &&& p.border is None && p.style == style
        }),
{
}

/// A centred area has the size asked for, or that of the whole where that is
/// smaller.
pub proof fn a_centred_area_has_its_size(area: Area, w: u16, h: u16)
    requires
        area_fits(area),
    ensures
        centered(area, w, h).width == if w < area.width {
            w
        } else {
            area.width
        },
        centered(area, w, h).height == if h < area.height {
            h
        } else {
            area.height
        },
{
}

} // verus!
