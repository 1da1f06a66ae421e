//! How the screen looks.

use crate::app::{
    example, example_of, hints_view, keys_of, next_step_of, origin_label, tab_of, App, AppModel,
    Screen, EXAMPLES, LAST_BLOCK,
};
use crate::em4100::{
    em4100_show, em4100_text, form_covers, form_label, frame_bytes, frame_bytes_of, IdForm,
    T5577_EM4100,
};
use crate::hexes::{groups_text, hex, hex_groups, hex_text};
use crate::input::field_spans;
use crate::mifare::{kind_of, sectors_of, Card, CardModel, KEYS};
use crate::text::{
    dec, dec_text, hex2, hex2_string, left_padded, pad_left, pad_right, right_padded,
};
use crate::ui::{
    append_spans, area_fits, bare, bare_of, center, centered, framed, framed_of, line_of_spans,
    line_of_text, lines_view, no_rows, no_spans, panes_view, push_line, push_pane, push_span, span,
    span_line, span_of, spans_view, text_line, Area, Border, BorderModel, Color, Line, LineModel,
    Pane, PaneModel, Span, SpanModel, Style, Wrap,
};
use crate::worker::{Pad, PadModel, Sector, SectorModel};
use ratatui::layout::{Constraint, Direction, Layout, Rect};
use vstd::prelude::*;

verus! {

// ---- places ----

/// Which way an area is split.
#[derive(Clone, Copy, Debug, PartialEq, Eq, Structural)]
pub enum Axis {
    Down,
    Across,
}

/// How much of the area a part wants.
#[derive(Clone, Copy, Debug, PartialEq, Eq, Structural)]
pub enum Share {
    Length(u16),
    Min(u16),
    Percentage(u16),
}

/// These parts are among those that an area may be split into for these shares.
pub uninterp spec fn may_split(area: Area, axis: Axis, shares: Seq<Share>, parts: Seq<Area>) -> bool;

/// `ratatui::layout::Layout::split` for a layout without margins: as many
/// areas as shares, each as wide as the whole when split downwards and as high
/// when split across, and none that ends beyond the range of its coordinates
/// unless the whole does. How much each share gets is settled by a constraint
/// solver whose steps follow the order of a hash map, so one call need not
/// give what another gave; of what it settles on no more is said than that it
/// was given for this area and these shares.
#[verifier::external_body]
fn split(area: Area, axis: Axis, shares: &[Share]) -> (r: Vec<Area>)
    ensures
        may_split(area, axis, shares@, r@),
        r@.len() == shares@.len(),
        forall|i: int|
            0 <= i < r@.len() ==> match axis {
                Axis::Down => (#[trigger] r@[i]).x == area.x && r@[i].width == area.width,
                Axis::Across => r@[i].y == area.y && r@[i].height == area.height,
            },
        area_fits(area) ==> forall|i: int| 0 <= i < r@.len() ==> area_fits(#[trigger] r@[i]),
{
    let direction = match axis {
        Axis::Down => Direction::Vertical,
        Axis::Across => Direction::Horizontal,
    };
    let wants = shares.iter().map(|s| match s {
        Share::Length(n) => Constraint::Length(*n),
        Share::Min(n) => Constraint::Min(*n),
        Share::Percentage(n) => Constraint::Percentage(*n),
    });
    let whole = Rect { x: area.x, y: area.y, width: area.width, height: area.height };
    let parts = Layout::new(direction, wants).split(whole);
    parts.iter().map(|p| Area { x: p.x, y: p.y, width: p.width, height: p.height }).collect()
}

/// Where everything goes.
pub struct Areas {
    pub tabs: Area,
    pub pad: Area,
    pub body: Area,
    pub foot: Area,
    pub main: Area,
    pub side: Area,
    /// The two halves of the main area, on screens that have two panes.
    pub upper: Area,
    pub lower: Area,
}

/// The places of a screen fit together: the four bands are as wide as the
/// whole, the two columns as high as the body, the two halves as wide as the
/// main column.
pub open spec fn places_ok(p: Areas, whole: Area) -> bool {
    &&& p.tabs.x == whole.x && p.tabs.width == whole.width
    &&& p.pad.x == whole.x && p.pad.width == whole.width
    &&& p.body.x == whole.x && p.body.width == whole.width
    &&& p.foot.x == whole.x && p.foot.width == whole.width
    &&& p.main.y == p.body.y && p.main.height == p.body.height
    &&& p.side.y == p.body.y && p.side.height == p.body.height
    &&& p.upper.x == p.main.x && p.upper.width == p.main.width
    &&& p.lower.x == p.main.x && p.lower.width == p.main.width
    &&& area_fits(whole) ==> area_fits(p.body)
}

/// The bands of a screen: tabs, pad, body and foot.
pub open spec fn band_shares() -> Seq<Share> {
    seq![Share::Length(1), Share::Length(4), Share::Min(0), Share::Length(1)]
}

/// The two columns of the body.
pub open spec fn column_shares() -> Seq<Share> {
    seq![Share::Percentage(52), Share::Min(0)]
}

/// The two halves of the main column. How high the upper one is depends on
/// what the screen puts there.
pub open spec fn half_shares(screen: Screen) -> Seq<Share> {
    seq![
        Share::Length(
            if screen is Tag {
                7
            } else {
                4
            },
        ),
        Share::Min(0),
    ]
}

/// The places come from splitting the whole into bands, the body into columns
/// and the main column into halves.
pub open spec fn places_split(p: Areas, screen: Screen, whole: Area) -> bool {
    &&& may_split(whole, Axis::Down, band_shares(), seq![p.tabs, p.pad, p.body, p.foot])
    &&& may_split(p.body, Axis::Across, column_shares(), seq![p.main, p.side])
    &&& may_split(p.main, Axis::Down, half_shares(screen), seq![p.upper, p.lower])
}

/// Places for a screen.
pub fn places(screen: Screen, whole: Area) -> (r: Areas)
    ensures
        places_ok(r, whole),
        places_split(r, screen, whole),
{
    let bands: [Share; 4] = [Share::Length(1), Share::Length(4), Share::Min(0), Share::Length(1)];
    assert(bands@ =~= band_shares());
    let rows = split(whole, Axis::Down, bands.as_slice());
    assert(rows@ =~= seq![rows@[0], rows@[1], rows@[2], rows@[3]]);
    let two: [Share; 2] = [Share::Percentage(52), Share::Min(0)];
    assert(two@ =~= column_shares());
    let columns = split(rows[2], Axis::Across, two.as_slice());
    assert(columns@ =~= seq![columns@[0], columns@[1]]);
    let top: u16 = match screen {
        Screen::Tag => 7,
        _ => 4,
    };
    let stack: [Share; 2] = [Share::Length(top), Share::Min(0)];
    assert(stack@ =~= half_shares(screen));
    let panes = split(columns[0], Axis::Down, stack.as_slice());
    assert(panes@ =~= seq![panes@[0], panes@[1]]);
    Areas {
        tabs: rows[0],
        pad: rows[1],
        body: rows[2],
        foot: rows[3],
        main: columns[0],
        side: columns[1],
        upper: panes[0],
        lower: panes[1],
    }
}

// ---- lines ----

/// `label  value`, label dimmed to a fixed width so columns line up.
pub open spec fn row_of(label: Seq<char>, value: Seq<char>) -> LineModel {
    span_line(
        seq![span_of(" "@ + pad_right(label, 11), Style::Dim), span_of(value, Style::Plain)],
    )
}

fn row(label: &str, value: &str) -> (r: Line)
    ensures
        r@ == row_of(label@, value@),
{
    let mut v = no_spans();
    push_span(
        &mut v,
        span(" ".to_owned().concat(right_padded(label, 11).as_str()), Style::Dim),
    );
    push_span(&mut v, span(value.to_owned(), Style::Plain));
    line_of_spans(v)
}

pub open spec fn note_of(text: Seq<char>) -> LineModel {
    text_line(" "@ + text, Style::Dim)
}

fn note(text: &str) -> (r: Line)
    ensures
        r@ == note_of(text@),
{
    line_of_text(" ".to_owned().concat(text), Style::Dim)
}

pub open spec fn blank_of() -> LineModel {
    text_line(""@, Style::Plain)
}

fn blank() -> (r: Line)
    ensures
        r@ == blank_of(),
{
    line_of_text("".to_owned(), Style::Plain)
}

// ---- the tabs ----

/// Advances once per poll; frozen means the reader stopped answering.
pub open spec fn heartbeat_of(polls: int) -> Seq<char> {
    if polls % 4 == 0 {
        "."@
    } else if polls % 4 == 2 {
        "O"@
    } else {
        "o"@
    }
}

fn heartbeat(polls: u64) -> (r: &'static str)
    ensures
        r@ == heartbeat_of(polls as int),
{
    if polls % 4 == 0 {
        "."
    } else if polls % 4 == 2 {
        "O"
    } else {
        "o"
    }
}

pub open spec fn tab_span(s: Screen, open: Screen) -> SpanModel {
    span_of(
        " "@ + tab_of(s) + " "@,
        if s == open {
            Style::Marked
        } else {
            Style::Dim
        },
    )
}

fn tab(s: Screen, open: Screen) -> (r: Span)
    ensures
        r@ == tab_span(s, open),
{
    let style = if s == open {
        Style::Marked
    } else {
        Style::Dim
    };
    span(" ".to_owned().concat(s.tab()).concat(" "), style)
}

/// What the worker is at, or the heartbeat.
pub open spec fn pulse_of(m: AppModel) -> SpanModel {
    match m.busy {
        Some(w) => span_of("  "@ + w + "..."@, Style::Cyan),
        None => span_of("  "@ + heartbeat_of(m.polls as int), Style::Dim),
    }
}

fn pulse(app: &App) -> (r: Span)
    ensures
        r@ == pulse_of(app@),
{
    match app.busy {
        Some(w) => span("  ".to_owned().concat(w).concat("..."), Style::Cyan),
        None => span("  ".to_owned().concat(heartbeat(app.polls)), Style::Dim),
    }
}

pub open spec fn tab_spans(m: AppModel) -> Seq<SpanModel> {
    seq![
        span_of(" latchkey "@, Style::Banner),
        tab_span(Screen::Tag, m.screen),
        tab_span(Screen::Card, m.screen),
        tab_span(Screen::Blocks, m.screen),
        tab_span(Screen::Console, m.screen),
        pulse_of(m),
    ]
}

pub open spec fn tabs_of(m: AppModel, area: Area) -> PaneModel {
    bare_of(area, span_line(tab_spans(m)), Style::Plain)
}

fn draw_tabs(app: &App, area: Area) -> (r: Pane)
    ensures
        r@ == tabs_of(app@, area),
{
    let mut v = no_spans();
    push_span(&mut v, span(" latchkey ".to_owned(), Style::Banner));
    push_span(&mut v, tab(Screen::Tag, app.screen));
    push_span(&mut v, tab(Screen::Card, app.screen));
    push_span(&mut v, tab(Screen::Blocks, app.screen));
    push_span(&mut v, tab(Screen::Console, app.screen));
    push_span(&mut v, pulse(app));
    assert(spans_view(v@) =~= tab_spans(app@));
    bare(area, line_of_spans(v), Style::Plain)
}

// ---- the pad ----

/// A tag on the pad: its ID, and the two numbers that may be printed on it.
pub open spec fn lf_line_of(id: Seq<u8>, freq: u32) -> LineModel {
    span_line(
        seq![
            span_of(" 125 kHz   "@, Style::Dim),
            span_of(hex_text(id), Style::GreenBold),
            span_of("   "@ + dec_text(freq as nat) + " Hz"@, Style::Dim),
        ],
    )
}

pub open spec fn em4100_line_of(id: Seq<u8>) -> LineModel {
    span_line(
        seq![
            span_of(" EM4100    "@, Style::Dim),
            span_of(
                "dec10 "@ + em4100_text(id, IdForm::Dec10) + "    dec3+5 "@ + em4100_text(
                    id,
                    IdForm::Dec35,
                ),
                Style::Plain,
            ),
        ],
    )
}

fn lf_line(id: [u8; 5], freq: u32) -> (r: Line)
    ensures
        r@ == lf_line_of(id@, freq),
{
    let mut v = no_spans();
    push_span(&mut v, span(" 125 kHz   ".to_owned(), Style::Dim));
    push_span(&mut v, span(hex(id.as_slice()), Style::GreenBold));
    push_span(
        &mut v,
        span("   ".to_owned().concat(dec(freq as u64).as_str()).concat(" Hz"), Style::Dim),
    );
    line_of_spans(v)
}

fn em4100_line(id: [u8; 5]) -> (r: Line)
    ensures
        r@ == em4100_line_of(id@),
{
    let mut v = no_spans();
    push_span(&mut v, span(" EM4100    ".to_owned(), Style::Dim));
    push_span(
        &mut v,
        span(
            "dec10 ".to_owned().concat(em4100_show(id, IdForm::Dec10).as_str()).concat(
                "    dec3+5 ",
            ).concat(em4100_show(id, IdForm::Dec35).as_str()),
            Style::Plain,
        ),
    );
    line_of_spans(v)
}

/// A card on the pad.
pub open spec fn hf_line_of(c: CardModel) -> LineModel {
    span_line(
        seq![
            span_of(" 13.56 MHz "@, Style::Dim),
            span_of(hex_text(c.uid), Style::CyanBold),
            span_of("   "@ + kind_of(c.sak), Style::Plain),
        ],
    )
}

pub open spec fn sectors_text(sak: u8) -> Seq<char> {
    match sectors_of(sak) {
        Some(n) => dec_text(n as nat) + " sectors"@,
        None => "no sectors"@,
    }
}

pub open spec fn card_line_of(c: CardModel) -> LineModel {
    span_line(
        seq![
            span_of(" untested  "@, Style::Yellow),
            span_of(
                "ATQA "@ + hex_text(c.atqa) + "  SAK "@ + hex2(c.sak) + "  "@ + sectors_text(c.sak),
                Style::Dim,
            ),
        ],
    )
}

fn hf_line(c: &Card) -> (r: Line)
    ensures
        r@ == hf_line_of(c@),
{
    let mut v = no_spans();
    push_span(&mut v, span(" 13.56 MHz ".to_owned(), Style::Dim));
    push_span(&mut v, span(hex(c.uid.as_slice()), Style::CyanBold));
    push_span(&mut v, span("   ".to_owned().concat(c.kind()), Style::Plain));
    line_of_spans(v)
}

fn card_line(c: &Card) -> (r: Line)
    ensures
        r@ == card_line_of(c@),
{
    let sectors = match c.sectors() {
        Some(n) => dec(n as u64).concat(" sectors"),
        None => "no sectors".to_owned(),
    };
    let mut v = no_spans();
    push_span(&mut v, span(" untested  ".to_owned(), Style::Yellow));
    push_span(
        &mut v,
        span(
            "ATQA ".to_owned().concat(hex(c.atqa.as_slice()).as_str()).concat("  SAK ").concat(
                hex2_string(c.sak).as_str(),
            ).concat("  ").concat(sectors.as_str()),
            Style::Dim,
        ),
    );
    line_of_spans(v)
}

pub open spec fn pad_lines_of(pad: PadModel) -> Seq<LineModel> {
    match pad {
        PadModel::Empty => seq![
            text_line(" empty"@, Style::Dim),
            note_of("set a tag down flat"@),
        ],
        PadModel::Lf { id, freq } => seq![lf_line_of(id, freq), em4100_line_of(id)],
        PadModel::Hf(c) => seq![hf_line_of(c), card_line_of(c)],
    }
}

fn pad_lines(pad: &Pad) -> (r: Vec<Line>)
    ensures
        lines_view(r@) == pad_lines_of(pad@),
{
    let mut v = no_rows();
    match pad {
        Pad::Empty => {
            push_line(&mut v, line_of_text(" empty".to_owned(), Style::Dim));
            push_line(&mut v, note("set a tag down flat"));
        },
        Pad::Lf { id, freq } => {
            push_line(&mut v, lf_line(*id, *freq));
            push_line(&mut v, em4100_line(*id));
        },
        Pad::Hf(c) => {
            push_line(&mut v, hf_line(c));
            push_line(&mut v, card_line(c));
        },
    }
    v
}

pub open spec fn pad_pane_of(m: AppModel, area: Area) -> PaneModel {
    framed_of(area, "Pad"@, pad_lines_of(m.pad))
}

fn draw_pad(app: &App, area: Area) -> (r: Pane)
    ensures
        r@ == pad_pane_of(app@, area),
{
    framed(area, "Pad", pad_lines(&app.pad))
}

// ---- the tag screen ----

/// The mark in front of what is chosen.
pub open spec fn mark_of(here: bool) -> Seq<char> {
    if here {
        ">"@
    } else {
        " "@
    }
}

fn mark(here: bool) -> (r: &'static str)
    ensures
        r@ == mark_of(here),
{
    if here {
        ">"
    } else {
        " "
    }
}

pub open spec fn choice_style(here: bool) -> Style {
    if here {
        Style::Yellow
    } else {
        Style::Dim
    }
}

fn choice(here: bool) -> (r: Style)
    ensures
        r == choice_style(here),
{
    if here {
        Style::Yellow
    } else {
        Style::Dim
    }
}

/// The ID in one form; the form being typed in shows the field.
pub open spec fn form_line_of(m: AppModel, form: IdForm) -> LineModel {
    let here = form == m.form;
    span_line(
        seq![
            span_of(" "@ + mark_of(here) + " "@ + pad_right(form_label(form), 7), choice_style(here)),
        ] + (if here && m.editing {
            field_spans(m.field, true)
        } else {
            seq![span_of(em4100_text(m.id, form), Style::Plain)]
        }),
    )
}

fn form_line(app: &App, form: IdForm) -> (r: Line)
    requires
        app@.wf(),
    ensures
        r@ == form_line_of(app@, form),
{
    let here = form == app.form;
    let mut v = no_spans();
    push_span(
        &mut v,
        span(
            " ".to_owned().concat(mark(here)).concat(" ").concat(
                right_padded(form.label(), 7).as_str(),
            ),
            choice(here),
        ),
    );
    if here && app.editing {
        append_spans(&mut v, app.field.spans(true));
    } else {
        let mut w = no_spans();
        push_span(&mut w, span(em4100_show(app.id, form), Style::Plain));
        append_spans(&mut v, w);
    }
    line_of_spans(v)
}

/// Below the forms: what is wrong with the text, what the form covers, or the
/// next useful thing to do.
pub open spec fn guide_of(m: AppModel) -> LineModel {
    match m.field_err {
        Some(e) => text_line(" "@ + e, Style::Red),
        None => if m.editing {
            note_of(form_covers(m.form))
        } else {
            text_line(" "@ + next_step_of(m), Style::Cyan)
        },
    }
}

fn guide(app: &App) -> (r: Line)
    ensures
        r@ == guide_of(app@),
{
    match &app.field_err {
        Some(e) => line_of_text(" ".to_owned().concat(e.as_str()), Style::Red),
        None => {
            if app.editing {
                note(app.form.covers())
            } else {
                line_of_text(" ".to_owned().concat(app.next_step()), Style::Cyan)
            }
        },
    }
}

/// Which tag a write would burn must not be ambiguous.
pub open spec fn buffer_title_of(m: AppModel) -> Seq<char> {
    if m.editing {
        "Buffer (editing)"@
    } else {
        "Buffer ("@ + origin_label(m.origin) + ")"@
    }
}

pub open spec fn buffer_pane_of(m: AppModel, area: Area) -> PaneModel {
    framed_of(
        area,
        buffer_title_of(m),
        seq![
            form_line_of(m, IdForm::Hex),
            form_line_of(m, IdForm::Dec10),
            form_line_of(m, IdForm::Dec35),
            blank_of(),
            guide_of(m),
        ],
    )
}

pub open spec fn enc_row_of(label: Seq<char>, value: Seq<char>) -> LineModel {
    span_line(seq![span_of(" "@ + pad_right(label, 8), Style::Dim), span_of(value, Style::Plain)])
}

fn enc_row(label: &str, value: String) -> (r: Line)
    ensures
        r@ == enc_row_of(label@, value@),
{
    let mut v = no_spans();
    push_span(&mut v, span(" ".to_owned().concat(right_padded(label, 8).as_str()), Style::Dim));
    push_span(&mut v, span(value, Style::Plain));
    line_of_spans(v)
}

/// What the buffer comes to on a tag.
pub open spec fn encoded_pane_of(m: AppModel, area: Area) -> PaneModel {
    let f = frame_bytes_of(m.id);
    framed_of(
        area,
        "Encodes to"@,
        seq![
            enc_row_of("frame"@, hex_text(f)),
            blank_of(),
            enc_row_of(
                "block 0"@,
                if m.write_config {
                    hex_text(T5577_EM4100@)
                } else {
                    "skipped"@
                },
            ),
            enc_row_of("block 1"@, hex_text(f.subrange(0, 4))),
            enc_row_of("block 2"@, hex_text(f.subrange(4, 8))),
        ],
    )
}

fn draw_tag(app: &App, upper: Area, lower: Area) -> (r: (Pane, Pane))
    requires
        app@.wf(),
    ensures
        r.0@ == buffer_pane_of(app@, upper),
        r.1@ == encoded_pane_of(app@, lower),
{
    let mut ids = no_rows();
    push_line(&mut ids, form_line(app, IdForm::Hex));
    push_line(&mut ids, form_line(app, IdForm::Dec10));
    push_line(&mut ids, form_line(app, IdForm::Dec35));
    push_line(&mut ids, blank());
    push_line(&mut ids, guide(app));
    let title = if app.editing {
        "Buffer (editing)".to_owned()
    } else {
        "Buffer (".to_owned().concat(app.origin.label()).concat(")")
    };
    let f = frame_bytes(app.id);
    let b1 = vstd::slice::slice_subrange(f.as_slice(), 0, 4);
    let b2 = vstd::slice::slice_subrange(f.as_slice(), 4, 8);
    let config = if app.write_config {
        hex(T5577_EM4100.as_slice())
    } else {
        "skipped".to_owned()
    };
    let mut enc = no_rows();
    push_line(&mut enc, enc_row("frame", hex(f.as_slice())));
    push_line(&mut enc, blank());
    push_line(&mut enc, enc_row("block 0", config));
    push_line(&mut enc, enc_row("block 1", hex(b1)));
    push_line(&mut enc, enc_row("block 2", hex(b2)));
    (framed(upper, title.as_str(), ids), framed(lower, "Encodes to", enc))
}

// ---- the blocks screen ----

/// What a block of the page is for.
pub open spec fn block_use_of(b: int) -> Seq<char> {
    if b == 0 {
        "config"@
    } else if b == 1 || b == 2 {
        "EM4100 data"@
    } else if b == 7 {
        "password"@
    } else {
        ""@
    }
}

fn block_use(b: u8) -> (r: &'static str)
    ensures
        r@ == block_use_of(b as int),
{
    if b == 0 {
        "config"
    } else if b == 1 || b == 2 {
        "EM4100 data"
    } else if b == 7 {
        "password"
    } else {
        ""
    }
}

/// One block. What is on it cannot be read; only the one being edited shows
/// anything.
pub open spec fn block_line_of(m: AppModel, b: int) -> LineModel {
    let here = b == m.block_sel;
    span_line(
        (seq![
            span_of(
                " "@ + mark_of(here) + " block "@ + dec_text(b as nat) + "  "@,
                choice_style(here),
            ),
        ] + (if here && m.editing {
            field_spans(m.block_field, true)
        } else {
            seq![span_of(pad_right("-"@, 13), Style::Dim)]
        })).push(span_of(block_use_of(b), Style::Dim)),
    )
}

fn block_line(app: &App, b: u8) -> (r: Line)
    requires
        app@.wf(),
    ensures
        r@ == block_line_of(app@, b as int),
{
    let here = b == app.block_sel;
    let mut v = no_spans();
    push_span(
        &mut v,
        span(
            " ".to_owned().concat(mark(here)).concat(" block ").concat(
                dec(b as u64).as_str(),
            ).concat("  "),
            choice(here),
        ),
    );
    if here && app.editing {
        append_spans(&mut v, app.block_field.spans(true));
    } else {
        let mut w = no_spans();
        push_span(&mut w, span(right_padded("-", 13), Style::Dim));
        append_spans(&mut v, w);
    }
    push_span(&mut v, span(block_use(b).to_owned(), Style::Dim));
    line_of_spans(v)
}

pub open spec fn block_lines_of(m: AppModel) -> Seq<LineModel> {
    Seq::new(8, |b: int| block_line_of(m, b))
}

pub open spec fn blocks_pane_of(m: AppModel, area: Area) -> PaneModel {
    framed_of(area, "T5577 page 0"@, block_lines_of(m))
}

fn draw_blocks(app: &App, area: Area) -> (r: Pane)
    requires
        app@.wf(),
    ensures
        r@ == blocks_pane_of(app@, area),
{
    let mut v = no_rows();
    let mut b: u8 = 0;
    assert(block_lines_of(app@).take(0) =~= Seq::empty());
    while b <= LAST_BLOCK
        invariant
            b <= LAST_BLOCK + 1,
            app@.wf(),
            lines_view(v@) == block_lines_of(app@).take(b as int),
        decreases 8 - b,
    {
        push_line(&mut v, block_line(app, b));
        b = b + 1;
        assert(block_lines_of(app@).take(b as int) =~= block_lines_of(app@).take(b - 1).push(
            block_line_of(app@, b - 1),
        ));
    }
    assert(block_lines_of(app@).take(8) =~= block_lines_of(app@));
    framed(area, "T5577 page 0", v)
}

// ---- the card screen ----

/// Before anything has been dumped.
pub open spec fn no_dump_lines(m: AppModel) -> Seq<LineModel> {
    seq![
        text_line(
            match m.pad {
                PadModel::Hf(c) => " "@ + kind_of(c.sak),
                _ => " no card"@,
            },
            Style::Plain,
        ),
        blank_of(),
        row_of("d"@, "dump every sector"@),
        row_of("s"@, "save to <uid>.dump"@),
        blank_of(),
        note_of(dec_text(KEYS@.len()) + " keys tried per sector. Unknown keys"@),
        note_of("are not recovered; those sectors read locked."@),
        blank_of(),
        text_line(" Untested. No card has ever answered this."@, Style::Yellow),
    ]
}

fn draw_no_dump(app: &App) -> (r: Vec<Line>)
    ensures
        lines_view(r@) == no_dump_lines(app@),
{
    let head = match &app.pad {
        Pad::Hf(c) => " ".to_owned().concat(c.kind()),
        _ => " no card".to_owned(),
    };
    let mut v = no_rows();
    push_line(&mut v, line_of_text(head, Style::Plain));
    push_line(&mut v, blank());
    push_line(&mut v, row("d", "dump every sector"));
    push_line(&mut v, row("s", "save to <uid>.dump"));
    push_line(&mut v, blank());
    push_line(
        &mut v,
        note(
            dec(KEYS.as_slice().len() as u64).concat(
                " keys tried per sector. Unknown keys",
            ).as_str(),
        ),
    );
    push_line(&mut v, note("are not recovered; those sectors read locked."));
    push_line(&mut v, blank());
    push_line(
        &mut v,
        line_of_text(" Untested. No card has ever answered this.".to_owned(), Style::Yellow),
    );
    assert(lines_view(v@) =~= no_dump_lines(app@));
    v
}

/// The line over a sector: its key, or that it is locked. A sector no key
/// opens is never shown as zeroes.
pub open spec fn sector_head_of(s: SectorModel) -> LineModel {
    let head = " sector "@ + pad_left(dec_text(s.number as nat), 2, ' ');
    match s.key {
        Some(k) => text_line(head + "  key A "@ + hex_text(k), Style::Bold),
        None => text_line(head + "  locked"@, Style::Red),
    }
}

pub open spec fn sector_blocks_of(blocks: Seq<Seq<u8>>) -> Seq<LineModel> {
    Seq::new(
        blocks.len(),
        |i: int|
            text_line(
                "   "@ + pad_left(dec_text(i as nat), 2, ' ') + "  "@ + groups_text(blocks[i]),
                Style::Dim,
            ),
    )
}

pub open spec fn sector_lines_of(s: SectorModel) -> Seq<LineModel> {
    seq![sector_head_of(s)] + sector_blocks_of(s.blocks)
}

pub open spec fn dump_lines_of(dump: Seq<SectorModel>) -> Seq<LineModel>
    decreases dump.len(),
{
    if dump.len() == 0 {
        Seq::empty()
    } else {
        dump_lines_of(dump.drop_last()) + sector_lines_of(dump.last())
    }
}

fn sector_head(s: &Sector) -> (r: Line)
    ensures
        r@ == sector_head_of(s@),
{
    let head = " sector ".to_owned().concat(
        left_padded(dec(s.number as u64).as_str(), 2, ' ').as_str(),
    );
    match s.key {
        Some(k) => line_of_text(
            head.concat("  key A ").concat(hex(k.as_slice()).as_str()),
            Style::Bold,
        ),
        None => line_of_text(head.concat("  locked"), Style::Red),
    }
}

fn push_sector_lines(v: &mut Vec<Line>, s: &Sector)
    ensures
        lines_view(final(v)@) == lines_view(old(v)@) + sector_lines_of(s@),
{
    let ghost before = lines_view(v@);
    push_line(v, sector_head(s));
    let ghost blocks = s@.blocks;
    let ghost rows = sector_blocks_of(blocks);
    let n: usize = s.blocks.len();
    let mut i: usize = 0;
    assert(lines_view(v@) =~= before + seq![sector_head_of(s@)] + rows.take(0));
    while i < n
        invariant
            i <= n == s.blocks@.len() == blocks.len(),
            blocks == s@.blocks,
            rows == sector_blocks_of(blocks),
            lines_view(v@) == before + seq![sector_head_of(s@)] + rows.take(i as int),
        decreases n - i,
    {
        let text = "   ".to_owned().concat(
            left_padded(dec(i as u64).as_str(), 2, ' ').as_str(),
        ).concat("  ").concat(hex_groups(s.blocks[i].as_slice()).as_str());
        assert(blocks[i as int] == s.blocks@[i as int]@);
        push_line(v, line_of_text(text, Style::Dim));
        i += 1;
        assert(rows.take(i as int) =~= rows.take(i - 1).push(rows[i - 1]));
        assert(lines_view(v@) =~= before + seq![sector_head_of(s@)] + rows.take(i as int));
    }
    assert(lines_view(v@) =~= before + sector_lines_of(s@));
}

fn dump_lines(dump: &Vec<Sector>) -> (r: Vec<Line>)
    ensures
        lines_view(r@) == dump_lines_of(crate::app::dump_view(dump@)),
{
    let mut v = no_rows();
    let ghost all = crate::app::dump_view(dump@);
    let n: usize = dump.len();
    let mut i: usize = 0;
    assert(all.take(0) =~= Seq::empty());
    while i < n
        invariant
            i <= n == dump@.len(),
            all == crate::app::dump_view(dump@),
            lines_view(v@) == dump_lines_of(all.take(i as int)),
        decreases n - i,
    {
        assert(all.take(i + 1).drop_last() =~= all.take(i as int));
        assert(all[i as int] == dump@[i as int]@);
        push_sector_lines(&mut v, &dump[i]);
        i += 1;
    }
    assert(all.take(n as int) =~= all);
    v
}

/// Nothing scrolls here, so the view is pinned to the newest sector.
pub open spec fn pinned(lines: int, area: Area) -> u16 {
    let rows = if area.height < 2 {
        0
    } else {
        area.height - 2
    };
    if lines <= rows {
        0
    } else {
        ((lines - rows) % 0x1_0000) as u16
    }
}

pub open spec fn card_pane_of(m: AppModel, area: Area) -> PaneModel {
    if m.dump.len() == 0 {
        framed_of(area, "MIFARE Classic"@, no_dump_lines(m))
    } else {
        let lines = dump_lines_of(m.dump);
        PaneModel {
            scroll: pinned(lines.len() as int, area),
            ..framed_of(area, "Dump"@, lines)
        }
    }
}

fn draw_card(app: &App, area: Area) -> (r: Pane)
    ensures
        r@ == card_pane_of(app@, area),
{
    if app.dump.len() == 0 {
        return framed(area, "MIFARE Classic", draw_no_dump(app));
    }
    let lines = dump_lines(&app.dump);
    let total: usize = lines.len();
    let rows: usize = if area.height < 2 {
        0
    } else {
        (area.height - 2) as usize
    };
    let mut pane = framed(area, "Dump", lines);
    if total > rows {
        pane.scroll = ((total - rows) % 0x1_0000) as u16;
    }
    pane
}

// ---- the console screen ----

pub open spec fn payload_pane_of(m: AppModel, area: Area) -> PaneModel {
    framed_of(
        area,
        if m.editing {
            "Payload (editing)"@
        } else {
            "Payload"@
        },
        seq![
            span_line(seq![span_of(" "@, Style::Plain)] + field_spans(m.console, m.editing)),
            note_of("length, sequence and checksum are added"@),
        ],
    )
}

/// The known commands, two lines each, which keeps each payload on one line
/// and copyable.
pub open spec fn example_lines(n: int) -> Seq<LineModel>
    decreases n,
{
    if n <= 0 {
        Seq::empty()
    } else {
        example_lines(n - 1).push(note_of(example_of(n - 1).0)).push(
            text_line("   "@ + example_of(n - 1).1, Style::Plain),
        )
    }
}

pub open spec fn examples_pane_of(area: Area) -> PaneModel {
    framed_of(
        area,
        "Examples"@,
        example_lines(EXAMPLES as int).push(blank_of()).push(
            text_line(" Some subcommands wedge the reader until"@, Style::Yellow),
        ).push(text_line(" it is replugged. See PROTOCOL.md."@, Style::Yellow)),
    )
}

fn draw_console(app: &App, upper: Area, lower: Area) -> (r: (Pane, Pane))
    requires
        app@.wf(),
    ensures
        r.0@ == payload_pane_of(app@, upper),
        r.1@ == examples_pane_of(lower),
{
    let mut payload = no_spans();
    push_span(&mut payload, span(" ".to_owned(), Style::Plain));
    append_spans(&mut payload, app.console.spans(app.editing));
    let mut v = no_rows();
    push_line(&mut v, line_of_spans(payload));
    push_line(&mut v, note("length, sequence and checksum are added"));
    let title: &str = if app.editing {
        "Payload (editing)"
    } else {
        "Payload"
    };
    let mut w = no_rows();
    let mut i: usize = 0;
    while i < EXAMPLES
        invariant
            i <= EXAMPLES,
            lines_view(w@) == example_lines(i as int),
        decreases EXAMPLES - i,
    {
        let (what, bytes) = example(i);
        push_line(&mut w, note(what));
        push_line(&mut w, line_of_text("   ".to_owned().concat(bytes), Style::Plain));
        i += 1;
    }
    push_line(&mut w, blank());
    push_line(
        &mut w,
        line_of_text(" Some subcommands wedge the reader until".to_owned(), Style::Yellow),
    );
    push_line(
        &mut w,
        line_of_text(" it is replugged. See PROTOCOL.md.".to_owned(), Style::Yellow),
    );
    (framed(upper, title, v), framed(lower, "Examples", w))
}

// ---- beside and below ----

pub open spec fn prompt_lines_of(prompt: Seq<Seq<char>>) -> Seq<LineModel> {
    prompt.map_values(|l: Seq<char>| text_line(" "@ + l, Style::Plain))
}

pub open spec fn confirm_pane_of(prompt: Seq<Seq<char>>, area: Area) -> PaneModel {
    PaneModel {
        area,
        border: Some(BorderModel { title: " Confirm "@, color: Color::Yellow }),
        lines: prompt_lines_of(prompt),
        style: Style::Yellow,
        wrap: Wrap::Trim,
        scroll: 0,
        clear: false,
    }
}

fn draw_confirm(prompt: &Vec<String>, area: Area) -> (r: Pane)
    ensures
        r@ == confirm_pane_of(crate::text::texts(prompt@), area),
{
    let ghost all = prompt_lines_of(crate::text::texts(prompt@));
    let mut v = no_rows();
    let n: usize = prompt.len();
    let mut i: usize = 0;
    assert(all.take(0) =~= Seq::empty());
    while i < n
        invariant
            i <= n == prompt@.len(),
            all == prompt_lines_of(crate::text::texts(prompt@)),
            lines_view(v@) == all.take(i as int),
        decreases n - i,
    {
        push_line(
            &mut v,
            line_of_text(" ".to_owned().concat(prompt[i].as_str()), Style::Plain),
        );
        i += 1;
        assert(all.take(i as int) =~= all.take(i - 1).push(all[i - 1]));
    }
    assert(all.take(n as int) =~= all);
    Pane {
        area,
        border: Some(Border { title: " Confirm ".to_owned(), color: Color::Yellow }),
        lines: v,
        style: Style::Yellow,
        wrap: Wrap::Trim,
        scroll: 0,
        clear: false,
    }
}

pub open spec fn log_line_of(e: (Seq<char>, bool)) -> LineModel {
    text_line(
        " "@ + e.0,
        if e.1 {
            Style::Red
        } else {
            Style::Plain
        },
    )
}

/// The log, newest first.
pub open spec fn log_lines_of(log: Seq<(Seq<char>, bool)>) -> Seq<LineModel> {
    Seq::new(log.len(), |i: int| log_line_of(log[log.len() - 1 - i]))
}

pub open spec fn activity_pane_of(log: Seq<(Seq<char>, bool)>, area: Area) -> PaneModel {
    PaneModel { wrap: Wrap::Keep, ..framed_of(area, "Activity"@, log_lines_of(log)) }
}

fn draw_activity(log: &Vec<(String, bool)>, area: Area) -> (r: Pane)
    ensures
        r@ == activity_pane_of(crate::app::log_view(log@), area),
{
    let ghost entries = crate::app::log_view(log@);
    let ghost all = log_lines_of(entries);
    let mut v = no_rows();
    let n: usize = log.len();
    let mut i: usize = 0;
    assert(all.take(0) =~= Seq::empty());
    while i < n
        invariant
            i <= n == log@.len(),
            entries == crate::app::log_view(log@),
            all == log_lines_of(entries),
            lines_view(v@) == all.take(i as int),
        decreases n - i,
    {
        let (m, bad) = &log[n - 1 - i];
        assert(entries[n - 1 - i] == (m@, *bad));
        let style = if *bad {
            Style::Red
        } else {
            Style::Plain
        };
        push_line(&mut v, line_of_text(" ".to_owned().concat(m.as_str()), style));
        i += 1;
        assert(all.take(i as int) =~= all.take(i - 1).push(all[i - 1]));
    }
    assert(all.take(n as int) =~= all);
    let mut pane = framed(area, "Activity", v);
    pane.wrap = Wrap::Keep;
    pane
}

pub open spec fn side_pane_of(m: AppModel, area: Area) -> PaneModel {
    match m.confirm {
        Some(c) => confirm_pane_of(c.prompt, area),
        None => activity_pane_of(m.log, area),
    }
}

fn draw_side(app: &App, area: Area) -> (r: Pane)
    ensures
        r@ == side_pane_of(app@, area),
{
    match &app.confirm {
        Some(c) => draw_confirm(&c.prompt, area),
        None => draw_activity(&app.log, area),
    }
}

/// Keys and what they do, in a row.
pub open spec fn hints_of(keys: Seq<(Seq<char>, Seq<char>)>) -> Seq<char>
    decreases keys.len(),
{
    if keys.len() == 0 {
        " "@
    } else {
        hints_of(keys.drop_last()) + keys.last().0 + " "@ + keys.last().1 + "   "@
    }
}

fn hints(keys: &Vec<(&'static str, &'static str)>) -> (r: String)
    ensures
        r@ == hints_of(hints_view(keys@)),
{
    let ghost all = hints_view(keys@);
    let mut s = " ".to_owned();
    let n: usize = keys.len();
    let mut i: usize = 0;
    assert(all.take(0) =~= Seq::empty());
    while i < n
        invariant
            i <= n == keys@.len(),
            all == hints_view(keys@),
            s@ == hints_of(all.take(i as int)),
        decreases n - i,
    {
        assert(all.take(i + 1).drop_last() =~= all.take(i as int));
        let (k, what) = keys[i];
        assert(all[i as int] == (k@, what@));
        s = s.concat(k).concat(" ").concat(what).concat("   ");
        i += 1;
    }
    assert(all.take(n as int) =~= all);
    s
}

/// The line at the foot: the keys that work now.
pub open spec fn hint_of(m: AppModel) -> Seq<char> {
    if m.confirm is Some {
        " y  go ahead      any other key  cancel"@
    } else if m.editing {
        " Enter  accept    Esc  revert"@
    } else {
        hints_of(keys_of(m.screen)) + "? help   q quit"@
    }
}

pub open spec fn foot_of(m: AppModel, area: Area) -> PaneModel {
    bare_of(area, text_line(hint_of(m), Style::Plain), Style::Dim)
}

fn draw_foot(app: &App, area: Area) -> (r: Pane)
    ensures
        r@ == foot_of(app@, area),
{
    let hint = if app.confirm.is_some() {
        " y  go ahead      any other key  cancel".to_owned()
    } else if app.editing {
        " Enter  accept    Esc  revert".to_owned()
    } else {
        let keys = app.screen.keys();
        hints(&keys).concat("? help   q quit")
    };
    bare(area, line_of_text(hint, Style::Plain), Style::Dim)
}

// ---- help ----

/// The keys of the present screen, one on a line.
pub open spec fn key_rows_of(keys: Seq<(Seq<char>, Seq<char>)>) -> Seq<LineModel> {
    keys.map_values(|k: (Seq<char>, Seq<char>)| row_of(k.0, k.1))
}

pub open spec fn help_head() -> Seq<LineModel> {
    seq![
        row_of("left/right"@, "screen"@),
        row_of("1-4"@, "jump to screen"@),
        row_of("up/down"@, "move within screen"@),
        row_of("e"@, "edit"@),
        row_of("Enter"@, "accept"@),
        row_of("Esc"@, "abandon edit"@),
        row_of("b"@, "buzzer"@),
        row_of("q"@, "quit"@),
        blank_of(),
    ]
}

pub open spec fn help_lines_of(screen: Screen) -> Seq<LineModel> {
    (help_head().push(text_line(" "@ + tab_of(screen), Style::Bold)) + key_rows_of(
        keys_of(screen),
    )).push(blank_of()).push(note_of("Writes ask first. Only y goes ahead."@))
}

pub open spec fn help_pane_of(m: AppModel, area: Area) -> PaneModel {
    let lines = help_lines_of(m.screen);
    PaneModel {
        area: centered(area, 46, (lines.len() + 2) as u16),
        border: Some(BorderModel { title: " Keys "@, color: Color::Yellow }),
        lines,
        style: Style::Plain,
        wrap: Wrap::Cut,
        scroll: 0,
        clear: true,
    }
}

fn help_start() -> (r: Vec<Line>)
    ensures
        lines_view(r@) == help_head(),
{
    let mut v = no_rows();
    push_line(&mut v, row("left/right", "screen"));
    push_line(&mut v, row("1-4", "jump to screen"));
    push_line(&mut v, row("up/down", "move within screen"));
    push_line(&mut v, row("e", "edit"));
    push_line(&mut v, row("Enter", "accept"));
    push_line(&mut v, row("Esc", "abandon edit"));
    push_line(&mut v, row("b", "buzzer"));
    push_line(&mut v, row("q", "quit"));
    push_line(&mut v, blank());
    assert(lines_view(v@) =~= help_head());
    v
}

fn draw_help(app: &App, area: Area) -> (r: Pane)
    requires
        area_fits(area),
    ensures
        r@ == help_pane_of(app@, area),
{
    let mut v = help_start();
    push_line(&mut v, line_of_text(" ".to_owned().concat(app.screen.tab()), Style::Bold));
    let ghost before = lines_view(v@);
    let keys = app.screen.keys();
    let ghost all = key_rows_of(keys_of(app.screen));
    let n: usize = keys.len();
    let mut i: usize = 0;
    assert(lines_view(v@) =~= before + all.take(0));
    while i < n
        invariant
            i <= n == keys@.len(),
            hints_view(keys@) == keys_of(app.screen),
            all == key_rows_of(keys_of(app.screen)),
            lines_view(v@) == before + all.take(i as int),
        decreases n - i,
    {
        let (k, what) = keys[i];
        assert(hints_view(keys@)[i as int] == (k@, what@));
        push_line(&mut v, row(k, what));
        i += 1;
        assert(lines_view(v@) =~= before + all.take(i as int));
    }
    assert(all.take(n as int) =~= all);
    push_line(&mut v, blank());
    push_line(&mut v, note("Writes ask first. Only y goes ahead."));
    let total: usize = v.len();
    assert(total == help_lines_of(app.screen).len());
    assert(help_head().len() == 9);
    assert(keys_of(app.screen).len() <= 7);
    Pane {
        area: center(area, 46, (total + 2) as u16),
        border: Some(Border { title: " Keys ".to_owned(), color: Color::Yellow }),
        lines: v,
        style: Style::Plain,
        wrap: Wrap::Cut,
        scroll: 0,
        clear: true,
    }
}

// ---- everything ----

/// The panes of the present screen.
pub open spec fn screen_panes(m: AppModel, p: Areas) -> Seq<PaneModel> {
    match m.screen {
        Screen::Tag => seq![buffer_pane_of(m, p.upper), encoded_pane_of(m, p.lower)],
        Screen::Card => seq![card_pane_of(m, p.main)],
        Screen::Blocks => seq![blocks_pane_of(m, p.main)],
        Screen::Console => seq![payload_pane_of(m, p.upper), examples_pane_of(p.lower)],
    }
}

/// Everything on the screen, in the order in which it is drawn.
pub open spec fn panes_of(m: AppModel, p: Areas) -> Seq<PaneModel> {
    let all = (seq![tabs_of(m, p.tabs), pad_pane_of(m, p.pad)] + screen_panes(m, p)).push(
        side_pane_of(m, p.side),
    ).push(foot_of(m, p.foot));
    if m.help {
        all.push(help_pane_of(m, p.body))
    } else {
        all
    }
}

/// Draw into places already found.
pub fn draw_at(app: &App, p: &Areas) -> (r: Vec<Pane>)
    requires
        app@.wf(),
        area_fits(p.body),
    ensures
        panes_view(r@) == panes_of(app@, *p),
{
    let mut v: Vec<Pane> = Vec::new();
    push_pane(&mut v, draw_tabs(app, p.tabs));
    push_pane(&mut v, draw_pad(app, p.pad));
    match app.screen {
        Screen::Tag => {
            let (a, b) = draw_tag(app, p.upper, p.lower);
            push_pane(&mut v, a);
            push_pane(&mut v, b);
        },
        Screen::Card => push_pane(&mut v, draw_card(app, p.main)),
        Screen::Blocks => push_pane(&mut v, draw_blocks(app, p.main)),
        Screen::Console => {
            let (a, b) = draw_console(app, p.upper, p.lower);
            push_pane(&mut v, a);
            push_pane(&mut v, b);
        },
    }
    assert(panes_view(v@) =~= seq![tabs_of(app@, p.tabs), pad_pane_of(app@, p.pad)] + screen_panes(
        app@,
        *p,
    ));
    push_pane(&mut v, draw_side(app, p.side));
    push_pane(&mut v, draw_foot(app, p.foot));
    if app.help {
        push_pane(&mut v, draw_help(app, p.body));
    }
    v
}

/// Draw the whole screen.
pub fn draw(app: &App, whole: Area) -> (r: Vec<Pane>)
    requires
        app@.wf(),
        area_fits(whole),
    ensures
        exists|p: Areas|
            places_ok(p, whole) && places_split(p, app@.screen, whole) && panes_view(r@)
                == #[trigger] panes_of(app@, p),
{
    let p = places(app.screen, whole);
    draw_at(app, &p)
}

// ---- laws ----

/// On the tag screen all three renderings show the same ID at once, but for
/// the one being typed.
pub proof fn all_forms_show_the_buffer(m: AppModel, form: IdForm, area: Area)
    requires
        !(m.editing && form == m.form),
    ensures
        form_line_of(m, form).spans.last() == span_of(em4100_text(m.id, form), Style::Plain),
        buffer_pane_of(m, area).lines.contains(form_line_of(m, form)),
{
    let lines = buffer_pane_of(m, area).lines;
    match form {
        IdForm::Hex => {
            assert(lines[0] == form_line_of(m, form));
        },
        IdForm::Dec10 => {
            assert(lines[1] == form_line_of(m, form));
        },
        IdForm::Dec35 => {
            assert(lines[2] == form_line_of(m, form));
        },
    }
}

/// What is wrong with a half-typed ID is on the screen.
pub proof fn a_fault_is_on_the_screen(m: AppModel, e: Seq<char>, area: Area)
    requires
        m.field_err == Some(e),
    ensures
        buffer_pane_of(m, area).lines.contains(text_line(" "@ + e, Style::Red)),
{
    assert(buffer_pane_of(m, area).lines[4] == text_line(" "@ + e, Style::Red));
}

/// While a write waits for a yes, every line of its prompt is on the screen and
/// the foot names the keys.
pub proof fn a_prompt_is_on_the_screen(m: AppModel, p: Areas, i: int)
    requires
        m.confirm is Some,
        0 <= i < m.confirm->Some_0.prompt.len(),
    ensures
        side_pane_of(m, p.side).lines.contains(
            text_line(" "@ + m.confirm->Some_0.prompt[i], Style::Plain),
        ),
        hint_of(m) == " y  go ahead      any other key  cancel"@,
        panes_of(m, p).contains(side_pane_of(m, p.side)),
        panes_of(m, p).contains(foot_of(m, p.foot)),
{
    let lines = side_pane_of(m, p.side).lines;
    assert(lines[i] == text_line(" "@ + m.confirm->Some_0.prompt[i], Style::Plain));
    let k = 2 + screen_panes(m, p).len();
    assert(panes_of(m, p)[k as int] == side_pane_of(m, p.side));
    assert(panes_of(m, p)[k as int + 1] == foot_of(m, p.foot));
}

/// A sector that no key opened reads locked and, as none of it was read, has no
/// blocks under it that could pass for zeroes.
pub proof fn a_shut_sector_reads_locked(s: SectorModel)
    requires
        s.key is None,
    ensures
        ({
            let lines = sector_lines_of(s);
            &&& lines[0] == text_line(
                " sector "@ + pad_left(dec_text(s.number as nat), 2, ' ') + "  locked"@,
                Style::Red,
            )
            &&& s.blocks.len() == 0 ==> lines.len() == 1
        }),
{
}

// ---- laws of the panes ----

/// Everything has its place: the tabs, the pad, the panes of the present screen,
/// the prompt or the log beside them, the keys below, and help over the rest,
/// only while it is asked for.
pub proof fn everything_has_its_place(m: AppModel, p: Areas)
    ensures
        ({
            let all = panes_of(m, p);
            let k = if m.screen is Tag || m.screen is Console {
                2int
            } else {
                1
            };
            &&& all.len() == 4 + k + (if m.help {
                1int
            } else {
                0
            })
            &&& all[0].area == p.tabs && all[1].area == p.pad
            &&& k == 2 ==> all[2].area == p.upper && all[3].area == p.lower
            &&& k == 1 ==> all[2].area == p.main
            &&& all[2 + k].area == p.side && all[3 + k].area == p.foot
            &&& m.help ==> all[4 + k].clear && all[4 + k].area == centered(
                p.body,
                46,
                (all[4 + k].lines.len() + 2) as u16,
            )
            &&& m.screen is Tag ==> all[2] == buffer_pane_of(m, p.upper) && all[3]
                == encoded_pane_of(m, p.lower)
            &&& m.screen is Card ==> all[2] == card_pane_of(m, p.main)
            &&& m.screen is Blocks ==> all[2] == blocks_pane_of(m, p.main)
            &&& m.screen is Console ==> all[2] == payload_pane_of(m, p.upper) && all[3]
                == examples_pane_of(p.lower)
            &&& all[0] == tabs_of(m, p.tabs) && all[1] == pad_pane_of(m, p.pad)
        }),
{
}

/// The tabs name the four screens in order and mark the one that is open. After
/// them stands what the worker is at or, while it is idle, a heartbeat that
/// changes from poll to poll.
pub proof fn the_open_screen_is_marked(m: AppModel, area: Area)
    ensures
        ({
            let s = tabs_of(m, area).lines[0].spans;
            &&& s.len() == 6
            &&& s[1].text == " "@ + "1 Tag"@ + " "@ && (s[1].style is Marked <==> m.screen is Tag)
            &&& s[2].text == " "@ + "2 Card"@ + " "@ && (s[2].style is Marked <==> m.screen is Card)
            &&& s[3].text == " "@ + "3 Blocks"@ + " "@ && (s[3].style is Marked
                <==> m.screen is Blocks)
            &&& s[4].text == " "@ + "4 Console"@ + " "@ && (s[4].style is Marked
                <==> m.screen is Console)
            &&& m.busy matches Some(w) ==> s[5].text == "  "@ + w + "..."@
            &&& m.busy is None ==> s[5].text == "  "@ + heartbeat_of(m.polls as int)
        }),
        heartbeat_of(m.polls as int) != heartbeat_of(m.polls + 1),
        heartbeat_of(m.polls as int) == heartbeat_of(m.polls + 4),
{
    reveal_strlit(".");
    reveal_strlit("o");
    reveal_strlit("O");
    assert("."@[0] != "o"@[0] && "O"@[0] != "o"@[0]);
}

/// The pad shows what lies on it: the ID of a tag with its carrier and both
/// decimal forms, or the UID of a card with its kind, ATQA, SAK and sectors.
pub proof fn the_pad_shows_what_lies_on_it(m: AppModel, area: Area)
    ensures
        ({
            let l = pad_pane_of(m, area).lines;
            &&& l.len() == 2
            &&& m.pad is Empty ==> crate::ui::said_by(l[0].spans) == " empty"@
            &&& m.pad matches PadModel::Lf { id, freq } ==> {
                &&& crate::ui::said_by(l[0].spans) == " 125 kHz   "@ + hex_text(id) + ("   "@
                    + dec_text(freq as nat) + " Hz"@)
                &&& crate::ui::said_by(l[1].spans) == " EM4100    "@ + ("dec10 "@ + em4100_text(
                    id,
                    IdForm::Dec10,
                ) + "    dec3+5 "@ + em4100_text(id, IdForm::Dec35))
            }
            &&& m.pad matches PadModel::Hf(c) ==> {
                &&& crate::ui::said_by(l[0].spans) == " 13.56 MHz "@ + hex_text(c.uid) + ("   "@
                    + kind_of(c.sak))
                &&& crate::ui::said_by(l[1].spans) == " untested  "@ + ("ATQA "@ + hex_text(c.atqa)
                    + "  SAK "@ + hex2(c.sak) + "  "@ + (match sectors_of(c.sak) {
                    Some(n) => dec_text(n as nat) + " sectors"@,
                    None => "no sectors"@,
                }))
            }
        }),
{
    let l = pad_pane_of(m, area).lines;
    let a = l[0].spans;
    let b = l[1].spans;
    crate::ui::lines_say_their_spans(" empty"@, Style::Dim, a[0], a[1], a[2]);
    crate::ui::lines_say_their_spans(" empty"@, Style::Dim, b[0], b[1], b[2]);
    if !(m.pad is Empty) {
        assert(a =~= seq![a[0], a[1], a[2]]);
        assert(b =~= seq![b[0], b[1]]);
    }
}

/// The tag screen marks the form that is chosen, and the field takes its place
/// while it is edited. Below stands what is wrong, what the form sets, or what
/// to do next; above, where the ID came from.
pub proof fn the_tag_screen_marks_the_form(m: AppModel, form: IdForm, area: Area)
    requires
        m.field.wf(),
    ensures
        ({
            let p = buffer_pane_of(m, area);
            let l = form_line_of(m, form);
            &&& p.lines.len() == 5
            &&& form is Hex ==> p.lines[0] == l && l.spans[0].text == " "@ + (if m.form is Hex {
                ">"@
            } else {
                " "@
            }) + " "@ + pad_right("hex"@, 7)
            &&& form is Dec10 ==> p.lines[1] == l && l.spans[0].text == " "@ + (if m.form is Dec10 {
                ">"@
            } else {
                " "@
            }) + " "@ + pad_right("dec10"@, 7)
            &&& form is Dec35 ==> p.lines[2] == l && l.spans[0].text == " "@ + (if m.form is Dec35 {
                ">"@
            } else {
                " "@
            }) + " "@ + pad_right("dec3+5"@, 7)
            &&& m.editing && form == m.form ==> l.spans.skip(1) == field_spans(m.field, true)
            &&& m.field_err matches Some(e) ==> p.lines[4] == text_line(" "@ + e, Style::Red)
            &&& m.field_err is None && m.editing && m.form is Hex ==> p.lines[4] == text_line(
                " "@ + "Sets all five bytes."@,
                Style::Dim,
            )
            &&& m.field_err is None && m.editing && m.form is Dec10 ==> p.lines[4] == text_line(
                " "@ + "Sets bytes 1-4. Byte 0 keeps its current value."@,
                Style::Dim,
            )
            &&& m.field_err is None && m.editing && m.form is Dec35 ==> p.lines[4] == text_line(
                " "@ + "Sets bytes 2-4. Bytes 0 and 1 keep their current values."@,
                Style::Dim,
            )
            &&& m.field_err is None && !m.editing ==> p.lines[4] == text_line(
                " "@ + next_step_of(m),
                Style::Cyan,
            )
            &&& p.border matches Some(b) && b.title == " "@ + (if m.editing {
                "Buffer (editing)"@
            } else if m.origin is Blank {
                "Buffer ("@ + "empty"@ + ")"@
            } else if m.origin is Captured {
                "Buffer ("@ + "captured"@ + ")"@
            } else {
                "Buffer ("@ + "typed"@ + ")"@
            }) + " "@
        }),
{
    let l = form_line_of(m, form);
    if m.editing && form == m.form {
        assert(l.spans.skip(1) =~= field_spans(m.field, true));
    }
}

/// What the tag screen says the buffer encodes to is what a write of it sends:
/// the frame, the config word or that it is skipped, and the two blocks.
pub proof fn the_tag_screen_shows_what_a_write_sends(m: AppModel, area: Area)
    requires
        m.id.len() == 5,
    ensures
        ({
            let l = encoded_pane_of(m, area).lines;
            let plan = crate::em4100::plan_of(m.id, m.write_config);
            let k = plan.len() as int;
            &&& l.len() == 5
            &&& l[0].spans[0].text == " "@ + pad_right("frame"@, 8)
            &&& l[2].spans[0].text == " "@ + pad_right("block 0"@, 8)
            &&& l[3].spans[0].text == " "@ + pad_right("block 1"@, 8)
            &&& l[4].spans[0].text == " "@ + pad_right("block 2"@, 8)
            &&& l[0].spans[1].text == hex_text(plan[k - 2].1 + plan[k - 1].1)
            &&& m.write_config ==> l[2].spans[1].text == hex_text(plan[0].1)
            &&& !m.write_config ==> l[2].spans[1].text == "skipped"@
            &&& l[3].spans[1].text == hex_text(plan[k - 2].1)
            &&& l[4].spans[1].text == hex_text(plan[k - 1].1)
        }),
{
    crate::em4100::a_write_puts_the_frame_on_the_tag(m.id, m.write_config);
}

/// The blocks screen lists blocks 0 to 7 in order, marks the one picked, and
/// shows no data: only the one being edited shows anything, and that is the
/// field.
pub proof fn the_blocks_screen_shows_no_data(m: AppModel, area: Area, b: int)
    requires
        0 <= b < 8,
        m.block_field.wf(),
    ensures
        ({
            let l = blocks_pane_of(m, area).lines;
            let here = b == m.block_sel;
            &&& l.len() == 8
            &&& l[b].spans[0].text == " "@ + (if here {
                ">"@
            } else {
                " "@
            }) + " block "@ + dec_text(b as nat) + "  "@
            &&& !(here && m.editing) ==> l[b].spans.len() == 3 && l[b].spans[1].text == pad_right(
                "-"@,
                13,
            )
            &&& here && m.editing ==> l[b].spans.len() == 5 && l[b].spans.subrange(1, 4)
                == field_spans(m.block_field, true)
            &&& b == 0 ==> l[b].spans.last().text == "config"@
            &&& b == 1 || b == 2 ==> l[b].spans.last().text == "EM4100 data"@
            &&& b == 7 ==> l[b].spans.last().text == "password"@
            &&& 3 <= b <= 6 ==> l[b].spans.last().text == ""@
        }),
{
    let l = blocks_pane_of(m, area).lines;
    if b == m.block_sel && m.editing {
        assert(l[b].spans.subrange(1, 4) =~= field_spans(m.block_field, true));
    }
}

/// A dump on the screen: each sector under its number and its key, its blocks
/// below it by their place, byte for byte, and sector after sector.
pub proof fn a_dump_shows_every_block(dump: Seq<SectorModel>, s: SectorModel, i: int)
    requires
        0 <= i < s.blocks.len(),
    ensures
        sector_lines_of(s).len() == 1 + s.blocks.len(),
        s.key matches Some(k) ==> sector_lines_of(s)[0] == text_line(
            " sector "@ + pad_left(dec_text(s.number as nat), 2, ' ') + "  key A "@ + hex_text(k),
            Style::Bold,
        ),
        sector_lines_of(s)[1 + i] == text_line(
            "   "@ + pad_left(dec_text(i as nat), 2, ' ') + "  "@ + groups_text(s.blocks[i]),
            Style::Dim,
        ),
        dump_lines_of(dump.push(s)) == dump_lines_of(dump) + sector_lines_of(s),
        dump_lines_of(Seq::empty()) == Seq::<LineModel>::empty(),
{
    assert(dump.push(s).drop_last() =~= dump);
}

/// The end of a dump is in view: what is scrolled out is what does not fit
/// above it, and nothing is if all of it fits.
pub proof fn the_end_of_a_dump_is_in_view(m: AppModel, area: Area)
    requires
        m.dump.len() > 0,
        area.height >= 2,
        dump_lines_of(m.dump).len() < 0x1_0000,
    ensures
        ({
            let p = card_pane_of(m, area);
            let rows = area.height - 2;
            &&& p.lines == dump_lines_of(m.dump)
            &&& p.lines.len() <= rows ==> p.scroll == 0
            &&& p.lines.len() > rows ==> p.scroll + rows == p.lines.len()
        }),
{
}

/// The console shows its field as it is typed, and the known commands, each
/// name over its payload.
pub proof fn the_console_shows_its_commands(m: AppModel, area: Area, i: int)
    requires
        0 <= i < 5,
        m.console.wf(),
    ensures
        payload_pane_of(m, area).lines[0].spans.skip(1) == field_spans(m.console, m.editing),
        examples_pane_of(area).lines[2 * i] == text_line(" "@ + example_of(i).0, Style::Dim),
        examples_pane_of(area).lines[2 * i + 1] == text_line(
            "   "@ + example_of(i).1,
            Style::Plain,
        ),
{
    reveal_with_fuel(example_lines, 6);
    assert(payload_pane_of(m, area).lines[0].spans.skip(1) =~= field_spans(m.console, m.editing));
}

/// The log shows the newest line first and bad news in red; a prompt takes its
/// place.
pub proof fn the_newest_line_comes_first(m: AppModel, area: Area, i: int)
    requires
        0 <= i < m.log.len(),
        m.confirm is None,
    ensures
        ({
            let p = side_pane_of(m, area);
            let (text, bad) = m.log[m.log.len() - 1 - i];
            &&& p.lines.len() == m.log.len()
            &&& bad ==> p.lines[i] == text_line(" "@ + text, Style::Red)
            &&& !bad ==> p.lines[i] == text_line(" "@ + text, Style::Plain)
        }),
{
}

/// The foot names the keys that work now: those of the prompt, those that leave
/// a field, or those of the screen.
pub proof fn the_foot_names_the_keys(m: AppModel, area: Area, keys: Seq<(Seq<char>, Seq<char>)>, k: (Seq<char>, Seq<char>))
    ensures
        foot_of(m, area).lines == seq![text_line(hint_of(m), Style::Plain)],
        m.confirm is None && m.editing ==> hint_of(m) == " Enter  accept    Esc  revert"@,
        m.confirm is None && !m.editing ==> hint_of(m) == hints_of(keys_of(m.screen))
            + "? help   q quit"@,
        hints_of(Seq::empty()) == " "@,
        hints_of(keys.push(k)) == hints_of(keys) + k.0 + " "@ + k.1 + "   "@,
{
    assert(keys.push(k).drop_last() =~= keys);
}

/// Help lists the keys for every screen and then those of the present one, each
/// with what it does, and says that writes ask first.
pub proof fn help_lists_the_keys(m: AppModel, area: Area, i: int)
    requires
        0 <= i < keys_of(m.screen).len(),
    ensures
        ({
            let l = help_pane_of(m, area).lines;
            let (key, what) = keys_of(m.screen)[i];
            &&& l.len() == 12 + keys_of(m.screen).len()
            &&& l[0] == row_of("left/right"@, "screen"@)
            &&& l[1] == row_of("1-4"@, "jump to screen"@)
            &&& l[2] == row_of("up/down"@, "move within screen"@)
            &&& l[3] == row_of("e"@, "edit"@)
            &&& l[4] == row_of("Enter"@, "accept"@)
            &&& l[5] == row_of("Esc"@, "abandon edit"@)
            &&& l[6] == row_of("b"@, "buzzer"@)
            &&& l[7] == row_of("q"@, "quit"@)
            &&& l[10 + i] == row_of(key, what)
            &&& l.last() == text_line(" "@ + "Writes ask first. Only y goes ahead."@, Style::Dim)
            &&& row_of(key, what).spans[0].text == " "@ + pad_right(key, 11)
            &&& row_of(key, what).spans[1].text == what
        }),
{
}

/// Without a dump the card screen names the card on the pad and its keys, and
/// says how many keys each sector is tried with.
pub proof fn the_card_screen_without_a_dump(m: AppModel, area: Area)
    requires
        m.dump.len() == 0,
    ensures
        ({
            let l = card_pane_of(m, area).lines;
            &&& m.pad matches PadModel::Hf(c) ==> l[0] == text_line(
                " "@ + kind_of(c.sak),
                Style::Plain,
            )
            &&& !(m.pad is Hf) ==> l[0] == text_line(" no card"@, Style::Plain)
            &&& l[2] == row_of("d"@, "dump every sector"@)
            &&& l[3] == row_of("s"@, "save to <uid>.dump"@)
            &&& l[5] == text_line(
                " "@ + (dec_text(8) + " keys tried per sector. Unknown keys"@),
                Style::Dim,
            )
        }),
{
}

/// How the screen is shared out: a line for the tabs, four for the pad, a line
/// for the keys and the rest for the body; of that rather more than half for the
/// screen itself; and seven lines for the buffer, four for the console's field.
pub proof fn the_screen_is_shared_out(p: Areas, screen: Screen, whole: Area)
    requires
        places_split(p, screen, whole),
    ensures
        may_split(
            whole,
            Axis::Down,
            seq![Share::Length(1), Share::Length(4), Share::Min(0), Share::Length(1)],
            seq![p.tabs, p.pad, p.body, p.foot],
        ),
        may_split(
            p.body,
            Axis::Across,
            seq![Share::Percentage(52), Share::Min(0)],
            seq![p.main, p.side],
        ),
        screen is Tag ==> may_split(
            p.main,
            Axis::Down,
            seq![Share::Length(7), Share::Min(0)],
            seq![p.upper, p.lower],
        ),
        screen is Console ==> may_split(
            p.main,
            Axis::Down,
            seq![Share::Length(4), Share::Min(0)],
            seq![p.upper, p.lower],
        ),
{
}

} // verus!
