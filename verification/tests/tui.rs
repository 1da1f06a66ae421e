use latchkey::app::{App, Origin, Screen};
use latchkey::em4100::IdForm;
use latchkey::input::Key;
use latchkey::ui::{Area, Color, Pane, Style, Wrap};
use latchkey::view;
use latchkey::worker::Pad;
use ratatui::backend::TestBackend;
use ratatui::layout::Rect;
use ratatui::widgets::{Block, Borders, Clear, Paragraph};
use ratatui::{Frame, Terminal};

const W: u16 = 100;

fn color(c: Color) -> ratatui::style::Color {
    match c {
        Color::Black => ratatui::style::Color::Black,
        Color::White => ratatui::style::Color::White,
        Color::Yellow => ratatui::style::Color::Yellow,
        Color::Green => ratatui::style::Color::Green,
        Color::Cyan => ratatui::style::Color::Cyan,
        Color::Red => ratatui::style::Color::Red,
        Color::DarkGray => ratatui::style::Color::DarkGray,
    }
}

fn style(s: Style) -> ratatui::style::Style {
    let mut out = ratatui::style::Style::new();
    if let Some(c) = s.fg() {
        out = out.fg(color(c));
    }
    if let Some(c) = s.bg() {
        out = out.bg(color(c));
    }
    if s.bold() {
        out = out.add_modifier(ratatui::style::Modifier::BOLD);
    }
    out
}

fn paint(f: &mut Frame, pane: &Pane) {
    let area = Rect {
        x: pane.area.x,
        y: pane.area.y,
        width: pane.area.width,
        height: pane.area.height,
    };
    let lines: Vec<ratatui::text::Line> = pane
        .lines
        .iter()
        .map(|l| {
            let spans: Vec<ratatui::text::Span> = l
                .spans
                .iter()
                .map(|s| ratatui::text::Span::styled(s.text.clone(), style(s.style)))
                .collect();
            ratatui::text::Line::from(spans).style(style(l.style))
        })
        .collect();
    let mut p = Paragraph::new(lines).style(style(pane.style)).scroll((pane.scroll, 0));
    p = match pane.wrap {
        Wrap::Cut => p,
        Wrap::Trim => p.wrap(ratatui::widgets::Wrap { trim: true }),
        Wrap::Keep => p.wrap(ratatui::widgets::Wrap { trim: false }),
    };
    if let Some(b) = &pane.border {
        p = p.block(
            Block::new()
                .borders(Borders::ALL)
                .border_style(ratatui::style::Style::new().fg(color(b.color)))
                .title(ratatui::text::Span::from(b.title.clone())),
        );
    }
    if pane.clear {
        f.render_widget(Clear, area);
    }
    f.render_widget(p, area);
}

/// One frame as text, so a pane sized to nothing shows as a missing string
fn render(app: &App) -> String {
    let mut term = Terminal::new(TestBackend::new(W, 30)).unwrap();
    term.draw(|f| {
        let a = f.area();
        let whole = Area { x: a.x, y: a.y, width: a.width, height: a.height };
        for pane in &view::draw(app, whole) {
            paint(f, pane);
        }
    })
    .unwrap();
    term.backend()
        .buffer()
        .content()
        .iter()
        .map(|c| c.symbol())
        .collect()
}

fn app() -> App {
    App::new()
}

fn type_in(a: &mut App, s: &str) {
    for c in s.chars() {
        a.key(Key::Char(c));
    }
}

/// Reading a tag then lifting it off to fit a blank must not lose the ID
#[test]
fn the_pad_does_not_clobber_a_captured_id() {
    let mut a = app();
    let fob = [0x12, 0x34, 0x56, 0x78, 0x9a];

    a.pad = Pad::Lf {
        id: fob,
        freq: 125_000,
    };
    a.seed(fob);
    assert_eq!(a.id, fob);

    a.pad = Pad::Empty;
    assert_eq!(a.id, fob, "survives the tag coming off");

    let blank = [0xde, 0xad, 0xbe, 0xef, 0x01];
    a.pad = Pad::Lf {
        id: blank,
        freq: 125_000,
    };
    a.seed(blank);
    assert_eq!(a.id, fob, "a second tag does not overwrite the buffer");

    let out = render(&a);
    assert!(out.contains("12 34 56 78 9a"), "buffer: {out}");
    assert!(out.contains("de ad be ef 01"), "pad: {out}");

    a.key(Key::Char('c'));
    assert_eq!(a.id, blank, "c is how you take the new one");
}

/// Typed input outranks the pad even before anything has been captured
#[test]
fn typing_locks_the_buffer_against_the_pad() {
    let mut a = app();
    a.key(Key::Char('e'));
    for _ in 0..14 {
        a.key(Key::Backspace);
    }
    type_in(&mut a, "de ad be ef 01");
    a.key(Key::Enter);
    assert_eq!(a.origin, Origin::Typed);

    a.seed([0x12, 0x34, 0x56, 0x78, 0x9a]);
    assert_eq!(a.id, [0xde, 0xad, 0xbe, 0xef, 0x01]);
}

/// The point of the Tag screen: type in one form and see the others
#[test]
fn typing_a_decimal_id_updates_the_other_forms() {
    let mut a = app();
    a.key(Key::Down);
    assert_eq!(a.form, IdForm::Dec10);

    a.key(Key::Char('e'));
    assert!(a.editing);
    for _ in 0..12 {
        a.key(Key::Backspace);
    }
    type_in(&mut a, "0016909060");
    a.key(Key::Enter);

    assert_eq!(a.id, [0x00, 0x01, 0x02, 0x03, 0x04]);
    let out = render(&a);
    assert!(out.contains("00 01 02 03 04"), "hex form: {out}");
    assert!(out.contains("00200772"), "dec3+5 form: {out}");
    assert!(out.contains("block 1"), "and what it encodes to");
}

#[test]
fn a_half_typed_id_does_not_become_the_one_that_gets_written() {
    let mut a = app();
    a.id = [1, 2, 3, 4, 5];
    a.sync_field();
    a.key(Key::Char('e'));
    type_in(&mut a, "zz");

    assert!(a.field_err.is_some(), "field is flagged");
    assert_eq!(a.id, [1, 2, 3, 4, 5], "id untouched by the bad text");
    assert!(
        render(&a).contains("bad hex"),
        "and the reason is on screen"
    );

    a.key(Key::Enter);
    a.stage_write_lf();
    assert!(
        a.confirm.is_none(),
        "will not stage a write while unparseable"
    );
}

/// Every keystroke reparses into `id`, so Esc needs the snapshot to undo
#[test]
fn esc_restores_the_id_that_editing_started_from() {
    let mut a = app();
    a.id = [0x12, 0x34, 0x56, 0x78, 0x9a];
    a.origin = Origin::Captured;
    a.sync_field();
    a.key(Key::Char('e'));
    for _ in 0..14 {
        a.key(Key::Backspace);
    }
    type_in(&mut a, "de ad be ef 01");
    assert_eq!(a.id, [0xde, 0xad, 0xbe, 0xef, 0x01]);

    a.key(Key::Esc);
    assert_eq!(a.id, [0x12, 0x34, 0x56, 0x78, 0x9a], "reverted");
    assert_eq!(a.origin, Origin::Captured);
    assert_eq!(a.field.value, "12 34 56 78 9a");
}

#[test]
fn keys_typed_into_a_field_are_not_commands() {
    let mut a = app();
    a.key(Key::Char('4'));
    a.key(Key::Char('e'));
    let before = a.console.value.clone();
    type_in(&mut a, "q1w");
    assert!(a.editing, "still editing after typing q");
    assert_eq!(a.console.value, format!("{before}q1w"));
    assert_eq!(a.screen, Screen::Console, "the 1 did not switch screens");
}

#[test]
fn the_write_confirmation_names_the_tag_it_would_erase() {
    let mut a = app();
    a.id = [0x12, 0x34, 0x56, 0x78, 0x9a];
    a.sync_field();
    a.pad = Pad::Lf {
        id: [0xde, 0xad, 0xbe, 0xef, 0x01],
        freq: 125_000,
    };
    a.stage_write_lf();

    let out = render(&a);
    assert!(out.contains("Write 12 34 56 78 9a"), "target ID: {out}");
    assert!(out.contains("de ad be ef 01"), "the ID being erased: {out}");
    assert!(out.contains("WARNING"));
    assert!(
        out.contains("y  go ahead"),
        "hints switch to the confirm keys"
    );
}

/// A wrong config word makes the tag invisible, so block 0 has to warn
#[test]
fn writing_block_zero_warns_about_the_config_word() {
    let mut a = app();
    a.key(Key::Char('3'));
    a.block_field.set("00 14 80 40");
    a.stage_write_block();
    let out = render(&a);
    assert!(out.contains("Write 00 14 80 40 to block 0"), "{out}");
    assert!(out.contains("config word"), "{out}");

    a.key(Key::Char('y'));
    a.key(Key::Down);
    a.stage_write_block();
    assert!(!render(&a).contains("config word"), "block 1 does not warn");
}

#[test]
fn a_bad_block_length_is_refused_rather_than_padded() {
    let mut a = app();
    a.block_field.set("00 14 80");
    a.stage_write_block();
    assert!(a.confirm.is_none());
    assert!(a.log.iter().any(|(m, bad)| *bad && m.contains("4 bytes")));
}

#[test]
fn only_y_confirms() {
    let mut a = app();
    a.stage_write_lf();
    a.key(Key::Char('w'));
    assert!(a.confirm.is_none(), "cancelled");

    a.stage_write_lf();
    assert!(a.key(Key::Char('q')), "q while confirming cancels");
    assert!(a.confirm.is_none());
}

// ---- how each screen draws ----

#[test]
fn every_pane_of_every_screen_shows() {
    let mut a = app();
    let out = render(&a);
    for want in [
        " latchkey ", "1 Tag", "2 Card", "3 Blocks", "4 Console", " Pad ", "set a tag down flat",
        "Buffer (empty)", "Encodes to", "Activity", "? for keys", "x wipe", "? help   q quit",
        "set the tag you want to copy on the pad",
    ] {
        assert!(out.contains(want), "{want}: {out}");
    }
    a.key(Key::Right);
    let out = render(&a);
    assert!(out.contains("MIFARE Classic"), "{out}");
    assert!(out.contains("8 keys tried per sector"), "{out}");
    a.key(Key::Tab);
    let out = render(&a);
    assert!(out.contains("T5577 page 0"), "{out}");
    assert!(out.contains("> block 0  -            config"), "{out}");
    assert!(out.contains("block 7  -            password"), "{out}");
    a.key(Key::Right);
    let out = render(&a);
    assert!(out.contains(" Payload "), "{out}");
    assert!(out.contains("ff 00 82 00 00"), "{out}");
    a.key(Key::Char('?'));
    let out = render(&a);
    assert!(out.contains(" Keys "), "{out}");
    assert!(out.contains("Writes ask first. Only y goes ahead."), "{out}");
    a.key(Key::Right);
    assert_eq!(a.screen, Screen::Console, "help swallowed the key");
    a.key(Key::Right);
    assert_eq!(a.screen, Screen::Tag, "and round again");
}

#[test]
fn the_cursor_is_drawn_into_the_field() {
    let mut a = app();
    a.key(Key::Char('e'));
    a.key(Key::Home);
    let panes = view::draw(&a, Area { x: 0, y: 0, width: 100, height: 30 });
    let line = &panes[2].lines[0];
    assert_eq!(line.spans.len(), 4);
    assert_eq!(line.spans[1].text, "");
    assert_eq!(line.spans[2].text, "0");
    assert_eq!(line.spans[2].style, Style::Marked);
    assert_eq!(line.spans[3].text, "0 00 00 00 00");
}

#[test]
fn places_of_a_hundred_by_thirty() {
    let p = view::places(Screen::Tag, Area { x: 0, y: 0, width: 100, height: 30 });
    assert_eq!(p.tabs, Area { x: 0, y: 0, width: 100, height: 1 });
    assert_eq!(p.pad, Area { x: 0, y: 1, width: 100, height: 4 });
    assert_eq!(p.body, Area { x: 0, y: 5, width: 100, height: 24 });
    assert_eq!(p.foot, Area { x: 0, y: 29, width: 100, height: 1 });
    assert_eq!(p.main, Area { x: 0, y: 5, width: 52, height: 24 });
    assert_eq!(p.side, Area { x: 52, y: 5, width: 48, height: 24 });
    assert_eq!(p.upper, Area { x: 0, y: 5, width: 52, height: 7 });
    assert_eq!(p.lower, Area { x: 0, y: 12, width: 52, height: 17 });
}

#[test]
fn a_long_dump_is_pinned_to_its_end() {
    let mut a = app();
    a.key(Key::Char('2'));
    for number in 0..16u8 {
        a.dump.push(latchkey::worker::Sector {
            number,
            key: if number == 3 { None } else { Some([0xff; 6]) },
            blocks: if number == 3 { Vec::new() } else { vec![[number; 16]; 4] },
        });
    }
    let out = render(&a);
    assert!(out.contains("sector 15  key A ff ff ff ff ff ff"), "{out}");
    assert!(out.contains("3  0f0f0f0f 0f0f0f0f 0f0f0f0f 0f0f0f0f"), "{out}");
    assert!(!out.contains("sector  0"), "scrolled out: {out}");
    let panes = view::draw(&a, Area { x: 0, y: 0, width: 100, height: 30 });
    // 16 heads, 15 sectors of 4 blocks, 22 rows
    assert_eq!(panes[2].scroll, 16 + 60 - 22);
    assert_eq!(panes[2].lines[15].spans[0].text, " sector  3  locked");
}

#[test]
fn a_small_terminal_still_draws() {
    let mut a = app();
    a.help = true;
    for (width, height) in [(0, 0), (1, 1), (10, 4), (46, 12)] {
        for screen in Screen::ALL {
            a.screen = screen;
            let panes = view::draw(&a, Area { x: 0, y: 0, width, height });
            let help = panes.last().unwrap();
            assert!(help.clear);
            assert!(help.area.x + help.area.width <= width);
        }
    }
}
