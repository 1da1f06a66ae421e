use latchkey::app::{App, Origin, Request, Screen};
use latchkey::em4100::{em4100_show, IdForm};
use latchkey::input::{Input, Key};
use latchkey::mifare::Card;
use latchkey::session::{Session, IDLE_GAP};
use latchkey::ui::{center, Area};
use latchkey::worker::{Event, Job, Pad, Sector};

const FOB: [u8; 5] = [0x12, 0x34, 0x56, 0x78, 0x9a];

fn lf(id: [u8; 5]) -> Pad {
    Pad::Lf { id, freq: 125_000 }
}

fn hf() -> Pad {
    Pad::Hf(Card { atqa: [0, 4], sak: 8, uid: vec![0xde, 0xad, 0xbe, 0xef] })
}

fn last_log(a: &App) -> (String, bool) {
    a.log.last().unwrap().clone()
}

// ---- fields ----

#[test]
fn a_field_is_typed_into() {
    let mut f = Input::new();
    for c in "abd".chars() {
        f.key(Key::Char(c));
    }
    f.key(Key::Left);
    f.key(Key::Char('c'));
    assert_eq!((f.value.as_str(), f.cursor), ("abcd", 3));
    f.key(Key::Delete);
    assert_eq!((f.value.as_str(), f.cursor), ("abc", 3));
    f.key(Key::Delete);
    f.key(Key::Right);
    assert_eq!((f.value.as_str(), f.cursor), ("abc", 3));
    f.key(Key::Home);
    f.key(Key::Backspace);
    f.key(Key::Left);
    assert_eq!((f.value.as_str(), f.cursor), ("abc", 0));
    f.key(Key::Right);
    f.key(Key::Backspace);
    assert_eq!((f.value.as_str(), f.cursor), ("bc", 0));
    f.key(Key::End);
    for k in [Key::Char('\n'), Key::Char('\u{e9}'), Key::Up, Key::Tab, Key::Other] {
        f.key(k);
    }
    assert_eq!((f.value.as_str(), f.cursor), ("bc", 2), "only printable ASCII is taken");
    f.key(Key::Char(' '));
    assert_eq!(f.value, "bc ");
}

#[test]
fn typing_and_erasing_leaves_no_trace() {
    let mut f = Input::new();
    f.set("12 34");
    f.key(Key::Left);
    f.key(Key::Char('x'));
    f.key(Key::Backspace);
    assert_eq!((f.value.as_str(), f.cursor), ("12 34", 4));
}

#[test]
fn the_drawn_cursor() {
    let mut f = Input::new();
    f.set("ab");
    let s = f.spans(true);
    assert_eq!((s[0].text.as_str(), s[1].text.as_str(), s[2].text.as_str()), ("ab", " ", ""));
    f.key(Key::Home);
    let s = f.spans(true);
    assert_eq!((s[0].text.as_str(), s[1].text.as_str(), s[2].text.as_str()), ("", "a", "b"));
    assert_eq!(f.spans(false)[0].text, "ab");
}

#[test]
fn the_middle_of_an_area() {
    let a = Area { x: 10, y: 20, width: 50, height: 9 };
    assert_eq!(center(a, 46, 4), Area { x: 12, y: 22, width: 46, height: 4 });
    assert_eq!(center(a, 100, 100), a);
    assert_eq!(center(a, 47, 0), Area { x: 11, y: 24, width: 47, height: 0 });
}

// ---- keys ----

#[test]
fn screens_and_quitting() {
    let mut a = App::new();
    assert!(a.key(Key::Left));
    assert_eq!(a.screen, Screen::Console);
    assert!(a.key(Key::BackTab));
    assert_eq!(a.screen, Screen::Blocks);
    for (k, s) in [('1', Screen::Tag), ('2', Screen::Card), ('3', Screen::Blocks), ('4', Screen::Console)] {
        assert!(a.key(Key::Char(k)));
        assert_eq!(a.screen, s);
        assert_eq!(s.step(false).step(true), s);
    }
    assert!(!a.key(Key::Char('q')));
    assert!(!a.press(true, Key::Char('c')));
    assert!(a.press(false, Key::Char('c')));
    a.key(Key::Char('e'));
    assert!(a.key(Key::Char('q')), "q is text while editing");
    assert!(!a.press(true, Key::Char('c')));
}

#[test]
fn up_and_down_pick_the_form() {
    let mut a = App::new();
    a.id = FOB;
    let steps = [
        (Key::Down, IdForm::Dec10),
        (Key::Char('j'), IdForm::Dec35),
        (Key::Down, IdForm::Hex),
        (Key::Up, IdForm::Dec35),
        (Key::Char('k'), IdForm::Dec10),
        (Key::Up, IdForm::Hex),
    ];
    for (k, form) in steps {
        a.key_screen(k);
        assert_eq!(a.form, form);
        assert_eq!(a.field.value, em4100_show(FOB, form));
        assert!(a.field_err.is_none() && a.outbox.is_empty() && a.confirm.is_none());
        assert_eq!((a.id, a.origin), (FOB, Origin::Blank));
    }
}

#[test]
fn block_zero_warns_on_every_pad() {
    let warning =
        "Block 0 is the config word. A wrong value stops the tag emitting at all.".to_string();
    for pad in [Pad::Empty, lf(FOB), hf()] {
        let mut a = App::new();
        a.block_field.set("00 14 80 40");
        let tag = matches!(pad, Pad::Lf { .. }) as usize;
        a.pad = pad;
        for blk in 0..8 {
            a.block_sel = blk;
            a.stage_write_block();
            let c = a.confirm.as_ref().unwrap();
            assert!(matches!(c.job, Job::WriteBlock(b, [0x00, 0x14, 0x80, 0x40]) if b == blk));
            if blk == 0 {
                assert_eq!(c.prompt[1], warning);
                assert_eq!(c.prompt.len(), 3 + tag);
            } else {
                assert!(!c.prompt.contains(&warning));
                assert_eq!(c.prompt.len(), 2 + tag);
            }
        }
    }
}

#[test]
fn jobs_go_into_the_outbox() {
    let mut a = App::new();
    a.key(Key::Char('b'));
    a.key(Key::Char('r'));
    a.key(Key::Char('2'));
    a.key(Key::Char('d'));
    a.key(Key::Char('4'));
    a.key(Key::Enter);
    assert_eq!(a.outbox.len(), 4);
    assert!(matches!(&a.outbox[0], Request::Job(Job::Beep)));
    assert!(matches!(&a.outbox[1], Request::Job(Job::ReadLf)));
    assert!(matches!(&a.outbox[2], Request::Job(Job::Dump)));
    assert!(matches!(&a.outbox[3], Request::Job(Job::Raw(p)) if p == &[0xff, 0, 0, 0, 2, 0xd4, 2]));
}

#[test]
fn writes_wait_for_a_yes() {
    let mut a = App::new();
    a.key(Key::Char('w'));
    assert!(a.confirm.is_some());
    assert!(a.outbox.is_empty());
    a.key(Key::Char('y'));
    assert!(a.confirm.is_none());
    assert!(matches!(&a.outbox[0], Request::Job(Job::WriteLf([0, 0, 0, 0, 0], true))));

    a.key(Key::Char('0'));
    assert_eq!(last_log(&a), ("block 0 off".to_string(), false));
    a.key(Key::Char('w'));
    assert_eq!(a.confirm.as_ref().unwrap().prompt.len(), 3);
    a.key(Key::Char('n'));
    assert_eq!(last_log(&a), ("cancelled".to_string(), false));
    assert_eq!(a.outbox.len(), 1);
}

#[test]
fn a_wipe_waits_for_a_yes() {
    let mut a = App::new();
    a.pad = lf(FOB);
    a.key(Key::Char('x'));
    assert_eq!(
        a.confirm.as_ref().unwrap().prompt,
        [
            "Zero every block of the tag on the pad?",
            "WARNING: the tag reads as 12 34 56 78 9a. That will be erased. Stop if you cannot replace it.",
            "Afterwards it emits nothing until block 0 is set again.",
            "y to go ahead. Any other key cancels."
        ]
    );
    assert!(a.outbox.is_empty());
    a.key(Key::Char('y'));
    assert!(matches!(&a.outbox[0], Request::Job(Job::Wipe)));
}

#[test]
fn the_prompt_tells_what_lies_on_the_pad() {
    let mut a = App::new();
    let said = |a: &mut App| {
        a.stage_write_lf();
        a.confirm.take().unwrap().prompt[1].clone()
    };
    assert!(said(&mut a).starts_with("Nothing reads on the pad. Normal for a blank"));
    a.pad = lf([0; 5]);
    assert_eq!(said(&mut a), "It already reads as 00 00 00 00 00.");
    a.pad = lf(FOB);
    assert!(said(&mut a).starts_with("WARNING: the tag reads as 12 34 56 78 9a."));
    a.pad = hf();
    assert_eq!(
        said(&mut a),
        "A MIFARE Classic 1K is on the pad. A 125 kHz write will not touch it."
    );
    a.pad = lf(FOB);
    a.stage_write_block();
    assert_eq!(
        a.confirm.as_ref().unwrap().prompt[2],
        "The tag reads as 12 34 56 78 9a. Blocks 1 and 2 change that."
    );
}

#[test]
fn blocks_are_chosen_within_the_page() {
    let mut a = App::new();
    a.key(Key::Char('3'));
    a.key(Key::Up);
    assert_eq!(a.block_sel, 0);
    for _ in 0..9 {
        a.key(Key::Char('j'));
    }
    assert_eq!(a.block_sel, 7);
    a.key(Key::Char('k'));
    assert_eq!(a.block_sel, 6);
    a.key(Key::Char('w'));
    a.key(Key::Char('y'));
    assert!(matches!(&a.outbox[0], Request::Job(Job::WriteBlock(6, [0, 0, 0, 0]))));
    a.key(Key::Char('r'));
    assert_eq!(a.outbox.len(), 1, "a block cannot be read");
}

#[test]
fn known_commands_are_walked_in_a_ring() {
    let mut a = App::new();
    a.key(Key::Char('4'));
    let mut seen = vec![a.console.value.clone()];
    for _ in 0..4 {
        a.key(Key::Down);
        seen.push(a.console.value.clone());
    }
    assert_eq!(
        seen,
        [
            "ff 00 00 00 02 d4 02",
            "ff 00 6a 01 00 08",
            "ff 00 40 50 04 01 05 01 01",
            "ff 00 82 00 00",
            "ff 00 65 08 18 48 e8 01 00 00 00 00 00"
        ]
    );
    a.key(Key::Down);
    assert_eq!(a.console.value, seen[0]);
    a.key(Key::Up);
    assert_eq!(a.console.value, seen[4]);
    a.key(Key::Char('e'));
    a.key(Key::Char('0'));
    a.key(Key::Enter);
    assert!(!a.editing, "Enter sends");
    assert!(matches!(&a.outbox[0], Request::Job(Job::Raw(p)) if p.len() == 14));
}

#[test]
fn what_the_console_will_not_send() {
    let mut a = App::new();
    a.console.set("");
    a.send_console();
    assert_eq!(last_log(&a), ("nothing to send".to_string(), true));
    a.console.set("xy");
    a.send_console();
    assert!(last_log(&a).0.starts_with("bad hex \"xy\""));
    assert!(a.outbox.is_empty());
}

#[test]
fn capturing() {
    let mut a = App::new();
    a.capture();
    assert_eq!(last_log(&a), ("nothing on the pad".to_string(), true));
    a.pad = hf();
    a.capture();
    assert_eq!(
        last_log(&a),
        ("de ad be ef is a card UID. This screen takes IDs.".to_string(), true)
    );
    assert_eq!(a.origin, Origin::Blank);
    a.pad = lf(FOB);
    a.capture();
    assert_eq!(last_log(&a), ("captured 12 34 56 78 9a".to_string(), false));
    assert_eq!((a.id, a.origin), (FOB, Origin::Captured));
}

#[test]
fn the_next_step_fits_the_state() {
    let mut a = App::new();
    assert_eq!(a.next_step(), "set the tag you want to copy on the pad");
    a.pad = lf(FOB);
    assert_eq!(a.next_step(), "c captures this tag");
    a.capture();
    assert_eq!(a.next_step(), "the tag matches the buffer");
    a.pad = lf([1; 5]);
    assert_eq!(a.next_step(), "w overwrites this tag with the buffer");
    a.pad = Pad::Empty;
    assert_eq!(a.next_step(), "set a blank down. w writes.");
    a.pad = hf();
    assert_eq!(a.next_step(), "13.56 MHz card. Screen 2 reads those.");
}

#[test]
fn a_bad_field_blocks_the_write() {
    let mut a = App::new();
    a.field.set("12");
    a.reparse();
    assert_eq!(a.field_err.as_deref(), Some("an ID is 5 bytes, got 1"));
    a.stage_write_lf();
    assert!(a.confirm.is_none());
    assert_eq!(last_log(&a), ("fix the ID first: an ID is 5 bytes, got 1".to_string(), true));
    a.key(Key::Down);
    assert_eq!(a.form, IdForm::Dec10);
    assert!(a.field_err.is_none(), "another form shows the ID anew");
}

#[test]
fn the_card_screen_has_nothing_to_edit() {
    let mut a = App::new();
    a.key(Key::Char('2'));
    a.key(Key::Char('e'));
    assert!(!a.editing);
}

#[test]
fn esc_restores_the_other_fields_too() {
    for (screen, text) in [('3', "00 00 00 00"), ('4', "ff 00 00 00 02 d4 02")] {
        let mut a = App::new();
        a.key(Key::Char(screen));
        a.key(Key::Char('e'));
        a.key(Key::Backspace);
        a.key(Key::Char('w'));
        a.key(Key::Esc);
        let f = if screen == '3' { &a.block_field } else { &a.console };
        assert_eq!(f.value, text);
        assert!(a.outbox.is_empty());
        assert!(a.confirm.is_none());
    }
}

#[test]
fn the_log_does_not_grow_for_ever() {
    let mut a = App::new();
    for i in 0..300 {
        a.log(format!("{i}"), false);
    }
    assert_eq!(a.log.len(), 151);
    assert_eq!(a.log[0].0, "149");
    assert_eq!(last_log(&a).0, "299");
}

#[test]
fn a_dump_is_saved_under_the_uid() {
    let mut a = App::new();
    a.save_dump();
    assert_eq!(last_log(&a), ("no dump to save".to_string(), true));
    a.dump.push(Sector { number: 0, key: Some([0xff; 6]), blocks: vec![[1; 16], [2; 16], [3; 16], [4; 16]] });
    a.dump.push(Sector { number: 1, key: None, blocks: Vec::new() });
    a.dump.push(Sector { number: 2, key: Some([0xff; 6]), blocks: vec![[9; 16]; 4] });
    a.save_dump();
    a.pad = hf();
    a.save_dump();
    let Request::Save { path, bytes } = &a.outbox[0] else { panic!() };
    assert_eq!(path, "card.dump");
    assert_eq!(bytes.len(), 3 * 64);
    assert_eq!(bytes[48..64], [4; 16]);
    assert_eq!(bytes[64..128], [0; 64], "a locked sector keeps its place");
    assert_eq!(bytes[128..], [9; 64]);
    let Request::Save { path, .. } = &a.outbox[1] else { panic!() };
    assert_eq!(path, "deadbeef.dump");
    a.saved("deadbeef.dump", 192, None);
    assert_eq!(last_log(&a), ("wrote 192 bytes to deadbeef.dump".to_string(), false));
    a.saved("deadbeef.dump", 192, Some("denied".to_string()));
    assert_eq!(last_log(&a), ("deadbeef.dump: denied".to_string(), true));
}

// ---- the loop ----

#[test]
fn a_short_silence_does_not_clear_the_pad() {
    let mut a = App::new();
    let mut s = Session::new(IDLE_GAP, 0);
    s.take(&mut a, Event::Pad(lf(FOB)), 1_000);
    assert_eq!(a.pad, lf(FOB));
    assert_eq!((a.id, a.origin), (FOB, Origin::Captured), "an untouched buffer is filled");
    s.take(&mut a, Event::Pad(Pad::Empty), 2_000);
    s.take(&mut a, Event::Pad(Pad::Empty), 4_999);
    assert_eq!(a.pad, lf(FOB));
    s.take(&mut a, Event::Pad(Pad::Empty), 5_000);
    assert_eq!(a.pad, Pad::Empty);
    assert_eq!(a.id, FOB);
    s.take(&mut a, Event::Pad(lf([1; 5])), 6_000);
    assert_eq!(a.pad, lf([1; 5]), "a tag shows at once");
    assert_eq!(a.id, FOB, "and does not replace the buffer");
    assert_eq!(a.polls, 5);
}

#[test]
fn polls_wait_their_turn() {
    let mut a = App::new();
    let mut s = Session::new(1500, 0);
    assert_eq!(s.poll_due(&a, 10_000), None, "one is outstanding");
    s.take(&mut a, Event::Pad(Pad::Empty), 10_000);
    assert_eq!(s.poll_due(&a, 11_499), None);
    assert_eq!(s.poll_due(&a, 11_500), Some(false));
    assert_eq!(s.poll_due(&a, 20_000), None);
    s.take(&mut a, Event::Pad(Pad::Empty), 20_000);
    s.take(&mut a, Event::Busy("writing"), 20_100);
    assert_eq!(a.busy, Some("writing"));
    assert_eq!(s.poll_due(&a, 90_000), None, "never over real work");
    s.take(&mut a, Event::Idle, 90_000);
    assert_eq!(a.busy, None);
    assert_eq!(s.poll_due(&a, 92_999), None);
    assert_eq!(s.poll_due(&a, 93_000), Some(false));
}

#[test]
fn every_fourth_poll_looks_for_a_card() {
    let mut a = App::new();
    let mut s = Session::new(0, 0);
    let mut asked = Vec::new();
    for t in 1..9 {
        s.take(&mut a, Event::Pad(Pad::Empty), t);
        asked.push(s.poll_due(&a, t).unwrap());
    }
    assert_eq!(asked, [false, false, false, true, false, false, false, true]);
}

#[test]
fn work_ends_a_run_of_silences() {
    let mut a = App::new();
    let mut s = Session::new(0, 0);
    s.take(&mut a, Event::Pad(lf(FOB)), 1);
    s.take(&mut a, Event::Pad(Pad::Empty), 2);
    s.take(&mut a, Event::Idle, 3);
    s.take(&mut a, Event::Pad(Pad::Empty), 4_000);
    assert_eq!(a.pad, lf(FOB));
}

#[test]
fn logs_and_sectors_are_kept() {
    let mut a = App::new();
    let mut s = Session::new(0, 0);
    s.take(&mut a, Event::Log("x".to_string(), true), 1);
    assert_eq!(last_log(&a), ("x".to_string(), true));
    s.take(&mut a, Event::Sector(Sector { number: 39, key: None, blocks: Vec::new() }), 1);
    assert_eq!(a.dump.len(), 1);
}
