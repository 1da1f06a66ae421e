use latchkey::frame::{decode_reply, Reply};
use latchkey::hexes::unhex;
use latchkey::lf::{lf_samples, ones, Profiles, Quick, Sweep};
use latchkey::reader::{pace_left, Ask, Query, Reader, DRAIN, TRIES};

/// A report as the reader would send it.
fn report(payload: &[u8], seq: u16) -> Vec<u8> {
    let mut f = vec![0x02, payload.len() as u8 + 6, seq as u8, (seq >> 8) as u8];
    f.extend_from_slice(payload);
    let sum: u32 = f.iter().map(|b| *b as u32).sum();
    f.push(!(sum as u8));
    f.push(0xfd);
    f
}

fn reply(payload: &[u8]) -> Result<Reply, String> {
    decode_reply(&[report(payload, 1)])
}

fn silence() -> Result<Reply, String> {
    Err("no reply".to_string())
}

#[test]
fn commands_are_held_apart() {
    assert_eq!(pace_left(0), Some(40_000_000));
    assert_eq!(pace_left(30_000_000), Some(10_000_000));
    assert_eq!(pace_left(40_000_000), Some(0));
    assert_eq!(pace_left(40_000_001), None);
}

#[test]
fn frames_are_even_and_answers_odd() {
    let mut r = Reader::new(0x1_0007, 1000);
    assert_eq!(r.seq, 6);
    let x = r.begin(&[0xff, 0, 0x82, 0, 0]).unwrap();
    assert_eq!(r.seq, 8);
    assert_eq!(x.want, 9);
    assert_eq!(&x.frame[..13], &unhex("00 01 0b 08 00 ff 00 82 00 00 6a fe 00").unwrap()[..]);
    let mut last = Reader::new(0xffff, 0);
    assert_eq!(last.seq, 0xfffe);
    let x = last.begin(&[1]).unwrap();
    assert_eq!((last.seq, x.want), (0, 1));
}

#[test]
fn an_overlong_payload_is_refused_but_numbered() {
    let mut r = Reader::new(0, 1000);
    assert_eq!(r.begin(&[0; 59]).err(), Some("payload 59 exceeds 58".to_string()));
    assert_eq!(r.seq, 2);
    assert!(r.begin(&[0; 58]).is_ok());
}

#[test]
fn a_reply_to_another_command_does_not_answer() {
    let mut r = Reader::new(0, 700);
    let mut x = r.begin(&[1]).unwrap();
    assert_eq!(r.patience(&x), 700);
    x.hear(&report(&[0xaa], 99));
    assert!(x.reports.is_empty());
    x.hear(&report(&[0xbb], x.want));
    assert_eq!(x.reports.len(), 1);
    assert_eq!(r.patience(&x), DRAIN);
    x.hear(&report(&[0xcc], 99));
    assert_eq!(x.reports.len(), 2, "once one counts, all count");
    let got = r.finish(x);
    assert_eq!(got.len(), 2);
    assert!(!r.owed);
}

#[test]
fn what_does_not_decode_is_kept() {
    let mut r = Reader::new(0, 700);
    let mut x = r.begin(&[1]).unwrap();
    x.hear(&[1, 2, 3]);
    assert_eq!(x.reports, vec![vec![1, 2, 3]]);
}

#[test]
fn silence_leaves_an_answer_owed() {
    let mut r = Reader::new(0, 700);
    let x = r.begin(&[1]).unwrap();
    assert!(r.finish(x).is_empty());
    assert!(r.owed);
}

#[test]
fn an_owed_zero_is_spent_once() {
    let mut a = Ask::new(&[1, 2], 1);
    assert!(a.step(true, Ok(vec![report(&[0], 3)])).is_none(), "ask again");
    let r = a.step(false, Ok(vec![report(&[0], 5)])).unwrap().unwrap();
    assert_eq!(r.payload, vec![0], "the second counts whatever it is");

    let mut a = Ask::new(&[1, 2], 1);
    let r = a.step(false, Ok(vec![report(&[0], 3)])).unwrap().unwrap();
    assert_eq!(r.payload, vec![0], "nothing was owed");
}

#[test]
fn a_command_that_always_answers_is_sent_four_times() {
    let mut a = Query::surely(vec![9]).ask();
    for _ in 1..TRIES {
        assert!(a.step(false, Ok(vec![])).is_none());
    }
    assert_eq!(a.step(false, Err("gone".to_string())).unwrap().err(), Some("gone".to_string()));
    let mut a = Query::once(vec![9]).ask();
    assert_eq!(a.step(false, Ok(vec![])).unwrap().err(), Some("no reply".to_string()));
}

#[test]
fn a_sweep_takes_the_first_profile_that_answers() {
    let mut s = Sweep::new(1);
    let first = s.query().unwrap();
    assert_eq!(first.payload, unhex("ff 00 65 08 18 48 e8 01 00 00 00 00 00").unwrap());
    assert!(!first.retry);
    assert_eq!(s.answer(&silence()), None);
    assert_eq!(s.answer(&reply(&[0])), None);
    let third = s.query().unwrap();
    assert_eq!(third.payload[4], 0x02);
    assert_eq!(s.answer(&reply(&[5, 1, 2, 3, 4, 5])), Some(([1, 2, 3, 4, 5], 375_000, 0x02)));
}

#[test]
fn a_sweep_ends() {
    let mut s = Sweep::new(2);
    for _ in 0..20 {
        assert!(s.query().is_some());
        assert_eq!(s.answer(&silence()), None);
    }
    assert!(s.query().is_none());
    assert!(Sweep::new(0).query().is_none());
}

#[test]
fn only_silence_is_worth_a_second_poll() {
    let mut q = Quick { left: 2 };
    assert_eq!(q.answer(&silence()), None);
    assert_eq!(q.answer(&silence()), Some(None));
    let mut q = Quick { left: 2 };
    assert_eq!(q.answer(&reply(&[0])), Some(None), "an empty reply is an answer");
    let mut q = Quick { left: 2 };
    assert_eq!(q.answer(&reply(&[5, 9, 8, 7, 6, 5])), Some(Some([9, 8, 7, 6, 5])));
}

#[test]
fn every_profile_that_answers_is_noted() {
    let mut p = Profiles::new();
    let mut asked = 0;
    while let Some(_q) = p.query() {
        if asked == 0 || asked == 5 {
            p.answer(&reply(&[5, 1, 1, 1, 1, asked]));
        } else {
            p.answer(&silence());
        }
        asked += 1;
    }
    assert_eq!(asked, 10);
    assert_eq!(
        p.found,
        vec![(125_000, 0x18, [1, 1, 1, 1, 0]), (175_000, 0x04, [1, 1, 1, 1, 5])]
    );
}

#[test]
fn samples_are_counted() {
    assert_eq!(lf_samples(&[2, 0xff, 0x0f]), Ok(vec![0xff, 0x0f]));
    assert_eq!(lf_samples(&[2, 0xff, 0x0f, 9]), Ok(vec![0xff, 0x0f]));
    assert_eq!(lf_samples(&[3, 0xff]), Err("sampler answered 03 ff".to_string()));
    assert_eq!(lf_samples(&[]), Err("sampler answered ".to_string()));
    assert_eq!(ones(&[0xff, 0x0f, 0x01, 0x00]), 13);
}
