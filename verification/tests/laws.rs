use latchkey::cli::tag::{WipeRun, WipeStage};
use latchkey::command::{
    beeps, lf_probe, lf_read, lf_read_block, lf_sample, lf_write_block, mifare_auth, mifare_write,
    LF_PROFILES, WIPE_ORDER,
};
use latchkey::em4100::{em4100_frame, em4100_parse, em4100_show, IdForm};
use latchkey::frame::{decode, encode, Reply};
use latchkey::hexes::{hex, unhex};
use latchkey::hf::{block_read, exchanged, hf_card, known_keys, Hunt, Ident, Told};
use latchkey::lf::wipe_plan;
use latchkey::reader::Reader;
use latchkey::mifare::{is_trailer, sector_blocks, sector_span, KEYS};

type Answer = Result<Reply, String>;

fn ok(payload: Vec<u8>) -> Answer {
    Ok(Reply { payload, seq: 1, checksum_ok: true, trailer_ok: true })
}

/// A frame turned round into the report that would answer it.
fn echoed(payload: &[u8], seq: u16) -> Vec<u8> {
    let f = encode(payload, seq).unwrap();
    let n = payload.len();
    let mut r = f[1..n + 7].to_vec();
    r[0] = 0x02;
    let sum: u32 = r[..n + 4].iter().map(|b| *b as u32).sum();
    r[n + 4] = !(sum as u8);
    r[n + 5] = 0xfd;
    r
}

#[test]
fn what_is_framed_decodes() {
    for n in 1..=58usize {
        let payload: Vec<u8> = (0..n as u8).map(|b| b.wrapping_mul(37)).collect();
        let d = decode(&echoed(&payload, 0xabcd)).unwrap();
        assert_eq!(d.payload, payload);
        assert_eq!(d.seq, 0xabcd);
        assert!(d.checksum_ok && d.trailer_ok);
    }
}

#[test]
fn a_frame_fills_the_report() {
    assert_eq!(encode(&[], 0).unwrap().len(), 65);
    assert_eq!(encode(&[7; 58], 0xffff).unwrap()[64], 0xfe);
}

#[test]
fn one_changed_byte_shows() {
    let good = echoed(&[0xd5, 0x03, 0x32], 9);
    for i in 2..good.len() - 2 {
        let mut bad = good.clone();
        bad[i] ^= 0x40;
        assert!(!decode(&bad).unwrap().checksum_ok, "byte {i}");
    }
}

#[test]
fn what_does_not_decode_says_why() {
    assert_eq!(decode(&[2; 6]).err().unwrap(), "short report (6 bytes)");
    assert_eq!(decode(&[1; 8]).err().unwrap(), "magic 0x01, expected 0x02");
    assert_eq!(decode(&[2, 5, 0, 0, 0, 0, 0]).err().unwrap(), "implausible length byte 0x05");
    assert_eq!(decode(&[2, 8, 0, 0, 0, 0, 0]).err().unwrap(), "implausible length byte 0x08");
}

#[test]
fn every_command_fits_a_frame() {
    let (freq, lc, w1, w2) = LF_PROFILES[9];
    for p in [
        lf_read(freq, lc, w1, w2),
        lf_read_block(freq, 7),
        lf_write_block(freq, 7, [1; 4]),
        lf_sample(0x46, 0),
        lf_probe(0x01, 5),
        mifare_auth(true, 255, [1; 6], [2; 4]),
        mifare_write(255, [3; 16]),
        beeps(5, 3),
    ] {
        assert!(encode(&p, 0).is_ok());
    }
    assert_eq!(hex(&beeps(5, 3)), "ff 00 40 50 04 01 05 03 01");
    assert_eq!(hex(&lf_read(freq, lc, w1, w2)), "ff 00 65 08 01 20 a1 07 00 5d 00 4b 00");
}

#[test]
fn hex_of_every_byte_reads_back() {
    let all: Vec<u8> = (0..=255).collect();
    assert_eq!(unhex(&hex(&all)), Ok(all));
}

#[test]
fn frames_tell_ids_apart() {
    let a = em4100_frame([0, 0, 0, 0, 0]);
    for byte in 0..5 {
        for bit in 0..8 {
            let mut id = [0u8; 5];
            id[byte] = 1 << bit;
            assert_ne!(em4100_frame(id), a);
        }
    }
    assert_eq!(a, 0xff80_0000_0000_0000);
}

#[test]
fn forms_go_round_and_read_back() {
    for form in IdForm::ALL {
        assert_eq!(form.step(false).step(true), form);
        assert_eq!(form.step(false).step(false).step(false), form);
        let id = [0xfe, 0xdc, 0xba, 0x98, 0x76];
        assert_eq!(em4100_parse(&em4100_show(id, form), form, id), Ok(id));
    }
    let (id, base) = ([1, 2, 3, 4, 5], [9, 8, 7, 6, 5]);
    let read = |form| em4100_parse(&em4100_show(id, form), form, base);
    assert_eq!(read(IdForm::Hex), Ok([1, 2, 3, 4, 5]));
    assert_eq!(read(IdForm::Dec10), Ok([9, 2, 3, 4, 5]));
    assert_eq!(read(IdForm::Dec35), Ok([9, 8, 3, 4, 5]));
    assert_eq!(em4100_show([9, 255, 255, 255, 255], IdForm::Dec10), "4294967295");
    assert_eq!(em4100_show([9, 9, 255, 255, 255], IdForm::Dec35), "25565535");
}

#[test]
fn a_wipe_touches_every_block_once() {
    let mut seen: Vec<u8> = wipe_plan().iter().map(|(b, d)| { assert_eq!(d, &[0; 4]); *b }).collect();
    assert_eq!(seen, WIPE_ORDER);
    seen.sort();
    assert_eq!(seen, [0, 1, 2, 3, 4, 5, 6, 7]);
    let (mut run, _) = WipeRun::begin();
    run.answer(ok(vec![5, 1, 2, 3, 4, 5]));
    let mut n = 0;
    while run.stage == WipeStage::Burn {
        run.answer(ok(vec![0]));
        n += 1;
    }
    assert_eq!(n, 8);
}

#[test]
fn sectors_cover_the_card() {
    let mut next = 0u32;
    for s in 0..40 {
        let (first, len) = sector_span(s);
        assert_eq!(first as u32, next);
        assert_eq!(sector_blocks(s).count(), len as usize);
        for b in sector_blocks(s) {
            assert_eq!(is_trailer(b), b as u32 == next + len as u32 - 1);
        }
        next += len as u32;
    }
    assert_eq!(next, 256);
}

#[test]
fn a_hunt_selects_before_each_key() {
    let keys = known_keys();
    assert_eq!(keys.as_slice(), &KEYS[..]);
    let mut h = Hunt::new();
    let uid = [1, 2, 3, 4, 5, 6, 7];
    assert_eq!(hex(&h.query(false, 4, &uid, &keys).payload), "ff 00 61 01");
    assert!(!h.answer(ok(vec![0x90, 0])));
    assert_eq!(
        hex(&h.query(true, 4, &uid, &keys).payload),
        "ff 00 00 00 0f d4 40 01 61 04 ff ff ff ff ff ff 01 02 03 04"
    );
    assert!(!h.answer(ok(vec![0xd5, 0x41, 0x14, 0x90, 0x00])));
    assert_eq!((h.at, h.selected), (1, false));
    assert!(!h.answer(Err("no reply".to_string())), "selecting may fail");
    assert!(h.answer(ok(vec![0xd5, 0x41, 0x00, 0x90, 0x00])));
}

#[test]
fn authenticating_takes_four_uid_bytes() {
    assert_eq!(
        Reader::mifare_auth(false, 0, [0; 6], &[1, 2, 3]).err().unwrap(),
        "need at least four UID bytes to authenticate"
    );
    assert!(Reader::mifare_auth(false, 0, [0; 6], &[1, 2, 3, 4]).is_ok());
}

#[test]
fn what_an_exchange_comes_to() {
    assert_eq!(exchanged(ok(vec![0xd5, 0x41, 0x00, 0x90, 0x00])), Ok(()));
    assert_eq!(
        exchanged(ok(vec![0xd5, 0x41, 0x14, 0x90, 0x00])),
        Err("authentication failed (wrong key)".to_string())
    );
    assert_eq!(exchanged(ok(vec![1, 2, 3])), Err("no 90 00 status word: 01 02 03".to_string()));
    assert_eq!(exchanged(ok(vec![1, 2, 0x90, 0])), Err("not a PN532 reply: 01 02".to_string()));
    assert_eq!(exchanged(Err("gone".to_string())), Err("gone".to_string()));
    let mut whole = vec![0xd5, 0x41, 0x00];
    whole.extend_from_slice(&[7; 16]);
    whole.extend_from_slice(&[0x90, 0x00]);
    assert_eq!(block_read(ok(whole)), Ok([7; 16]));
    assert_eq!(block_read(Err("gone".to_string())), Err("gone".to_string()));
}

#[test]
fn a_card_needs_its_length_byte() {
    let c = hf_card(&ok(vec![7, 0x18, 0, 2, 9, 8, 7, 6, 5])).unwrap();
    assert_eq!((c.atqa, c.sak, c.uid), ([0, 2], 0x18, vec![9, 8, 7, 6]));
    assert!(hf_card(&ok(vec![6, 0x18, 0, 2, 9, 8, 7, 6])).is_none());
    assert!(hf_card(&ok(vec![7, 0x18, 0, 2, 9, 8, 7])).is_none());
    assert!(hf_card(&Err("gone".to_string())).is_none());
}

#[test]
fn model_then_serial() {
    let (mut run, q) = Ident::begin();
    assert_eq!(hex(&q.payload), "ff 00 68 00 00");
    match run.answer(ok(b"wCopy NSR109-HIDIC V806N ".to_vec())) {
        Told::Ask(q) => assert_eq!(hex(&q.payload), "ff 00 69 00 00"),
        _ => panic!(),
    }
    match run.answer(ok(b" T37350466633".to_vec())) {
        Told::Done(m, s) => {
            assert_eq!(m, "wCopy NSR109-HIDIC V806N");
            assert_eq!(s, "T37350466633");
        }
        _ => panic!(),
    }
    let (mut run, _) = Ident::begin();
    assert!(matches!(run.answer(Err("gone".to_string())), Told::Fail(e) if e == "gone"));
}
