use latchkey::cli::card::{dump_keys, hf_answered, hf_write_preview, saved_line, DumpRun, HfWriteRun};
use latchkey::cli::tag::{
    probe_plan, probe_preview, probe_verdict, sample_lines, wipe_preview, write_block_preview,
    write_preview, BlocksRun, ProbeRun, ReadRun, SampleRun, WipeRun, WriteRun,
};
use latchkey::cli::{
    change_line, device_line, heard_lines, is_reader, no_device_line, open_fault, sent_lines, Go,
    Step, Watch,
};
use latchkey::frame::Reply;
use latchkey::reader::Query;

type Answer = Result<Reply, String>;

fn ok(payload: Vec<u8>) -> Answer {
    Ok(Reply { payload, seq: 1, checksum_ok: true, trailer_ok: true })
}

fn silence() -> Answer {
    Err("no reply".to_string())
}

fn id(b: &[u8]) -> Answer {
    let mut v = vec![5];
    v.extend_from_slice(b);
    ok(v)
}

/// Every line a subcommand prints, what it asked, and how it ended.
fn drive(
    first: Step,
    mut next: impl FnMut(Answer) -> Step,
    mut reader: impl FnMut(&Query) -> Answer,
) -> (Vec<String>, Vec<Vec<u8>>, Option<String>) {
    let mut lines = Vec::new();
    let mut asked = Vec::new();
    let mut step = first;
    loop {
        lines.extend(step.lines);
        match step.go {
            Go::Ask(q) => {
                asked.push(q.payload.clone());
                let a = reader(&q);
                step = next(a);
            }
            Go::Done => return (lines, asked, None),
            Go::Fail(e) => return (lines, asked, Some(e)),
        }
    }
}

const FOB: [u8; 5] = [0x12, 0x34, 0x56, 0x78, 0x9a];

#[test]
fn one_payload_there_and_back() {
    assert_eq!(
        sent_lines(&[0xff, 0x00, 0x00, 0x00, 0x02, 0xd4, 0x02]).unwrap(),
        [
            "TX payload ff 00 00 00 02 d4 02",
            "TX frame   00 01 0d 00 00 ff 00 00 00 02 d4 02 1a fe"
        ]
    );
    assert_eq!(sent_lines(&[0; 59]), Err("payload 59 exceeds 58".to_string()));

    let rx = latchkey::hexes::unhex("02 0e 01 00 d5 03 32 01 06 07 90 00 46 fd").unwrap();
    assert_eq!(
        heard_lines(&vec![rx.clone()], 1000),
        [
            "RX raw[0]  02 0e 01 00 d5 03 32 01 06 07 90 00 46 fd",
            "RX payload d5 03 32 01 06 07 90 00  seq=1 cksum=ok trailer=ok"
        ]
    );
    let mut bad = rx;
    bad[12] = 0x47;
    bad[13] = 0xfe;
    assert_eq!(
        heard_lines(&vec![bad], 1000)[1],
        "RX payload d5 03 32 01 06 07 90 00  seq=1 cksum=BAD trailer=BAD"
    );
    assert_eq!(heard_lines(&vec![], -1), ["\nno reply within -1ms"]);
    assert_eq!(
        heard_lines(&vec![vec![1, 2]], 1000),
        ["RX raw[0]  01 02", "RX undecoded: short report (2 bytes)"]
    );
}

#[test]
fn devices_on_a_line() {
    assert!(is_reader(0x2518, 0x6018));
    assert!(!is_reader(0x2518, 0x6022));
    assert_eq!(
        device_line(0x2518, 0x6018, Some("wCopy"), None, 1, 0xff00),
        "2518:6018  wCopy  ?  usage_page=0x0001 usage=0xff00"
    );
    assert_eq!(no_device_line(), "no 2518:6018 device found");
    assert_eq!(
        open_fault("denied"),
        "cannot open 2518:6018: denied\nIs the reader plugged in with a data cable?"
    );
}

#[test]
fn read_finds_an_id() {
    let (mut run, first) = ReadRun::begin(3);
    let (lines, asked, end) = drive(first, |a| run.answer(a), |_q| id(&FOB));
    assert_eq!(lines, ["125000 Hz  lc 18  ID 12 34 56 78 9a"]);
    assert_eq!((asked.len(), end), (1, None));

    let (mut run, first) = ReadRun::begin(3);
    let (lines, asked, _) = drive(first, |a| run.answer(a), |_q| silence());
    assert_eq!(lines, ["No ID in any profile. Is the tag flat on the pad?"]);
    assert_eq!(asked.len(), 30);

    let (mut run, first) = ReadRun::begin(0);
    let (_, asked, _) = drive(first, |a| run.answer(a), |_q| silence());
    assert_eq!(asked.len(), 0);
}

#[test]
fn write_shows_its_plan() {
    let (got, lines) = write_preview("12 34 56 78 9a", true, true).unwrap();
    assert_eq!(got, Some(FOB));
    assert_eq!(
        lines,
        [
            "ID     12 34 56 78 9a",
            "frame  ff 8c a6 4a 98 f8 ca 96",
            "block0 00 14 80 40  T5577 config: ASK/Manchester, RF/64, 2 blocks",
            "block1 ff 8c a6 4a",
            "block2 98 f8 ca 96"
        ]
    );
    let (got, lines) = write_preview("123456789a", false, false).unwrap();
    assert_eq!(got, None);
    assert_eq!(lines.len(), 5);
    assert_eq!(lines[4], "\nNothing written. Add --yes to go ahead.");
    assert_eq!(write_preview("12 34", true, true).err(), Some("need 5 hex bytes, got 2".to_string()));
}

/// A tag that reads as `before` until block 2 is written, then as `after`.
fn write_with(
    config: bool,
    overwrite: bool,
    before: Option<[u8; 5]>,
    after: Option<[u8; 5]>,
) -> (Vec<String>, Vec<Vec<u8>>, Option<String>) {
    let (mut run, first) = WriteRun::begin(FOB, config, overwrite);
    let mut written = false;
    drive(first, |a| run.answer(a), |q| {
        if q.payload[2] == 0x66 {
            written = q.payload[11] == 2;
            return ok(vec![0]);
        }
        match if written { after } else { before } {
            Some(b) => id(&b),
            None => silence(),
        }
    })
}

#[test]
fn write_goes_through() {
    let (lines, _, end) = write_with(true, false, None, Some(FOB));
    assert_eq!(
        lines,
        [
            "\nNo ID reads off the pad now.",
            "write block 0 00 14 80 40  -> 00",
            "write block 1 ff 8c a6 4a  -> 00",
            "write block 2 98 f8 ca 96  -> 00",
            "\nReading back:",
            "  12 34 56 78 9a  matches"
        ]
    );
    assert_eq!(end, None);
    let (lines, _, _) = write_with(false, false, Some(FOB), None);
    assert_eq!(lines[0], "\nAlready reads as 12 34 56 78 9a.");
    assert_eq!(lines.last().unwrap(), "  no ID read back");
    let (lines, _, _) = write_with(false, true, Some([9; 5]), Some([9; 5]));
    assert_eq!(lines[0], "\nOverwriting 09 09 09 09 09.");
    assert_eq!(lines.last().unwrap(), "  09 09 09 09 09  DOES NOT MATCH");
}

#[test]
fn write_refuses_a_working_tag() {
    let (lines, asked, end) = write_with(true, false, Some([9; 5]), None);
    assert!(lines.is_empty());
    assert_eq!(asked.len(), 1, "nothing but the read went out");
    assert_eq!(
        end.unwrap(),
        "the tag on the pad reads as 09 09 09 09 09. You asked to write 12 34 56 78 9a.\n\
         Refusing to overwrite it. Pass --overwrite to go ahead anyway."
    );
}

#[test]
fn one_block_by_hand() {
    let (p, lines) = write_block_preview(1, "de ad be ef", false).unwrap();
    assert_eq!(
        lines,
        ["would send ff 00 66 00 1e 48 e8 01 00 13 00 01 de ad be ef 54 69 61 6e\n\nAdd --yes to go ahead."]
    );
    assert_eq!(p, None);
    let (p, lines) = write_block_preview(1, "de ad be ef", true).unwrap();
    assert_eq!(p.unwrap().len(), 20);
    assert!(lines.is_empty());
    assert_eq!(write_block_preview(1, "de", true).err(), Some("need 4 hex bytes, got 1".to_string()));
}

#[test]
fn blocks_are_asked_after_in_turn() {
    let (mut run, first) = BlocksRun::begin(2);
    let (lines, asked, _) = drive(first, |a| run.answer(a), |q| {
        if q.payload[11] == 1 { silence() } else { ok(vec![0xfd]) }
    });
    assert_eq!(lines, ["block 0  fd", "block 1  no reply", "block 2  fd"]);
    assert_eq!(asked[2][9..], [0x12, 0x00, 2, 0, 0, 0, 0]);
    let (mut run, first) = BlocksRun::begin(255);
    let (lines, _, _) = drive(first, |a| run.answer(a), |_q| silence());
    assert_eq!(lines.len(), 256);
}

#[test]
fn probe_picks_its_codes() {
    let codes = |v: Vec<(u8, usize)>| v.iter().map(|e| e.0).collect::<Vec<u8>>();
    assert_eq!(probe_plan(None, false), [(0x41, 1), (0x46, 1)]);
    assert_eq!(probe_plan(Some(0x12), false), [(0x12, 4)], "asked for by name");
    assert_eq!(
        codes(probe_plan(None, true)),
        [
            0x41, 0x46, 0x12, 0x01, 0x1f, 0x21, 0x22, 0x2f, 0x32, 0x33, 0x34, 0x3f, 0x42, 0x43,
            0x44, 0x4f
        ]
    );
    assert_eq!(probe_plan(Some(0x41), false), [(0x41, 1)]);
    assert_eq!(probe_plan(Some(0x01), false), [(0x01, 4)], "not among the short ones");
    assert_eq!(probe_plan(Some(0x01), true), [(0x01, 5)]);
    let (list, lines) = probe_preview(None, false, false);
    assert_eq!(list, None);
    assert_eq!(
        lines,
        [
            "codes: 41 46",
            "\nNothing sent. This can destroy the tag on the pad. Add --yes\nonce you are sure it is a spare."
        ]
    );
    let (list, lines) = probe_preview(Some(0x0a), false, true);
    assert_eq!(list, Some(vec![(0x0a, 4)]));
    assert_eq!(lines, ["codes: 0a"]);
}

#[test]
fn probe_reads_before_and_after() {
    let (mut run, first) = ProbeRun::begin(probe_plan(Some(0x41), false));
    let (lines, asked, _) = drive(first, |a| run.answer(a), |q| {
        if q.payload[2] == 0x66 { ok(vec![4, 1, 2, 3, 4]) } else { id(&FOB) }
    });
    assert_eq!(
        lines,
        [
            "tag reads 12 34 56 78 9a before\n",
            "code 41  arg 1 zero bytes  -> 04 01 02 03 04",
            "",
            "tag still reads 12 34 56 78 9a. Nothing here wrote to it."
        ]
    );
    assert_eq!(asked[1], [0xff, 0x00, 0x66, 0x00, 0x1e, 0x48, 0xe8, 0x01, 0x00, 0x41, 0x00]);
    let (mut run, first) = ProbeRun::begin(probe_plan(None, false));
    let (lines, asked, _) = drive(first, |a| run.answer(a), |_q| silence());
    assert_eq!(lines[0], "no ID reads off the pad before\n");
    assert_eq!(lines[2], "code 46  arg 1 zero bytes  -> no reply");
    assert_eq!(lines.last().unwrap(), "still no ID. Nothing here made the tag readable.");
    assert_eq!(asked.len(), 10 + 2 + 10);
    let (mut run, first) = ProbeRun::begin(probe_plan(None, true));
    let (lines, asked, _) = drive(first, |a| run.answer(a), |_q| silence());
    assert_eq!(lines[3], "code 12  arg 4 zero bytes  -> no reply");
    assert_eq!(asked.len(), 10 + 16 + 10);
    assert_eq!(
        probe_verdict(Some(FOB), None),
        "tag read 12 34 56 78 9a before and reads nothing now  CHANGED"
    );
    assert_eq!(probe_verdict(Some(FOB), Some([1; 5])), "tag now reads 01 01 01 01 01  CHANGED");
    assert_eq!(probe_verdict(None, Some([1; 5])), "tag now reads 01 01 01 01 01  CHANGED");
}

#[test]
fn wipe_zeroes_block_zero_last() {
    assert_eq!(wipe_preview(true), (true, vec![]));
    assert_eq!(
        wipe_preview(false),
        (
            false,
            vec![
                "zeroes blocks 1 to 7, then block 0".to_string(),
                "\nNothing written. Add --yes to go ahead.".to_string()
            ]
        )
    );
    let (mut run, first) = WipeRun::begin();
    let mut wiped = false;
    let (lines, _, _) = drive(first, |a| run.answer(a), |q| {
        if q.payload[2] == 0x66 {
            wiped = q.payload[11] == 0;
            return ok(vec![0]);
        }
        if wiped { silence() } else { id(&FOB) }
    });
    assert_eq!(lines[0], "tag reads 12 34 56 78 9a");
    assert_eq!(lines[1], "");
    assert_eq!(lines[2], "block 1 <- 00 00 00 00  -> 00");
    assert_eq!(lines[8], "block 7 <- 00 00 00 00  -> 00");
    assert_eq!(lines[9], "block 0 <- 00 00 00 00  -> 00");
    assert_eq!(lines[10..], ["", "nothing reads off it."]);
    let (mut run, first) = WipeRun::begin();
    let (lines, _, _) = drive(first, |a| run.answer(a), |q| {
        if q.payload[2] == 0x66 { silence() } else { id(&FOB) }
    });
    assert_eq!(lines[2], "block 1 <- 00 00 00 00  -> no reply");
    assert_eq!(lines.last().unwrap(), "tag still reads 12 34 56 78 9a");
    let (mut run, first) = WipeRun::begin();
    let (lines, _, _) = drive(first, |a| run.answer(a), |_q| silence());
    assert_eq!(lines[0], "no ID reads off the pad");
}

#[test]
fn sample_arms_then_fetches() {
    let (mut run, first) = SampleRun::begin();
    let (lines, asked, end) = drive(first, |a| run.answer(a), |q| {
        if q.payload[9] == 0x41 { ok(vec![0]) } else { ok(vec![2, 0xff, 0xfe]) }
    });
    assert_eq!(lines, ["ff fe", "15 of 16 bits are ones, 93 per cent"]);
    assert_eq!(asked[0][9..], [0x41, 0x05]);
    assert_eq!(asked[1][9..], [0x46, 0x00]);
    assert_eq!(end, None);
    let (mut run, first) = SampleRun::begin();
    let (_, _, end) = drive(first, |a| run.answer(a), |_q| ok(vec![9]));
    assert_eq!(end.unwrap(), "sampler answered 09");
    let (mut run, first) = SampleRun::begin();
    let (_, _, end) = drive(first, |a| run.answer(a), |_q| silence());
    assert_eq!(end.unwrap(), "no reply");
    assert_eq!(sample_lines(&[])[1], "0 of 0 bits are ones, 0 per cent");
}

#[test]
fn hf_describes_the_card() {
    let step = hf_answered(false, ok(vec![7, 0x08, 0x00, 0x04, 1, 2, 3, 4]));
    assert_eq!(
        step.lines,
        [
            "UID   01 02 03 04",
            "ATQA  00 04",
            "SAK   08",
            "type  MIFARE Classic 1K",
            "      16 sectors, `hf-dump` can read them"
        ]
    );
    let step = hf_answered(false, ok(vec![7, 0x20, 0x00, 0x44, 1, 2, 3, 4]));
    assert_eq!(step.lines[4], "      no MIFARE Classic sectors to dump");
    assert_eq!(hf_answered(false, silence()).lines, ["no card. Is it flat on the pad?"]);
    assert_eq!(hf_answered(true, ok(vec![7, 8])).lines, ["07 08"]);
    assert!(matches!(hf_answered(true, silence()).go, Go::Fail(_)));
}

/// A card whose sectors open with one key, with block numbers for contents.
fn card(q: &Query, sak: u8, key: u8) -> Answer {
    let p = &q.payload;
    match p[2] {
        0x6a => ok(vec![7, sak, 0, 4, 1, 2, 3, 4]),
        0x61 | 0x62 => ok(vec![0x90, 0]),
        _ => match p[8] {
            0x60 | 0x61 if p[10] == key => ok(vec![0xd5, 0x41, 0x00, 0x90, 0x00]),
            0x60 | 0x61 => ok(vec![0xd5, 0x41, 0x14, 0x90, 0x00]),
            0x30 => {
                let mut v = vec![0xd5, 0x41, 0x00];
                v.extend_from_slice(&[p[9]; 16]);
                v.extend_from_slice(&[0x90, 0x00]);
                ok(v)
            }
            _ => ok(vec![0xd5, 0x41, 0x00, 0x90, 0x00]),
        },
    }
}

#[test]
fn hf_dump_reads_every_block() {
    let keys = dump_keys(&vec!["010203040506".to_string()]).unwrap();
    assert_eq!(keys.len(), 9);
    let (mut run, first) = DumpRun::begin(None, keys);
    let (lines, _, end) = drive(first, |a| run.answer(a), |q| card(q, 0x18, 0x01));
    assert_eq!(end, None);
    assert_eq!(lines[0], "UID 01 02 03 04  SAK 18  MIFARE Classic 4K");
    assert_eq!(lines[1], "40 sectors, 9 keys\n");
    assert_eq!(lines[2], "sector  0  key A 01 02 03 04 05 06");
    assert_eq!(lines[3], "    0  00 00 00 00 00 00 00 00 00 00 00 00 00 00 00 00");
    assert_eq!(lines.last().unwrap(), "  255  ff ff ff ff ff ff ff ff ff ff ff ff ff ff ff ff");
    assert_eq!(run.dump.len(), 4096);
    for blk in 0..256 {
        assert_eq!(run.dump[blk * 16..blk * 16 + 16], [blk as u8; 16]);
    }
}

#[test]
fn hf_dump_leaves_locked_sectors_as_zeroes() {
    let keys = dump_keys(&Vec::new()).unwrap();
    let (mut run, first) = DumpRun::begin(Some(1), keys);
    let (lines, _, _) = drive(first, |a| run.answer(a), |q| {
        if q.payload[2] == 0 && q.payload[8] == 0x60 && q.payload[9] == 0 {
            return silence();
        }
        if q.payload[2] == 0 && q.payload[8] == 0x30 && q.payload[9] == 5 {
            return ok(vec![0xd5, 0x41, 0x00, 1, 0x90, 0x00]);
        }
        card(q, 0x20, 0xff)
    });
    assert_eq!(lines[1], "2 sectors, 8 keys\n");
    assert_eq!(lines[2], "sector  0  no key worked");
    assert_eq!(lines[3], "sector  1  key A ff ff ff ff ff ff");
    assert_eq!(lines[5], "    5  short block read: d5 41 00 01 90 00");
    assert_eq!(
        lines[8..],
        [
            "\n1 of 2 sectors had no key in the dictionary.",
            "Their blocks read as zeroes in the output. They were never read."
        ]
    );
    assert_eq!(run.dump.len(), 128);
    assert_eq!(run.dump[..64], [0; 64]);
    assert_eq!(run.dump[64..80], [4; 16]);
    assert_eq!(run.dump[80..96], [0; 16]);
    assert_eq!(run.dump[96..112], [6; 16]);
    assert_eq!(saved_line(128, "x.dump"), "\nwrote 128 bytes to x.dump");
}

#[test]
fn hf_dump_refuses() {
    assert_eq!(
        dump_keys(&vec!["ff".to_string(), "zz".to_string()]).err(),
        Some("a key is 6 bytes, got 1".to_string())
    );
    let keys = || dump_keys(&Vec::new()).unwrap();
    let (mut run, first) = DumpRun::begin(None, keys());
    let (_, _, end) = drive(first, |a| run.answer(a), |_q| silence());
    assert_eq!(end.unwrap(), "no card on the pad");
    let (mut run, first) = DumpRun::begin(None, keys());
    let (lines, _, end) = drive(first, |a| run.answer(a), |q| card(q, 0x00, 0));
    assert_eq!(lines, ["UID 01 02 03 04  SAK 00  MIFARE Ultralight or NTAG"]);
    assert_eq!(end.unwrap(), "this card has no Classic sectors; pass --to to try anyway");
    let (mut run, first) = DumpRun::begin(Some(0), keys());
    let (lines, _, end) = drive(first, |a| run.answer(a), |q| card(q, 0x00, 0));
    assert_eq!(end, None, "an upper sector overrides what the card says");
    assert_eq!(
        lines[1..],
        [
            "1 sectors, 8 keys\n",
            "sector  0  key A 00 00 00 00 00 00",
            "    0  00 00 00 00 00 00 00 00 00 00 00 00 00 00 00 00",
            "    1  01 01 01 01 01 01 01 01 01 01 01 01 01 01 01 01",
            "    2  02 02 02 02 02 02 02 02 02 02 02 02 02 02 02 02",
            "    3  03 03 03 03 03 03 03 03 03 03 03 03 03 03 03 03"
        ]
    );
    assert_eq!(run.dump.len(), 64);
}

#[test]
fn hf_dump_tries_the_sector_it_is_told_last() {
    for to in [0u8, 5, 31, 32, 39] {
        let (mut run, first) = DumpRun::begin(Some(to), dump_keys(&Vec::new()).unwrap());
        let (lines, _, _) = drive(first, |a| run.answer(a), |q| card(q, 0x08, 0xff));
        let tried: Vec<&String> = lines.iter().filter(|l| l.starts_with("sector ")).collect();
        let want: Vec<String> =
            (0..=to).map(|s| format!("sector {s:>2}  key A ff ff ff ff ff ff")).collect();
        assert!(tried.into_iter().eq(want.iter()));
        let blocks = if to < 32 { 4 * (to as usize + 1) } else { 128 + 16 * (to as usize - 31) };
        assert_eq!(run.dump.len(), 16 * blocks);
    }
}

#[test]
fn hf_write_guards_trailers() {
    let data = "00 11 22 33 44 55 66 77 88 99 aa bb cc dd ee ff";
    let e = hf_write_preview(7, data, false, true).unwrap_err();
    assert!(e.starts_with("block 7 is a sector trailer."), "{e}");
    assert!(hf_write_preview(7, data, true, true).is_ok());
    let (d, lines) = hf_write_preview(4, data, false, false).unwrap();
    assert_eq!(d, None);
    let (full, _) = hf_write_preview(4, data, false, true).unwrap();
    assert_eq!(full.unwrap()[15], 0xff);
    assert_eq!(lines[0], "block 4  00 11 22 33 44 55 66 77 88 99 aa bb cc dd ee ff");
    assert_eq!(lines[1], "\nNothing written. Add --yes to go ahead.");
    assert_eq!(
        hf_write_preview(4, "00", false, true).err(),
        Some("need 16 hex bytes, got 1".to_string())
    );
}

#[test]
fn hf_write_reads_back() {
    let (mut run, first) = HfWriteRun::begin(4, [4; 16], None, false);
    let (lines, asked, end) = drive(first, |a| run.answer(a), |q| card(q, 0x08, 0xa0));
    assert_eq!(end, None);
    assert_eq!(
        lines,
        [
            "UID 01 02 03 04  MIFARE Classic 1K",
            "authenticated with key A a0 a1 a2 a3 a4 a5",
            "was    04 04 04 04 04 04 04 04 04 04 04 04 04 04 04 04",
            "now    04 04 04 04 04 04 04 04 04 04 04 04 04 04 04 04  matches"
        ]
    );
    // detect, two keys, read, write, the key again, read, release
    assert_eq!(asked.len(), 1 + 4 + 1 + 1 + 2 + 1 + 1);
    assert_eq!(asked[6][8..10], [0xa0, 4]);

    let (mut run, first) = HfWriteRun::begin(4, [5; 16], Some("b0b1b2b3b4b5".to_string()), true);
    let (lines, asked, _) = drive(first, |a| run.answer(a), |q| card(q, 0x08, 0xb0));
    assert_eq!(lines[1], "authenticated with key B b0 b1 b2 b3 b4 b5");
    assert!(lines[3].ends_with("DOES NOT MATCH"));
    assert_eq!(asked[2][8], 0x61);
}

#[test]
fn hf_write_gives_up_where_it_must() {
    let (mut run, first) = HfWriteRun::begin(4, [4; 16], None, false);
    let (_, _, end) = drive(first, |a| run.answer(a), |_q| silence());
    assert_eq!(end.unwrap(), "no card on the pad");

    let (mut run, first) = HfWriteRun::begin(4, [4; 16], None, false);
    let (_, _, end) = drive(first, |a| run.answer(a), |q| card(q, 0x08, 0x77));
    assert_eq!(end.unwrap(), "could not authenticate for that block");

    let (mut run, first) = HfWriteRun::begin(4, [4; 16], Some("12".to_string()), false);
    let (lines, _, end) = drive(first, |a| run.answer(a), |q| card(q, 0x08, 0xff));
    assert_eq!(lines.len(), 1);
    assert_eq!(end.unwrap(), "a key is 6 bytes, got 1");

    let (mut run, first) = HfWriteRun::begin(4, [4; 16], None, false);
    let (_, _, end) = drive(first, |a| run.answer(a), |q| {
        if q.payload[2] == 0 && q.payload[8] == 0xa0 {
            return ok(vec![0xd5, 0x41, 0x01, 0x90, 0x00]);
        }
        card(q, 0x08, 0xff)
    });
    assert_eq!(end.unwrap(), "PN532 error 0x01");

    let (mut run, first) = HfWriteRun::begin(4, [4; 16], None, false);
    let mut wrote = false;
    let (lines, _, _) = drive(first, |a| run.answer(a), |q| {
        wrote |= q.payload[2] == 0 && q.payload[8] == 0xa0;
        if wrote && q.payload[2] == 0 && q.payload[8] == 0x30 {
            return ok(vec![0xd5, 0x41, 0x90, 0x00]);
        }
        card(q, 0x08, 0xff)
    });
    assert_eq!(lines.last().unwrap(), "read back failed: empty exchange reply");
}

#[test]
fn watch_reports_changes_only() {
    let mut w = Watch::new();
    assert!(!w.see(None));
    assert!(!w.see(None), "it was clear all along");
    assert!(w.see(Some(FOB)));
    assert!(!w.see(Some(FOB)));
    assert!(!w.see(None), "one silence is no removal");
    assert!(!w.see(Some(FOB)));
    assert!(!w.see(None));
    assert!(w.see(None));
    assert_eq!(change_line(None), "clear");
    assert!(w.see(Some([1; 5])));
    assert!(w.see(Some(FOB)));
    assert_eq!(change_line(Some(FOB)), "12 34 56 78 9a");
}
