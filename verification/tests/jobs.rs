use latchkey::em4100::{em4100_frame, frame_bytes, write_plan};
use latchkey::frame::Reply;
use latchkey::mifare::KEYS;
use latchkey::reader::Query;
use latchkey::worker::{Event, Job, Next, Pad, Worker};

type Answer = Result<Reply, String>;

fn ok(payload: Vec<u8>) -> Answer {
    Ok(Reply { payload, seq: 1, checksum_ok: true, trailer_ok: true })
}

fn silence() -> Answer {
    Err("no reply".to_string())
}

/// Everything a job reports and asks, with the reader played by a function.
fn run(w: &mut Worker, job: Job, mut reader: impl FnMut(&Query) -> Answer) -> (Vec<String>, Vec<Vec<u8>>) {
    let mut told = Vec::new();
    let mut asked = Vec::new();
    let mut turn = w.start(job);
    loop {
        for e in turn.events {
            told.push(match e {
                Event::Pad(Pad::Empty) => "pad empty".to_string(),
                Event::Pad(Pad::Lf { id, freq }) => format!("pad {id:02x?} {freq}"),
                Event::Pad(Pad::Hf(c)) => format!("card {:02x?}", c.uid),
                Event::Log(m, bad) => format!("{}{m}", if bad { "! " } else { "" }),
                Event::Busy(w) => format!("busy {w}"),
                Event::Idle => "idle".to_string(),
                Event::Sector(s) => format!("sector {} {:?} {}", s.number, s.key.map(|k| k[0]), s.blocks.len()),
            });
        }
        match turn.next {
            Next::Ask(q) => {
                asked.push(q.payload.clone());
                let a = reader(&q);
                turn = w.answer(a);
            }
            Next::Rest => return (told, asked),
            Next::Quit => {
                told.push("quit".to_string());
                return (told, asked);
            }
        }
    }
}

/// A T5577 that emits what blocks 1 and 2 hold, once block 0 is right.
struct Tag {
    blocks: [[u8; 4]; 8],
}

impl Tag {
    fn id(&self) -> Option<[u8; 5]> {
        if self.blocks[0] != [0x00, 0x14, 0x80, 0x40] {
            return None;
        }
        let mut f = [0u8; 8];
        f[..4].copy_from_slice(&self.blocks[1]);
        f[4..].copy_from_slice(&self.blocks[2]);
        let want = u64::from_be_bytes(f);
        let mut id = [0u8; 5];
        for (i, b) in id.iter_mut().enumerate() {
            let shift = |g: usize| 64 - 9 - 5 * g - 4;
            *b = (((want >> shift(2 * i)) & 15) << 4 | ((want >> shift(2 * i + 1)) & 15)) as u8;
        }
        assert_eq!(em4100_frame(id), want);
        Some(id)
    }

    fn answer(&mut self, q: &Query) -> Answer {
        let p = &q.payload;
        match p[2] {
            0x65 if p[4] == 0x18 => match self.id() {
                Some(id) => {
                    let mut v = vec![5];
                    v.extend_from_slice(&id);
                    ok(v)
                }
                None => silence(),
            },
            0x66 if p[9] == 0x13 => {
                self.blocks[p[11] as usize].copy_from_slice(&p[12..16]);
                ok(vec![0])
            }
            _ => silence(),
        }
    }
}

fn blank() -> Tag {
    Tag { blocks: [[0xff; 4]; 8] }
}

#[test]
fn the_frame_of_a_known_id() {
    assert_eq!(em4100_frame([0x12, 0x34, 0x56, 0x78, 0x9a]), 0xff8ca64a98f8ca96);
    assert_eq!(frame_bytes([0x12, 0x34, 0x56, 0x78, 0x9a]), [0xff, 0x8c, 0xa6, 0x4a, 0x98, 0xf8, 0xca, 0x96]);
    assert_eq!(
        write_plan([0x12, 0x34, 0x56, 0x78, 0x9a], true),
        vec![
            (0, [0x00, 0x14, 0x80, 0x40]),
            (1, [0xff, 0x8c, 0xa6, 0x4a]),
            (2, [0x98, 0xf8, 0xca, 0x96])
        ]
    );
}

#[test]
fn a_write_reads_back() {
    let mut w = Worker::new(1000);
    let mut tag = blank();
    let id = [0x12, 0x34, 0x56, 0x78, 0x9a];
    let (told, asked) = run(&mut w, Job::WriteLf(id, true), |q| tag.answer(q));
    assert_eq!(
        told,
        [
            "busy writing",
            "wrote 12 34 56 78 9a and read it back",
            "pad [12, 34, 56, 78, 9a] 125000",
            "idle"
        ]
    );
    assert_eq!(asked.len(), 4);
    assert_eq!(tag.id(), Some(id));
}

#[test]
fn a_write_without_the_config_word_stays_silent() {
    let mut w = Worker::new(1000);
    let mut tag = blank();
    let (told, _) = run(&mut w, Job::WriteLf([1, 2, 3, 4, 5], false), |q| tag.answer(q));
    assert_eq!(
        told,
        ["busy writing", "! wrote, but nothing reads back. Try block 0.", "idle"]
    );
}

#[test]
fn a_write_that_did_not_take_says_so() {
    let mut w = Worker::new(1000);
    let (told, _) = run(&mut w, Job::WriteLf([1, 2, 3, 4, 5], true), |q| {
        if q.payload[2] == 0x66 { ok(vec![0]) } else { ok(vec![5, 9, 9, 9, 9, 9]) }
    });
    assert_eq!(told[1], "! wrote 01 02 03 04 05 but tag reads 09 09 09 09 09");
}

#[test]
fn a_fault_in_a_plan_is_told_and_not_read_back() {
    let mut w = Worker::new(1000);
    let mut n = 0;
    let (told, asked) = run(&mut w, Job::WriteLf([1, 2, 3, 4, 5], true), |_q| {
        n += 1;
        if n == 2 { silence() } else { ok(vec![0]) }
    });
    assert_eq!(told, ["busy writing", "! block 1: no reply", "idle"]);
    assert_eq!(asked.len(), 3, "the plan goes on");
    assert_eq!(asked[2][11], 2);
}

#[test]
fn a_wipe_goes_block_zero_last() {
    let mut w = Worker::new(1000);
    let mut tag = blank();
    run(&mut w, Job::WriteLf([1, 2, 3, 4, 5], true), |q| tag.answer(q));
    assert!(tag.id().is_some());
    let (told, asked) = run(&mut w, Job::Wipe, |q| tag.answer(q));
    let order: Vec<u8> = asked[..8].iter().map(|p| p[11]).collect();
    assert_eq!(order, [1, 2, 3, 4, 5, 6, 7, 0]);
    assert_eq!(told, ["busy wiping", "wiped. Nothing reads off it.", "idle"]);
    assert_eq!(tag.blocks, [[0; 4]; 8]);
}

#[test]
fn a_wipe_that_did_not_take_says_so() {
    let mut w = Worker::new(1000);
    let (told, _) = run(&mut w, Job::Wipe, |q| {
        if q.payload[2] == 0x66 { ok(vec![0]) } else { ok(vec![5, 9, 9, 9, 9, 9]) }
    });
    assert_eq!(told[1], "! wiped, but tag reads 09 09 09 09 09");
}

#[test]
fn polls_look_at_both_sides() {
    let mut w = Worker::new(700);
    let (told, asked) = run(&mut w, Job::Poll(false), |_q| silence());
    assert_eq!(told, ["pad empty"]);
    assert_eq!(asked.len(), 2);
    assert_eq!(w.timeout, 1200);

    let (told, asked) = run(&mut w, Job::Poll(true), |q| {
        if q.payload[2] == 0x6a { ok(vec![7, 8, 0, 4, 1, 2, 3, 4]) } else { silence() }
    });
    assert_eq!(told, ["card [01, 02, 03, 04]"]);
    assert_eq!(asked.len(), 3);

    let (told, asked) = run(&mut w, Job::Poll(true), |_q| ok(vec![5, 1, 2, 3, 4, 5]));
    assert_eq!(told, ["pad [01, 02, 03, 04, 05] 125000"]);
    assert_eq!(asked.len(), 1);

    run(&mut w, Job::Beep, |_q| ok(vec![0x90, 1]));
    assert_eq!(w.timeout, 700, "other jobs get the full wait");
}

#[test]
fn single_commands() {
    let mut w = Worker::new(1000);
    let (told, asked) = run(&mut w, Job::Beep, |_q| ok(vec![0x90, 1]));
    assert_eq!(told, ["busy beeping", "beep", "idle"]);
    assert_eq!(asked[0], [0xff, 0x00, 0x40, 0x50, 0x04, 0x01, 0x05, 0x01, 0x01]);
    let (told, _) = run(&mut w, Job::Beep, |_q| silence());
    assert_eq!(told, ["busy beeping", "! no reply", "idle"]);

    let (told, _) = run(&mut w, Job::Raw(vec![0xff, 0]), |_q| ok(vec![0xfd]));
    assert_eq!(told, ["busy sending", "-> ff 00", "<- fd", "idle"]);
    let (told, _) = run(&mut w, Job::Raw(vec![0xff, 0]), |_q| {
        Ok(Reply { payload: vec![1], seq: 0, checksum_ok: false, trailer_ok: false })
    });
    assert_eq!(told[2], "! <- 01  [cksum BAD]  [trailer BAD]");
    let (told, _) = run(&mut w, Job::Raw(vec![0xff, 0]), |_q| silence());
    assert_eq!(told[2], "! <- no reply");

    let (told, _) = run(&mut w, Job::WriteBlock(3, [1, 2, 3, 4]), |_q| ok(vec![0]));
    assert_eq!(told, ["busy writing", "block 3 <- 01 02 03 04  reply 00", "idle"]);
    let (told, _) = run(&mut w, Job::WriteBlock(3, [1, 2, 3, 4]), |_q| silence());
    assert_eq!(told[1], "! block 3: no reply");

    let (told, _) = run(&mut w, Job::ReadLf, |q| {
        if q.payload[4] == 0x01 { ok(vec![5, 1, 2, 3, 4, 5]) } else { silence() }
    });
    assert_eq!(
        told,
        ["busy reading", "500000 Hz lc 01  01 02 03 04 05", "pad [01, 02, 03, 04, 05] 500000", "idle"]
    );
    let (told, asked) = run(&mut w, Job::ReadLf, |_q| silence());
    assert_eq!(told, ["busy reading", "! no ID in any profile", "idle"]);
    assert_eq!(asked.len(), 20);

    let (told, _) = run(&mut w, Job::Quit, |_q| silence());
    assert_eq!(told, ["quit"]);
}

#[test]
fn a_dump_goes_sector_by_sector() {
    let mut w = Worker::new(1000);
    let mut reads = 0;
    // Key B0.. opens every sector but the second; the third block never reads.
    let (told, asked) = run(&mut w, Job::Dump, |q| {
        let p = &q.payload;
        if p[2] == 0x6a {
            return ok(vec![7, 0x09, 0, 4, 1, 2, 3, 4]);
        }
        if p[2] == 0x61 || p[2] == 0x62 {
            return ok(vec![0x90, 0]);
        }
        match p[8] {
            0x60 if p[10] == 0xb0 && p[9] != 4 => ok(vec![0xd5, 0x41, 0x00, 0x90, 0x00]),
            0x60 => ok(vec![0xd5, 0x41, 0x14, 0x90, 0x00]),
            0x30 if p[9] == 2 => silence(),
            _ => {
                reads += 1;
                let mut v = vec![0xd5, 0x41, 0x00];
                v.extend_from_slice(&[p[9]; 16]);
                v.extend_from_slice(&[0x90, 0x00]);
                ok(v)
            }
        }
    });
    assert_eq!(
        told,
        [
            "busy dumping",
            "sector 0 Some(176) 4",
            "sector 1 None 0",
            "sector 2 Some(176) 4",
            "sector 3 Some(176) 4",
            "sector 4 Some(176) 4",
            "dumped 5 sectors",
            "idle"
        ]
    );
    assert_eq!(reads, 15);
    // detect, three keys and four reads in four sectors, eight keys in one, release
    assert_eq!(asked.len(), 1 + 4 * (3 * 2 + 4) + KEYS.len() * 2 + 1);
    assert_eq!(asked.last().unwrap(), &vec![0xff, 0x00, 0x62, 0x01, 0x00]);
}

#[test]
fn a_dump_needs_a_classic_card() {
    let mut w = Worker::new(1000);
    let (told, _) = run(&mut w, Job::Dump, |_q| silence());
    assert_eq!(told, ["busy dumping", "! no card on the pad", "idle"]);
    let (told, _) = run(&mut w, Job::Dump, |_q| ok(vec![7, 0x20, 0, 4, 1, 2, 3, 4]));
    assert_eq!(
        told,
        ["busy dumping", "! ISO 14443-4 (DESFire or JavaCard) has no Classic sectors", "idle"]
    );
}
