use latchkey::command::{exchange_data, lf_id, lf_write_block, pn532_data};
use latchkey::em4100::{em4100_frame, em4100_parse, em4100_show, IdForm};
use latchkey::frame::{decode, encode};
use latchkey::hexes::{hex, unhex};
use latchkey::mifare::{is_trailer, sector_blocks};

#[test]
fn framing_round_trips() {
    let f = encode(&unhex("ff 00 00 00 02 d4 02").unwrap(), 0).unwrap();
    assert_eq!(hex(&f[..14]), "00 01 0d 00 00 ff 00 00 00 02 d4 02 1a fe");

    let r = decode(&unhex("02 0e 01 00 d5 03 32 01 06 07 90 00 46 fd").unwrap()).unwrap();
    assert!(r.checksum_ok && r.trailer_ok);
    assert_eq!(hex(&r.payload), "d5 03 32 01 06 07 90 00");
    assert_eq!(r.seq, 1, "device answers seq+1");
}

#[test]
fn lf_id_needs_the_length_byte() {
    assert_eq!(
        lf_id(&unhex("05 12 34 56 78 9a").unwrap()),
        Some([0x12, 0x34, 0x56, 0x78, 0x9a])
    );
    assert_eq!(lf_id(&unhex("00").unwrap()), None);
    assert_eq!(lf_id(&unhex("05 12 34").unwrap()), None);
}

#[test]
fn builds_a_block_write() {
    let p = lf_write_block(125_000, 1, [0xde, 0xad, 0xbe, 0xef]);
    assert_eq!(
        hex(&p),
        "ff 00 66 00 1e 48 e8 01 00 13 00 01 de ad be ef 54 69 61 6e"
    );
    assert_eq!(p.len(), 20);
}

#[test]
fn em4100_frame_round_trips() {
    let id = [0x04, 0x91, 0x7c, 0x2a, 0xf3];
    let f = em4100_frame(id);
    assert_eq!(f >> 55, 0x1ff, "nine header ones");
    assert_eq!(f & 1, 0, "stop bit");

    let mut nibbles = [0u8; 10];
    let mut col = [0u8; 4];
    for (i, nib) in nibbles.iter_mut().enumerate() {
        let group = (f >> (50 - i * 5)) & 0x1f;
        let (data, parity) = ((group >> 1) as u8, (group & 1) as u8);
        assert_eq!(data.count_ones() as u8 % 2, parity, "row parity {i}");
        for (pos, c) in col.iter_mut().enumerate() {
            *c ^= data >> (3 - pos) & 1;
        }
        *nib = data;
    }
    for (pos, c) in col.iter().enumerate() {
        assert_eq!(f >> (4 - pos) & 1, *c as u64, "column parity {pos}");
    }
    let decoded: Vec<u8> = nibbles.chunks(2).map(|c| c[0] << 4 | c[1]).collect();
    assert_eq!(decoded, id);
}

#[test]
fn exchange_status_byte_is_not_data() {
    let ok = [&b"\xd5\x41\x00"[..], &[0xab; 16], &[0x90, 0x00]].concat();
    assert_eq!(exchange_data(&ok), Ok(&[0xab; 16][..]));
    assert_eq!(
        exchange_data(&unhex("d5 41 14 90 00").unwrap()),
        Err("authentication failed (wrong key)".into())
    );
    assert_eq!(
        pn532_data(&unhex("d5 03 32 01 06 07 90 00").unwrap()),
        Ok(&[0x32, 0x01, 0x06, 0x07][..])
    );
}

#[test]
fn id_renderings_round_trip() {
    let id = [0xab, 0x01, 0x02, 0x03, 0x04];
    assert_eq!(em4100_show(id, IdForm::Dec10), "0016909060");
    assert_eq!(em4100_show(id, IdForm::Dec35), "00200772");
    assert_eq!(em4100_show(id, IdForm::Hex), "ab 01 02 03 04");
    for form in IdForm::ALL {
        let text = em4100_show(id, form);
        assert_eq!(em4100_parse(&text, form, id), Ok(id), "{form:?}");
    }
}

#[test]
fn a_decimal_edit_keeps_the_bytes_it_does_not_describe() {
    let base = [0xaa, 0xbb, 0xcc, 0xdd, 0xee];
    assert_eq!(
        em4100_parse("0000000001", IdForm::Dec10, base).unwrap(),
        [0xaa, 0x00, 0x00, 0x00, 0x01]
    );
    assert_eq!(
        em4100_parse("00100002", IdForm::Dec35, base).unwrap(),
        [0xaa, 0xbb, 1, 0x00, 0x02]
    );
}

#[test]
fn em4100_parse_rejects_what_it_cannot_represent() {
    let b = [0; 5];
    assert!(em4100_parse("12 34 56", IdForm::Hex, b).is_err(), "short");
    assert!(
        em4100_parse("4294967296", IdForm::Dec10, b).is_err(),
        "over u32"
    );
    assert!(
        em4100_parse("0572129", IdForm::Dec35, b).is_err(),
        "7 digits"
    );
    assert!(
        em4100_parse("25621299", IdForm::Dec35, b).is_err(),
        "256 over u8"
    );
    assert!(
        em4100_parse("00199999", IdForm::Dec35, b).is_err(),
        "99999 over u16"
    );
    assert!(em4100_parse("00165535", IdForm::Dec35, b).is_ok());
}

#[test]
fn every_sector_ends_in_exactly_one_trailer() {
    assert_eq!(*sector_blocks(32).start(), 128);
    assert_eq!(*sector_blocks(39).end(), 255);
    for s in 0..40u8 {
        let blocks: Vec<u8> = sector_blocks(s).collect();
        let (last, rest) = blocks.split_last().unwrap();
        assert!(is_trailer(*last), "sector {s} trailer");
        assert!(rest.iter().all(|b| !is_trailer(*b)), "sector {s} data");
    }
}
