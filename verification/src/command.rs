//! The payloads the reader understands, and what its answers hold.
//!
//! Every payload has the shape `ff <ins> <p1> <p2> <lc> <data...>`.

use crate::hexes::{hex, hex_text};
use crate::text::{hex2, hex2_string};
use vstd::prelude::*;

verus! {

// ---- numbers on the wire ----

/// Sixteen bits, low byte first.
pub open spec fn le16(n: u16) -> Seq<u8> {
    seq![(n as int % 256) as u8, (n as int / 256) as u8]
}

/// Thirty-two bits, low byte first.
pub open spec fn le32(n: u32) -> Seq<u8> {
    seq![
        (n as int % 256) as u8,
        (n as int / 0x100 % 256) as u8,
        (n as int / 0x1_0000 % 256) as u8,
        (n as int / 0x100_0000) as u8,
    ]
}

fn push_le16(p: &mut Vec<u8>, n: u16)
    ensures
        final(p)@ == old(p)@ + le16(n),
{
    p.push((n % 256) as u8);
    p.push((n / 256) as u8);
    assert(p@ =~= old(p)@ + le16(n));
}

fn push_le32(p: &mut Vec<u8>, n: u32)
    ensures
        final(p)@ == old(p)@ + le32(n),
{
    p.push((n % 256) as u8);
    p.push((n / 0x100 % 256) as u8);
    p.push((n / 0x1_0000 % 256) as u8);
    p.push((n / 0x100_0000) as u8);
    assert(p@ =~= old(p)@ + le32(n));
}

/// Append a copy of some bytes.
pub fn push_bytes(p: &mut Vec<u8>, b: &[u8])
    ensures
        final(p)@ == old(p)@ + b@,
{
    p.extend_from_slice(b);
    assert(p@ =~= old(p)@ + b@);
}

// ---- 125 kHz ----

/// `ff 00 65 08 <lc> <freq LE32> <w1 LE16> <w2 LE16>`.
pub open spec fn lf_read_payload(freq: u32, lc: u8, w1: u16, w2: u16) -> Seq<u8> {
    seq![0xffu8, 0x00, 0x65, 0x08, lc] + le32(freq) + le16(w1) + le16(w2)
}

/// Ask for the ID of a 125 kHz tag.
///
/// `lc` sits where an APDU length byte belongs but is not one. The vendor pairs
/// one value with each carrier.
pub fn lf_read(freq: u32, lc: u8, w1: u16, w2: u16) -> (r: Vec<u8>)
    ensures
        r@ == lf_read_payload(freq, lc, w1, w2),
{
    let mut p: Vec<u8> = vec![0xff, 0x00, 0x65, 0x08, lc];
    assert(p@ =~= seq![0xffu8, 0x00, 0x65, 0x08, lc]);
    push_le32(&mut p, freq);
    push_le16(&mut p, w1);
    push_le16(&mut p, w2);
    p
}

/// Every profile the vendor's auto-detect sweeps, in order; an EM4100 answers
/// the first. Carrier, `lc`, and the two thresholds.
pub const LF_PROFILES: [(u32, u8, u16, u16); 10] = [
    (125_000, 0x18, 0, 0),
    (250_000, 0x04, 0, 0),
    (375_000, 0x02, 0, 0),
    (500_000, 0x01, 0x005d, 0x004b),
    (125_000, 0x18, 0x0181, 0x0118),
    (175_000, 0x04, 0x00bb, 0x0096),
    (250_000, 0x04, 0x00bb, 0x0096),
    (300_000, 0x04, 0x00bb, 0x0096),
    (375_000, 0x02, 0x008b, 0x0070),
    (500_000, 0x01, 0x005d, 0x004b),
];

/// The carrier every write goes out on.
pub const LF_CARRIER: u32 = 125_000;

/// The five bytes after a length byte of five.
pub open spec fn lf_id_of(payload: Seq<u8>) -> Option<Seq<u8>> {
    if payload.len() >= 6 && payload[0] == 5 {
        Some(payload.subrange(1, 6))
    } else {
        None
    }
}

/// An ID seen through its view.
pub open spec fn id_view(id: Option<[u8; 5]>) -> Option<Seq<u8>> {
    match id {
        Some(a) => Some(a@),
        None => None,
    }
}

/// The ID in the answer to `lf_read`, if it holds one.
pub fn lf_id(payload: &[u8]) -> (r: Option<[u8; 5]>)
    ensures
        id_view(r) == lf_id_of(payload@),
{
    if payload.len() >= 6 && payload[0] == 5 {
        let id: [u8; 5] = [payload[1], payload[2], payload[3], payload[4], payload[5]];
        assert(id@ =~= payload@.subrange(1, 6));
        Some(id)
    } else {
        None
    }
}

/// Stands after the data of every block write and never varies.
pub const VENDOR_KEY: [u8; 4] = [0x54, 0x69, 0x61, 0x6e];

/// `ff 00 66 00 1e <freq LE32> <code>`, how the whole family starts.
pub open spec fn lf_family(freq: u32, code: u8) -> Seq<u8> {
    (seq![0xffu8, 0x00, 0x66, 0x00, 0x1e] + le32(freq)).push(code)
}

fn lf_start(freq: u32, code: u8) -> (r: Vec<u8>)
    ensures
        r@ == lf_family(freq, code),
{
    let mut p: Vec<u8> = vec![0xff, 0x00, 0x66, 0x00, 0x1e];
    assert(p@ =~= seq![0xffu8, 0x00, 0x66, 0x00, 0x1e]);
    push_le32(&mut p, freq);
    p.push(code);
    p
}

/// `ff 00 66 00 1e <freq LE32> 12 00 <blk> 00 00 00 00`.
pub open spec fn lf_read_block_payload(freq: u32, blk: u8) -> Seq<u8> {
    lf_family(freq, 0x12) + seq![0x00u8, blk, 0, 0, 0, 0]
}

pub fn lf_read_block(freq: u32, blk: u8) -> (r: Vec<u8>)
    ensures
        r@ == lf_read_block_payload(freq, blk),
{
    let mut p = lf_start(freq, 0x12);
    let tail: [u8; 6] = [0x00, blk, 0, 0, 0, 0];
    push_bytes(&mut p, tail.as_slice());
    assert(tail@ =~= seq![0x00u8, blk, 0, 0, 0, 0]);
    p
}

/// `ff 00 66 00 1e <freq LE32> 13 00 <blk> <data> <key>`.
pub open spec fn lf_write_block_payload(freq: u32, blk: u8, data: Seq<u8>) -> Seq<u8> {
    lf_family(freq, 0x13) + seq![0x00u8, blk] + data + VENDOR_KEY@
}

pub fn lf_write_block(freq: u32, blk: u8, data: [u8; 4]) -> (r: Vec<u8>)
    ensures
        r@ == lf_write_block_payload(freq, blk, data@),
{
    let mut p = lf_start(freq, 0x13);
    p.push(0x00);
    p.push(blk);
    assert(p@ =~= lf_family(freq, 0x13) + seq![0x00u8, blk]);
    push_bytes(&mut p, data.as_slice());
    push_bytes(&mut p, VENDOR_KEY.as_slice());
    p
}

/// Every block of a T5577 page, the config word last, so an interrupted wipe
/// leaves the tag still emitting.
pub const WIPE_ORDER: [u8; 8] = [1, 2, 3, 4, 5, 6, 7, 0];

/// `ff 00 66 00 1e <freq LE32> <code> <arg>`.
pub open spec fn lf_sample_payload(code: u8, arg: u8) -> Seq<u8> {
    lf_family(LF_CARRIER, code).push(arg)
}

/// A step of the raw sampler: `41` arms it, `46` fetches.
pub fn lf_sample(code: u8, arg: u8) -> (r: Vec<u8>)
    ensures
        r@ == lf_sample_payload(code, arg),
{
    let mut p = lf_start(LF_CARRIER, code);
    p.push(arg);
    p
}

/// A code of the family with a run of zero bytes for its argument.
pub open spec fn lf_probe_payload(code: u8, arglen: int) -> Seq<u8> {
    lf_family(LF_CARRIER, code) + Seq::new(arglen as nat, |i: int| 0u8)
}

pub fn lf_probe(code: u8, arglen: usize) -> (r: Vec<u8>)
    ensures
        r@ == lf_probe_payload(code, arglen as int),
{
    let mut p = lf_start(LF_CARRIER, code);
    let mut i: usize = 0;
    assert(p@ =~= lf_probe_payload(code, 0));
    while i < arglen
        invariant
            i <= arglen,
            p@ == lf_probe_payload(code, i as int),
        decreases arglen - i,
    {
        p.push(0);
        i += 1;
        assert(p@ =~= lf_probe_payload(code, i as int));
    }
    p
}

// ---- PN532 passthrough ----

/// `ff 00 00 00 <lc> d4 <cmd...>`, `lc` counting the `d4` too.
pub open spec fn pn532_payload(cmd: Seq<u8>) -> Seq<u8> {
    seq![0xffu8, 0x00, 0x00, 0x00, ((cmd.len() + 1) % 256) as u8, 0xd4] + cmd
}

/// `0xd4` is the host-to-controller TFI. Replies come back `d5 <cmd+1> ...`.
pub fn pn532(cmd: &[u8]) -> (r: Vec<u8>)
    ensures
        r@ == pn532_payload(cmd@),
{
    let lc: u8 = ((cmd.len() % 256 + 1) % 256) as u8;
    let mut p: Vec<u8> = vec![0xff, 0x00, 0x00, 0x00, lc, 0xd4];
    assert(p@ =~= seq![0xffu8, 0x00, 0x00, 0x00, ((cmd@.len() + 1) % 256) as u8, 0xd4]);
    push_bytes(&mut p, cmd);
    p
}

/// The body of a `d5 <cmd+1> <body...> 90 00` reply, or what is wrong with it.
pub open spec fn pn532_body(payload: Seq<u8>) -> Result<Seq<u8>, Seq<char>> {
    let n = payload.len() as int;
    if n < 2 || payload[n - 2] != 0x90 || payload[n - 1] != 0x00 {
        Err("no 90 00 status word: "@ + hex_text(payload))
    } else if n < 4 || payload[0] != 0xd5 {
        Err("not a PN532 reply: "@ + hex_text(payload.take(n - 2)))
    } else {
        Ok(payload.subrange(2, n - 2))
    }
}

/// A result seen through the views of its two sides.
pub open spec fn slice_result(r: Result<&[u8], String>) -> Result<Seq<u8>, Seq<char>> {
    match r {
        Ok(b) => Ok(b@),
        Err(e) => Err(e@),
    }
}

/// Byte 0 of the body is left alone. Only the exchange commands put a status
/// there; GetFirmwareVersion starts its data immediately, and reading byte 0 as
/// a status would take its `0x32` for an error.
pub fn pn532_data(payload: &[u8]) -> (r: Result<&[u8], String>)
    ensures
        slice_result(r) == pn532_body(payload@),
{
    let n: usize = payload.len();
    if n < 2 || payload[n - 2] != 0x90 || payload[n - 1] != 0x00 {
        return Err("no 90 00 status word: ".to_owned().concat(hex(payload).as_str()));
    }
    if n < 4 || payload[0] != 0xd5 {
        let body = vstd::slice::slice_subrange(payload, 0, n - 2);
        assert(body@ =~= payload@.take(n - 2));
        return Err("not a PN532 reply: ".to_owned().concat(hex(body).as_str()));
    }
    Ok(vstd::slice::slice_subrange(payload, 2, n - 2))
}

/// The data of an exchange reply, whose body starts with a status byte.
pub open spec fn exchange_body(payload: Seq<u8>) -> Result<Seq<u8>, Seq<char>> {
    match pn532_body(payload) {
        Err(e) => Err(e),
        Ok(b) => if b.len() == 0 {
            Err("empty exchange reply"@)
        } else if b[0] == 0x00 {
            Ok(b.skip(1))
        } else if b[0] == 0x14 {
            Err("authentication failed (wrong key)"@)
        } else {
            Err("PN532 error 0x"@ + hex2(b[0]))
        },
    }
}

pub fn exchange_data(payload: &[u8]) -> (r: Result<&[u8], String>)
    ensures
        slice_result(r) == exchange_body(payload@),
{
    match pn532_data(payload) {
        Err(e) => Err(e),
        Ok(b) => {
            if b.len() == 0 {
                Err("empty exchange reply".to_owned())
            } else if b[0] == 0x00 {
                let d = vstd::slice::slice_subrange(b, 1, b.len());
                assert(d@ =~= b@.skip(1));
                Ok(d)
            } else if b[0] == 0x14 {
                Err("authentication failed (wrong key)".to_owned())
            } else {
                Err("PN532 error 0x".to_owned().concat(hex2_string(b[0]).as_str()))
            }
        },
    }
}

/// `d4 40 01 <cmd...>` through the passthrough.
pub open spec fn exchange_payload(cmd: Seq<u8>) -> Seq<u8> {
    pn532_payload(seq![0x40u8, 0x01] + cmd)
}

pub fn in_data_exchange(cmd: &[u8]) -> (r: Vec<u8>)
    ensures
        r@ == exchange_payload(cmd@),
{
    let mut v: Vec<u8> = vec![0x40, 0x01];
    assert(v@ =~= seq![0x40u8, 0x01]);
    push_bytes(&mut v, cmd);
    pn532(v.as_slice())
}

// ---- 13.56 MHz ----

pub open spec fn hf_detect_payload() -> Seq<u8> {
    seq![0xffu8, 0x00, 0x6a, 0x01, 0x00, 0x08]
}

pub fn hf_detect() -> (r: Vec<u8>)
    ensures
        r@ == hf_detect_payload(),
{
    let p: Vec<u8> = vec![0xff, 0x00, 0x6a, 0x01, 0x00, 0x08];
    assert(p@ =~= hf_detect_payload());
    p
}

pub open spec fn hf_activate_payload() -> Seq<u8> {
    seq![0xffu8, 0x00, 0x61, 0x01]
}

pub fn hf_activate() -> (r: Vec<u8>)
    ensures
        r@ == hf_activate_payload(),
{
    let p: Vec<u8> = vec![0xff, 0x00, 0x61, 0x01];
    assert(p@ =~= hf_activate_payload());
    p
}

pub open spec fn hf_release_payload() -> Seq<u8> {
    seq![0xffu8, 0x00, 0x62, 0x01, 0x00]
}

pub fn hf_release() -> (r: Vec<u8>)
    ensures
        r@ == hf_release_payload(),
{
    let p: Vec<u8> = vec![0xff, 0x00, 0x62, 0x01, 0x00];
    assert(p@ =~= hf_release_payload());
    p
}

/// Key, block, key bytes and UID, as the card wants them.
pub open spec fn mifare_auth_payload(key_b: bool, blk: u8, key: Seq<u8>, uid: Seq<u8>) -> Seq<u8> {
    exchange_payload(
        seq![
            if key_b {
                0x61u8
            } else {
                0x60u8
            },
            blk,
        ] + key + uid,
    )
}

/// Key A is `0x60`, key B is `0x61`. The UID's first four bytes feed the crypto1
/// nonce and travel alongside the key.
pub fn mifare_auth(key_b: bool, blk: u8, key: [u8; 6], uid: [u8; 4]) -> (r: Vec<u8>)
    ensures
        r@ == mifare_auth_payload(key_b, blk, key@, uid@),
{
    let op: u8 = if key_b {
        0x61
    } else {
        0x60
    };
    let mut v: Vec<u8> = vec![op, blk];
    assert(v@ =~= seq![op, blk]);
    push_bytes(&mut v, key.as_slice());
    push_bytes(&mut v, uid.as_slice());
    in_data_exchange(v.as_slice())
}

pub open spec fn mifare_read_payload(blk: u8) -> Seq<u8> {
    exchange_payload(seq![0x30u8, blk])
}

pub fn mifare_read(blk: u8) -> (r: Vec<u8>)
    ensures
        r@ == mifare_read_payload(blk),
{
    let v: Vec<u8> = vec![0x30, blk];
    assert(v@ =~= seq![0x30u8, blk]);
    in_data_exchange(v.as_slice())
}

pub open spec fn mifare_write_payload(blk: u8, data: Seq<u8>) -> Seq<u8> {
    exchange_payload(seq![0xa0u8, blk] + data)
}

pub fn mifare_write(blk: u8, data: [u8; 16]) -> (r: Vec<u8>)
    ensures
        r@ == mifare_write_payload(blk, data@),
{
    let mut v: Vec<u8> = vec![0xa0, blk];
    assert(v@ =~= seq![0xa0u8, blk]);
    push_bytes(&mut v, data.as_slice());
    in_data_exchange(v.as_slice())
}

// ---- the reader itself ----

/// `ff 00 40 50 04 <t1> <t2> <repeats> <buzzer link>`.
pub open spec fn buzzer_payload(dur: u8, reps: u8) -> Seq<u8> {
    seq![0xffu8, 0x00, 0x40, 0x50, 0x04, 0x01, dur, reps, 0x01]
}

/// One beep.
pub fn beep(dur: u8) -> (r: Vec<u8>)
    ensures
        r@ == buzzer_payload(dur, 1),
{
    beeps(dur, 1)
}

/// As many beeps as `reps` says.
pub fn beeps(dur: u8, reps: u8) -> (r: Vec<u8>)
    ensures
        r@ == buzzer_payload(dur, reps),
{
    let p: Vec<u8> = vec![0xff, 0x00, 0x40, 0x50, 0x04, 0x01, dur, reps, 0x01];
    assert(p@ =~= buzzer_payload(dur, reps));
    p
}

/// Asks for the model string.
pub const MODEL: [u8; 5] = [0xff, 0x00, 0x68, 0x00, 0x00];

/// Asks for the serial string.
pub const SERIAL: [u8; 5] = [0xff, 0x00, 0x69, 0x00, 0x00];

// ---- laws ----

/// A wipe touches every block of the page once, and the config word, block 0,
/// after all the others.
pub proof fn wipe_ends_with_the_config_word()
    ensures
        forall|i: int| 0 <= i < 7 ==> WIPE_ORDER@[i] == i + 1,
        WIPE_ORDER@.last() == 0,
        WIPE_ORDER@.no_duplicates(),
        forall|b: u8| WIPE_ORDER@.contains(b) <==> b <= 7,
{
    assert forall|b: u8| b <= 7 implies WIPE_ORDER@.contains(b) by {
        let i: int = if b == 0 {
            7
        } else {
            b - 1
        };
        assert(WIPE_ORDER@[i] == b);
    }
}

/// Every command fits a frame: `encode` never refuses one.
pub proof fn commands_fit(freq: u32, a: u8, b: u8, w1: u16, w2: u16, key_b: bool)
    ensures
        lf_read_payload(freq, a, w1, w2).len() <= crate::frame::MAX_PAYLOAD,
        lf_read_block_payload(freq, a).len() <= crate::frame::MAX_PAYLOAD,
        forall|d: Seq<u8>|
            d.len() == 4 ==> (#[trigger] lf_write_block_payload(freq, a, d)).len()
                <= crate::frame::MAX_PAYLOAD,
        lf_sample_payload(a, b).len() <= crate::frame::MAX_PAYLOAD,
        hf_detect_payload().len() <= crate::frame::MAX_PAYLOAD,
        hf_activate_payload().len() <= crate::frame::MAX_PAYLOAD,
        hf_release_payload().len() <= crate::frame::MAX_PAYLOAD,
        forall|k: Seq<u8>, u: Seq<u8>|
            k.len() == 6 && u.len() == 4 ==> (#[trigger] mifare_auth_payload(key_b, a, k, u)).len()
                <= crate::frame::MAX_PAYLOAD,
        mifare_read_payload(a).len() <= crate::frame::MAX_PAYLOAD,
        forall|d: Seq<u8>|
            d.len() == 16 ==> (#[trigger] mifare_write_payload(a, d)).len()
                <= crate::frame::MAX_PAYLOAD,
        buzzer_payload(a, b).len() <= crate::frame::MAX_PAYLOAD,
{
}

/// Numbers travel low byte first, and none of their bits is lost.
pub proof fn numbers_travel_low_byte_first(n: u16, m: u32)
    ensures
        le16(n).len() == 2,
        le16(n)[0] + 0x100 * le16(n)[1] == n,
        le32(m).len() == 4,
        le32(m)[0] + 0x100 * le32(m)[1] + 0x1_0000 * le32(m)[2] + 0x100_0000 * le32(m)[3] == m,
{
}

/// An ID read carries all four numbers of its profile: `lc`, then the carrier,
/// then the two thresholds. So reads with different profiles differ.
pub proof fn an_id_read_carries_its_profile(freq: u32, lc: u8, w1: u16, w2: u16)
    ensures
        ({
            let p = lf_read_payload(freq, lc, w1, w2);
            &&& p.len() == 13
            &&& p.take(4) == seq![0xffu8, 0x00, 0x65, 0x08]
            &&& p[4] == lc
            &&& p[5] + 0x100 * p[6] + 0x1_0000 * p[7] + 0x100_0000 * p[8] == freq
            &&& p[9] + 0x100 * p[10] == w1
            &&& p[11] + 0x100 * p[12] == w2
        }),
{
    assert(lf_read_payload(freq, lc, w1, w2).take(4) =~= seq![0xffu8, 0x00, 0x65, 0x08]);
}

/// A block write carries the carrier, the block and its four bytes, then the
/// word that never varies. So writes of different data differ.
pub proof fn a_block_write_carries_its_data(freq: u32, blk: u8, data: Seq<u8>)
    requires
        data.len() == 4,
    ensures
        ({
            let p = lf_write_block_payload(freq, blk, data);
            &&& p.len() == 20
            &&& p.take(5) == seq![0xffu8, 0x00, 0x66, 0x00, 0x1e]
            &&& p[5] + 0x100 * p[6] + 0x1_0000 * p[7] + 0x100_0000 * p[8] == freq
            &&& p.subrange(9, 12) == seq![0x13u8, 0x00, blk]
            &&& p.subrange(12, 16) == data
            &&& p.subrange(16, 20) == seq![0x54u8, 0x69, 0x61, 0x6e]
        }),
{
    let p = lf_write_block_payload(freq, blk, data);
    assert(p.take(5) =~= seq![0xffu8, 0x00, 0x66, 0x00, 0x1e]);
    assert(p.subrange(9, 12) =~= seq![0x13u8, 0x00, blk]);
    assert(p.subrange(12, 16) =~= data);
    assert(p.subrange(16, 20) =~= seq![0x54u8, 0x69, 0x61, 0x6e]);
}

/// The other commands of the family: asking after a block carries the block and
/// no data, a sampler step its code and argument, a probe its code and as many
/// zero bytes as were asked for. The last two go out on 125 kHz.
pub proof fn the_family_carries_its_arguments(freq: u32, blk: u8, code: u8, arg: u8, n: int)
    requires
        n >= 0,
    ensures
        ({
            let p = lf_read_block_payload(freq, blk);
            &&& p.take(5) == seq![0xffu8, 0x00, 0x66, 0x00, 0x1e]
            &&& p[5] + 0x100 * p[6] + 0x1_0000 * p[7] + 0x100_0000 * p[8] == freq
            &&& p.skip(9) == seq![0x12u8, 0x00, blk, 0x00, 0x00, 0x00, 0x00]
        }),
        lf_sample_payload(code, arg) == seq![
            0xffu8, 0x00, 0x66, 0x00, 0x1e, 0x48, 0xe8, 0x01, 0x00, code, arg,
        ],
        ({
            let p = lf_probe_payload(code, n);
            &&& p.len() == 10 + n
            &&& p.take(10) == seq![
                0xffu8, 0x00, 0x66, 0x00, 0x1e, 0x48, 0xe8, 0x01, 0x00, code,
            ]
            &&& forall|i: int| 10 <= i < 10 + n ==> #[trigger] p[i] == 0
        }),
{
    let p = lf_read_block_payload(freq, blk);
    assert(p.take(5) =~= seq![0xffu8, 0x00, 0x66, 0x00, 0x1e]);
    assert(p.skip(9) =~= seq![0x12u8, 0x00, blk, 0x00, 0x00, 0x00, 0x00]);
    assert(lf_sample_payload(code, arg) =~= seq![
        0xffu8, 0x00, 0x66, 0x00, 0x1e, 0x48, 0xe8, 0x01, 0x00, code, arg,
    ]);
    assert(lf_probe_payload(code, n).take(10) =~= seq![
        0xffu8, 0x00, 0x66, 0x00, 0x1e, 0x48, 0xe8, 0x01, 0x00, code,
    ]);
}

/// What goes through the passthrough arrives whole: the length byte counts the
/// command and the byte in front of it, and the command follows as it is.
pub proof fn the_passthrough_keeps_the_command(cmd: Seq<u8>)
    requires
        cmd.len() < 255,
    ensures
        ({
            let p = pn532_payload(cmd);
            &&& p.take(4) == seq![0xffu8, 0x00, 0x00, 0x00]
            &&& p[4] == p.len() - 5
            &&& p[5] == 0xd4
            &&& p.skip(6) == cmd
        }),
        exchange_payload(cmd).len() == cmd.len() + 8,
        exchange_payload(cmd).subrange(6, 8) == seq![0x40u8, 0x01],
        exchange_payload(cmd).skip(8) == cmd,
{
    assert(pn532_payload(cmd).take(4) =~= seq![0xffu8, 0x00, 0x00, 0x00]);
    assert(pn532_payload(cmd).skip(6) =~= cmd);
    assert(exchange_payload(cmd).subrange(6, 8) =~= seq![0x40u8, 0x01]);
    assert(exchange_payload(cmd).skip(8) =~= cmd);
}

/// An authentication says which of the two keys it uses and for which block,
/// then carries the key and the four UID bytes.
pub proof fn an_authentication_carries_key_and_uid(
    key_b: bool,
    blk: u8,
    key: Seq<u8>,
    uid: Seq<u8>,
)
    requires
        key.len() == 6,
        uid.len() == 4,
    ensures
        ({
            let p = mifare_auth_payload(key_b, blk, key, uid);
            &&& p.len() == 20
            &&& p.take(8) == seq![0xffu8, 0x00, 0x00, 0x00, 0x0f, 0xd4, 0x40, 0x01]
            &&& p[8] == 0x60 || p[8] == 0x61
            &&& p[8] == 0x61 <==> key_b
            &&& p[9] == blk
            &&& p.subrange(10, 16) == key
            &&& p.subrange(16, 20) == uid
        }),
{
    let p = mifare_auth_payload(key_b, blk, key, uid);
    assert(p.take(8) =~= seq![0xffu8, 0x00, 0x00, 0x00, 0x0f, 0xd4, 0x40, 0x01]);
    assert(p.subrange(10, 16) =~= key);
    assert(p.subrange(16, 20) =~= uid);
}

/// A block read names its block. A block write names its block and carries the
/// sixteen bytes to be written, unchanged, so writes of different data differ.
pub proof fn a_card_write_carries_its_data(blk: u8, data: Seq<u8>)
    requires
        data.len() == 16,
    ensures
        mifare_read_payload(blk) == seq![
            0xffu8, 0x00, 0x00, 0x00, 0x05, 0xd4, 0x40, 0x01, 0x30, blk,
        ],
        ({
            let p = mifare_write_payload(blk, data);
            &&& p.len() == 26
            &&& p.take(8) == seq![0xffu8, 0x00, 0x00, 0x00, 0x15, 0xd4, 0x40, 0x01]
            &&& p[8] == 0xa0
            &&& p[9] == blk
            &&& p.subrange(10, 26) == data
        }),
{
    assert(mifare_read_payload(blk) =~= seq![
        0xffu8, 0x00, 0x00, 0x00, 0x05, 0xd4, 0x40, 0x01, 0x30, blk,
    ]);
    let p = mifare_write_payload(blk, data);
    assert(p.take(8) =~= seq![0xffu8, 0x00, 0x00, 0x00, 0x15, 0xd4, 0x40, 0x01]);
    assert(p.subrange(10, 26) =~= data);
}

/// The commands without a payload of their own, and the buzzer, which says how
/// long and how often.
pub proof fn plain_commands(dur: u8, reps: u8)
    ensures
        hf_detect_payload() == seq![0xffu8, 0x00, 0x6a, 0x01, 0x00, 0x08],
        hf_activate_payload() == seq![0xffu8, 0x00, 0x61, 0x01],
        hf_release_payload() == seq![0xffu8, 0x00, 0x62, 0x01, 0x00],
        MODEL@ == seq![0xffu8, 0x00, 0x68, 0x00, 0x00],
        SERIAL@ == seq![0xffu8, 0x00, 0x69, 0x00, 0x00],
        buzzer_payload(dur, reps).len() == 9,
        buzzer_payload(dur, reps).take(5) == seq![0xffu8, 0x00, 0x40, 0x50, 0x04],
        buzzer_payload(dur, reps)[6] == dur,
        buzzer_payload(dur, reps)[7] == reps,
        buzzer_payload(dur, reps)[5] == 1 && buzzer_payload(dur, reps)[8] == 1,
{
    assert(MODEL@ =~= seq![0xffu8, 0x00, 0x68, 0x00, 0x00]);
    assert(SERIAL@ =~= seq![0xffu8, 0x00, 0x69, 0x00, 0x00]);
    assert(buzzer_payload(dur, reps).take(5) =~= seq![0xffu8, 0x00, 0x40, 0x50, 0x04]);
}

/// The answer to an ID read holds an ID exactly if it starts with the length
/// five and five bytes follow, and the ID is those bytes.
pub proof fn an_id_follows_its_length(id: Seq<u8>, rest: Seq<u8>, p: Seq<u8>)
    ensures
        id.len() == 5 ==> lf_id_of(seq![5u8] + id + rest) == Some(id),
        lf_id_of(p) is Some <==> p.len() > 5 && p[0] == 5,
        lf_id_of(p) matches Some(got) ==> got.len() == 5 && p == seq![5u8] + got + p.skip(6),
{
    if id.len() == 5 {
        let q = seq![5u8] + id + rest;
        assert(q.subrange(1, 6) =~= id);
    }
    if lf_id_of(p) is Some {
        assert(p =~= seq![5u8] + lf_id_of(p)->Some_0 + p.skip(6));
    }
}

/// A passthrough reply is `d5`, a byte, the body and `90 00`, and only that
/// yields a body.
pub proof fn a_passthrough_reply_yields_its_body(cmd: u8, body: Seq<u8>, p: Seq<u8>)
    ensures
        pn532_body(seq![0xd5u8, cmd] + body + seq![0x90u8, 0x00]) == Ok::<Seq<u8>, Seq<char>>(
            body,
        ),
        pn532_body(p) matches Ok(b) ==> p.len() >= 4 && p == seq![0xd5u8, p[1]] + b + seq![
            0x90u8,
            0x00,
        ],
{
    let q = seq![0xd5u8, cmd] + body + seq![0x90u8, 0x00];
    let n = q.len() as int;
    assert(q[n - 2] == 0x90 && q[n - 1] == 0x00 && q[0] == 0xd5);
    assert(q.subrange(2, n - 2) =~= body);
    if pn532_body(p) is Ok {
        assert(p =~= seq![0xd5u8, p[1]] + pn532_body(p)->Ok_0 + seq![0x90u8, 0x00]);
    }
}

/// An exchange went through exactly if its status byte is nought, and then what
/// stands between that byte and `90 00` is its data. `14` says that the key was
/// wrong.
pub proof fn an_exchange_goes_by_its_status(cmd: u8, status: u8, data: Seq<u8>, p: Seq<u8>)
    ensures
        ({
            let r = exchange_body(seq![0xd5u8, cmd, status] + data + seq![0x90u8, 0x00]);
            &&& r is Ok <==> status == 0
            &&& status == 0 ==> r == Ok::<Seq<u8>, Seq<char>>(data)
            &&& status == 0x14 ==> r == Err::<Seq<u8>, Seq<char>>(
                "authentication failed (wrong key)"@,
            )
        }),
        exchange_body(p) matches Ok(d) ==> p.len() >= 5 && p == seq![0xd5u8, p[1], 0x00] + d
            + seq![0x90u8, 0x00],
{
    let body = seq![status] + data;
    a_passthrough_reply_yields_its_body(cmd, body, p);
    assert(seq![0xd5u8, cmd, status] + data + seq![0x90u8, 0x00] =~= seq![0xd5u8, cmd] + body
        + seq![0x90u8, 0x00]);
    assert(body.skip(1) =~= data);
    if exchange_body(p) is Ok {
        let b = pn532_body(p)->Ok_0;
        assert(p =~= seq![0xd5u8, p[1], 0x00] + b.skip(1) + seq![0x90u8, 0x00]);
    }
}

/// The profiles that a sweep goes through.
pub proof fn the_profiles_in_order()
    ensures
        LF_PROFILES@ == seq![
            (125_000u32, 0x18u8, 0u16, 0u16),
            (250_000u32, 0x04u8, 0u16, 0u16),
            (375_000u32, 0x02u8, 0u16, 0u16),
            (500_000u32, 0x01u8, 0x005du16, 0x004bu16),
            (125_000u32, 0x18u8, 0x0181u16, 0x0118u16),
            (175_000u32, 0x04u8, 0x00bbu16, 0x0096u16),
            (250_000u32, 0x04u8, 0x00bbu16, 0x0096u16),
            (300_000u32, 0x04u8, 0x00bbu16, 0x0096u16),
            (375_000u32, 0x02u8, 0x008bu16, 0x0070u16),
            (500_000u32, 0x01u8, 0x005du16, 0x004bu16),
        ],
        LF_CARRIER == LF_PROFILES@[0].0,
{
    assert(LF_PROFILES@ =~= seq![
        (125_000u32, 0x18u8, 0u16, 0u16),
        (250_000u32, 0x04u8, 0u16, 0u16),
        (375_000u32, 0x02u8, 0u16, 0u16),
        (500_000u32, 0x01u8, 0x005du16, 0x004bu16),
        (125_000u32, 0x18u8, 0x0181u16, 0x0118u16),
        (175_000u32, 0x04u8, 0x00bbu16, 0x0096u16),
        (250_000u32, 0x04u8, 0x00bbu16, 0x0096u16),
        (300_000u32, 0x04u8, 0x00bbu16, 0x0096u16),
        (375_000u32, 0x02u8, 0x008bu16, 0x0070u16),
        (500_000u32, 0x01u8, 0x005du16, 0x004bu16),
    ]);
}

/// What is wrong with a passthrough reply is said with the bytes at fault: all
/// of them without a status word, those before it where the reply is of another
/// kind. A status other than those known is named.
pub proof fn bad_replies_are_named(p: Seq<u8>, cmd: u8, status: u8, data: Seq<u8>)
    ensures
        p.len() < 2 || p.subrange(p.len() - 2, p.len() as int) != seq![0x90u8, 0x00] ==> pn532_body(
            p,
        ) == Err::<Seq<u8>, Seq<char>>("no 90 00 status word: "@ + hex_text(p)),
        data.len() < 2 || data[0] != 0xd5 ==> pn532_body(data + seq![0x90u8, 0x00]) == Err::<
            Seq<u8>,
            Seq<char>,
        >("not a PN532 reply: "@ + hex_text(data)),
        status != 0 && status != 0x14 ==> exchange_body(
            seq![0xd5u8, cmd, status] + data + seq![0x90u8, 0x00],
        ) == Err::<Seq<u8>, Seq<char>>("PN532 error 0x"@ + hex2(status)),
        exchange_body(seq![0xd5u8, cmd, 0x90u8, 0x00]) == Err::<Seq<u8>, Seq<char>>(
            "empty exchange reply"@,
        ),
{
    if p.len() >= 2 && p.subrange(p.len() - 2, p.len() as int) != seq![0x90u8, 0x00] {
        if p[p.len() - 2] == 0x90 && p[p.len() - 1] == 0x00 {
            assert(p.subrange(p.len() - 2, p.len() as int) =~= seq![0x90u8, 0x00]);
        }
    }
    let q = data + seq![0x90u8, 0x00];
    assert(q.take(q.len() - 2) =~= data);
    let body = seq![status] + data;
    a_passthrough_reply_yields_its_body(cmd, body, p);
    assert(seq![0xd5u8, cmd, status] + data + seq![0x90u8, 0x00] =~= seq![0xd5u8, cmd] + body
        + seq![0x90u8, 0x00]);
    a_passthrough_reply_yields_its_body(cmd, Seq::empty(), p);
    assert(seq![0xd5u8, cmd] + Seq::<u8>::empty() + seq![0x90u8, 0x00] =~= seq![
        0xd5u8,
        cmd,
        0x90u8,
        0x00,
    ]);
}

/// The views keep the bytes they view.
pub proof fn views_keep_bytes(id: [u8; 5], r: Result<&[u8], String>)
    ensures
        id_view(Some(id)) == Some(id@),
        id_view(None) is None,
        r matches Ok(b) ==> slice_result(r) == Ok::<Seq<u8>, Seq<char>>(b@),
        r matches Err(e) ==> slice_result(r) == Err::<Seq<u8>, Seq<char>>(e@),
{
}

} // verus!
