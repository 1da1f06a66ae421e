//! The frame that carries a payload to the reader and its answer back.
//!
//! ```text
//! off  value
//! 0    0x00                 report-ID byte, absent on the wire
//! 1    0x01 out / 0x02 in   direction magic
//! 2    LEN = payload+6      counts offsets 1..=LEN
//! 3    seq & 0xff           16-bit LE
//! 4    seq >> 8
//! 5..  payload
//! 5+n  checksum
//! 6+n  0xFE out / 0xFD in
//! ```

use crate::text::{dec, dec_text, hex2, hex2_string};
use vstd::prelude::*;

verus! {

pub const VID: u16 = 0x2518;

pub const PID: u16 = 0x6018;

/// Bytes in a report.
pub const REPORT: usize = 64;

/// A report with the report-ID byte in front.
pub const BUF: usize = 65;

pub const MAX_PAYLOAD: usize = 58;

pub const MAGIC_TX: u8 = 0x01;

pub const MAGIC_RX: u8 = 0x02;

pub const TRAILER_TX: u8 = 0xFE;

pub const TRAILER_RX: u8 = 0xFD;

// ---- checksum ----

/// The plain sum of the bytes.
pub open spec fn byte_sum(s: Seq<u8>) -> nat
    decreases s.len(),
{
    if s.len() == 0 {
        0
    } else {
        byte_sum(s.drop_last()) + s.last() as nat
    }
}

/// The complement of the low byte of the sum.
pub open spec fn check_byte(s: Seq<u8>) -> u8 {
    (255 - byte_sum(s) % 256) as u8
}

/// The complement of the sum of `bytes[from..to]`.
fn complement(bytes: &[u8], from: usize, to: usize) -> (r: u8)
    requires
        from <= to <= bytes@.len(),
    ensures
        r == check_byte(bytes@.subrange(from as int, to as int)),
{
    let mut sum: u8 = 0;
    let mut i: usize = from;
    while i < to
        invariant
            from <= i <= to <= bytes@.len(),
            sum as nat == byte_sum(bytes@.subrange(from as int, i as int)) % 256,
        decreases to - i,
    {
        let b: u8 = bytes[i];
        assert(bytes@.subrange(from as int, i + 1).drop_last() =~= bytes@.subrange(
            from as int,
            i as int,
        ));
        sum = sum.wrapping_add(b);
        i += 1;
    }
    assert(!sum == 255 - sum) by (bit_vector);
    !sum
}

/// The checksum of a frame with `n` payload bytes: over everything from the
/// direction magic to the end of the payload.
pub fn checksum(frame: &[u8], n: usize) -> (r: u8)
    requires
        n + 5 <= frame@.len(),
    ensures
        r == check_byte(frame@.subrange(1, n + 5)),
{
    assert(frame.len() == frame@.len());
    complement(frame, 1, n + 5)
}

// ---- out ----

/// Direction, length, sequence number and payload.
pub open spec fn framed(magic: u8, payload: Seq<u8>, seq: u16) -> Seq<u8> {
    seq![magic, (payload.len() + 6) as u8, (seq as int % 256) as u8, (seq as int / 256) as u8]
        + payload
}

/// The same with checksum and trailer.
pub open spec fn sealed(magic: u8, payload: Seq<u8>, seq: u16, trailer: u8) -> Seq<u8> {
    framed(magic, payload, seq).push(check_byte(framed(magic, payload, seq))).push(trailer)
}

/// The whole outgoing buffer: report ID, sealed frame, zeros.
pub open spec fn outgoing(payload: Seq<u8>, seq: u16) -> Seq<u8> {
    let body = seq![0u8] + sealed(MAGIC_TX, payload, seq, TRAILER_TX);
    body + Seq::new((BUF - body.len()) as nat, |i: int| 0u8)
}

pub fn encode(payload: &[u8], seq: u16) -> (r: Result<[u8; 65], String>)
    ensures
        match r {
            Ok(f) => payload@.len() <= MAX_PAYLOAD && f@ == outgoing(payload@, seq),
            Err(e) => payload@.len() > MAX_PAYLOAD && e@ == "payload "@ + dec_text(
                payload@.len(),
            ) + " exceeds 58"@,
        },
{
    let n: usize = payload.len();
    if n > MAX_PAYLOAD {
        return Err("payload ".to_owned().concat(dec(n as u64).as_str()).concat(" exceeds 58"));
    }
    let mut f: [u8; 65] = [0u8; 65];
    f[1] = MAGIC_TX;
    f[2] = (n + 6) as u8;
    f[3] = (seq % 256) as u8;
    f[4] = (seq / 256) as u8;
    let mut i: usize = 0;
    while i < n
        invariant
            i <= n <= MAX_PAYLOAD,
            n == payload@.len(),
            f@.len() == 65,
            f[0] == 0,
            f[1] == MAGIC_TX,
            f[2] == n + 6,
            f[3] == seq as int % 256,
            f[4] == seq as int / 256,
            forall|k: int| 0 <= k < i ==> f[5 + k] == payload[k],
            forall|k: int| 5 + i <= k < 65 ==> f[k] == 0,
        decreases n - i,
    {
        f[5 + i] = payload[i];
        i += 1;
    }
    assert(f@.subrange(1, n + 5) =~= framed(MAGIC_TX, payload@, seq));
    let c: u8 = checksum(f.as_slice(), n);
    f[5 + n] = c;
    f[6 + n] = TRAILER_TX;
    assert(f@ =~= outgoing(payload@, seq));
    Ok(f)
}

// ---- in ----

#[derive(Debug)]
pub struct Reply {
    pub payload: Vec<u8>,
    pub seq: u16,
    pub checksum_ok: bool,
    pub trailer_ok: bool,
}

/// What a reply says.
pub struct ReplyModel {
    pub payload: Seq<u8>,
    pub seq: u16,
    pub checksum_ok: bool,
    pub trailer_ok: bool,
}

impl View for Reply {
    type V = ReplyModel;

    open spec fn view(&self) -> ReplyModel {
        ReplyModel {
            payload: self.payload@,
            seq: self.seq,
            checksum_ok: self.checksum_ok,
            trailer_ok: self.trailer_ok,
        }
    }
}

/// What a report, or several in a row, decode to. The length byte counts from
/// the direction magic to the trailer.
pub open spec fn decoded(report: Seq<u8>) -> Result<ReplyModel, Seq<char>> {
    if report.len() < 7 {
        Err("short report ("@ + dec_text(report.len()) + " bytes)"@)
    } else if report[0] != MAGIC_RX {
        Err("magic 0x"@ + hex2(report[0]) + ", expected 0x02"@)
    } else if report[1] < 6 || report[1] > report.len() {
        Err("implausible length byte 0x"@ + hex2(report[1]))
    } else {
        let len = report[1] as int;
        Ok(
            ReplyModel {
                payload: report.subrange(4, len - 2),
                seq: (report[2] + 256 * report[3]) as u16,
                checksum_ok: report[len - 2] == check_byte(report.subrange(0, len - 2)),
                trailer_ok: report[len - 1] == TRAILER_RX,
            },
        )
    }
}

/// A result seen through the views of its two sides.
pub open spec fn reply_result(r: Result<Reply, String>) -> Result<ReplyModel, Seq<char>> {
    match r {
        Ok(d) => Ok(d@),
        Err(e) => Err(e@),
    }
}

/// Replies carry no report-ID byte, so every offset is one lower than in
/// `encode`.
pub fn decode(report: &[u8]) -> (r: Result<Reply, String>)
    ensures
        reply_result(r) == decoded(report@),
{
    let total: usize = report.len();
    if total < 7 {
        return Err("short report (".to_owned().concat(dec(total as u64).as_str()).concat(" bytes)"));
    }
    if report[0] != MAGIC_RX {
        return Err(
            "magic 0x".to_owned().concat(hex2_string(report[0]).as_str()).concat(", expected 0x02"),
        );
    }
    let len: usize = report[1] as usize;
    if len < 6 || len > total {
        return Err(
            "implausible length byte 0x".to_owned().concat(hex2_string(report[1]).as_str()),
        );
    }
    let payload = vstd::slice::slice_to_vec(vstd::slice::slice_subrange(report, 4, len - 2));
    Ok(
        Reply {
            payload,
            seq: report[2] as u16 + 256 * report[3] as u16,
            checksum_ok: report[len - 2] == complement(report, 0, len - 2),
            trailer_ok: report[len - 1] == TRAILER_RX,
        },
    )
}

// ---- several reports ----

/// What a list of byte vectors holds.
pub open spec fn chunks(v: Seq<Vec<u8>>) -> Seq<Seq<u8>> {
    v.map_values(|c: Vec<u8>| c@)
}

/// Reports in a row as one run of bytes.
pub open spec fn run_together(reports: Seq<Seq<u8>>) -> Seq<u8>
    decreases reports.len(),
{
    if reports.len() == 0 {
        Seq::empty()
    } else {
        run_together(reports.drop_last()) + reports.last()
    }
}

/// The first report decoded on its own or, where that fails and there are
/// more, all of them together.
pub open spec fn decoded_all(reports: Seq<Seq<u8>>) -> Result<ReplyModel, Seq<char>> {
    if reports.len() == 0 {
        Err("no reply"@)
    } else if decoded(reports[0]) is Err && reports.len() > 1 {
        decoded(run_together(reports))
    } else {
        decoded(reports[0])
    }
}

fn concat_reports(reports: &[Vec<u8>]) -> (r: Vec<u8>)
    ensures
        r@ == run_together(chunks(reports@)),
{
    let mut out: Vec<u8> = Vec::new();
    let n: usize = reports.len();
    let mut i: usize = 0;
    assert(chunks(reports@).take(0) =~= Seq::empty());
    while i < n
        invariant
            i <= n == reports@.len(),
            out@ == run_together(chunks(reports@).take(i as int)),
        decreases n - i,
    {
        let ghost before = out@;
        out.extend_from_slice(reports[i].as_slice());
        assert(chunks(reports@).take(i + 1).drop_last() =~= chunks(reports@).take(i as int));
        assert(out@ =~= before + reports@[i as int]@);
        i += 1;
    }
    assert(chunks(reports@).take(n as int) =~= chunks(reports@));
    out
}

/// Decode the first frame, falling back to the concatenation of every report
/// when the length byte announces more than one holds.
pub fn decode_reply(reports: &[Vec<u8>]) -> (r: Result<Reply, String>)
    ensures
        reply_result(r) == decoded_all(chunks(reports@)),
{
    if reports.len() == 0 {
        return Err("no reply".to_owned());
    }
    assert(chunks(reports@)[0] == reports@[0]@);
    match decode(reports[0].as_slice()) {
        Ok(d) => Ok(d),
        Err(e) => {
            if reports.len() > 1 {
                let all = concat_reports(reports);
                decode(all.as_slice())
            } else {
                Err(e)
            }
        },
    }
}

// ---- laws ----

/// The frame a reader answers with.
pub open spec fn incoming(payload: Seq<u8>, seq: u16) -> Seq<u8> {
    sealed(MAGIC_RX, payload, seq, TRAILER_RX)
}

/// An answer in the reader's framing decodes to the payload and the sequence
/// number it was made from, checksum and trailer in order, whatever follows
/// it in the report.
pub proof fn incoming_decodes(payload: Seq<u8>, seq: u16, rest: Seq<u8>)
    requires
        payload.len() + 6 <= 255,
        payload.len() + rest.len() > 0,
    ensures
        decoded(incoming(payload, seq) + rest) == Ok::<ReplyModel, Seq<char>>(
            ReplyModel { payload, seq, checksum_ok: true, trailer_ok: true },
        ),
{
    let r = incoming(payload, seq) + rest;
    let n = payload.len() as int;
    assert(r[0] == MAGIC_RX);
    assert(r[1] == n + 6);
    assert(r[2] == seq as int % 256 && r[3] == seq as int / 256);
    assert(r.subrange(4, n + 4) =~= payload);
    assert(r.subrange(0, n + 4) =~= framed(MAGIC_RX, payload, seq));
    assert(r[n + 4] == check_byte(framed(MAGIC_RX, payload, seq)));
    assert(r[n + 5] == TRAILER_RX);
}

/// Every report that goes out has one length, the report's, plus the report-ID
/// byte, and its length byte counts payload and framing.
pub proof fn outgoing_fills_the_report(payload: Seq<u8>, seq: u16)
    requires
        payload.len() <= MAX_PAYLOAD,
    ensures
        outgoing(payload, seq).len() == REPORT + 1,
        outgoing(payload, seq)[0] == 0,
        outgoing(payload, seq)[2] == payload.len() + 6,
        outgoing(payload, seq).subrange(5, 5 + payload.len() as int) == payload,
{
    assert(outgoing(payload, seq).subrange(5, 5 + payload.len() as int) =~= payload);
}

proof fn lemma_sum_update(s: Seq<u8>, i: int, b: u8)
    requires
        0 <= i < s.len(),
    ensures
        byte_sum(s.update(i, b)) == byte_sum(s) - s[i] + b,
    decreases s.len(),
{
    let t = s.update(i, b);
    if i == s.len() - 1 {
        assert(t.drop_last() =~= s.drop_last());
    } else {
        assert(t.drop_last() =~= s.drop_last().update(i, b));
        lemma_sum_update(s.drop_last(), i, b);
    }
}

/// A reply in which one byte of the payload was changed on the way still
/// decodes, and its checksum is reported bad, whatever follows it in the report.
pub proof fn one_changed_byte_shows(payload: Seq<u8>, seq: u16, rest: Seq<u8>, i: int, b: u8)
    requires
        0 <= i < payload.len(),
        payload.len() + 6 <= 255,
        b != payload[i],
    ensures
        decoded(incoming(payload, seq).update(4 + i, b) + rest) == Ok::<ReplyModel, Seq<char>>(
            ReplyModel {
                payload: payload.update(i, b),
                seq,
                checksum_ok: false,
                trailer_ok: true,
            },
        ),
{
    let r = incoming(payload, seq);
    let t = r.update(4 + i, b) + rest;
    let n = payload.len() as int;
    let f = framed(MAGIC_RX, payload, seq);
    assert(t.subrange(4, n + 4) =~= payload.update(i, b));
    assert(t.subrange(0, n + 4) =~= f.update(4 + i, b));
    lemma_sum_update(f, 4 + i, b);
    assert(f[4 + i] == payload[i]);
    assert(t[n + 4] == check_byte(f));
}

/// Sums of bytes add up, whatever the bytes are split into.
pub proof fn sums_add_up(a: Seq<u8>, b: Seq<u8>, x: u8)
    ensures
        byte_sum(Seq::empty()) == 0,
        byte_sum(seq![x]) == x,
        byte_sum(a + b) == byte_sum(a) + byte_sum(b),
    decreases b.len(),
{
    reveal_with_fuel(byte_sum, 2);
    assert(seq![x].drop_last() =~= Seq::empty());
    if b.len() == 0 {
        assert(a + b =~= a);
    } else {
        assert((a + b).drop_last() =~= a + b.drop_last());
        sums_add_up(a, b.drop_last(), x);
    }
}

/// What stands where in a report that goes out: the direction, the length, the
/// number of the command low byte first, the payload, a checksum that brings
/// the sum of all these to one less than a whole number of 256s, the trailer,
/// and nothing more.
pub proof fn a_report_that_goes_out(payload: Seq<u8>, seq: u16, i: int)
    requires
        payload.len() <= 58,
    ensures
        ({
            let f = outgoing(payload, seq);
            let n = payload.len() as int;
            &&& f.len() == 65
            &&& f[0] == 0
            &&& f[1] == 0x01
            &&& f[2] == n + 6
            &&& f[3] + 256 * f[4] == seq
            &&& f.subrange(5, 5 + n) == payload
            &&& byte_sum(f.subrange(1, 6 + n)) % 256 == 255
            &&& f[6 + n] == 0xfe
            &&& 7 + n <= i < 65 ==> f[i] == 0
        }),
{
    let f = outgoing(payload, seq);
    let n = payload.len() as int;
    assert(f.subrange(5, 5 + n) =~= payload);
    let whole = f.subrange(1, 6 + n);
    assert(whole.drop_last() =~= framed(MAGIC_TX, payload, seq));
    assert(whole.last() == check_byte(framed(MAGIC_TX, payload, seq)));
}

/// What a report that comes in decodes to, by its bytes: it needs seven of
/// them, the direction `02` and a length that the report can hold. The number
/// is low byte first, the payload lies between number and checksum, and the
/// checksum is good exactly if it brings the sum to one less than a whole
/// number of 256s.
pub proof fn a_report_that_comes_in(r: Seq<u8>)
    ensures
        decoded(r) is Ok <==> r.len() >= 7 && r[0] == 0x02 && 6 <= r[1] <= r.len(),
        decoded(r) matches Ok(d) ==> {
            let n = r[1] - 6;
            &&& d.payload == r.subrange(4, 4 + n)
            &&& d.seq == r[2] + 256 * r[3]
            &&& d.checksum_ok <==> byte_sum(r.subrange(0, 5 + n)) % 256 == 255
            &&& d.trailer_ok <==> r[5 + n] == 0xfd
        },
{
    if decoded(r) is Ok {
        let n = r[1] - 6;
        let whole = r.subrange(0, 5 + n);
        assert(whole.drop_last() =~= r.subrange(0, 4 + n));
        assert(whole.last() == r[4 + n]);
    }
}

/// Reports run together are their bytes, one report after the other.
pub proof fn reports_run_together(a: Seq<Seq<u8>>, b: Seq<Seq<u8>>, r: Seq<u8>)
    ensures
        run_together(Seq::empty()) == Seq::<u8>::empty(),
        run_together(seq![r]) == r,
        run_together(a + b) == run_together(a) + run_together(b),
    decreases b.len(),
{
    reveal_with_fuel(run_together, 2);
    assert(seq![r].drop_last() =~= Seq::empty());
    assert(run_together(seq![r]) =~= r);
    if b.len() == 0 {
        assert(a + b =~= a);
        assert(run_together(a) + run_together(b) =~= run_together(a));
    } else {
        assert((a + b).drop_last() =~= a + b.drop_last());
        reports_run_together(a, b.drop_last(), r);
        assert(run_together(a + b) =~= run_together(a) + run_together(b));
    }
}

/// A reply that does not fit one report is put together from two, cut wherever
/// its first report ends. One that fits is read from its first report, whatever
/// comes after.
pub proof fn a_long_reply_is_put_together(payload: Seq<u8>, seq: u16, cut: int, more: Seq<Seq<u8>>)
    requires
        0 < payload.len() <= 249,
        7 <= cut < payload.len() + 6,
    ensures
        decoded_all(
            seq![
                incoming(payload, seq).take(cut),
                incoming(payload, seq).skip(cut),
            ],
        ) == Ok::<ReplyModel, Seq<char>>(
            ReplyModel { payload, seq, checksum_ok: true, trailer_ok: true },
        ),
        decoded_all(seq![incoming(payload, seq)] + more) == Ok::<ReplyModel, Seq<char>>(
            ReplyModel { payload, seq, checksum_ok: true, trailer_ok: true },
        ),
{
    let f = incoming(payload, seq);
    let a = f.take(cut);
    let b = f.skip(cut);
    assert(a[1] == payload.len() + 6);
    assert(decoded(a) is Err);
    reports_run_together(seq![a], seq![b], a);
    reports_run_together(seq![a], seq![b], b);
    assert(seq![a] + seq![b] =~= seq![a, b]);
    assert(a + b =~= f);
    incoming_decodes(payload, seq, Seq::empty());
    assert(f + Seq::empty() =~= f);
    assert((seq![f] + more)[0] == f);
}

/// A frame that the reader answers with, by its bytes.
pub proof fn an_answering_frame(payload: Seq<u8>, seq: u16)
    requires
        payload.len() <= 249,
    ensures
        ({
            let f = incoming(payload, seq);
            let n = payload.len() as int;
            &&& f.len() == n + 6
            &&& f[0] == 0x02
            &&& f[1] == n + 6
            &&& f[2] + 256 * f[3] == seq
            &&& f.subrange(4, 4 + n) == payload
            &&& byte_sum(f.take(5 + n)) % 256 == 255
            &&& f[5 + n] == 0xfd
        }),
{
    let f = incoming(payload, seq);
    let n = payload.len() as int;
    assert(f.subrange(4, 4 + n) =~= payload);
    assert(f.take(5 + n).drop_last() =~= framed(MAGIC_RX, payload, seq));
}

/// The views keep what they view: a reply its payload, its number and both
/// flags, a list of reports each report in order.
pub proof fn views_keep_replies(r: Reply, e: String, v: Seq<Vec<u8>>, i: int)
    requires
        0 <= i < v.len(),
    ensures
        r@.payload == r.payload@,
        r@.seq == r.seq,
        r@.checksum_ok == r.checksum_ok,
        r@.trailer_ok == r.trailer_ok,
        reply_result(Ok(r)) == Ok::<ReplyModel, Seq<char>>(r@),
        reply_result(Err(e)) == Err::<ReplyModel, Seq<char>>(e@),
        chunks(v).len() == v.len(),
        chunks(v)[i] == v[i]@,
{
}

/// What is wrong with a report is said, with the byte or the number at fault.
pub proof fn bad_reports_are_named(r: Seq<u8>)
    ensures
        r.len() < 7 ==> decoded(r) == Err::<ReplyModel, Seq<char>>(
            "short report ("@ + dec_text(r.len()) + " bytes)"@,
        ),
        r.len() >= 7 && r[0] != 0x02 ==> decoded(r) == Err::<ReplyModel, Seq<char>>(
            "magic 0x"@ + hex2(r[0]) + ", expected 0x02"@,
        ),
        r.len() >= 7 && r[0] == 0x02 && !(6 <= r[1] <= r.len()) ==> decoded(r) == Err::<
            ReplyModel,
            Seq<char>,
        >("implausible length byte 0x"@ + hex2(r[1])),
        decoded_all(Seq::empty()) == Err::<ReplyModel, Seq<char>>("no reply"@),
{
}

/// The device that is spoken to, and how much a report carries: its bytes but
/// for direction, length, number, checksum and trailer.
pub proof fn the_device_and_its_reports()
    ensures
        VID == 0x2518,
        PID == 0x6018,
        REPORT == 64,
        BUF == REPORT + 1,
        MAX_PAYLOAD == REPORT - 6,
{
}

} // verus!
