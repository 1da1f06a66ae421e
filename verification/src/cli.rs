//! The subcommands. Each one is lines to print, and for those that take
//! several commands a procedure that says what to ask next.

use crate::frame::{
    chunks, decode_reply, decoded_all, encode, outgoing, Reply, ReplyModel, MAX_PAYLOAD, PID, VID,
};
use crate::hexes::{hex, hex_text};
use crate::reader::{Query, QueryModel};
use crate::text::{
    dec, dec_text, hex4, hex4_string, no_lines, push_text, signed, signed_text, texts,
};
use vstd::prelude::*;

pub mod card;
pub mod tag;

verus! {

// ---- steps ----

/// Where a subcommand goes next: put a command to the reader, stop, or stop
/// with a complaint.
pub enum Go {
    Ask(Query),
    Done,
    Fail(String),
}

pub enum GoModel {
    Ask(QueryModel),
    Done,
    Fail(Seq<char>),
}

impl View for Go {
    type V = GoModel;

    open spec fn view(&self) -> GoModel {
        match self {
            Go::Ask(q) => GoModel::Ask(q@),
            Go::Done => GoModel::Done,
            Go::Fail(e) => GoModel::Fail(e@),
        }
    }
}

/// Lines to print, and where to go from there.
pub struct Step {
    pub lines: Vec<String>,
    pub go: Go,
}

#[verifier::ext_equal]
pub struct StepModel {
    pub lines: Seq<Seq<char>>,
    pub go: GoModel,
}

impl View for Step {
    type V = StepModel;

    open spec fn view(&self) -> StepModel {
        StepModel { lines: texts(self.lines@), go: self.go@ }
    }
}

/// A step that prints nothing.
pub open spec fn quiet_of(go: GoModel) -> StepModel {
    StepModel { lines: Seq::empty(), go }
}

/// A step that prints one line.
pub open spec fn tell_of(line: Seq<char>, go: GoModel) -> StepModel {
    StepModel { lines: seq![line], go }
}

pub fn quiet(go: Go) -> (r: Step)
    ensures
        r@ == quiet_of(go@),
{
    Step { lines: no_lines(), go }
}

pub fn tell(line: String, go: Go) -> (r: Step)
    ensures
        r@ == tell_of(line@, go@),
{
    Step { lines: crate::text::one_line(line), go }
}

/// Lines, or why there are none.
pub open spec fn lines_result(r: Result<Vec<String>, String>) -> Result<
    Seq<Seq<char>>,
    Seq<char>,
> {
    match r {
        Ok(v) => Ok(texts(v@)),
        Err(e) => Err(e@),
    }
}

// ---- one payload there and back ----

/// What is shown of a payload before it goes out: the payload, and its frame
/// as far as the trailer, numbered nought.
pub open spec fn sent_lines_of(payload: Seq<u8>) -> Result<Seq<Seq<char>>, Seq<char>> {
    if payload.len() > MAX_PAYLOAD {
        Err("payload "@ + dec_text(payload.len()) + " exceeds 58"@)
    } else {
        Ok(
            seq![
                "TX payload "@ + hex_text(payload),
                "TX frame   "@ + hex_text(outgoing(payload, 0).take(payload.len() as int + 7)),
            ],
        )
    }
}

pub fn sent_lines(payload: &[u8]) -> (r: Result<Vec<String>, String>)
    ensures
        lines_result(r) == sent_lines_of(payload@),
{
    match encode(payload, 0) {
        Err(e) => Err(e),
        Ok(frame) => {
            let n: usize = payload.len();
            let shown = vstd::slice::slice_subrange(frame.as_slice(), 0, n + 7);
            assert(shown@ =~= outgoing(payload@, 0).take(n + 7));
            let mut v = no_lines();
            push_text(&mut v, "TX payload ".to_owned().concat(hex(payload).as_str()));
            push_text(&mut v, "TX frame   ".to_owned().concat(hex(shown).as_str()));
            assert(texts(v@) =~= sent_lines_of(payload@)->Ok_0);
            Ok(v)
        },
    }
}

pub open spec fn verdict_of(ok: bool) -> Seq<char> {
    if ok {
        "ok"@
    } else {
        "BAD"@
    }
}

fn verdict(ok: bool) -> (r: &'static str)
    ensures
        r@ == verdict_of(ok),
{
    if ok {
        "ok"
    } else {
        "BAD"
    }
}

/// A decoded reply on one line.
pub open spec fn reply_line_of(d: ReplyModel) -> Seq<char> {
    "RX payload "@ + hex_text(d.payload) + "  seq="@ + dec_text(d.seq as nat) + " cksum="@
        + verdict_of(d.checksum_ok) + " trailer="@ + verdict_of(d.trailer_ok)
}

fn reply_line(d: &Reply) -> (r: String)
    ensures
        r@ == reply_line_of(d@),
{
    "RX payload ".to_owned().concat(hex(d.payload.as_slice()).as_str()).concat("  seq=").concat(
        dec(d.seq as u64).as_str(),
    ).concat(" cksum=").concat(verdict(d.checksum_ok)).concat(" trailer=").concat(
        verdict(d.trailer_ok),
    )
}

/// The reports as they came.
pub open spec fn report_lines_of(reports: Seq<Seq<u8>>) -> Seq<Seq<char>> {
    Seq::new(
        reports.len(),
        |i: int| "RX raw["@ + dec_text(i as nat) + "]  "@ + hex_text(reports[i]),
    )
}

/// What is shown of the reports that came back. Silence is itself a result.
pub open spec fn heard_lines_of(reports: Seq<Seq<u8>>, timeout: int) -> Seq<Seq<char>> {
    if reports.len() == 0 {
        seq!["\nno reply within "@ + signed_text(timeout) + "ms"@]
    } else {
        report_lines_of(reports).push(
            match decoded_all(reports) {
                Ok(d) => reply_line_of(d),
                Err(e) => "RX undecoded: "@ + e,
            },
        )
    }
}

pub fn heard_lines(reports: &Vec<Vec<u8>>, timeout: i32) -> (r: Vec<String>)
    ensures
        texts(r@) == heard_lines_of(chunks(reports@), timeout as int),
{
    let mut v = no_lines();
    let n: usize = reports.len();
    if n == 0 {
        push_text(
            &mut v,
            "\nno reply within ".to_owned().concat(signed(timeout).as_str()).concat("ms"),
        );
        return v;
    }
    let ghost all = chunks(reports@);
    assert(report_lines_of(all).take(0) =~= Seq::empty());
    let mut i: usize = 0;
    while i < n
        invariant
            i <= n == reports@.len(),
            all == chunks(reports@),
            texts(v@) == report_lines_of(all).take(i as int),
        decreases n - i,
    {
        push_text(
            &mut v,
            "RX raw[".to_owned().concat(dec(i as u64).as_str()).concat("]  ").concat(
                hex(reports[i].as_slice()).as_str(),
            ),
        );
        i += 1;
        assert(report_lines_of(all).take(i as int) =~= report_lines_of(all).take(i - 1).push(
            report_lines_of(all)[i - 1],
        ));
    }
    assert(report_lines_of(all).take(n as int) =~= report_lines_of(all));
    match decode_reply(reports.as_slice()) {
        Ok(d) => push_text(&mut v, reply_line(&d)),
        Err(e) => push_text(&mut v, "RX undecoded: ".to_owned().concat(e.as_str())),
    }
    v
}

// ---- devices ----

/// The device is a reader that this library speaks to.
pub fn is_reader(vid: u16, pid: u16) -> (r: bool)
    ensures
        r == (vid == VID && pid == PID),
{
    vid == VID && pid == PID
}

pub open spec fn or_unknown(s: Option<&str>) -> Seq<char> {
    match s {
        Some(s) => s@,
        None => "?"@,
    }
}

/// One device on a line.
pub fn device_line(
    vid: u16,
    pid: u16,
    manufacturer: Option<&str>,
    product: Option<&str>,
    usage_page: u16,
    usage: u16,
) -> (r: String)
    ensures
        r@ == hex4(vid) + ":"@ + hex4(pid) + "  "@ + or_unknown(manufacturer) + "  "@ + or_unknown(
            product,
        ) + "  usage_page=0x"@ + hex4(usage_page) + " usage=0x"@ + hex4(usage),
{
    let m: &str = match manufacturer {
        Some(s) => s,
        None => "?",
    };
    let p: &str = match product {
        Some(s) => s,
        None => "?",
    };
    hex4_string(vid).concat(":").concat(hex4_string(pid).as_str()).concat("  ").concat(m).concat(
        "  ",
    ).concat(p).concat("  usage_page=0x").concat(hex4_string(usage_page).as_str()).concat(
        " usage=0x",
    ).concat(hex4_string(usage).as_str())
}

/// What is said when no reader is there.
pub fn no_device_line() -> (r: String)
    ensures
        r@ == "no "@ + hex4(VID) + ":"@ + hex4(PID) + " device found"@,
{
    "no ".to_owned().concat(hex4_string(VID).as_str()).concat(":").concat(
        hex4_string(PID).as_str(),
    ).concat(" device found")
}

/// What is said when the reader cannot be opened.
pub fn open_fault(e: &str) -> (r: String)
    ensures
        r@ == "cannot open "@ + hex4(VID) + ":"@ + hex4(PID) + ": "@ + e@
            + "\nIs the reader plugged in with a data cable?"@,
{
    "cannot open ".to_owned().concat(hex4_string(VID).as_str()).concat(":").concat(
        hex4_string(PID).as_str(),
    ).concat(": ").concat(e).concat("\nIs the reader plugged in with a data cable?")
}

// ---- watching ----

/// What a watch remembers of the pad.
pub struct Watch {
    pub last: Option<[u8; 5]>,
    /// Polls in a row that brought nothing.
    pub misses: u32,
}

pub struct WatchModel {
    pub last: Option<Seq<u8>>,
    pub misses: int,
}

impl View for Watch {
    type V = WatchModel;

    open spec fn view(&self) -> WatchModel {
        WatchModel { last: crate::command::id_view(self.last), misses: self.misses as int }
    }
}

/// The watch after a poll, and whether there is a change to report. One
/// silence is a dropped command more often than a removal.
pub open spec fn watched(w: WatchModel, now: Option<Seq<u8>>) -> (WatchModel, bool) {
    let misses = if now is Some {
        0
    } else if w.misses < u32::MAX {
        w.misses + 1
    } else {
        w.misses
    };
    if now is None && misses < 2 || now == w.last {
        (WatchModel { misses, ..w }, false)
    } else {
        (WatchModel { misses, last: now }, true)
    }
}

fn same_id(a: Option<[u8; 5]>, b: Option<[u8; 5]>) -> (r: bool)
    ensures
        r == (crate::command::id_view(a) == crate::command::id_view(b)),
{
    match (a, b) {
        (None, None) => true,
        (Some(a), Some(b)) => crate::em4100::same_id(a, b),
        _ => false,
    }
}

impl Watch {
    pub fn new() -> (r: Watch)
        ensures
            r@ == (WatchModel { last: None, misses: 0 }),
    {
        Watch { last: None, misses: 0 }
    }

    pub fn see(&mut self, now: Option<[u8; 5]>) -> (r: bool)
        ensures
            (final(self)@, r) == watched(old(self)@, crate::command::id_view(now)),
    {
        self.misses = match now {
            Some(_) => 0,
            None => self.misses.saturating_add(1),
        };
        if now.is_none() && self.misses < 2 {
            return false;
        }
        if same_id(now, self.last) {
            false
        } else {
            self.last = now;
            true
        }
    }
}

/// What a change looks like.
pub fn change_line(now: Option<[u8; 5]>) -> (r: String)
    ensures
        r@ == match now {
            Some(id) => hex_text(id@),
            None => "clear"@,
        },
{
    match now {
        Some(id) => hex(id.as_slice()),
        None => "clear".to_owned(),
    }
}

/// A single silence while a tag lies on the pad is never reported as its
/// removal.
pub proof fn one_silence_is_no_removal(w: WatchModel, id: Seq<u8>)
    ensures
        ({
            let (seen, _) = watched(w, Some(id));
            let (after, told) = watched(seen, None);
            !told && after.last == Some(id)
        }),
{
}

/// What is reported is always a change: the pad as last reported differs from
/// the pad now.
pub proof fn only_changes_are_reported(w: WatchModel, now: Option<Seq<u8>>)
    ensures
        watched(w, now).1 ==> w.last != now && watched(w, now).0.last == now,
        !watched(w, now).1 ==> watched(w, now).0.last == w.last,
{
}

// ---- going ahead ----

/// Nothing that changes a tag goes ahead without a yes, and with one it does:
/// what a preview hands on to be sent is there exactly then.
pub proof fn nothing_is_sent_without_a_yes(
    text: Seq<char>,
    blk: u8,
    code: Option<u8>,
    flag: bool,
    yes: bool,
)
    ensures
        tag::write_preview_of(text, flag, yes) matches Ok((id, _)) ==> (id is Some <==> yes),
        tag::write_block_preview_of(blk, text, yes) matches Ok((p, _)) ==> (p is Some <==> yes),
        tag::wipe_preview_of(yes).0 <==> yes,
        tag::probe_preview_of(code, flag, yes).0 is Some <==> yes,
        card::hf_write_preview_of(blk, text, flag, yes) matches Ok((d, _)) ==> (d is Some <==> yes),
{
}

// ---- laws ----

/// A payload is shown as it is, and then as the frame that carries it, from the
/// report ID to the trailer. One too long for a frame is refused with its
/// length.
pub proof fn a_payload_is_shown_with_its_frame(p: Seq<u8>)
    ensures
        sent_lines_of(p) is Ok <==> p.len() <= 58,
        sent_lines_of(p) matches Ok(v) ==> v.len() == 2 && v[0] == "TX payload "@ + hex_text(p)
            && v[1] == "TX frame   "@ + hex_text(outgoing(p, 0).take(p.len() as int + 7)),
        sent_lines_of(p) matches Err(e) ==> e == "payload "@ + dec_text(p.len()) + " exceeds 58"@,
{
}

/// Every report that came is shown with its number, from nought on, and below
/// them what they decode to: payload, number, and whether checksum and trailer
/// are good. Silence is said with the time waited.
pub proof fn reports_are_shown_as_they_came(reports: Seq<Seq<u8>>, timeout: int, i: int)
    requires
        0 <= i < reports.len(),
    ensures
        ({
            let v = heard_lines_of(reports, timeout);
            &&& v.len() == reports.len() + 1
            &&& v[i] == "RX raw["@ + dec_text(i as nat) + "]  "@ + hex_text(reports[i])
            &&& decoded_all(reports) matches Ok(d) ==> v.last() == "RX payload "@ + hex_text(
                d.payload,
            ) + "  seq="@ + dec_text(d.seq as nat) + " cksum="@ + (if d.checksum_ok {
                "ok"@
            } else {
                "BAD"@
            }) + " trailer="@ + (if d.trailer_ok {
                "ok"@
            } else {
                "BAD"@
            })
            &&& decoded_all(reports) matches Err(e) ==> v.last() == "RX undecoded: "@ + e
        }),
        heard_lines_of(Seq::empty(), timeout) == seq![
            "\nno reply within "@ + signed_text(timeout) + "ms"@,
        ],
{
}

/// A watch reports a new ID as soon as it reads, and a tag that went away once
/// two polls in a row have brought nothing. An ID that is there already is not
/// reported again.
pub proof fn a_watch_reports_what_comes_and_goes(w: WatchModel, id: Seq<u8>)
    requires
        w.misses >= 0,
    ensures
        w.last != Some(id) ==> watched(w, Some(id)) == (
            WatchModel { last: Some(id), misses: 0 },
            true,
        ),
        w.last == Some(id) ==> watched(w, Some(id)) == (
            WatchModel { last: Some(id), misses: 0 },
            false,
        ),
        ({
            let (one, told) = watched(watched(w, Some(id)).0, None);
            let (two, gone) = watched(one, None);
            let (three, again) = watched(two, None);
            &&& !told && one.last == Some(id)
            &&& gone && two.last is None
            &&& !again && three.last is None
        }),
{
}

/// A step prints the one line it is given, or none, and goes where it is told.
pub proof fn steps_say_what_they_are_given(line: Seq<char>, go: GoModel)
    ensures
        tell_of(line, go).lines == seq![line],
        tell_of(line, go).go == go,
        quiet_of(go).lines.len() == 0,
        quiet_of(go).go == go,
{
}

/// The views keep what they view.
pub proof fn views_keep_steps(q: Query, e: String, s: Step, w: Watch, v: Vec<String>)
    ensures
        Go::Ask(q)@ == GoModel::Ask(q@),
        Go::Done@ == GoModel::Done,
        Go::Fail(e)@ == GoModel::Fail(e@),
        s@.lines == texts(s.lines@),
        s@.go == s.go@,
        lines_result(Ok(v)) == Ok::<Seq<Seq<char>>, Seq<char>>(texts(v@)),
        lines_result(Err(e)) == Err::<Seq<Seq<char>>, Seq<char>>(e@),
        w@.misses == w.misses,
        w@.last == crate::command::id_view(w.last),
{
}

} // verus!
