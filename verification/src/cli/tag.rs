//! The subcommands for 125 kHz tags.

use crate::cli::{quiet, quiet_of, tell, tell_of, Go, GoModel, Step, StepModel};
use crate::command::{
    id_view, lf_probe, lf_probe_payload, lf_write_block, lf_write_block_payload, LF_CARRIER,
};
use crate::em4100::{
    frame_bytes, frame_bytes_of, plan_of, plan_view, same_id, write_plan, T5577_EM4100,
};
use crate::frame::reply_result;
use crate::hexes::{exact_value, hex, hex_text, unhex_exact};
use crate::lf::{
    arm_query, arm_sampler, block_query, burn_query, fetch_query, fetch_samples, found_view, lf_samples,
    ones, ones_of, payload, payload_of, samples_of, sweep_hit, sweep_query, wipe_plan,
    wipe_plan_of, Answer, AnswerModel, Found, FoundModel, Quick, Sweep,
};
use crate::reader::{surely, Query, QueryModel, Reader};
use crate::text::{
    dec, dec_text, hex2, hex2_string, joined, no_lines, one_line, push_text, texts,
};
use crate::worker::sweep_of;
use vstd::prelude::*;

verus! {

// ---- read ----

/// What a sweep comes to.
pub open spec fn read_line_of(f: Option<FoundModel>) -> Seq<char> {
    match f {
        Some((id, freq, lc)) => dec_text(freq as nat) + " Hz  lc "@ + hex2(lc) + "  ID "@
            + hex_text(id),
        None => "No ID in any profile. Is the tag flat on the pad?"@,
    }
}

fn read_line(f: Option<Found>) -> (r: String)
    ensures
        r@ == read_line_of(found_view(f)),
{
    match f {
        Some((id, freq, lc)) => dec(freq as u64).concat(" Hz  lc ").concat(
            hex2_string(lc).as_str(),
        ).concat("  ID ").concat(hex(id.as_slice()).as_str()),
        None => "No ID in any profile. Is the tag flat on the pad?".to_owned(),
    }
}

/// `read`: sweep until an ID turns up.
pub struct ReadRun {
    pub sweep: Sweep,
}

/// The first step of a read. With no sweep asked for, nothing is found.
pub open spec fn read_begun(tries: u32) -> StepModel {
    if tries > 0 {
        quiet_of(GoModel::Ask(sweep_query(0)))
    } else {
        tell_of(read_line_of(None), GoModel::Done)
    }
}

/// The sweep, moved on by an answer.
pub open spec fn moved(s: Sweep) -> Sweep {
    Sweep { pos: (s.pos + 1) as u64, ..s }
}

pub open spec fn read_answered(s: Sweep, a: AnswerModel) -> StepModel {
    match sweep_hit(s.pos as int, a) {
        Some(f) => tell_of(read_line_of(Some(f)), GoModel::Done),
        None => if s.pos + 1 < s.total {
            quiet_of(GoModel::Ask(sweep_query(s.pos + 1)))
        } else {
            tell_of(read_line_of(None), GoModel::Done)
        },
    }
}

impl ReadRun {
    pub fn begin(tries: u32) -> (r: (ReadRun, Step))
        ensures
            r.0.sweep == sweep_of(tries as int),
            r.1@ == read_begun(tries),
    {
        let sweep = Sweep::new(tries);
        let step = if tries > 0 {
            quiet(Go::Ask(Quick::query()))
        } else {
            tell(read_line(None), Go::Done)
        };
        (ReadRun { sweep }, step)
    }

    pub fn answer(&mut self, a: Answer) -> (r: Step)
        requires
            old(self).sweep.pos < old(self).sweep.total,
        ensures
            final(self).sweep == moved(old(self).sweep),
            r@ == read_answered(old(self).sweep, reply_result(a)),
            r.go is Ask ==> final(self).sweep.pos < final(self).sweep.total,
    {
        let (found, next) = sweep_on(&mut self.sweep, &a);
        match (found, next) {
            (Some(f), _) => tell(read_line(Some(f)), Go::Done),
            (None, Some(q)) => quiet(Go::Ask(q)),
            (None, None) => tell(read_line(None), Go::Done),
        }
    }
}

/// Move a sweep on; what it found, and what it asks next.
fn sweep_on(s: &mut Sweep, a: &Answer) -> (r: (Option<Found>, Option<Query>))
    requires
        old(s).pos < old(s).total,
    ensures
        *final(s) == moved(*old(s)),
        found_view(r.0) == sweep_hit(old(s).pos as int, reply_result(*a)),
        r.1 is Some <==> final(s).pos < final(s).total,
        r.1 is Some ==> r.1->Some_0@ == sweep_query(final(s).pos as int),
{
    let mut sweep = *s;
    let found = sweep.answer(a);
    *s = sweep;
    (found, sweep.query())
}

// ---- write ----

/// What is said of a write before anything is sent.
pub open spec fn preview_lines_of(id: Seq<u8>, config: bool, yes: bool) -> Seq<Seq<char>> {
    let f = frame_bytes_of(id);
    let head = seq!["ID     "@ + hex_text(id), "frame  "@ + hex_text(f)];
    let blocks = (if config {
        head.push(
            "block0 "@ + hex_text(T5577_EM4100@)
                + "  T5577 config: ASK/Manchester, RF/64, 2 blocks"@,
        )
    } else {
        head
    }).push("block1 "@ + hex_text(f.subrange(0, 4))).push("block2 "@ + hex_text(f.subrange(4, 8)));
    if yes {
        blocks
    } else {
        blocks.push("\nNothing written. Add --yes to go ahead."@)
    }
}

fn preview_lines(id: [u8; 5], config: bool, yes: bool) -> (r: Vec<String>)
    ensures
        texts(r@) == preview_lines_of(id@, config, yes),
{
    let f = frame_bytes(id);
    let b1 = vstd::slice::slice_subrange(f.as_slice(), 0, 4);
    let b2 = vstd::slice::slice_subrange(f.as_slice(), 4, 8);
    let mut v = no_lines();
    push_text(&mut v, "ID     ".to_owned().concat(hex(id.as_slice()).as_str()));
    push_text(&mut v, "frame  ".to_owned().concat(hex(f.as_slice()).as_str()));
    if config {
        push_text(
            &mut v,
            "block0 ".to_owned().concat(hex(T5577_EM4100.as_slice()).as_str()).concat(
                "  T5577 config: ASK/Manchester, RF/64, 2 blocks",
            ),
        );
    }
    push_text(&mut v, "block1 ".to_owned().concat(hex(b1).as_str()));
    push_text(&mut v, "block2 ".to_owned().concat(hex(b2).as_str()));
    if !yes {
        push_text(&mut v, "\nNothing written. Add --yes to go ahead.".to_owned());
    }
    v
}

/// The ID to write and what is said of it, or what is wrong with the text.
/// Without a yes there is nothing to write.
pub open spec fn write_preview_of(text: Seq<char>, config: bool, yes: bool) -> Result<
    (Option<Seq<u8>>, Seq<Seq<char>>),
    Seq<char>,
> {
    match exact_value(text, 5, "need 5 hex bytes, got "@) {
        Err(e) => Err(e),
        Ok(id) => Ok(
            (
                if yes {
                    Some(id)
                } else {
                    None
                },
                preview_lines_of(id, config, yes),
            ),
        ),
    }
}

pub open spec fn preview_result(r: Result<(Option<[u8; 5]>, Vec<String>), String>) -> Result<
    (Option<Seq<u8>>, Seq<Seq<char>>),
    Seq<char>,
> {
    match r {
        Ok((id, v)) => Ok((id_view(id), texts(v@))),
        Err(e) => Err(e@),
    }
}

pub fn write_preview(text: &str, config: bool, yes: bool) -> (r: Result<
    (Option<[u8; 5]>, Vec<String>),
    String,
>)
    ensures
        preview_result(r) == write_preview_of(text@, config, yes),
{
    match unhex_exact(text, 5, "need 5 hex bytes, got ") {
        Err(e) => Err(e),
        Ok(v) => {
            let id: [u8; 5] = [v[0], v[1], v[2], v[3], v[4]];
            assert(id@ =~= v@);
            let lines = preview_lines(id, config, yes);
            if yes {
                Ok((Some(id), lines))
            } else {
                Ok((None, lines))
            }
        },
    }
}

#[derive(Clone, Copy, Debug, PartialEq, Eq, Structural)]
pub enum WriteStage {
    /// Reading what is there now.
    Guard,
    Burn,
    /// Reading back.
    Check,
    Over,
}

/// `write`: look at the tag first, write the blocks, read back.
pub struct WriteRun {
    pub stage: WriteStage,
    pub id: [u8; 5],
    pub overwrite: bool,
    pub plan: Vec<(u8, [u8; 4])>,
    pub at: usize,
    pub sweep: Sweep,
}

#[verifier::ext_equal]
pub struct WriteModel {
    pub stage: WriteStage,
    pub id: Seq<u8>,
    pub overwrite: bool,
    pub plan: Seq<(u8, Seq<u8>)>,
    pub at: int,
    pub sweep: Sweep,
}

impl View for WriteRun {
    type V = WriteModel;

    open spec fn view(&self) -> WriteModel {
        WriteModel {
            stage: self.stage,
            id: self.id@,
            overwrite: self.overwrite,
            plan: plan_view(self.plan@),
            at: self.at as int,
            sweep: self.sweep,
        }
    }
}

impl WriteModel {
    pub open spec fn wf(self) -> bool {
        &&& self.plan.len() > 0
        &&& match self.stage {
            WriteStage::Burn => 0 <= self.at < self.plan.len(),
            WriteStage::Over => true,
            _ => self.sweep.pos < self.sweep.total,
        }
    }
}

pub open spec fn write_begun(id: Seq<u8>, config: bool, overwrite: bool) -> (WriteModel, StepModel) {
    (
        WriteModel {
            stage: WriteStage::Guard,
            id,
            overwrite,
            plan: plan_of(id, config),
            at: 0,
            sweep: sweep_of(1),
        },
        quiet_of(GoModel::Ask(sweep_query(0))),
    )
}

/// The first block goes out.
pub open spec fn burn_begun(w: WriteModel, line: Seq<char>) -> (WriteModel, StepModel) {
    (
        WriteModel { stage: WriteStage::Burn, at: 0, ..w },
        tell_of(line, GoModel::Ask(burn_query(w.plan[0].0, w.plan[0].1))),
    )
}

pub open spec fn write_over(w: WriteModel, s: StepModel) -> (WriteModel, StepModel) {
    (WriteModel { stage: WriteStage::Over, ..w }, s)
}

/// What is said when a tag would be overwritten unasked.
pub open spec fn refusal_of(cur: Seq<u8>, id: Seq<u8>) -> Seq<char> {
    "the tag on the pad reads as "@ + hex_text(cur) + ". You asked to write "@ + hex_text(id)
        + ".\nRefusing to overwrite it. Pass --overwrite to go ahead anyway."@
}

/// The guard that keeps a working fob working.
pub open spec fn guard_answered(w: WriteModel, a: AnswerModel) -> (WriteModel, StepModel) {
    let n = WriteModel { sweep: moved(w.sweep), ..w };
    match sweep_hit(w.sweep.pos as int, a) {
        Some((cur, freq, lc)) => if cur == w.id {
            burn_begun(n, "\nAlready reads as "@ + hex_text(cur) + "."@)
        } else if !w.overwrite {
            write_over(
                n,
                quiet_of(GoModel::Fail(refusal_of(cur, w.id))),
            )
        } else {
            burn_begun(n, "\nOverwriting "@ + hex_text(cur) + "."@)
        },
        None => if w.sweep.pos + 1 < w.sweep.total {
            (n, quiet_of(GoModel::Ask(sweep_query(w.sweep.pos + 1))))
        } else {
            burn_begun(n, "\nNo ID reads off the pad now."@)
        },
    }
}

/// The payload of an answer in hex, or the complaint.
pub open spec fn shown_of(a: AnswerModel) -> Seq<char> {
    match payload_of(a) {
        Ok(p) => hex_text(p),
        Err(e) => e,
    }
}

fn shown(a: Answer) -> (r: String)
    ensures
        r@ == shown_of(reply_result(a)),
{
    match payload(a) {
        Ok(p) => hex(p.as_slice()),
        Err(e) => e,
    }
}

pub open spec fn written_line_of(blk: u8, data: Seq<u8>, a: AnswerModel) -> Seq<char> {
    "write block "@ + dec_text(blk as nat) + " "@ + hex_text(data) + "  -> "@ + shown_of(a)
}

/// A block has been answered. Once all have been, read back.
pub open spec fn burn_answered(w: WriteModel, a: AnswerModel) -> (WriteModel, StepModel) {
    let (blk, data) = w.plan[w.at];
    let line = written_line_of(blk, data, a);
    let n = WriteModel { at: w.at + 1, ..w };
    if n.at < n.plan.len() {
        (n, tell_of(line, GoModel::Ask(burn_query(n.plan[n.at].0, n.plan[n.at].1))))
    } else {
        (
            WriteModel { stage: WriteStage::Check, sweep: sweep_of(3), ..n },
            StepModel {
                lines: seq![line, "\nReading back:"@],
                go: GoModel::Ask(sweep_query(0)),
            },
        )
    }
}

/// A write answers `00` whatever happened, so what counts is what reads back.
pub open spec fn check_answered(w: WriteModel, a: AnswerModel) -> (WriteModel, StepModel) {
    let n = WriteModel { sweep: moved(w.sweep), ..w };
    match sweep_hit(w.sweep.pos as int, a) {
        Some((got, freq, lc)) => write_over(
            n,
            tell_of(
                "  "@ + hex_text(got) + "  "@ + (if got == w.id {
                    "matches"@
                } else {
                    "DOES NOT MATCH"@
                }),
                GoModel::Done,
            ),
        ),
        None => if w.sweep.pos + 1 < w.sweep.total {
            (n, quiet_of(GoModel::Ask(sweep_query(w.sweep.pos + 1))))
        } else {
            write_over(n, tell_of("  no ID read back"@, GoModel::Done))
        },
    }
}

pub open spec fn write_answered(w: WriteModel, a: AnswerModel) -> (WriteModel, StepModel) {
    match w.stage {
        WriteStage::Guard => guard_answered(w, a),
        WriteStage::Burn => burn_answered(w, a),
        WriteStage::Check => check_answered(w, a),
        WriteStage::Over => (w, quiet_of(GoModel::Done)),
    }
}

impl WriteRun {
    pub fn begin(id: [u8; 5], config: bool, overwrite: bool) -> (r: (WriteRun, Step))
        ensures
            (r.0@, r.1@) == write_begun(id@, config, overwrite),
            r.0@.wf(),
    {
        let plan = write_plan(id, config);
        let run = WriteRun {
            stage: WriteStage::Guard,
            id,
            overwrite,
            plan,
            at: 0,
            sweep: Sweep::new(1),
        };
        (run, quiet(Go::Ask(Quick::query())))
    }

    fn burn_from_start(&mut self, line: String) -> (r: Step)
        requires
            old(self)@.plan.len() > 0,
        ensures
            (final(self)@, r@) == burn_begun(old(self)@, line@),
            final(self)@.wf(),
    {
        self.stage = WriteStage::Burn;
        self.at = 0;
        let (blk, data) = self.plan[0];
        tell(line, Go::Ask(Reader::lf_write_block(blk, data)))
    }

    fn on_guard(&mut self, a: &Answer) -> (r: Step)
        requires
            old(self)@.wf(),
            old(self).stage is Guard,
        ensures
            (final(self)@, r@) == guard_answered(old(self)@, reply_result(*a)),
            final(self)@.wf(),
    {
        let (found, next) = sweep_on(&mut self.sweep, a);
        match (found, next) {
            (Some((cur, _freq, _lc)), _) => {
                let shown = hex(cur.as_slice());
                if same_id(cur, self.id) {
                    self.burn_from_start(
                        "\nAlready reads as ".to_owned().concat(shown.as_str()).concat("."),
                    )
                } else if !self.overwrite {
                    self.stage = WriteStage::Over;
                    let e = "the tag on the pad reads as ".to_owned().concat(
                        shown.as_str(),
                    ).concat(". You asked to write ").concat(hex(self.id.as_slice()).as_str()).concat(
                        ".\nRefusing to overwrite it. Pass --overwrite to go ahead anyway.",
                    );
                    quiet(Go::Fail(e))
                } else {
                    self.burn_from_start(
                        "\nOverwriting ".to_owned().concat(shown.as_str()).concat("."),
                    )
                }
            },
            (None, Some(q)) => quiet(Go::Ask(q)),
            (None, None) => self.burn_from_start("\nNo ID reads off the pad now.".to_owned()),
        }
    }

    fn on_burn(&mut self, a: Answer) -> (r: Step)
        requires
            old(self)@.wf(),
            old(self).stage is Burn,
        ensures
            (final(self)@, r@) == burn_answered(old(self)@, reply_result(a)),
            final(self)@.wf(),
    {
        let ghost w = self@;
        let total: usize = self.plan.len();
        assert(self.at < total);
        let (blk, data) = self.plan[self.at];
        assert((blk, data@) == w.plan[w.at]);
        let line = "write block ".to_owned().concat(dec(blk as u64).as_str()).concat(" ").concat(
            hex(data.as_slice()).as_str(),
        ).concat("  -> ").concat(shown(a).as_str());
        self.at = self.at + 1;
        if self.at < total {
            let (blk, data) = self.plan[self.at];
            assert((blk, data@) == w.plan[w.at + 1]);
            tell(line, Go::Ask(Reader::lf_write_block(blk, data)))
        } else {
            self.stage = WriteStage::Check;
            self.sweep = Sweep::new(3);
            let mut v = one_line(line);
            push_text(&mut v, "\nReading back:".to_owned());
            Step { lines: v, go: Go::Ask(Quick::query()) }
        }
    }

    fn on_check(&mut self, a: &Answer) -> (r: Step)
        requires
            old(self)@.wf(),
            old(self).stage is Check,
        ensures
            (final(self)@, r@) == check_answered(old(self)@, reply_result(*a)),
            final(self)@.wf(),
    {
        let (found, next) = sweep_on(&mut self.sweep, a);
        match (found, next) {
            (Some((got, _freq, _lc)), _) => {
                self.stage = WriteStage::Over;
                let verdict: &str = if same_id(got, self.id) {
                    "matches"
                } else {
                    "DOES NOT MATCH"
                };
                tell(
                    "  ".to_owned().concat(hex(got.as_slice()).as_str()).concat("  ").concat(
                        verdict,
                    ),
                    Go::Done,
                )
            },
            (None, Some(q)) => quiet(Go::Ask(q)),
            (None, None) => {
                self.stage = WriteStage::Over;
                tell("  no ID read back".to_owned(), Go::Done)
            },
        }
    }

    pub fn answer(&mut self, a: Answer) -> (r: Step)
        requires
            old(self)@.wf(),
        ensures
            (final(self)@, r@) == write_answered(old(self)@, reply_result(a)),
            final(self)@.wf(),
    {
        match self.stage {
            WriteStage::Guard => self.on_guard(&a),
            WriteStage::Burn => self.on_burn(a),
            WriteStage::Check => self.on_check(&a),
            WriteStage::Over => quiet(Go::Done),
        }
    }
}

/// A tag that reads as something else is not overwritten unless that was
/// asked for: no block is written, and the refusal names both IDs.
pub proof fn a_working_tag_is_not_overwritten_unasked(w: WriteModel, a: AnswerModel)
    requires
        w.wf(),
        w.stage is Guard,
        !w.overwrite,
        sweep_hit(w.sweep.pos as int, a) is Some,
        sweep_hit(w.sweep.pos as int, a)->Some_0.0 != w.id,
    ensures
        write_answered(w, a).0.stage is Over,
        write_answered(w, a).1.go == GoModel::Fail(
            refusal_of(sweep_hit(w.sweep.pos as int, a)->Some_0.0, w.id),
        ),
{
}

/// Nothing is written while the guard is still looking: a block goes out only
/// once it has seen the same ID, been told to overwrite, or found nothing.
pub proof fn the_guard_comes_first(w: WriteModel, a: AnswerModel, blk: u8, data: Seq<u8>)
    requires
        w.wf(),
        w.stage is Guard,
        write_answered(w, a).1.go == GoModel::Ask(burn_query(blk, data)),
    ensures
        ({
            let hit = sweep_hit(w.sweep.pos as int, a);
            ||| hit is Some && (hit->Some_0.0 == w.id || w.overwrite)
            ||| hit is None && w.sweep.pos + 1 >= w.sweep.total
        }),
{
    assert(burn_query(blk, data).payload[2] == 0x66);
    assert(sweep_query(w.sweep.pos + 1).payload[2] == 0x65);
}

/// Commands that a write can still send, at most.
pub open spec fn write_left(w: WriteModel) -> int {
    match w.stage {
        WriteStage::Guard => w.sweep.total - w.sweep.pos + w.plan.len() + 30,
        WriteStage::Burn => w.plan.len() - w.at + 30,
        WriteStage::Check => w.sweep.total - w.sweep.pos,
        WriteStage::Over => 0,
    }
}

/// A write comes to an end, whatever the reader answers.
pub proof fn a_write_ends(w: WriteModel, a: AnswerModel)
    requires
        w.wf(),
        !(w.stage is Over),
    ensures
        0 <= write_left(write_answered(w, a).0) < write_left(w),
        write_answered(w, a).1.go is Ask <==> !(write_answered(w, a).0.stage is Over),
{
}

// ---- write-block ----

/// The payload that writes one block or, without a yes, what it would be.
pub open spec fn write_block_preview_of(blk: u8, text: Seq<char>, yes: bool) -> Result<
    (Option<Seq<u8>>, Seq<Seq<char>>),
    Seq<char>,
> {
    match exact_value(text, 4, "need 4 hex bytes, got "@) {
        Err(e) => Err(e),
        Ok(data) => {
            let p = lf_write_block_payload(LF_CARRIER, blk, data);
            Ok(
                if yes {
                    (Some(p), Seq::empty())
                } else {
                    (None, seq!["would send "@ + hex_text(p) + "\n\nAdd --yes to go ahead."@])
                },
            )
        },
    }
}

pub open spec fn bytes_view(b: Option<Vec<u8>>) -> Option<Seq<u8>> {
    match b {
        Some(b) => Some(b@),
        None => None,
    }
}

pub open spec fn payload_preview(r: Result<(Option<Vec<u8>>, Vec<String>), String>) -> Result<
    (Option<Seq<u8>>, Seq<Seq<char>>),
    Seq<char>,
> {
    match r {
        Ok((p, v)) => Ok((bytes_view(p), texts(v@))),
        Err(e) => Err(e@),
    }
}

pub fn write_block_preview(blk: u8, text: &str, yes: bool) -> (r: Result<
    (Option<Vec<u8>>, Vec<String>),
    String,
>)
    ensures
        payload_preview(r) == write_block_preview_of(blk, text@, yes),
{
    match unhex_exact(text, 4, "need 4 hex bytes, got ") {
        Err(e) => Err(e),
        Ok(v) => {
            let data: [u8; 4] = [v[0], v[1], v[2], v[3]];
            assert(data@ =~= v@);
            let p = lf_write_block(LF_CARRIER, blk, data);
            if yes {
                Ok((Some(p), no_lines()))
            } else {
                let lines = one_line(
                    "would send ".to_owned().concat(hex(p.as_slice()).as_str()).concat(
                        "\n\nAdd --yes to go ahead.",
                    ),
                );
                Ok((None, lines))
            }
        },
    }
}

// ---- blocks ----

/// `blocks`: ask after each block up to the last.
pub struct BlocksRun {
    pub blk: u8,
    pub to: u8,
}

pub open spec fn blocks_answered(blk: u8, to: u8, a: AnswerModel) -> (u8, StepModel) {
    let line = "block "@ + dec_text(blk as nat) + "  "@ + shown_of(a);
    if blk < to {
        ((blk + 1) as u8, tell_of(line, GoModel::Ask(block_query((blk + 1) as u8))))
    } else {
        (blk, tell_of(line, GoModel::Done))
    }
}

impl BlocksRun {
    pub fn begin(to: u8) -> (r: (BlocksRun, Step))
        ensures
            r.0.blk == 0,
            r.0.to == to,
            r.1@ == quiet_of(GoModel::Ask(block_query(0))),
    {
        (BlocksRun { blk: 0, to }, quiet(Go::Ask(Reader::lf_read_block(0))))
    }

    pub fn answer(&mut self, a: Answer) -> (r: Step)
        ensures
            final(self).to == old(self).to,
            (final(self).blk, r@) == blocks_answered(old(self).blk, old(self).to, reply_result(a)),
    {
        let line = "block ".to_owned().concat(dec(self.blk as u64).as_str()).concat("  ").concat(
            shown(a).as_str(),
        );
        if self.blk < self.to {
            self.blk = self.blk + 1;
            tell(line, Go::Ask(Reader::lf_read_block(self.blk)))
        } else {
            tell(line, Go::Done)
        }
    }
}

// ---- lf-probe ----

/// Codes whose argument is too short to carry block data, each with the length
/// of its argument.
pub const SHORT: [(u8, usize); 2] = [(0x41, 1), (0x46, 1)];

/// Codes that could program the tag, or take part in that: `12` is handed the
/// block data ahead of a write.
pub const WRITEY: [(u8, usize); 14] = [
    (0x12, 4),
    (0x01, 5),
    (0x1f, 4),
    (0x21, 4),
    (0x22, 4),
    (0x2f, 4),
    (0x32, 4),
    (0x33, 4),
    (0x34, 4),
    (0x3f, 4),
    (0x42, 4),
    (0x43, 4),
    (0x44, 4),
    (0x4f, 4),
];

/// The entries for one code.
pub open spec fn only_code(list: Seq<(u8, usize)>, code: u8) -> Seq<(u8, usize)>
    decreases list.len(),
{
    if list.len() == 0 {
        Seq::empty()
    } else if list.last().0 == code {
        only_code(list.drop_last(), code).push(list.last())
    } else {
        only_code(list.drop_last(), code)
    }
}

/// The codes to send. A single code that is not among them is sent with four
/// bytes.
pub open spec fn probe_plan_of(code: Option<u8>, all: bool) -> Seq<(u8, usize)> {
    let list = if all {
        SHORT@ + WRITEY@
    } else {
        SHORT@
    };
    match code {
        None => list,
        Some(c) => {
            let some = only_code(list, c);
            if some.len() == 0 {
                seq![(c, 4usize)]
            } else {
                some
            }
        },
    }
}

fn push_codes(v: &mut Vec<(u8, usize)>, more: &[(u8, usize)])
    ensures
        final(v)@ == old(v)@ + more@,
{
    let n: usize = more.len();
    let mut i: usize = 0;
    assert(v@ =~= old(v)@ + more@.take(0));
    while i < n
        invariant
            i <= n == more@.len(),
            v@ == old(v)@ + more@.take(i as int),
        decreases n - i,
    {
        v.push(more[i]);
        i += 1;
        assert(v@ =~= old(v)@ + more@.take(i as int));
    }
    assert(more@.take(n as int) =~= more@);
}

pub fn probe_plan(code: Option<u8>, all: bool) -> (r: Vec<(u8, usize)>)
    ensures
        r@ == probe_plan_of(code, all),
        r@.len() > 0,
{
    let mut list: Vec<(u8, usize)> = Vec::new();
    push_codes(&mut list, SHORT.as_slice());
    assert(list@ =~= SHORT@);
    if all {
        push_codes(&mut list, WRITEY.as_slice());
    }
    let c = match code {
        None => {
            return list;
        },
        Some(c) => c,
    };
    let mut some: Vec<(u8, usize)> = Vec::new();
    let n: usize = list.len();
    let mut i: usize = 0;
    assert(list@.take(0) =~= Seq::empty());
    assert(some@ =~= only_code(list@.take(0), c));
    while i < n
        invariant
            i <= n == list@.len(),
            some@ == only_code(list@.take(i as int), c),
        decreases n - i,
    {
        let (k, len) = list[i];
        assert(list@.take(i + 1).drop_last() =~= list@.take(i as int));
        if k == c {
            some.push((k, len));
        }
        i += 1;
    }
    assert(list@.take(n as int) =~= list@);
    if some.len() == 0 {
        some.push((c, 4));
        assert(some@ =~= seq![(c, 4usize)]);
    }
    some
}

/// Unless all codes are asked for, no code goes out whose argument could carry
/// block data; those that are added then all could.
pub proof fn a_plain_probe_sends_no_code_that_writes(i: int)
    ensures
        0 <= i < probe_plan_of(None, false).len() ==> probe_plan_of(None, false)[i].1 < 4,
        probe_plan_of(None, false).len() <= i < probe_plan_of(None, true).len() ==> probe_plan_of(
            None,
            true,
        )[i].1 >= 4,
{
}

/// The codes of a plan in hex.
pub open spec fn codes_of(list: Seq<(u8, usize)>) -> Seq<Seq<char>> {
    list.map_values(|e: (u8, usize)| hex2(e.0))
}

/// What is said of a probe before anything is sent.
pub open spec fn probe_lines_of(list: Seq<(u8, usize)>, yes: bool) -> Seq<Seq<char>> {
    let head = seq!["codes: "@ + joined(codes_of(list), " "@)];
    if yes {
        head
    } else {
        head.push(
            "\nNothing sent. This can destroy the tag on the pad. Add --yes\nonce you are sure it is a spare."@,
        )
    }
}

fn probe_lines(list: &Vec<(u8, usize)>, yes: bool) -> (r: Vec<String>)
    ensures
        texts(r@) == probe_lines_of(list@, yes),
{
    let n: usize = list.len();
    let mut i: usize = 0;
    let mut codes = String::new();
    let ghost all = codes_of(list@);
    assert(all.take(0) =~= Seq::empty());
    assert(codes@ =~= joined(all.take(0), " "@));
    while i < n
        invariant
            i <= n == list@.len(),
            all == codes_of(list@),
            codes@ == joined(all.take(i as int), " "@),
        decreases n - i,
    {
        assert(all.take(i + 1).drop_last() =~= all.take(i as int));
        let code = hex2_string(list[i].0);
        assert(all[i as int] == code@);
        if i == 0 {
            codes = code;
        } else {
            codes = codes.concat(" ").concat(code.as_str());
        }
        i += 1;
    }
    assert(all.take(n as int) =~= all);
    let mut v = one_line("codes: ".to_owned().concat(codes.as_str()));
    if !yes {
        push_text(
            &mut v,
            "\nNothing sent. This can destroy the tag on the pad. Add --yes\nonce you are sure it is a spare.".to_owned(),
        );
    }
    v
}

/// The codes to send and what is said of them. Without a yes there are none to
/// send.
pub open spec fn probe_preview_of(code: Option<u8>, all: bool, yes: bool) -> (
    Option<Seq<(u8, usize)>>,
    Seq<Seq<char>>,
) {
    let list = probe_plan_of(code, all);
    (
        if yes {
            Some(list)
        } else {
            None
        },
        probe_lines_of(list, yes),
    )
}

pub open spec fn list_view(l: Option<Vec<(u8, usize)>>) -> Option<Seq<(u8, usize)>> {
    match l {
        Some(l) => Some(l@),
        None => None,
    }
}

pub fn probe_preview(code: Option<u8>, all: bool, yes: bool) -> (r: (
    Option<Vec<(u8, usize)>>,
    Vec<String>,
))
    ensures
        (list_view(r.0), texts(r.1@)) == probe_preview_of(code, all, yes),
        r.0 is Some ==> r.0->Some_0@.len() > 0,
{
    let list = probe_plan(code, all);
    let lines = probe_lines(&list, yes);
    if yes {
        (Some(list), lines)
    } else {
        (None, lines)
    }
}

#[derive(Clone, Copy, Debug, PartialEq, Eq, Structural)]
pub enum ProbeStage {
    Before,
    Send,
    After,
    Over,
}

/// `lf-probe`: read the tag, send the codes, read the tag again, so a code
/// that changed the tag is visible.
pub struct ProbeRun {
    pub stage: ProbeStage,
    pub list: Vec<(u8, usize)>,
    pub at: usize,
    pub sweep: Sweep,
    pub before: Option<[u8; 5]>,
}

#[verifier::ext_equal]
pub struct ProbeModel {
    pub stage: ProbeStage,
    pub list: Seq<(u8, usize)>,
    pub at: int,
    pub sweep: Sweep,
    pub before: Option<Seq<u8>>,
}

impl View for ProbeRun {
    type V = ProbeModel;

    open spec fn view(&self) -> ProbeModel {
        ProbeModel {
            stage: self.stage,
            list: self.list@,
            at: self.at as int,
            sweep: self.sweep,
            before: id_view(self.before),
        }
    }
}

impl ProbeModel {
    pub open spec fn wf(self) -> bool {
        &&& self.list.len() > 0
        &&& match self.stage {
            ProbeStage::Send => 0 <= self.at < self.list.len(),
            ProbeStage::Over => true,
            _ => self.sweep.pos < self.sweep.total,
        }
    }
}

pub open spec fn probe_query(e: (u8, usize)) -> QueryModel {
    surely(lf_probe_payload(e.0, e.1 as int))
}

fn ask_probe(e: (u8, usize)) -> (r: Query)
    ensures
        r@ == probe_query(e),
{
    Query::surely(lf_probe(e.0, e.1))
}

pub open spec fn probe_sends(w: ProbeModel, before: Option<Seq<u8>>) -> (ProbeModel, StepModel) {
    (
        ProbeModel { stage: ProbeStage::Send, at: 0, before, ..w },
        tell_of(
            match before {
                Some(id) => "tag reads "@ + hex_text(id) + " before\n"@,
                None => "no ID reads off the pad before\n"@,
            },
            GoModel::Ask(probe_query(w.list[0])),
        ),
    )
}

pub open spec fn before_answered(w: ProbeModel, a: AnswerModel) -> (ProbeModel, StepModel) {
    let n = ProbeModel { sweep: moved(w.sweep), ..w };
    match sweep_hit(w.sweep.pos as int, a) {
        Some((id, freq, lc)) => probe_sends(n, Some(id)),
        None => if w.sweep.pos + 1 < w.sweep.total {
            (n, quiet_of(GoModel::Ask(sweep_query(w.sweep.pos + 1))))
        } else {
            probe_sends(n, None)
        },
    }
}

pub open spec fn probed_line_of(e: (u8, usize), a: AnswerModel) -> Seq<char> {
    "code "@ + hex2(e.0) + "  arg "@ + dec_text(e.1 as nat) + " zero bytes  -> "@ + shown_of(a)
}

pub open spec fn send_answered(w: ProbeModel, a: AnswerModel) -> (ProbeModel, StepModel) {
    let line = probed_line_of(w.list[w.at], a);
    let n = ProbeModel { at: w.at + 1, ..w };
    if n.at < n.list.len() {
        (n, tell_of(line, GoModel::Ask(probe_query(n.list[n.at]))))
    } else {
        (
            ProbeModel { stage: ProbeStage::After, sweep: sweep_of(1), ..n },
            StepModel { lines: seq![line, ""@], go: GoModel::Ask(sweep_query(0)) },
        )
    }
}

/// What a probe did to the tag.
pub open spec fn probe_verdict_of(before: Option<Seq<u8>>, after: Option<Seq<u8>>) -> Seq<char> {
    match (before, after) {
        (Some(a), Some(b)) => if a == b {
            "tag still reads "@ + hex_text(a) + ". Nothing here wrote to it."@
        } else {
            "tag now reads "@ + hex_text(b) + "  CHANGED"@
        },
        (None, Some(b)) => "tag now reads "@ + hex_text(b) + "  CHANGED"@,
        (Some(a), None) => "tag read "@ + hex_text(a)
            + " before and reads nothing now  CHANGED"@,
        (None, None) => "still no ID. Nothing here made the tag readable."@,
    }
}

pub fn probe_verdict(before: Option<[u8; 5]>, after: Option<[u8; 5]>) -> (r: String)
    ensures
        r@ == probe_verdict_of(id_view(before), id_view(after)),
{
    match (before, after) {
        (Some(a), Some(b)) => {
            if same_id(a, b) {
                "tag still reads ".to_owned().concat(hex(a.as_slice()).as_str()).concat(
                    ". Nothing here wrote to it.",
                )
            } else {
                "tag now reads ".to_owned().concat(hex(b.as_slice()).as_str()).concat("  CHANGED")
            }
        },
        (None, Some(b)) => "tag now reads ".to_owned().concat(hex(b.as_slice()).as_str()).concat(
            "  CHANGED",
        ),
        (Some(a), None) => "tag read ".to_owned().concat(hex(a.as_slice()).as_str()).concat(
            " before and reads nothing now  CHANGED",
        ),
        (None, None) => "still no ID. Nothing here made the tag readable.".to_owned(),
    }
}

pub open spec fn probe_over(w: ProbeModel, after: Option<Seq<u8>>) -> (ProbeModel, StepModel) {
    (
        ProbeModel { stage: ProbeStage::Over, ..w },
        tell_of(probe_verdict_of(w.before, after), GoModel::Done),
    )
}

pub open spec fn after_answered(w: ProbeModel, a: AnswerModel) -> (ProbeModel, StepModel) {
    let n = ProbeModel { sweep: moved(w.sweep), ..w };
    match sweep_hit(w.sweep.pos as int, a) {
        Some((id, freq, lc)) => probe_over(n, Some(id)),
        None => if w.sweep.pos + 1 < w.sweep.total {
            (n, quiet_of(GoModel::Ask(sweep_query(w.sweep.pos + 1))))
        } else {
            probe_over(n, None)
        },
    }
}

pub open spec fn probe_answered(w: ProbeModel, a: AnswerModel) -> (ProbeModel, StepModel) {
    match w.stage {
        ProbeStage::Before => before_answered(w, a),
        ProbeStage::Send => send_answered(w, a),
        ProbeStage::After => after_answered(w, a),
        ProbeStage::Over => (w, quiet_of(GoModel::Done)),
    }
}

impl ProbeRun {
    pub fn begin(list: Vec<(u8, usize)>) -> (r: (ProbeRun, Step))
        requires
            list@.len() > 0,
        ensures
            r.0@ == (ProbeModel {
                stage: ProbeStage::Before,
                list: list@,
                at: 0,
                sweep: sweep_of(1),
                before: None,
            }),
            r.1@ == quiet_of(GoModel::Ask(sweep_query(0))),
            r.0@.wf(),
    {
        let run = ProbeRun {
            stage: ProbeStage::Before,
            list,
            at: 0,
            sweep: Sweep::new(1),
            before: None,
        };
        (run, quiet(Go::Ask(Quick::query())))
    }

    fn send_from_start(&mut self, before: Option<[u8; 5]>) -> (r: Step)
        requires
            old(self)@.list.len() > 0,
        ensures
            (final(self)@, r@) == probe_sends(old(self)@, id_view(before)),
            final(self)@.wf(),
    {
        self.stage = ProbeStage::Send;
        self.at = 0;
        self.before = before;
        let line = match before {
            Some(id) => "tag reads ".to_owned().concat(hex(id.as_slice()).as_str()).concat(
                " before\n",
            ),
            None => "no ID reads off the pad before\n".to_owned(),
        };
        tell(line, Go::Ask(ask_probe(self.list[0])))
    }

    fn end(&mut self, after: Option<[u8; 5]>) -> (r: Step)
        requires
            old(self)@.list.len() > 0,
        ensures
            (final(self)@, r@) == probe_over(old(self)@, id_view(after)),
            final(self)@.wf(),
    {
        self.stage = ProbeStage::Over;
        tell(probe_verdict(self.before, after), Go::Done)
    }

    pub fn answer(&mut self, a: Answer) -> (r: Step)
        requires
            old(self)@.wf(),
        ensures
            (final(self)@, r@) == probe_answered(old(self)@, reply_result(a)),
            final(self)@.wf(),
    {
        match self.stage {
            ProbeStage::Before => {
                let (found, next) = sweep_on(&mut self.sweep, &a);
                match (found, next) {
                    (Some((id, _freq, _lc)), _) => self.send_from_start(Some(id)),
                    (None, Some(q)) => quiet(Go::Ask(q)),
                    (None, None) => self.send_from_start(None),
                }
            },
            ProbeStage::Send => {
                let total: usize = self.list.len();
                let (code, arglen) = self.list[self.at];
                let line = "code ".to_owned().concat(hex2_string(code).as_str()).concat(
                    "  arg ",
                ).concat(dec(arglen as u64).as_str()).concat(" zero bytes  -> ").concat(
                    shown(a).as_str(),
                );
                self.at = self.at + 1;
                if self.at < total {
                    tell(line, Go::Ask(ask_probe(self.list[self.at])))
                } else {
                    self.stage = ProbeStage::After;
                    self.sweep = Sweep::new(1);
                    let mut v = one_line(line);
                    push_text(&mut v, "".to_owned());
                    Step { lines: v, go: Go::Ask(Quick::query()) }
                }
            },
            ProbeStage::After => {
                let (found, next) = sweep_on(&mut self.sweep, &a);
                match (found, next) {
                    (Some((id, _freq, _lc)), _) => self.end(Some(id)),
                    (None, Some(q)) => quiet(Go::Ask(q)),
                    (None, None) => self.end(None),
                }
            },
            ProbeStage::Over => quiet(Go::Done),
        }
    }
}

/// Commands that a probe can still send, at most.
pub open spec fn probe_left(w: ProbeModel) -> int {
    match w.stage {
        ProbeStage::Before => w.sweep.total - w.sweep.pos + w.list.len() + 10,
        ProbeStage::Send => w.list.len() - w.at + 10,
        ProbeStage::After => w.sweep.total - w.sweep.pos,
        ProbeStage::Over => 0,
    }
}

/// A probe comes to an end, whatever the reader answers.
pub proof fn a_probe_ends(w: ProbeModel, a: AnswerModel)
    requires
        w.wf(),
        !(w.stage is Over),
    ensures
        0 <= probe_left(probe_answered(w, a).0) < probe_left(w),
        probe_answered(w, a).1.go is Ask <==> !(probe_answered(w, a).0.stage is Over),
{
}

// ---- wipe ----

/// Whether a wipe goes ahead, and what is said if it does not.
pub open spec fn wipe_preview_of(yes: bool) -> (bool, Seq<Seq<char>>) {
    (
        yes,
        if yes {
            Seq::empty()
        } else {
            seq![
                "zeroes blocks 1 to 7, then block 0"@,
                "\nNothing written. Add --yes to go ahead."@,
            ]
        },
    )
}

pub fn wipe_preview(yes: bool) -> (r: (bool, Vec<String>))
    ensures
        (r.0, texts(r.1@)) == wipe_preview_of(yes),
{
    let mut v = no_lines();
    if !yes {
        push_text(&mut v, "zeroes blocks 1 to 7, then block 0".to_owned());
        push_text(&mut v, "\nNothing written. Add --yes to go ahead.".to_owned());
    }
    (yes, v)
}

#[derive(Clone, Copy, Debug, PartialEq, Eq, Structural)]
pub enum WipeStage {
    Before,
    Burn,
    After,
    Over,
}

/// `wipe`: say what the tag reads as, zero the blocks, read back.
pub struct WipeRun {
    pub stage: WipeStage,
    pub plan: Vec<(u8, [u8; 4])>,
    pub at: usize,
    pub sweep: Sweep,
}

#[verifier::ext_equal]
pub struct WipeModel {
    pub stage: WipeStage,
    pub plan: Seq<(u8, Seq<u8>)>,
    pub at: int,
    pub sweep: Sweep,
}

impl View for WipeRun {
    type V = WipeModel;

    open spec fn view(&self) -> WipeModel {
        WipeModel {
            stage: self.stage,
            plan: plan_view(self.plan@),
            at: self.at as int,
            sweep: self.sweep,
        }
    }
}

impl WipeModel {
    pub open spec fn wf(self) -> bool {
        &&& self.plan == wipe_plan_of()
        &&& match self.stage {
            WipeStage::Burn => 0 <= self.at < self.plan.len(),
            WipeStage::Over => true,
            _ => self.sweep.pos < self.sweep.total,
        }
    }
}

pub open spec fn wipe_burns(w: WipeModel, line: Seq<char>) -> (WipeModel, StepModel) {
    (
        WipeModel { stage: WipeStage::Burn, at: 0, ..w },
        StepModel {
            lines: seq![line, ""@],
            go: GoModel::Ask(burn_query(w.plan[0].0, w.plan[0].1)),
        },
    )
}

pub open spec fn wipe_before_answered(w: WipeModel, a: AnswerModel) -> (WipeModel, StepModel) {
    let n = WipeModel { sweep: moved(w.sweep), ..w };
    match sweep_hit(w.sweep.pos as int, a) {
        Some((id, freq, lc)) => wipe_burns(n, "tag reads "@ + hex_text(id)),
        None => if w.sweep.pos + 1 < w.sweep.total {
            (n, quiet_of(GoModel::Ask(sweep_query(w.sweep.pos + 1))))
        } else {
            wipe_burns(n, "no ID reads off the pad"@)
        },
    }
}

pub open spec fn wiped_line_of(blk: u8, data: Seq<u8>, a: AnswerModel) -> Seq<char> {
    "block "@ + dec_text(blk as nat) + " <- "@ + hex_text(data) + "  -> "@ + shown_of(a)
}

pub open spec fn wipe_burn_answered(w: WipeModel, a: AnswerModel) -> (WipeModel, StepModel) {
    let (blk, data) = w.plan[w.at];
    let line = wiped_line_of(blk, data, a);
    let n = WipeModel { at: w.at + 1, ..w };
    if n.at < n.plan.len() {
        (n, tell_of(line, GoModel::Ask(burn_query(n.plan[n.at].0, n.plan[n.at].1))))
    } else {
        (
            WipeModel { stage: WipeStage::After, sweep: sweep_of(3), ..n },
            StepModel { lines: seq![line, ""@], go: GoModel::Ask(sweep_query(0)) },
        )
    }
}

pub open spec fn wipe_after_answered(w: WipeModel, a: AnswerModel) -> (WipeModel, StepModel) {
    let n = WipeModel { sweep: moved(w.sweep), ..w };
    let end = WipeModel { stage: WipeStage::Over, ..n };
    match sweep_hit(w.sweep.pos as int, a) {
        Some((id, freq, lc)) => (
            end,
            tell_of("tag still reads "@ + hex_text(id), GoModel::Done),
        ),
        None => if w.sweep.pos + 1 < w.sweep.total {
            (n, quiet_of(GoModel::Ask(sweep_query(w.sweep.pos + 1))))
        } else {
            (end, tell_of("nothing reads off it."@, GoModel::Done))
        },
    }
}

pub open spec fn wipe_answered(w: WipeModel, a: AnswerModel) -> (WipeModel, StepModel) {
    match w.stage {
        WipeStage::Before => wipe_before_answered(w, a),
        WipeStage::Burn => wipe_burn_answered(w, a),
        WipeStage::After => wipe_after_answered(w, a),
        WipeStage::Over => (w, quiet_of(GoModel::Done)),
    }
}

impl WipeRun {
    pub fn begin() -> (r: (WipeRun, Step))
        ensures
            r.0@ == (WipeModel {
                stage: WipeStage::Before,
                plan: wipe_plan_of(),
                at: 0,
                sweep: sweep_of(1),
            }),
            r.1@ == quiet_of(GoModel::Ask(sweep_query(0))),
            r.0@.wf(),
    {
        let run = WipeRun {
            stage: WipeStage::Before,
            plan: wipe_plan(),
            at: 0,
            sweep: Sweep::new(1),
        };
        (run, quiet(Go::Ask(Quick::query())))
    }

    fn burn_from_start(&mut self, line: String) -> (r: Step)
        requires
            old(self)@.plan == wipe_plan_of(),
        ensures
            (final(self)@, r@) == wipe_burns(old(self)@, line@),
            final(self)@.wf(),
    {
        self.stage = WipeStage::Burn;
        self.at = 0;
        assert(self.plan@.len() == plan_view(self.plan@).len());
        let (blk, data) = self.plan[0];
        let mut v = one_line(line);
        push_text(&mut v, "".to_owned());
        Step { lines: v, go: Go::Ask(Reader::lf_write_block(blk, data)) }
    }

    fn on_burn(&mut self, a: Answer) -> (r: Step)
        requires
            old(self)@.wf(),
            old(self).stage is Burn,
        ensures
            (final(self)@, r@) == wipe_burn_answered(old(self)@, reply_result(a)),
            final(self)@.wf(),
    {
        let ghost w = self@;
        let total: usize = self.plan.len();
        assert(self.at < total);
        let (blk, data) = self.plan[self.at];
        assert((blk, data@) == w.plan[w.at]);
        let line = "block ".to_owned().concat(dec(blk as u64).as_str()).concat(" <- ").concat(
            hex(data.as_slice()).as_str(),
        ).concat("  -> ").concat(shown(a).as_str());
        self.at = self.at + 1;
        if self.at < total {
            let (blk, data) = self.plan[self.at];
            assert((blk, data@) == w.plan[w.at + 1]);
            tell(line, Go::Ask(Reader::lf_write_block(blk, data)))
        } else {
            self.stage = WipeStage::After;
            self.sweep = Sweep::new(3);
            let mut v = one_line(line);
            push_text(&mut v, "".to_owned());
            Step { lines: v, go: Go::Ask(Quick::query()) }
        }
    }

    pub fn answer(&mut self, a: Answer) -> (r: Step)
        requires
            old(self)@.wf(),
        ensures
            (final(self)@, r@) == wipe_answered(old(self)@, reply_result(a)),
            final(self)@.wf(),
    {
        match self.stage {
            WipeStage::Before => {
                let (found, next) = sweep_on(&mut self.sweep, &a);
                match (found, next) {
                    (Some((id, _freq, _lc)), _) => self.burn_from_start(
                        "tag reads ".to_owned().concat(hex(id.as_slice()).as_str()),
                    ),
                    (None, Some(q)) => quiet(Go::Ask(q)),
                    (None, None) => self.burn_from_start("no ID reads off the pad".to_owned()),
                }
            },
            WipeStage::Burn => self.on_burn(a),
            WipeStage::After => {
                let (found, next) = sweep_on(&mut self.sweep, &a);
                match (found, next) {
                    (Some((id, _freq, _lc)), _) => {
                        self.stage = WipeStage::Over;
                        tell(
                            "tag still reads ".to_owned().concat(hex(id.as_slice()).as_str()),
                            Go::Done,
                        )
                    },
                    (None, Some(q)) => quiet(Go::Ask(q)),
                    (None, None) => {
                        self.stage = WipeStage::Over;
                        tell("nothing reads off it.".to_owned(), Go::Done)
                    },
                }
            },
            WipeStage::Over => quiet(Go::Done),
        }
    }
}

/// Commands that a wipe can still send, at most.
pub open spec fn wipe_left(w: WipeModel) -> int {
    match w.stage {
        WipeStage::Before => w.sweep.total - w.sweep.pos + w.plan.len() + 30,
        WipeStage::Burn => w.plan.len() - w.at + 30,
        WipeStage::After => w.sweep.total - w.sweep.pos,
        WipeStage::Over => 0,
    }
}

/// A wipe comes to an end, whatever the reader answers.
pub proof fn a_wipe_ends(w: WipeModel, a: AnswerModel)
    requires
        w.wf(),
        !(w.stage is Over),
    ensures
        0 <= wipe_left(wipe_answered(w, a).0) < wipe_left(w),
        wipe_answered(w, a).1.go is Ask <==> !(wipe_answered(w, a).0.stage is Over),
{
}

/// The n-th block that a wipe writes is the n-th of its plan, so block 0 goes
/// last.
pub proof fn a_wipe_leaves_the_config_word_for_last(w: WipeModel, a: AnswerModel)
    requires
        w.wf(),
        w.stage is Burn,
    ensures
        ({
            let (n, s) = wipe_answered(w, a);
            if w.at < 7 {
                &&& n.stage is Burn && n.at == w.at + 1
                &&& s.go == GoModel::Ask(burn_query(wipe_plan_of()[n.at].0, seq![0u8, 0, 0, 0]))
                &&& wipe_plan_of()[n.at].0 == 0 <==> n.at == 7
            } else {
                n.stage is After
            }
        }),
{
    crate::command::wipe_ends_with_the_config_word();
}

// ---- sample ----

/// `sample`: arm the sampler, then fetch what it holds.
pub struct SampleRun {
    pub armed: bool,
}

/// The samples in hex, and how many of their bits are ones.
pub open spec fn sample_lines_of(bytes: Seq<u8>) -> Seq<Seq<char>> {
    let bits = 8 * bytes.len();
    let share = if bits == 0 {
        0
    } else {
        ones_of(bytes) * 100 / (bits as int)
    };
    seq![
        hex_text(bytes),
        dec_text(ones_of(bytes) as nat) + " of "@ + dec_text(bits as nat) + " bits are ones, "@
            + dec_text(share as nat) + " per cent"@,
    ]
}

pub fn sample_lines(bytes: &[u8]) -> (r: Vec<String>)
    requires
        bytes@.len() <= 256,
    ensures
        texts(r@) == sample_lines_of(bytes@),
{
    let n: u64 = ones(bytes);
    let bits: u64 = 8 * (bytes.len() as u64);
    let share: u64 = if bits == 0 {
        0
    } else {
        n * 100 / bits
    };
    let mut v = one_line(hex(bytes));
    push_text(
        &mut v,
        dec(n).concat(" of ").concat(dec(bits).as_str()).concat(" bits are ones, ").concat(
            dec(share).as_str(),
        ).concat(" per cent"),
    );
    v
}

/// The sampler has been armed, or has answered.
pub open spec fn sample_answered(armed: bool, a: AnswerModel) -> StepModel {
    match payload_of(a) {
        Err(e) => quiet_of(GoModel::Fail(e)),
        Ok(p) => if !armed {
            quiet_of(GoModel::Ask(fetch_query()))
        } else {
            match samples_of(p) {
                Err(e) => quiet_of(GoModel::Fail(e)),
                Ok(b) => StepModel { lines: sample_lines_of(b), go: GoModel::Done },
            }
        },
    }
}

impl SampleRun {
    pub fn begin() -> (r: (SampleRun, Step))
        ensures
            !r.0.armed,
            r.1@ == quiet_of(GoModel::Ask(arm_query())),
    {
        (SampleRun { armed: false }, quiet(Go::Ask(arm_sampler())))
    }

    pub fn answer(&mut self, a: Answer) -> (r: Step)
        ensures
            final(self).armed,
            r@ == sample_answered(old(self).armed, reply_result(a)),
    {
        let armed = self.armed;
        self.armed = true;
        let p = match payload(a) {
            Err(e) => {
                return quiet(Go::Fail(e));
            },
            Ok(p) => p,
        };
        if !armed {
            return quiet(Go::Ask(fetch_samples()));
        }
        match lf_samples(p.as_slice()) {
            Err(e) => quiet(Go::Fail(e)),
            Ok(b) => Step { lines: sample_lines(b.as_slice()), go: Go::Done },
        }
    }
}

// ---- laws of read ----

/// The sweeps asked for go through ten profiles each, from the first on.
pub proof fn sweeps_are_ten_profiles_each(tries: u32)
    ensures
        sweep_of(tries as int).pos == 0,
        sweep_of(tries as int).total == 10 * tries,
        read_begun(tries).go is Ask <==> tries > 0,
        read_begun(tries).go matches GoModel::Ask(q) ==> crate::worker::first_profile(q),
{
    assert(sweep_query(0).payload =~= seq![
        0xffu8, 0x00, 0x65, 0x08, 0x18, 0x48, 0xe8, 0x01, 0x00, 0x00, 0x00, 0x00, 0x00,
    ]);
}

/// A read that gets an ID names it, with carrier and `lc` of the profile that
/// was asked, and stops. Without one it asks the next profile of the table, all
/// four numbers of it, and after the last says that there is no ID.
pub proof fn a_read_goes_on_until_an_id(s: Sweep, a: AnswerModel)
    requires
        s.pos < s.total,
    ensures
        ({
            let t = read_answered(s, a);
            let (freq, lc, w1, w2) = crate::command::LF_PROFILES@[s.pos as int % 10];
            &&& moved(s).pos == s.pos + 1 && moved(s).total == s.total
            &&& crate::lf::answered_id(a) matches Some(id) ==> t.go is Done && t.lines == seq![
                dec_text(freq as nat) + " Hz  lc "@ + hex2(lc) + "  ID "@ + hex_text(id),
            ]
            &&& crate::lf::answered_id(a) is None && s.pos + 1 < s.total ==> t.lines.len() == 0 && (
            t.go matches GoModel::Ask(q) && asks_profile(q, s.pos + 1))
            &&& crate::lf::answered_id(a) is None && s.pos + 1 == s.total ==> t.go is Done
                && t.lines == seq!["No ID in any profile. Is the tag flat on the pad?"@]
        }),
{
    lemma_asks_profile(s.pos + 1);
}

/// The command asks the profile at a position: its bytes are the four numbers
/// of that entry of the table.
pub open spec fn asks_profile(q: QueryModel, pos: int) -> bool {
    let (freq, lc, w1, w2) = crate::command::LF_PROFILES@[pos % 10];
    let p = q.payload;
    &&& p.len() == 13
    &&& p.take(4) == seq![0xffu8, 0x00, 0x65, 0x08]
    &&& p[4] == lc
    &&& p[5] + 0x100 * p[6] + 0x1_0000 * p[7] + 0x100_0000 * p[8] == freq
    &&& p[9] + 0x100 * p[10] == w1
    &&& p[11] + 0x100 * p[12] == w2
    &&& !q.retry
}

proof fn lemma_asks_profile(pos: int)
    requires
        pos >= 0,
    ensures
        asks_profile(sweep_query(pos), pos),
{
    crate::lf::a_sweep_sends_profiles_whole(pos);
}

// ---- laws of write ----

/// What is to be written to a tag is the ID that the text spells, five bytes.
/// It is shown as hex, and so are the eight bytes of its frame, together and by
/// the block they go to.
pub proof fn a_write_shows_the_frame(text: Seq<char>, config: bool, yes: bool)
    ensures
        ({
            let r = write_preview_of(text, config, yes);
            let spelled = crate::hexes::unhex_value(text);
            &&& r is Ok <==> (spelled matches Ok(id) && id.len() == 5)
            &&& r matches Ok((id, lines)) ==> {
                let want = spelled->Ok_0;
                let plan = plan_of(want, config);
                let k = if config {
                    3int
                } else {
                    2
                };
                &&& yes ==> id == Some(want)
                &&& !yes ==> id is None
                &&& lines.len() == 2 + plan.len() + (if yes {
                    0int
                } else {
                    1
                })
                &&& lines[0] == "ID     "@ + hex_text(want)
                &&& lines[1] == "frame  "@ + hex_text(
                    crate::em4100::be64(crate::em4100::frame_value(want, 64)),
                )
                &&& config ==> lines[2] == "block0 "@ + hex_text(plan[0].1)
                    + "  T5577 config: ASK/Manchester, RF/64, 2 blocks"@
                &&& lines[k] == "block1 "@ + hex_text(plan[k - 2].1)
                &&& lines[k + 1] == "block2 "@ + hex_text(plan[k - 1].1)
                &&& !yes ==> lines.last() == "\nNothing written. Add --yes to go ahead."@
            }
        }),
{
}

/// A write starts by looking at the tag, with one sweep, and remembers what it
/// is to do.
pub proof fn a_write_looks_first(id: Seq<u8>, config: bool, overwrite: bool)
    ensures
        ({
            let (w, s) = write_begun(id, config, overwrite);
            &&& w.stage is Guard && w.id == id && w.overwrite == overwrite && w.plan == plan_of(
                id,
                config,
            )
            &&& w.at == 0 && w.sweep.pos == 0 && w.sweep.total == 10
            &&& s.lines.len() == 0 && (s.go matches GoModel::Ask(q) && asks_profile(q, 0))
        }),
{
    lemma_asks_profile(0);
}

/// What the guard decides. An ID that is there already, or one that may be
/// overwritten, is named, and the first block goes out; any other stops the
/// write. While nothing reads the next profile is asked, and once all have been
/// the first block goes out.
pub proof fn the_guard_decides(w: WriteModel, a: AnswerModel)
    requires
        w.wf(),
        w.stage is Guard,
        forall|i: int| 0 <= i < w.plan.len() ==> (#[trigger] w.plan[i]).1.len() == 4,
    ensures
        ({
            let (n, s) = write_answered(w, a);
            let burns = n.stage is Burn && n.at == 0 && (s.go matches GoModel::Ask(q)
                && crate::worker::block_write(q, w.plan[0].0, w.plan[0].1));
            &&& n.id == w.id && n.plan == w.plan && n.overwrite == w.overwrite
            &&& crate::lf::answered_id(a) matches Some(cur) ==> if cur == w.id {
                burns && s.lines == seq!["\nAlready reads as "@ + hex_text(cur) + "."@]
            } else if w.overwrite {
                burns && s.lines == seq!["\nOverwriting "@ + hex_text(cur) + "."@]
            } else {
                n.stage is Over && s.lines.len() == 0 && s.go is Fail
            }
            &&& crate::lf::answered_id(a) is None ==> if w.sweep.pos + 1 < w.sweep.total {
                n.stage is Guard && n.sweep.pos == w.sweep.pos + 1 && n.sweep.total == w.sweep.total
                    && s.lines.len() == 0 && (s.go matches GoModel::Ask(q) && asks_profile(
                    q,
                    w.sweep.pos + 1,
                ))
            } else {
                burns && s.lines == seq!["\nNo ID reads off the pad now."@]
            }
        }),
{
    lemma_asks_profile(w.sweep.pos + 1);
    let (blk, data) = w.plan[0];
    crate::lf::tag_commands_carry_their_arguments(blk, data);
}

/// A write puts down its blocks one after the other, each with its own bytes,
/// whatever comes back, and shows what did. Then it reads back, with three
/// sweeps.
pub proof fn a_write_puts_down_every_block(w: WriteModel, a: AnswerModel)
    requires
        w.wf(),
        w.stage is Burn,
        forall|i: int| 0 <= i < w.plan.len() ==> (#[trigger] w.plan[i]).1.len() == 4,
    ensures
        ({
            let (n, s) = write_answered(w, a);
            let told = match a {
                Ok(r) => hex_text(r.payload),
                Err(e) => e,
            };
            &&& n.id == w.id && n.plan == w.plan
            &&& s.lines.len() > 0
            &&& s.lines[0] == "write block "@ + dec_text(w.plan[w.at].0 as nat) + " "@ + hex_text(
                w.plan[w.at].1,
            ) + "  -> "@ + told
            &&& w.at + 1 < w.plan.len() ==> n.stage is Burn && n.at == w.at + 1 && (
            s.go matches GoModel::Ask(q) && crate::worker::block_write(
                q,
                w.plan[w.at + 1].0,
                w.plan[w.at + 1].1,
            ))
            &&& w.at + 1 == w.plan.len() ==> n.stage is Check && n.sweep.pos == 0 && n.sweep.total
                == 30 && (s.go matches GoModel::Ask(q) && asks_profile(q, 0)) && s.lines.len() == 2
                && s.lines[1] == "\nReading back:"@
        }),
{
    lemma_asks_profile(0);
    if w.at + 1 < w.plan.len() {
        let (blk, data) = w.plan[w.at + 1];
        crate::lf::tag_commands_carry_their_arguments(blk, data);
    }
}

/// What is said of a write in the end: the ID that reads back, and that it
/// matches exactly if it is the one written.
pub proof fn a_write_is_judged_by_what_reads_back(w: WriteModel, a: AnswerModel)
    requires
        w.wf(),
        w.stage is Check,
    ensures
        ({
            let (n, s) = write_answered(w, a);
            &&& n.id == w.id
            &&& crate::lf::answered_id(a) matches Some(got) ==> n.stage is Over && s.go is Done
                && if got == w.id {
                s.lines == seq!["  "@ + hex_text(got) + "  "@ + "matches"@]
            } else {
                s.lines == seq!["  "@ + hex_text(got) + "  "@ + "DOES NOT MATCH"@]
            }
            &&& crate::lf::answered_id(a) is None ==> if w.sweep.pos + 1 < w.sweep.total {
                n.stage is Check && n.sweep.pos == w.sweep.pos + 1 && n.sweep.total == w.sweep.total
                    && s.lines.len() == 0 && (s.go matches GoModel::Ask(q) && asks_profile(
                    q,
                    w.sweep.pos + 1,
                ))
            } else {
                n.stage is Over && s.go is Done && s.lines == seq!["  no ID read back"@]
            }
        }),
{
    lemma_asks_profile(w.sweep.pos + 1);
}

// ---- laws of write-block and blocks ----

/// What writes one block is its four bytes, as the text spells them, and its
/// number; without a yes it is only shown.
pub proof fn one_block_is_written_as_spelled(blk: u8, text: Seq<char>, yes: bool)
    ensures
        ({
            let r = write_block_preview_of(blk, text, yes);
            let spelled = crate::hexes::unhex_value(text);
            let p = seq![
                0xffu8, 0x00, 0x66, 0x00, 0x1e, 0x48, 0xe8, 0x01, 0x00, 0x13, 0x00, blk,
            ] + spelled->Ok_0 + seq![0x54u8, 0x69, 0x61, 0x6e];
            &&& r is Ok <==> (spelled matches Ok(d) && d.len() == 4)
            &&& r is Ok && yes ==> r->Ok_0.0 == Some(p) && r->Ok_0.1.len() == 0
            &&& r is Ok && !yes ==> r->Ok_0.0 is None && r->Ok_0.1 == seq![
                "would send "@ + hex_text(p) + "\n\nAdd --yes to go ahead."@,
            ]
        }),
{
    let spelled = crate::hexes::unhex_value(text);
    if spelled is Ok && spelled->Ok_0.len() == 4 {
        crate::lf::tag_commands_carry_their_arguments(blk, spelled->Ok_0);
    }
}

/// `blocks` asks after each block from 0 to the last, that one too, and shows
/// what each answers.
pub proof fn blocks_are_asked_after_in_order(blk: u8, to: u8, a: AnswerModel)
    ensures
        ({
            let (n, s) = blocks_answered(blk, to, a);
            let told = match a {
                Ok(r) => hex_text(r.payload),
                Err(e) => e,
            };
            &&& s.lines == seq!["block "@ + dec_text(blk as nat) + "  "@ + told]
            &&& blk < to ==> n == blk + 1 && (s.go matches GoModel::Ask(q) && q.payload == seq![
                0xffu8, 0x00, 0x66, 0x00, 0x1e, 0x48, 0xe8, 0x01, 0x00, 0x12, 0x00, n, 0x00, 0x00,
                0x00, 0x00,
            ])
            &&& blk >= to ==> s.go is Done
        }),
{
    let n = blocks_answered(blk, to, a).0;
    crate::lf::tag_commands_carry_their_arguments(n, seq![0u8, 0, 0, 0]);
}

// ---- laws of lf-probe ----

/// The codes and the lengths of their arguments.
pub proof fn the_codes_of_a_probe()
    ensures
        probe_plan_of(None, false) == seq![(0x41u8, 1usize), (0x46u8, 1usize)],
        probe_plan_of(None, true) == seq![
            (0x41u8, 1usize),
            (0x46u8, 1usize),
            (0x12u8, 4usize),
            (0x01u8, 5usize),
            (0x1fu8, 4usize),
            (0x21u8, 4usize),
            (0x22u8, 4usize),
            (0x2fu8, 4usize),
            (0x32u8, 4usize),
            (0x33u8, 4usize),
            (0x34u8, 4usize),
            (0x3fu8, 4usize),
            (0x42u8, 4usize),
            (0x43u8, 4usize),
            (0x44u8, 4usize),
            (0x4fu8, 4usize),
        ],
{
    assert(probe_plan_of(None, false) =~= seq![(0x41u8, 1usize), (0x46u8, 1usize)]);
    assert(probe_plan_of(None, true) =~= seq![
        (0x41u8, 1usize),
        (0x46u8, 1usize),
        (0x12u8, 4usize),
        (0x01u8, 5usize),
        (0x1fu8, 4usize),
        (0x21u8, 4usize),
        (0x22u8, 4usize),
        (0x2fu8, 4usize),
        (0x32u8, 4usize),
        (0x33u8, 4usize),
        (0x34u8, 4usize),
        (0x3fu8, 4usize),
        (0x42u8, 4usize),
        (0x43u8, 4usize),
        (0x44u8, 4usize),
        (0x4fu8, 4usize),
    ]);
}

/// A probe of one code sends that code and no other, with the argument that the
/// list at hand has for it, or with four bytes if the code is not in the list.
pub proof fn one_code_is_sent_alone(c: u8, all: bool, i: int)
    ensures
        ({
            let list = probe_plan_of(None, all);
            let some = probe_plan_of(Some(c), all);
            &&& some.len() > 0
            &&& 0 <= i < some.len() ==> some[i].0 == c
            &&& 0 <= i < list.len() && list[i].0 == c ==> some.contains(list[i])
            &&& (forall|j: int| 0 <= j < list.len() ==> (#[trigger] list[j]).0 != c) ==> some
                == seq![(c, 4usize)]
            &&& 0 <= i < some.len() ==> some[i] == (c, 4usize) || list.contains(some[i])
        }),
{
    let list = probe_plan_of(None, all);
    lemma_only_code(list, c);
    let some = only_code(list, c);
    if forall|j: int| 0 <= j < list.len() ==> (#[trigger] list[j]).0 != c {
        if some.len() > 0 {
            assert(list.contains(some[0]));
            let j = choose|j: int| 0 <= j < list.len() && list[j] == some[0];
            assert(list[j].0 == c);
        }
    }
    if 0 <= i < list.len() && list[i].0 == c {
        assert(some.contains(list[i]));
    }
}

proof fn lemma_only_code(list: Seq<(u8, usize)>, c: u8)
    ensures
        forall|i: int|
            0 <= i < only_code(list, c).len() ==> (#[trigger] only_code(list, c)[i]).0 == c
                && list.contains(only_code(list, c)[i]),
        forall|i: int|
            0 <= i < list.len() && (#[trigger] list[i]).0 == c ==> only_code(list, c).contains(
                list[i],
            ),
    decreases list.len(),
{
    if list.len() > 0 {
        let p = list.drop_last();
        lemma_only_code(p, c);
        let before = only_code(p, c);
        let some = only_code(list, c);
        assert forall|i: int| 0 <= i < some.len() implies (#[trigger] some[i]).0 == c
            && list.contains(some[i]) by {
            if i < before.len() {
                assert(some[i] == before[i]);
                assert(p.contains(before[i]));
                let j = choose|j: int| 0 <= j < p.len() && p[j] == before[i];
                assert(list[j] == some[i]);
            } else {
                assert(list[list.len() - 1] == some[i]);
            }
        }
        assert forall|i: int| 0 <= i < list.len() && (#[trigger] list[i]).0 == c implies some.contains(
            list[i],
        ) by {
            if i < p.len() {
                assert(p[i] == list[i]);
                let j = choose|j: int| 0 <= j < before.len() && before[j] == p[i];
                assert(some[j] == list[i]);
            } else {
                assert(some[some.len() - 1] == list[i]);
            }
        }
    }
}

/// The command that sends a code with so many zero bytes.
pub open spec fn sends_code(q: QueryModel, code: u8, n: int) -> bool {
    &&& q.retry
    &&& q.payload.len() == 10 + n
    &&& q.payload.take(10) == seq![0xffu8, 0x00, 0x66, 0x00, 0x1e, 0x48, 0xe8, 0x01, 0x00, code]
    &&& forall|i: int| 10 <= i < 10 + n ==> #[trigger] q.payload[i] == 0
}

/// A probe reads the tag, sends its codes one after the other, each with its
/// own argument, shows what each answers, and reads the tag again.
pub proof fn a_probe_sends_its_codes_in_order(w: ProbeModel, a: AnswerModel)
    requires
        w.wf(),
        !(w.stage is Over),
    ensures
        ({
            let (n, s) = probe_answered(w, a);
            let id = crate::lf::answered_id(a);
            let told = match a {
                Ok(r) => hex_text(r.payload),
                Err(e) => e,
            };
            let looks = w.sweep.pos + 1 < w.sweep.total && id is None;
            &&& n.list == w.list
            &&& !(w.stage is Send) && looks ==> n.stage == w.stage && n.before == w.before
                && n.sweep.pos == w.sweep.pos + 1 && s.lines.len() == 0 && (
            s.go matches GoModel::Ask(q) && asks_profile(q, w.sweep.pos + 1))
            &&& w.stage is Before && !looks ==> n.stage is Send && n.at == 0 && n.before == id && (
            s.go matches GoModel::Ask(q) && sends_code(q, w.list[0].0, w.list[0].1 as int))
            &&& w.stage is Before && !looks && id is Some ==> s.lines == seq![
                "tag reads "@ + hex_text(id->Some_0) + " before\n"@,
            ]
            &&& w.stage is Before && !looks && id is None ==> s.lines == seq![
                "no ID reads off the pad before\n"@,
            ]
            &&& w.stage is Send ==> n.before == w.before && s.lines.len() > 0 && s.lines[0]
                == "code "@ + hex2(w.list[w.at].0) + "  arg "@ + dec_text(w.list[w.at].1 as nat)
                + " zero bytes  -> "@ + told
            &&& w.stage is Send && w.at + 1 < w.list.len() ==> n.stage is Send && n.at == w.at + 1
                && (s.go matches GoModel::Ask(q) && sends_code(
                q,
                w.list[w.at + 1].0,
                w.list[w.at + 1].1 as int,
            ))
            &&& w.stage is Send && w.at + 1 == w.list.len() ==> n.stage is After && n.sweep.pos == 0
                && n.sweep.total == 10 && (s.go matches GoModel::Ask(q) && asks_profile(q, 0))
            &&& w.stage is After && !looks ==> n.stage is Over && s.go is Done && s.lines == seq![
                probe_verdict_of(w.before, id),
            ]
        }),
{
    lemma_asks_profile(0);
    lemma_asks_profile(w.sweep.pos + 1);
    let e = if w.stage is Send && w.at + 1 < w.list.len() {
        w.list[w.at + 1]
    } else {
        w.list[0]
    };
    crate::command::the_family_carries_its_arguments(0, 0, e.0, 0, e.1 as int);
}

/// A probe says that the tag changed exactly if what it reads as is not what it
/// read as before.
pub proof fn a_probe_tells_a_change(before: Option<Seq<u8>>, after: Option<Seq<u8>>)
    ensures
        before == after && after is None ==> probe_verdict_of(before, after)
            == "still no ID. Nothing here made the tag readable."@,
        before == after && after is Some ==> probe_verdict_of(before, after) == "tag still reads "@
            + hex_text(after->Some_0) + ". Nothing here wrote to it."@,
        before != after && after is Some ==> probe_verdict_of(before, after) == "tag now reads "@
            + hex_text(after->Some_0) + "  CHANGED"@,
        before != after && after is None ==> probe_verdict_of(before, after) == "tag read "@
            + hex_text(before->Some_0) + " before and reads nothing now  CHANGED"@,
{
}

// ---- laws of wipe ----

/// A wipe reads the tag, zeroes blocks 1 to 7 in turn and then block 0, shows
/// what each write answers, and reads the tag again with three sweeps.
pub proof fn a_wipe_goes_step_by_step(w: WipeModel, a: AnswerModel)
    requires
        w.wf(),
        !(w.stage is Over),
    ensures
        ({
            let (n, s) = wipe_answered(w, a);
            let id = crate::lf::answered_id(a);
            let told = match a {
                Ok(r) => hex_text(r.payload),
                Err(e) => e,
            };
            let looks = w.sweep.pos + 1 < w.sweep.total && id is None;
            let zero = seq![0x00u8, 0x00, 0x00, 0x00];
            let blk = if w.at < 7 {
                (w.at + 1) as u8
            } else {
                0
            };
            &&& !(w.stage is Burn) && looks ==> n.stage == w.stage && n.sweep.pos == w.sweep.pos + 1
                && s.lines.len() == 0 && (s.go matches GoModel::Ask(q) && asks_profile(
                q,
                w.sweep.pos + 1,
            ))
            &&& w.stage is Before && !looks ==> n.stage is Burn && n.at == 0 && (
            s.go matches GoModel::Ask(q) && crate::worker::block_write(q, 1, zero))
            &&& w.stage is Before && !looks ==> s.lines.len() == 2 && s.lines[0] == (match id {
                Some(i) => "tag reads "@ + hex_text(i),
                None => "no ID reads off the pad"@,
            })
            &&& w.stage is Burn ==> s.lines.len() > 0 && s.lines[0] == "block "@ + dec_text(
                blk as nat,
            ) + " <- "@ + hex_text(zero) + "  -> "@ + told
            &&& w.stage is Burn && w.at < 6 ==> n.stage is Burn && n.at == w.at + 1 && (
            s.go matches GoModel::Ask(q) && crate::worker::block_write(q, (w.at + 2) as u8, zero))
            &&& w.stage is Burn && w.at == 6 ==> n.stage is Burn && n.at == 7 && (
            s.go matches GoModel::Ask(q) && crate::worker::block_write(q, 0, zero))
            &&& w.stage is Burn && w.at == 7 ==> n.stage is After && n.sweep.pos == 0
                && n.sweep.total == 30 && (s.go matches GoModel::Ask(q) && asks_profile(q, 0))
            &&& w.stage is After && !looks ==> n.stage is Over && s.go is Done && s.lines == seq![
                match id {
                    Some(i) => "tag still reads "@ + hex_text(i),
                    None => "nothing reads off it."@,
                },
            ]
        }),
{
    lemma_asks_profile(0);
    lemma_asks_profile(w.sweep.pos + 1);
    crate::command::wipe_ends_with_the_config_word();
    assert(wipe_plan_of().len() == 8);
    let b: u8 = if w.stage is Burn && w.at < 6 {
        (w.at + 2) as u8
    } else if w.stage is Burn {
        0
    } else {
        1
    };
    crate::lf::tag_commands_carry_their_arguments(b, seq![0u8, 0, 0, 0]);
}

// ---- laws of sample ----

/// The sampler is armed, then fetched from; its bytes are shown with how many
/// of their bits are ones, and how many in a hundred that is, rounded down. Of
/// no bytes it is none.
pub proof fn samples_are_counted(armed: bool, a: AnswerModel)
    ensures
        a matches Err(e) ==> sample_answered(armed, a).go == GoModel::Fail(e),
        a is Ok && !armed ==> (sample_answered(armed, a).go matches GoModel::Ask(q) && q.payload
            == seq![0xffu8, 0x00, 0x66, 0x00, 0x1e, 0x48, 0xe8, 0x01, 0x00, 0x46, 0x00]),
        a matches Ok(r) ==> armed ==> match samples_of(r.payload) {
            Err(e) => sample_answered(armed, a).go == GoModel::Fail(e),
            Ok(b) => {
                let s = sample_answered(armed, a);
                let bits = 8 * b.len() as int;
                let n = ones_of(b);
                &&& s.go is Done
                &&& s.lines.len() == 2
                &&& s.lines[0] == hex_text(b)
                &&& exists|share: nat| #[trigger]
                    share_line(s.lines[1], n, bits, share) && (if bits == 0 {
                        share == 0
                    } else {
                        share * bits <= 100 * n < (share + 1) * bits
                    })
            },
        },
{
    crate::lf::tag_commands_carry_their_arguments(0, seq![0u8, 0, 0, 0]);
    if a is Ok && armed && samples_of(a->Ok_0.payload) is Ok {
        let b = samples_of(a->Ok_0.payload)->Ok_0;
        let s = sample_answered(armed, a);
        let bits = 8 * b.len() as int;
        let n = ones_of(b);
        lemma_ones_positive(b);
        let share: nat = if bits == 0 {
            0
        } else {
            (n * 100 / bits) as nat
        };
        if bits > 0 {
            vstd::arithmetic::div_mod::lemma_fundamental_div_mod(n * 100, bits);
            vstd::arithmetic::div_mod::lemma_div_pos_is_pos(n * 100, bits);
            assert(n * 100 == bits * (n * 100 / bits) + n * 100 % bits);
            assert(bits * (n * 100 / bits) == share * bits) by (nonlinear_arith)
                requires
                    share == n * 100 / bits,
            ;
            assert((share + 1) * bits == share * bits + bits) by (nonlinear_arith);
        }
        assert(share_line(s.lines[1], n, bits, share));
    }
}

/// The line says so many ones among so many bits, and the share.
pub open spec fn share_line(line: Seq<char>, n: int, bits: int, share: nat) -> bool {
    line == dec_text(n as nat) + " of "@ + dec_text(bits as nat) + " bits are ones, "@ + dec_text(
        share,
    ) + " per cent"@
}

proof fn lemma_ones_positive(b: Seq<u8>)
    ensures
        ones_of(b) >= 0,
    decreases b.len(),
{
    if b.len() > 0 {
        lemma_ones_positive(b.drop_last());
        crate::lf::ones_are_bits_added_up(b.last(), Seq::empty(), Seq::empty());
    }
}

// ---- laws of previews and views ----

/// Before a probe its codes are listed in order, in hex; without a yes it is
/// said that nothing was sent.
pub proof fn a_probe_lists_its_codes(code: Option<u8>, all: bool, yes: bool)
    ensures
        ({
            let (list, lines) = probe_preview_of(code, all, yes);
            let plan = probe_plan_of(code, all);
            &&& yes ==> list == Some(plan) && lines.len() == 1
            &&& !yes ==> list is None && lines.len() == 2
            &&& lines[0] == "codes: "@ + joined(
                plan.map_values(|e: (u8, usize)| hex2(e.0)),
                " "@,
            )
        }),
        wipe_preview_of(false).1.len() == 2,
        wipe_preview_of(false).1[0] == "zeroes blocks 1 to 7, then block 0"@,
        wipe_preview_of(true).1.len() == 0,
{
}

/// A write that is refused says what the tag reads as and what was to be
/// written.
pub proof fn a_refusal_names_both_ids(cur: Seq<u8>, id: Seq<u8>)
    ensures
        refusal_of(cur, id) == "the tag on the pad reads as "@ + hex_text(cur)
            + ". You asked to write "@ + hex_text(id)
            + ".\nRefusing to overwrite it. Pass --overwrite to go ahead anyway."@,
{
}

/// The views of the procedures keep what they hold.
pub proof fn views_keep_procedures(
    w: WriteRun,
    p: ProbeRun,
    x: WipeRun,
    id: Option<[u8; 5]>,
    v: Vec<String>,
    e: String,
    b: Vec<u8>,
    l: Vec<(u8, usize)>,
)
    ensures
        w@.stage == w.stage && w@.id == w.id@ && w@.overwrite == w.overwrite && w@.at == w.at,
        w@.sweep == w.sweep && w@.plan == plan_view(w.plan@),
        p@.stage == p.stage && p@.list == p.list@ && p@.at == p.at && p@.sweep == p.sweep,
        p@.before == id_view(p.before),
        x@.stage == x.stage && x@.at == x.at && x@.sweep == x.sweep && x@.plan == plan_view(x.plan@),
        preview_result(Ok((id, v))) == Ok::<(Option<Seq<u8>>, Seq<Seq<char>>), Seq<char>>(
            (id_view(id), texts(v@)),
        ),
        preview_result(Err(e)) == Err::<(Option<Seq<u8>>, Seq<Seq<char>>), Seq<char>>(e@),
        payload_preview(Ok((Some(b), v))) == Ok::<(Option<Seq<u8>>, Seq<Seq<char>>), Seq<char>>(
            (Some(b@), texts(v@)),
        ),
        payload_preview(Ok((None, v))) == Ok::<(Option<Seq<u8>>, Seq<Seq<char>>), Seq<char>>(
            (None, texts(v@)),
        ),
        payload_preview(Err(e)) == Err::<(Option<Seq<u8>>, Seq<Seq<char>>), Seq<char>>(e@),
        list_view(Some(l)) == Some(l@),
        list_view(None) is None,
{
}

} // verus!
