//! The side that talks to the reader while the screen stays responsive.
//!
//! A worker takes one job at a time. For each it says which command to put to
//! the reader next and, as the answers come, what to report.

use crate::command::{buzzer_payload, hf_detect_payload, hf_release_payload};
use crate::em4100::{plan_of, plan_view, same_id, write_plan};
use crate::frame::{reply_result, ReplyModel};
use crate::hexes::{hex, hex_text};
use crate::hf::{
    block_of, block_read, card_in, hf_card, hunt_opens, hunt_query, hunt_step, keys_view,
    known_keys, Hunt,
};
use crate::lf::{
    burn_query, payload_of, quick_step, sweep_hit, sweep_query, wipe_plan, wipe_plan_of,
    Answer, AnswerModel, Found, Quick, Sweep,
};
use crate::mifare::{
    kind_of, sector_first, sector_len, sector_span, sectors_of, Card, CardModel, KEYS,
    MAX_SECTORS,
};
use crate::reader::{surely, Query, QueryModel, Reader};
use crate::text::{dec, dec_text, hex2, hex2_string};
use vstd::prelude::*;

verus! {

/// Milliseconds a poll waits. Giving up on a read early makes the reader stamp
/// the answer it owes onto the next command, so this outlasts the slowest read
/// of an empty pad.
pub const POLL_TIMEOUT: i32 = 1200;

pub const POLL_TRIES: u32 = 2;

// ---- what goes back and forth ----

/// What lies on the reader.
#[derive(Clone, Debug, PartialEq)]
pub enum Pad {
    Empty,
    Lf { id: [u8; 5], freq: u32 },
    Hf(Card),
}

#[verifier::ext_equal]
pub enum PadModel {
    Empty,
    Lf { id: Seq<u8>, freq: u32 },
    Hf(CardModel),
}

impl View for Pad {
    type V = PadModel;

    open spec fn view(&self) -> PadModel {
        match self {
            Pad::Empty => PadModel::Empty,
            Pad::Lf { id, freq } => PadModel::Lf { id: id@, freq: *freq },
            Pad::Hf(c) => PadModel::Hf(c@),
        }
    }
}

impl Pad {
    /// A copy with the same contents.
    pub fn copy(&self) -> (r: Pad)
        ensures
            r@ == self@,
    {
        match self {
            Pad::Empty => Pad::Empty,
            Pad::Lf { id, freq } => Pad::Lf { id: *id, freq: *freq },
            Pad::Hf(c) => Pad::Hf(c.copy()),
        }
    }
}

/// Something to do with the reader.
pub enum Job {
    /// Look at the pad. True asks for a 13.56 MHz check too.
    Poll(bool),
    /// Full profile sweep, unlike the poll's single profile.
    ReadLf,
    /// Write an ID, with or without the config word.
    WriteLf([u8; 5], bool),
    WriteBlock(u8, [u8; 4]),
    /// Zero every block.
    Wipe,
    Dump,
    Raw(Vec<u8>),
    Beep,
    Quit,
}

#[verifier::ext_equal]
pub enum JobModel {
    Poll(bool),
    ReadLf,
    WriteLf(Seq<u8>, bool),
    WriteBlock(u8, Seq<u8>),
    Wipe,
    Dump,
    Raw(Seq<u8>),
    Beep,
    Quit,
}

impl View for Job {
    type V = JobModel;

    open spec fn view(&self) -> JobModel {
        match self {
            Job::Poll(hf) => JobModel::Poll(*hf),
            Job::ReadLf => JobModel::ReadLf,
            Job::WriteLf(id, config) => JobModel::WriteLf(id@, *config),
            Job::WriteBlock(blk, data) => JobModel::WriteBlock(*blk, data@),
            Job::Wipe => JobModel::Wipe,
            Job::Dump => JobModel::Dump,
            Job::Raw(p) => JobModel::Raw(p@),
            Job::Beep => JobModel::Beep,
            Job::Quit => JobModel::Quit,
        }
    }
}

/// A sector of a dump. No key means the blocks were never read, not that they
/// read as zero.
pub struct Sector {
    pub number: u8,
    pub key: Option<[u8; 6]>,
    pub blocks: Vec<[u8; 16]>,
}

#[verifier::ext_equal]
pub struct SectorModel {
    pub number: u8,
    pub key: Option<Seq<u8>>,
    pub blocks: Seq<Seq<u8>>,
}

pub open spec fn blocks_view(blocks: Seq<[u8; 16]>) -> Seq<Seq<u8>> {
    blocks.map_values(|b: [u8; 16]| b@)
}

pub open spec fn key_view(k: Option<[u8; 6]>) -> Option<Seq<u8>> {
    match k {
        Some(k) => Some(k@),
        None => None,
    }
}

impl View for Sector {
    type V = SectorModel;

    open spec fn view(&self) -> SectorModel {
        SectorModel {
            number: self.number,
            key: key_view(self.key),
            blocks: blocks_view(self.blocks@),
        }
    }
}

/// What a worker reports.
pub enum Event {
    Pad(Pad),
    /// A line for the log, true if it is bad news.
    Log(String, bool),
    Busy(&'static str),
    Idle,
    Sector(Sector),
}

#[verifier::ext_equal]
pub enum EventModel {
    Pad(PadModel),
    Log(Seq<char>, bool),
    Busy(Seq<char>),
    Idle,
    Sector(SectorModel),
}

impl View for Event {
    type V = EventModel;

    open spec fn view(&self) -> EventModel {
        match self {
            Event::Pad(p) => EventModel::Pad(p@),
            Event::Log(m, bad) => EventModel::Log(m@, *bad),
            Event::Busy(w) => EventModel::Busy(w@),
            Event::Idle => EventModel::Idle,
            Event::Sector(s) => EventModel::Sector(s@),
        }
    }
}

/// What a worker does next: put a command to the reader, wait for a job, or
/// leave.
pub enum Next {
    Ask(Query),
    Rest,
    Quit,
}

pub enum NextModel {
    Ask(QueryModel),
    Rest,
    Quit,
}

impl View for Next {
    type V = NextModel;

    open spec fn view(&self) -> NextModel {
        match self {
            Next::Ask(q) => NextModel::Ask(q@),
            Next::Rest => NextModel::Rest,
            Next::Quit => NextModel::Quit,
        }
    }
}

/// What came of one step.
pub struct Turn {
    pub events: Vec<Event>,
    pub next: Next,
}

#[verifier::ext_equal]
pub struct TurnModel {
    pub events: Seq<EventModel>,
    pub next: NextModel,
}

pub open spec fn events_view(events: Seq<Event>) -> Seq<EventModel> {
    events.map_values(|e: Event| e@)
}

impl View for Turn {
    type V = TurnModel;

    open spec fn view(&self) -> TurnModel {
        TurnModel { events: events_view(self.events@), next: self.next@ }
    }
}

pub open spec fn turn0_of(next: NextModel) -> TurnModel {
    TurnModel { events: Seq::empty(), next }
}

pub open spec fn turn1_of(a: EventModel, next: NextModel) -> TurnModel {
    TurnModel { events: seq![a], next }
}

pub open spec fn turn2_of(a: EventModel, b: EventModel, next: NextModel) -> TurnModel {
    TurnModel { events: seq![a, b], next }
}

pub open spec fn turn3_of(a: EventModel, b: EventModel, c: EventModel, next: NextModel) -> TurnModel {
    TurnModel { events: seq![a, b, c], next }
}

fn turn0(next: Next) -> (r: Turn)
    ensures
        r@ == turn0_of(next@),
{
    let r = Turn { events: Vec::new(), next };
    assert(r@.events =~= Seq::empty());
    r
}

fn turn1(a: Event, next: Next) -> (r: Turn)
    ensures
        r@ == turn1_of(a@, next@),
{
    let mut events: Vec<Event> = Vec::new();
    events.push(a);
    let r = Turn { events, next };
    assert(r@.events =~= seq![a@]);
    r
}

fn turn2(a: Event, b: Event, next: Next) -> (r: Turn)
    ensures
        r@ == turn2_of(a@, b@, next@),
{
    let mut events: Vec<Event> = Vec::new();
    events.push(a);
    events.push(b);
    let r = Turn { events, next };
    assert(r@.events =~= seq![a@, b@]);
    r
}

fn turn3(a: Event, b: Event, c: Event, next: Next) -> (r: Turn)
    ensures
        r@ == turn3_of(a@, b@, c@, next@),
{
    let mut events: Vec<Event> = Vec::new();
    events.push(a);
    events.push(b);
    events.push(c);
    let r = Turn { events, next };
    assert(r@.events =~= seq![a@, b@, c@]);
    r
}

// ---- the worker ----

/// What a worker is in the middle of.
#[derive(Clone, Copy, Debug, PartialEq, Eq, Structural)]
pub enum Doing {
    Nothing,
    /// Polling, first the 125 kHz side and then the other.
    PollLf,
    PollHf,
    /// Sweeping for an ID.
    Read,
    Beep,
    Raw,
    /// Writing a single block.
    Block,
    /// Going through a plan of blocks, an ID or a wipe.
    Burn,
    /// Reading back what a plan left.
    Check,
    /// Dumping: finding the card, then for each sector its key and its blocks,
    /// then letting go.
    Detect,
    Hunt,
    Fetch,
    Release,
}

pub struct Worker {
    pub doing: Doing,
    /// Milliseconds a command may take, other than a poll.
    pub full: i32,
    /// Milliseconds the present command may take.
    pub timeout: i32,
    pub check_hf: bool,
    pub quick: Quick,
    pub sweep: Sweep,
    pub id: [u8; 5],
    pub wiping: bool,
    pub plan: Vec<(u8, [u8; 4])>,
    pub at: usize,
    pub failed: bool,
    pub uid: Vec<u8>,
    pub sectors: u8,
    pub sector: u8,
    pub hunt: Hunt,
    pub key: [u8; 6],
    pub blocks: Vec<[u8; 16]>,
}

#[verifier::ext_equal]
pub struct WorkerModel {
    pub doing: Doing,
    pub full: i32,
    pub timeout: i32,
    pub check_hf: bool,
    pub quick: Quick,
    pub sweep: Sweep,
    pub id: Seq<u8>,
    pub wiping: bool,
    pub plan: Seq<(u8, Seq<u8>)>,
    pub at: int,
    pub failed: bool,
    pub uid: Seq<u8>,
    pub sectors: u8,
    pub sector: u8,
    pub hunt: Hunt,
    pub key: Seq<u8>,
    pub blocks: Seq<Seq<u8>>,
}

impl View for Worker {
    type V = WorkerModel;

    open spec fn view(&self) -> WorkerModel {
        WorkerModel {
            doing: self.doing,
            full: self.full,
            timeout: self.timeout,
            check_hf: self.check_hf,
            quick: self.quick,
            sweep: self.sweep,
            id: self.id@,
            wiping: self.wiping,
            plan: plan_view(self.plan@),
            at: self.at as int,
            failed: self.failed,
            uid: self.uid@,
            sectors: self.sectors,
            sector: self.sector,
            hunt: self.hunt,
            key: self.key@,
            blocks: blocks_view(self.blocks@),
        }
    }
}

impl WorkerModel {
    /// A command is outstanding in every state but `Nothing`, and the state
    /// says which.
    pub open spec fn wf(self) -> bool {
        match self.doing {
            Doing::PollLf => self.quick.left > 0,
            Doing::Read => self.sweep.pos < self.sweep.total,
            Doing::Check => self.sweep.pos < self.sweep.total,
            Doing::Block => self.plan.len() == 1,
            Doing::Burn => 0 <= self.at < self.plan.len(),
            Doing::Hunt => {
                &&& self.sector < self.sectors <= MAX_SECTORS
                &&& self.hunt.at < KEYS@.len()
                &&& self.uid.len() >= 4
            },
            Doing::Fetch => {
                &&& self.sector < self.sectors <= MAX_SECTORS
                &&& self.blocks.len() < sector_len(self.sector as int)
                &&& self.uid.len() >= 4
            },
            _ => true,
        }
    }
}

// ---- starting a job ----

/// A sweep of every profile, `tries` times over.
pub open spec fn sweep_of(tries: int) -> Sweep {
    Sweep { pos: 0, total: (tries * 10) as u64 }
}

/// The worker and its turn once it has been given a job.
pub open spec fn started(w: WorkerModel, job: JobModel) -> (WorkerModel, TurnModel) {
    let w = WorkerModel {
        timeout: if job is Poll {
            POLL_TIMEOUT
        } else {
            w.full
        },
        ..w
    };
    match job {
        JobModel::Quit => (WorkerModel { doing: Doing::Nothing, ..w }, turn0_of(NextModel::Quit)),
        JobModel::Poll(hf) => (
            WorkerModel {
                doing: Doing::PollLf,
                check_hf: hf,
                quick: Quick { left: POLL_TRIES },
                ..w
            },
            turn0_of(NextModel::Ask(sweep_query(0))),
        ),
        JobModel::ReadLf => (
            WorkerModel { doing: Doing::Read, sweep: sweep_of(2), ..w },
            turn1_of(EventModel::Busy("reading"@), NextModel::Ask(sweep_query(0))),
        ),
        JobModel::Beep => (
            WorkerModel { doing: Doing::Beep, ..w },
            turn1_of(
                EventModel::Busy("beeping"@),
                NextModel::Ask(surely(buzzer_payload(5, 1))),
            ),
        ),
        JobModel::Raw(p) => (
            WorkerModel { doing: Doing::Raw, ..w },
            turn2_of(
                EventModel::Busy("sending"@),
                EventModel::Log("-> "@ + hex_text(p), false),
                NextModel::Ask(surely(p)),
            ),
        ),
        JobModel::WriteBlock(blk, data) => (
            WorkerModel { doing: Doing::Block, plan: seq![(blk, data)], ..w },
            turn1_of(EventModel::Busy("writing"@), NextModel::Ask(burn_query(blk, data))),
        ),
        JobModel::WriteLf(id, config) => burning(
            WorkerModel { id, wiping: false, plan: plan_of(id, config), ..w },
            "writing"@,
        ),
        JobModel::Wipe => burning(
            WorkerModel { wiping: true, plan: wipe_plan_of(), ..w },
            "wiping"@,
        ),
        JobModel::Dump => (
            WorkerModel { doing: Doing::Detect, ..w },
            turn1_of(EventModel::Busy("dumping"@), NextModel::Ask(surely(hf_detect_payload()))),
        ),
    }
}

/// The worker and its turn at the head of a plan.
pub open spec fn burning(w: WorkerModel, what: Seq<char>) -> (WorkerModel, TurnModel) {
    (
        WorkerModel { doing: Doing::Burn, at: 0, failed: false, ..w },
        turn1_of(
            EventModel::Busy(what),
            NextModel::Ask(burn_query(w.plan[0].0, w.plan[0].1)),
        ),
    )
}

/// A worker that has not been given a job.
pub open spec fn fresh_worker(full: i32) -> WorkerModel {
    WorkerModel {
        doing: Doing::Nothing,
        full,
        timeout: full,
        check_hf: false,
        quick: Quick { left: 0 },
        sweep: Sweep { pos: 0, total: 0 },
        id: seq![0u8, 0, 0, 0, 0],
        wiping: false,
        plan: Seq::empty(),
        at: 0,
        failed: false,
        uid: Seq::empty(),
        sectors: 0,
        sector: 0,
        hunt: Hunt { at: 0, selected: false },
        key: seq![0u8, 0, 0, 0, 0, 0],
        blocks: Seq::empty(),
    }
}

impl Worker {
    pub fn new(full: i32) -> (r: Worker)
        ensures
            r@ == fresh_worker(full),
            r@.wf(),
    {
        let r = Worker {
            doing: Doing::Nothing,
            full,
            timeout: full,
            check_hf: false,
            quick: Quick { left: 0 },
            sweep: Sweep { pos: 0, total: 0 },
            id: [0, 0, 0, 0, 0],
            wiping: false,
            plan: Vec::new(),
            at: 0,
            failed: false,
            uid: Vec::new(),
            sectors: 0,
            sector: 0,
            hunt: Hunt::new(),
            key: [0, 0, 0, 0, 0, 0],
            blocks: Vec::new(),
        };
        assert(r@ =~= fresh_worker(full));
        r
    }

    fn start_plan(&mut self, what: &'static str) -> (r: Turn)
        requires
            old(self)@.plan.len() > 0,
        ensures
            (final(self)@, r@) == burning(old(self)@, what@),
            final(self)@.wf(),
    {
        self.doing = Doing::Burn;
        self.at = 0;
        self.failed = false;
        let (blk, data) = self.plan[0];
        turn1(Event::Busy(what), Next::Ask(Reader::lf_write_block(blk, data)))
    }

    /// Begin a job.
    pub fn start(&mut self, job: Job) -> (r: Turn)
        requires
            old(self)@.wf(),
        ensures
            (final(self)@, r@) == started(old(self)@, job@),
            final(self)@.wf(),
            final(self)@.doing is Nothing <==> job is Quit,
    {
        self.timeout = match job {
            Job::Poll(_) => POLL_TIMEOUT,
            _ => self.full,
        };
        match job {
            Job::Quit => {
                self.doing = Doing::Nothing;
                turn0(Next::Quit)
            },
            Job::Poll(hf) => {
                self.doing = Doing::PollLf;
                self.check_hf = hf;
                self.quick = Quick { left: POLL_TRIES };
                turn0(Next::Ask(Quick::query()))
            },
            Job::ReadLf => {
                self.doing = Doing::Read;
                self.sweep = Sweep::new(2);
                turn1(Event::Busy("reading"), Next::Ask(Quick::query()))
            },
            Job::Beep => {
                self.doing = Doing::Beep;
                turn1(Event::Busy("beeping"), Next::Ask(Reader::beep(5, 1)))
            },
            Job::Raw(p) => {
                self.doing = Doing::Raw;
                let note = "-> ".to_owned().concat(hex(p.as_slice()).as_str());
                turn2(
                    Event::Busy("sending"),
                    Event::Log(note, false),
                    Next::Ask(Query::surely(p)),
                )
            },
            Job::WriteBlock(blk, data) => {
                self.doing = Doing::Block;
                let mut plan: Vec<(u8, [u8; 4])> = Vec::new();
                plan.push((blk, data));
                assert(plan_view(plan@) =~= seq![(blk, data@)]);
                self.plan = plan;
                turn1(Event::Busy("writing"), Next::Ask(Reader::lf_write_block(blk, data)))
            },
            Job::WriteLf(id, config) => {
                self.id = id;
                self.wiping = false;
                self.plan = write_plan(id, config);
                self.start_plan("writing")
            },
            Job::Wipe => {
                self.wiping = true;
                self.plan = wipe_plan();
                self.start_plan("wiping")
            },
            Job::Dump => {
                self.doing = Doing::Detect;
                turn1(Event::Busy("dumping"), Next::Ask(Reader::hf_raw()))
            },
        }
    }
}

// ---- taking an answer ----

/// A job is over: the worker rests, and says so.
pub open spec fn over(w: WorkerModel) -> WorkerModel {
    WorkerModel { doing: Doing::Nothing, ..w }
}

/// A job that ends with one line for the log.
pub open spec fn said(w: WorkerModel, m: Seq<char>, bad: bool) -> (WorkerModel, TurnModel) {
    (over(w), turn2_of(EventModel::Log(m, bad), EventModel::Idle, NextModel::Rest))
}

/// A job that ends with a line and a tag on the pad.
pub open spec fn said_tag(w: WorkerModel, m: Seq<char>, bad: bool, id: Seq<u8>, freq: u32) -> (
    WorkerModel,
    TurnModel,
) {
    (
        over(w),
        turn3_of(
            EventModel::Log(m, bad),
            EventModel::Pad(PadModel::Lf { id, freq }),
            EventModel::Idle,
            NextModel::Rest,
        ),
    )
}

/// A poll ends with what lies on the pad, and nothing else.
pub open spec fn polled(w: WorkerModel, p: PadModel) -> (WorkerModel, TurnModel) {
    (over(w), turn1_of(EventModel::Pad(p), NextModel::Rest))
}

pub open spec fn pad_of(c: Option<CardModel>) -> PadModel {
    match c {
        Some(c) => PadModel::Hf(c),
        None => PadModel::Empty,
    }
}

pub open spec fn poll_lf_answered(w: WorkerModel, a: AnswerModel) -> (WorkerModel, TurnModel) {
    let w = WorkerModel { quick: Quick { left: (w.quick.left - 1) as u32 }, ..w };
    match quick_step(w.quick.left + 1, a) {
        None => (w, turn0_of(NextModel::Ask(sweep_query(0)))),
        Some(Some(id)) => polled(w, PadModel::Lf { id, freq: 125_000 }),
        Some(None) => if w.check_hf {
            (
                WorkerModel { doing: Doing::PollHf, ..w },
                turn0_of(NextModel::Ask(surely(hf_detect_payload()))),
            )
        } else {
            polled(w, PadModel::Empty)
        },
    }
}

/// The sweep one profile further.
pub open spec fn swept_on(w: WorkerModel) -> WorkerModel {
    WorkerModel { sweep: Sweep { pos: (w.sweep.pos + 1) as u64, ..w.sweep }, ..w }
}

pub open spec fn read_note_of(id: Seq<u8>, freq: u32, lc: u8) -> Seq<char> {
    dec_text(freq as nat) + " Hz lc "@ + hex2(lc) + "  "@ + hex_text(id)
}

pub open spec fn read_answered(w: WorkerModel, a: AnswerModel) -> (WorkerModel, TurnModel) {
    let n = swept_on(w);
    match sweep_hit(w.sweep.pos as int, a) {
        Some((id, freq, lc)) => said_tag(n, read_note_of(id, freq, lc), false, id, freq),
        None => if n.sweep.pos < n.sweep.total {
            (n, turn0_of(NextModel::Ask(sweep_query(n.sweep.pos as int))))
        } else {
            said(n, "no ID in any profile"@, true)
        },
    }
}

pub open spec fn beep_answered(w: WorkerModel, a: AnswerModel) -> (WorkerModel, TurnModel) {
    match payload_of(a) {
        Ok(_) => said(w, "beep"@, false),
        Err(e) => said(w, e, true),
    }
}

/// What is wrong with a reply, for the log.
pub open spec fn reply_note_of(r: ReplyModel) -> Seq<char> {
    (if r.checksum_ok {
        ""@
    } else {
        "  [cksum BAD]"@
    }) + (if r.trailer_ok {
        ""@
    } else {
        "  [trailer BAD]"@
    })
}

pub open spec fn raw_answered(w: WorkerModel, a: AnswerModel) -> (WorkerModel, TurnModel) {
    match a {
        Ok(r) => said(
            w,
            "<- "@ + hex_text(r.payload) + reply_note_of(r),
            !r.checksum_ok || !r.trailer_ok,
        ),
        Err(e) => said(w, "<- "@ + e, true),
    }
}

pub open spec fn block_fault_of(blk: u8, e: Seq<char>) -> Seq<char> {
    "block "@ + dec_text(blk as nat) + ": "@ + e
}

pub open spec fn block_answered(w: WorkerModel, a: AnswerModel) -> (WorkerModel, TurnModel) {
    let (blk, data) = w.plan[0];
    match payload_of(a) {
        Ok(p) => said(
            w,
            "block "@ + dec_text(blk as nat) + " <- "@ + hex_text(data) + "  reply "@ + hex_text(p),
            false,
        ),
        Err(e) => said(w, block_fault_of(blk, e), true),
    }
}

/// A block of a plan has been answered. A fault is reported and the plan goes
/// on; a plan with a fault is not read back.
pub open spec fn burn_answered(w: WorkerModel, a: AnswerModel) -> (WorkerModel, TurnModel) {
    let n = WorkerModel { at: w.at + 1, failed: w.failed || a is Err, ..w };
    let faults = match a {
        Ok(_) => Seq::empty(),
        Err(e) => seq![EventModel::Log(block_fault_of(w.plan[w.at].0, e), true)],
    };
    if n.at < n.plan.len() {
        let (blk, data) = n.plan[n.at];
        (n, TurnModel { events: faults, next: NextModel::Ask(burn_query(blk, data)) })
    } else if n.failed {
        (over(n), TurnModel { events: faults.push(EventModel::Idle), next: NextModel::Rest })
    } else {
        (
            WorkerModel { doing: Doing::Check, sweep: sweep_of(3), ..n },
            turn0_of(NextModel::Ask(sweep_query(0))),
        )
    }
}

/// A write answers `00` whatever happened, so what counts is what reads back.
pub open spec fn check_answered(w: WorkerModel, a: AnswerModel) -> (WorkerModel, TurnModel) {
    let n = swept_on(w);
    match sweep_hit(w.sweep.pos as int, a) {
        Some((got, freq, lc)) => if w.wiping {
            said_tag(n, "wiped, but tag reads "@ + hex_text(got), true, got, freq)
        } else if got == w.id {
            said_tag(n, "wrote "@ + hex_text(w.id) + " and read it back"@, false, got, freq)
        } else {
            said_tag(
                n,
                "wrote "@ + hex_text(w.id) + " but tag reads "@ + hex_text(got),
                true,
                got,
                freq,
            )
        },
        None => if n.sweep.pos < n.sweep.total {
            (n, turn0_of(NextModel::Ask(sweep_query(n.sweep.pos as int))))
        } else if w.wiping {
            said(n, "wiped. Nothing reads off it."@, false)
        } else {
            said(n, "wrote, but nothing reads back. Try block 0."@, true)
        },
    }
}

/// The command that a hunt for the key of the present sector sends.
pub open spec fn sector_hunt(w: WorkerModel) -> QueryModel {
    hunt_query(
        w.hunt,
        false,
        sector_first(w.sector as int) as u8,
        w.uid,
        keys_view(KEYS@),
    )
}

pub open spec fn fresh_hunt() -> Hunt {
    Hunt { at: 0, selected: false }
}

pub open spec fn detect_answered(w: WorkerModel, a: AnswerModel) -> (WorkerModel, TurnModel) {
    match card_in(a) {
        None => said(w, "no card on the pad"@, true),
        Some(c) => match sectors_of(c.sak) {
            None => said(w, kind_of(c.sak) + " has no Classic sectors"@, true),
            Some(k) => {
                let n = WorkerModel {
                    doing: Doing::Hunt,
                    uid: c.uid,
                    sectors: k,
                    sector: 0,
                    hunt: fresh_hunt(),
                    ..w
                };
                (n, turn0_of(NextModel::Ask(sector_hunt(n))))
            },
        },
    }
}

/// A sector is done: on to the next, or to letting the card go.
pub open spec fn sector_done(w: WorkerModel, s: SectorModel) -> (WorkerModel, TurnModel) {
    let n = WorkerModel { sector: (w.sector + 1) as u8, hunt: fresh_hunt(), ..w };
    if n.sector < n.sectors {
        let n = WorkerModel { doing: Doing::Hunt, ..n };
        (n, turn1_of(EventModel::Sector(s), NextModel::Ask(sector_hunt(n))))
    } else {
        (
            WorkerModel { doing: Doing::Release, ..n },
            turn1_of(EventModel::Sector(s), NextModel::Ask(surely(hf_release_payload()))),
        )
    }
}

pub open spec fn hunt_answered(w: WorkerModel, a: AnswerModel) -> (WorkerModel, TurnModel) {
    let n = WorkerModel { hunt: hunt_step(w.hunt, a), ..w };
    if hunt_opens(w.hunt, a) {
        let first = sector_first(w.sector as int) as u8;
        (
            WorkerModel {
                doing: Doing::Fetch,
                key: KEYS@[w.hunt.at as int]@,
                blocks: Seq::empty(),
                ..n
            },
            turn0_of(NextModel::Ask(surely(crate::command::mifare_read_payload(first)))),
        )
    } else if n.hunt.at < KEYS@.len() {
        (n, turn0_of(NextModel::Ask(sector_hunt(n))))
    } else {
        sector_done(n, SectorModel { number: w.sector, key: None, blocks: Seq::empty() })
    }
}

pub open spec fn zero_block() -> Seq<u8> {
    Seq::new(16, |i: int| 0u8)
}

/// A block has been read. One that cannot be read counts as zeroes.
pub open spec fn fetch_answered(w: WorkerModel, a: AnswerModel) -> (WorkerModel, TurnModel) {
    let got = match block_of(a) {
        Ok(b) => b,
        Err(_) => zero_block(),
    };
    let n = WorkerModel { blocks: w.blocks.push(got), ..w };
    if n.blocks.len() < sector_len(w.sector as int) {
        let blk = (sector_first(w.sector as int) + n.blocks.len()) as u8;
        (n, turn0_of(NextModel::Ask(surely(crate::command::mifare_read_payload(blk)))))
    } else {
        sector_done(
            WorkerModel { blocks: Seq::empty(), ..w },
            SectorModel { number: w.sector, key: Some(w.key), blocks: n.blocks },
        )
    }
}

/// The worker and its turn once the command it asked for has been answered.
pub open spec fn answered(w: WorkerModel, a: AnswerModel) -> (WorkerModel, TurnModel) {
    match w.doing {
        Doing::Nothing => (w, turn0_of(NextModel::Rest)),
        Doing::PollLf => poll_lf_answered(w, a),
        Doing::PollHf => polled(w, pad_of(card_in(a))),
        Doing::Read => read_answered(w, a),
        Doing::Beep => beep_answered(w, a),
        Doing::Raw => raw_answered(w, a),
        Doing::Block => block_answered(w, a),
        Doing::Burn => burn_answered(w, a),
        Doing::Check => check_answered(w, a),
        Doing::Detect => detect_answered(w, a),
        Doing::Hunt => hunt_answered(w, a),
        Doing::Fetch => fetch_answered(w, a),
        Doing::Release => said(
            w,
            "dumped "@ + dec_text(w.sectors as nat) + " sectors"@,
            false,
        ),
    }
}

fn block_fault(blk: u8, e: &str) -> (r: String)
    ensures
        r@ == block_fault_of(blk, e@),
{
    "block ".to_owned().concat(dec(blk as u64).as_str()).concat(": ").concat(e)
}

impl Worker {
    fn say(&mut self, m: String, bad: bool) -> (r: Turn)
        ensures
            (final(self)@, r@) == said(old(self)@, m@, bad),
            final(self)@.wf(),
    {
        self.doing = Doing::Nothing;
        turn2(Event::Log(m, bad), Event::Idle, Next::Rest)
    }

    fn say_tag(&mut self, m: String, bad: bool, id: [u8; 5], freq: u32) -> (r: Turn)
        ensures
            (final(self)@, r@) == said_tag(old(self)@, m@, bad, id@, freq),
            final(self)@.wf(),
    {
        self.doing = Doing::Nothing;
        turn3(Event::Log(m, bad), Event::Pad(Pad::Lf { id, freq }), Event::Idle, Next::Rest)
    }

    fn poll_ends(&mut self, p: Pad) -> (r: Turn)
        ensures
            (final(self)@, r@) == polled(old(self)@, p@),
            final(self)@.wf(),
    {
        self.doing = Doing::Nothing;
        turn1(Event::Pad(p), Next::Rest)
    }

    fn on_poll_lf(&mut self, a: &Answer) -> (r: Turn)
        requires
            old(self)@.wf(),
            old(self).doing is PollLf,
        ensures
            (final(self)@, r@) == poll_lf_answered(old(self)@, reply_result(*a)),
            final(self)@.wf(),
    {
        let mut quick = self.quick;
        let got = quick.answer(a);
        self.quick = quick;
        match got {
            None => turn0(Next::Ask(Quick::query())),
            Some(Some(id)) => self.poll_ends(Pad::Lf { id, freq: 125_000 }),
            Some(None) => {
                if self.check_hf {
                    self.doing = Doing::PollHf;
                    turn0(Next::Ask(Reader::hf_raw()))
                } else {
                    self.poll_ends(Pad::Empty)
                }
            },
        }
    }

    fn on_poll_hf(&mut self, a: &Answer) -> (r: Turn)
        ensures
            (final(self)@, r@) == polled(old(self)@, pad_of(card_in(reply_result(*a)))),
            final(self)@.wf(),
    {
        match hf_card(a) {
            Some(c) => self.poll_ends(Pad::Hf(c)),
            None => self.poll_ends(Pad::Empty),
        }
    }

    /// Move the sweep on; what it found, and what it asks next.
    fn sweep_on(&mut self, a: &Answer) -> (r: (Option<Found>, Option<Query>))
        requires
            old(self).sweep.pos < old(self).sweep.total,
        ensures
            final(self)@ == swept_on(old(self)@),
            crate::lf::found_view(r.0) == sweep_hit(old(self).sweep.pos as int, reply_result(*a)),
            r.1 is Some <==> final(self).sweep.pos < final(self).sweep.total,
            r.1 is Some ==> r.1->Some_0@ == sweep_query(final(self).sweep.pos as int),
    {
        let mut sweep = self.sweep;
        let found = sweep.answer(a);
        self.sweep = sweep;
        (found, sweep.query())
    }

    fn on_read(&mut self, a: &Answer) -> (r: Turn)
        requires
            old(self)@.wf(),
            old(self).doing is Read,
        ensures
            (final(self)@, r@) == read_answered(old(self)@, reply_result(*a)),
            final(self)@.wf(),
    {
        match self.sweep_on(a) {
            (Some((id, freq, lc)), _) => {
                let m = dec(freq as u64).concat(" Hz lc ").concat(hex2_string(lc).as_str()).concat(
                    "  ",
                ).concat(hex(id.as_slice()).as_str());
                self.say_tag(m, false, id, freq)
            },
            (None, Some(q)) => turn0(Next::Ask(q)),
            (None, None) => self.say("no ID in any profile".to_owned(), true),
        }
    }

    fn on_beep(&mut self, a: Answer) -> (r: Turn)
        ensures
            (final(self)@, r@) == beep_answered(old(self)@, reply_result(a)),
            final(self)@.wf(),
    {
        match a {
            Ok(_) => self.say("beep".to_owned(), false),
            Err(e) => self.say(e, true),
        }
    }

    fn on_raw(&mut self, a: Answer) -> (r: Turn)
        ensures
            (final(self)@, r@) == raw_answered(old(self)@, reply_result(a)),
            final(self)@.wf(),
    {
        match a {
            Ok(d) => {
                let ghost m = d@;
                let sum: &str = if d.checksum_ok {
                    ""
                } else {
                    "  [cksum BAD]"
                };
                let end: &str = if d.trailer_ok {
                    ""
                } else {
                    "  [trailer BAD]"
                };
                let note = sum.to_owned().concat(end);
                assert(note@ == reply_note_of(m));
                let line = "<- ".to_owned().concat(hex(d.payload.as_slice()).as_str()).concat(
                    note.as_str(),
                );
                self.say(line, !d.checksum_ok || !d.trailer_ok)
            },
            Err(e) => self.say("<- ".to_owned().concat(e.as_str()), true),
        }
    }

    fn on_block(&mut self, a: Answer) -> (r: Turn)
        requires
            old(self)@.wf(),
            old(self).doing is Block,
        ensures
            (final(self)@, r@) == block_answered(old(self)@, reply_result(a)),
            final(self)@.wf(),
    {
        assert(self.plan@.len() == 1);
        let (blk, data) = self.plan[0];
        match a {
            Ok(d) => {
                let m = "block ".to_owned().concat(dec(blk as u64).as_str()).concat(" <- ").concat(
                    hex(data.as_slice()).as_str(),
                ).concat("  reply ").concat(hex(d.payload.as_slice()).as_str());
                self.say(m, false)
            },
            Err(e) => self.say(block_fault(blk, e.as_str()), true),
        }
    }

    fn on_burn(&mut self, a: Answer) -> (r: Turn)
        requires
            old(self)@.wf(),
            old(self).doing is Burn,
        ensures
            (final(self)@, r@) == burn_answered(old(self)@, reply_result(a)),
            final(self)@.wf(),
    {
        let ghost w = self@;
        let total: usize = self.plan.len();
        assert(self.at < total);
        let (blk, _data) = self.plan[self.at];
        assert(blk == w.plan[w.at].0);
        let mut events: Vec<Event> = Vec::new();
        assert(events_view(events@) =~= Seq::empty());
        match a {
            Ok(_) => {},
            Err(e) => {
                let m = block_fault(blk, e.as_str());
                self.failed = true;
                events.push(Event::Log(m, true));
                assert(events_view(events@) =~= seq![EventModel::Log(m@, true)]);
            },
        }
        self.at = self.at + 1;
        if self.at < total {
            let (blk, data) = self.plan[self.at];
            assert((blk, data@) == self@.plan[self.at as int]);
            Turn { events, next: Next::Ask(Reader::lf_write_block(blk, data)) }
        } else if self.failed {
            self.doing = Doing::Nothing;
            let ghost before = events@;
            events.push(Event::Idle);
            assert(events_view(events@) =~= events_view(before).push(EventModel::Idle));
            Turn { events, next: Next::Rest }
        } else {
            self.doing = Doing::Check;
            self.sweep = Sweep::new(3);
            Turn { events, next: Next::Ask(Quick::query()) }
        }
    }

    fn on_check(&mut self, a: &Answer) -> (r: Turn)
        requires
            old(self)@.wf(),
            old(self).doing is Check,
        ensures
            (final(self)@, r@) == check_answered(old(self)@, reply_result(*a)),
            final(self)@.wf(),
    {
        match self.sweep_on(a) {
            (Some((got, freq, _lc)), _) => {
                let shown = hex(got.as_slice());
                if self.wiping {
                    self.say_tag(
                        "wiped, but tag reads ".to_owned().concat(shown.as_str()),
                        true,
                        got,
                        freq,
                    )
                } else {
                    let m = "wrote ".to_owned().concat(hex(self.id.as_slice()).as_str());
                    if same_id(got, self.id) {
                        self.say_tag(m.concat(" and read it back"), false, got, freq)
                    } else {
                        self.say_tag(
                            m.concat(" but tag reads ").concat(shown.as_str()),
                            true,
                            got,
                            freq,
                        )
                    }
                }
            },
            (None, Some(q)) => turn0(Next::Ask(q)),
            (None, None) => {
                if self.wiping {
                    self.say("wiped. Nothing reads off it.".to_owned(), false)
                } else {
                    self.say("wrote, but nothing reads back. Try block 0.".to_owned(), true)
                }
            },
        }
    }

    fn hunt_on(&self) -> (r: Query)
        requires
            self@.wf(),
            self.doing is Hunt,
        ensures
            r@ == sector_hunt(self@),
    {
        let (first, _len) = sector_span(self.sector);
        let keys = known_keys();
        self.hunt.query(false, first, self.uid.as_slice(), &keys)
    }

    fn on_detect(&mut self, a: &Answer) -> (r: Turn)
        ensures
            (final(self)@, r@) == detect_answered(old(self)@, reply_result(*a)),
            final(self)@.wf(),
    {
        match hf_card(a) {
            None => self.say("no card on the pad".to_owned(), true),
            Some(c) => match c.sectors() {
                None => self.say(c.kind().to_owned().concat(" has no Classic sectors"), true),
                Some(k) => {
                    self.doing = Doing::Hunt;
                    self.uid = c.uid;
                    self.sectors = k;
                    self.sector = 0;
                    self.hunt = Hunt::new();
                    let q = self.hunt_on();
                    turn0(Next::Ask(q))
                },
            },
        }
    }

    fn end_sector(&mut self, s: Sector) -> (r: Turn)
        requires
            old(self).sector < old(self).sectors <= MAX_SECTORS,
            old(self).uid@.len() >= 4,
        ensures
            (final(self)@, r@) == sector_done(old(self)@, s@),
            final(self)@.wf(),
    {
        self.sector = self.sector + 1;
        self.hunt = Hunt::new();
        if self.sector < self.sectors {
            self.doing = Doing::Hunt;
            let q = self.hunt_on();
            turn1(Event::Sector(s), Next::Ask(q))
        } else {
            self.doing = Doing::Release;
            turn1(Event::Sector(s), Next::Ask(Reader::hf_release()))
        }
    }

    fn on_hunt(&mut self, a: Answer) -> (r: Turn)
        requires
            old(self)@.wf(),
            old(self).doing is Hunt,
        ensures
            (final(self)@, r@) == hunt_answered(old(self)@, reply_result(a)),
            final(self)@.wf(),
    {
        let keys = known_keys();
        let key = keys[self.hunt.at];
        let mut hunt = self.hunt;
        let open = hunt.answer(a);
        self.hunt = hunt;
        if open {
            let (first, _len) = sector_span(self.sector);
            self.doing = Doing::Fetch;
            self.key = key;
            self.blocks = Vec::new();
            assert(blocks_view(self.blocks@) =~= Seq::empty());
            turn0(Next::Ask(Reader::mifare_read(first)))
        } else if self.hunt.at < keys.len() {
            let q = self.hunt_on();
            turn0(Next::Ask(q))
        } else {
            let s = Sector { number: self.sector, key: None, blocks: Vec::new() };
            assert(s@.blocks =~= Seq::empty());
            self.end_sector(s)
        }
    }

    fn on_fetch(&mut self, a: Answer) -> (r: Turn)
        requires
            old(self)@.wf(),
            old(self).doing is Fetch,
        ensures
            (final(self)@, r@) == fetch_answered(old(self)@, reply_result(a)),
            final(self)@.wf(),
    {
        let ghost w = self@;
        let got: [u8; 16] = match block_read(a) {
            Ok(b) => b,
            Err(_) => {
                let z: [u8; 16] = [0; 16];
                assert(z@ =~= zero_block());
                z
            },
        };
        let mut blocks = Vec::new();
        std::mem::swap(&mut blocks, &mut self.blocks);
        assert(blocks_view(blocks@) == w.blocks);
        assert(blocks_view(self.blocks@) =~= Seq::empty());
        let ghost before = blocks@;
        blocks.push(got);
        assert(blocks_view(blocks@) =~= blocks_view(before).push(got@));
        let (first, len) = sector_span(self.sector);
        let have: usize = blocks.len();
        if have < len as usize {
            self.blocks = blocks;
            turn0(Next::Ask(Reader::mifare_read(first + have as u8)))
        } else {
            let s = Sector { number: self.sector, key: Some(self.key), blocks };
            self.end_sector(s)
        }
    }

    /// Take the answer to the command that was asked for.
    pub fn answer(&mut self, a: Answer) -> (r: Turn)
        requires
            old(self)@.wf(),
        ensures
            (final(self)@, r@) == answered(old(self)@, reply_result(a)),
            final(self)@.wf(),
    {
        match self.doing {
            Doing::Nothing => turn0(Next::Rest),
            Doing::PollLf => self.on_poll_lf(&a),
            Doing::PollHf => self.on_poll_hf(&a),
            Doing::Read => self.on_read(&a),
            Doing::Beep => self.on_beep(a),
            Doing::Raw => self.on_raw(a),
            Doing::Block => self.on_block(a),
            Doing::Burn => self.on_burn(a),
            Doing::Check => self.on_check(&a),
            Doing::Detect => self.on_detect(&a),
            Doing::Hunt => self.on_hunt(a),
            Doing::Fetch => self.on_fetch(a),
            Doing::Release => {
                let m = "dumped ".to_owned().concat(dec(self.sectors as u64).as_str()).concat(
                    " sectors",
                );
                self.say(m, false)
            },
        }
    }
}

// ---- laws ----

/// The command programs a 125 kHz tag or a block of a card.
pub open spec fn changes_a_tag(q: QueryModel) -> bool {
    ||| q.payload.len() > 9 && q.payload[2] == 0x66 && q.payload[9] == 0x13
    ||| q.payload.len() > 8 && q.payload[2] == 0x00 && q.payload[5] == 0xd4 && q.payload[6] == 0x40
        && q.payload[8] == 0xa0
}

/// A job may change a tag only if it is one of the writes, or a raw payload
/// that says so itself.
pub open spec fn may_change(job: JobModel) -> bool {
    job is WriteLf || job is WriteBlock || job is Wipe || job is Raw
}

/// No job but a write starts with a command that changes a tag.
pub proof fn other_jobs_start_without_a_write(w: WorkerModel, job: JobModel)
    requires
        !may_change(job),
    ensures
        started(w, job).1.next matches NextModel::Ask(q) ==> !changes_a_tag(q),
{
    let q = sweep_query(0);
    assert(q.payload[2] == 0x65);
    assert(hf_detect_payload()[2] == 0x6a);
    assert(buzzer_payload(5, 1)[2] == 0x40);
}

/// Once under way, only the plan of a write or a wipe sends commands that
/// change a tag.
pub proof fn only_a_plan_changes_a_tag(w: WorkerModel, a: AnswerModel)
    requires
        w.wf(),
        !(w.doing is Burn),
    ensures
        answered(w, a).1.next matches NextModel::Ask(q) ==> !changes_a_tag(q),
{
    let q = answered(w, a).1.next;
    assert(hf_detect_payload()[2] == 0x6a);
    assert(hf_release_payload()[2] == 0x62);
    assert(crate::command::hf_activate_payload()[2] == 0x61);
    assert forall|pos: int| (#[trigger] sweep_query(pos)).payload[2] == 0x65 by {}
    assert forall|blk: u8| !changes_a_tag(
        surely(#[trigger] crate::command::mifare_read_payload(blk)),
    ) by {
        assert(crate::command::mifare_read_payload(blk)[2] == 0x00);
        assert(crate::command::mifare_read_payload(blk)[8] == 0x30);
    }
    assert forall|blk: u8, k: Seq<u8>, u: Seq<u8>| !changes_a_tag(
        surely(#[trigger] crate::command::mifare_auth_payload(false, blk, k, u)),
    ) by {
        assert(crate::command::mifare_auth_payload(false, blk, k, u)[2] == 0x00);
        assert(crate::command::mifare_auth_payload(false, blk, k, u)[8] == 0x60);
    }
}

/// A poll ends with the pad and nothing else. Every other job ends by saying
/// that the worker is idle, and says it only then.
#[verifier::rlimit(30)]
pub proof fn a_job_ends_idle(w: WorkerModel, a: AnswerModel)
    requires
        w.wf(),
        !(w.doing is Nothing),
    ensures
        ({
            let (n, t) = answered(w, a);
            &&& n.doing is Nothing <==> t.next is Rest
            &&& t.next is Rest && (w.doing is PollLf || w.doing is PollHf) ==> t.events.len() == 1
                && t.events[0] is Pad
            &&& t.next is Rest && !(w.doing is PollLf || w.doing is PollHf) ==> t.events.len() > 0
                && t.events.last() is Idle
            &&& t.next is Ask ==> forall|i: int|
                0 <= i < t.events.len() ==> !(#[trigger] t.events[i] is Idle)
        }),
{
}

/// Commands that a job can still send, at most.
pub open spec fn work_left(w: WorkerModel) -> int {
    let sectors = (w.sectors - w.sector) * 40;
    match w.doing {
        Doing::Nothing => 0,
        Doing::PollLf => w.quick.left + 1,
        Doing::PollHf => 1,
        Doing::Read => w.sweep.total - w.sweep.pos,
        Doing::Beep => 1,
        Doing::Raw => 1,
        Doing::Block => 1,
        Doing::Burn => w.plan.len() - w.at + 30,
        Doing::Check => w.sweep.total - w.sweep.pos,
        Doing::Detect => 2000,
        Doing::Hunt => sectors + 17 + 2 * (8 - w.hunt.at) - (if w.hunt.selected {
            1int
        } else {
            0
        }),
        Doing::Fetch => sectors + 16 - w.blocks.len(),
        Doing::Release => 1,
    }
}

/// Every job comes to an end, whatever the reader answers.
pub proof fn every_job_ends(w: WorkerModel, a: AnswerModel)
    requires
        w.wf(),
        !(w.doing is Nothing),
    ensures
        work_left(w) > 0,
        0 <= work_left(answered(w, a).0) < work_left(w),
{
    assert(KEYS@.len() == 8);
}

/// A plan is carried out in order: after each answer the command that goes out
/// is the one for the next block of the plan, until there is none.
pub proof fn a_plan_goes_in_order(w: WorkerModel, a: AnswerModel)
    requires
        w.wf(),
        w.doing is Burn,
    ensures
        ({
            let (n, t) = answered(w, a);
            if w.at + 1 < w.plan.len() {
                &&& n.doing is Burn
                &&& n.at == w.at + 1
                &&& n.plan == w.plan
                &&& t.next == NextModel::Ask(
                    burn_query(w.plan[w.at + 1].0, w.plan[w.at + 1].1),
                )
            } else {
                !(n.doing is Burn)
            }
        }),
{
}

/// A write is reported as good only if the ID read back is the one written.
pub proof fn a_write_is_good_only_if_it_reads_back(w: WorkerModel, a: AnswerModel, m: Seq<char>)
    requires
        w.wf(),
        w.doing is Burn || w.doing is Check,
        !w.wiping,
        answered(w, a).1.events.contains(EventModel::Log(m, false)),
    ensures
        w.doing is Check,
        crate::lf::answered_id(a) == Some(w.id),
{
    let events = answered(w, a).1.events;
    let i = choose|i: int| 0 <= i < events.len() && events[i] == EventModel::Log(m, false);
    assert(events[i] == EventModel::Log(m, false));
}

/// A dump reports the sectors of the card in order, each once and none beyond
/// the largest card: a report comes with the number at hand, and the next one
/// is one higher.
#[verifier::rlimit(30)]
pub proof fn sectors_are_reported_in_order(w: WorkerModel, a: AnswerModel, s: SectorModel)
    requires
        w.wf(),
        !(w.doing is Nothing),
        answered(w, a).1.events.contains(EventModel::Sector(s)),
    ensures
        w.doing is Hunt || w.doing is Fetch,
        s.number == w.sector < MAX_SECTORS,
        answered(w, a).0.sector == w.sector + 1,
        s.key is None ==> s.blocks.len() == 0,
        s.key is Some ==> s.blocks.len() == sector_len(w.sector as int),
{
    let events = answered(w, a).1.events;
    let i = choose|i: int| 0 <= i < events.len() && events[i] == EventModel::Sector(s);
    assert(events[i] == EventModel::Sector(s));
}

// ---- laws of the commands that go out ----

/// The command that a sweep starts with, and a poll consists of: the 125 kHz
/// profile without thresholds, sent once.
pub open spec fn first_profile(q: QueryModel) -> bool {
    &&& q.payload == seq![
        0xffu8, 0x00, 0x65, 0x08, 0x18, 0x48, 0xe8, 0x01, 0x00, 0x00, 0x00, 0x00, 0x00,
    ]
    &&& !q.retry
}

/// The command that writes four bytes to a block of the tag.
pub open spec fn block_write(q: QueryModel, blk: u8, data: Seq<u8>) -> bool {
    &&& q.payload == seq![
        0xffu8, 0x00, 0x66, 0x00, 0x1e, 0x48, 0xe8, 0x01, 0x00, 0x13, 0x00, blk,
    ] + data + seq![0x54u8, 0x69, 0x61, 0x6e]
    &&& q.retry
}

/// What each job starts with, by the bytes that go out. A poll is given 1200
/// milliseconds, every other job the time that the worker was made with.
pub proof fn a_job_starts_with_its_command(w: WorkerModel, job: JobModel)
    requires
        job matches JobModel::WriteBlock(blk, data) ==> data.len() == 4,
        job matches JobModel::WriteLf(id, config) ==> id.len() == 5,
    ensures
        ({
            let (n, t) = started(w, job);
            &&& n.full == w.full
            &&& n.timeout == if job is Poll {
                1200i32
            } else {
                w.full
            }
            &&& job is Quit <==> t.next is Quit
            &&& job is Quit || job is Poll ==> t.events.len() == 0
            &&& !(job is Quit) && !(job is Poll) ==> t.events.len() > 0 && t.events[0] is Busy
            &&& !(job is Quit) ==> (t.next matches NextModel::Ask(q) && match job {
                JobModel::Poll(_) => first_profile(q),
                JobModel::ReadLf => first_profile(q),
                JobModel::Beep => q.payload == seq![
                    0xffu8, 0x00, 0x40, 0x50, 0x04, 0x01, 0x05, 0x01, 0x01,
                ] && q.retry,
                JobModel::Raw(p) => q.payload == p && q.retry,
                JobModel::WriteBlock(blk, data) => block_write(q, blk, data),
                JobModel::WriteLf(id, config) => if config {
                    block_write(q, 0, seq![0x00u8, 0x14, 0x80, 0x40])
                } else {
                    block_write(q, 1, crate::em4100::frame_bytes_of(id).take(4))
                },
                JobModel::Wipe => block_write(q, 1, seq![0x00u8, 0x00, 0x00, 0x00]),
                JobModel::Dump => q.payload == seq![0xffu8, 0x00, 0x6a, 0x01, 0x00, 0x08] && q.retry,
                JobModel::Quit => false,
            })
        }),
{
    lemma_first_profile();
    let (n, t) = started(w, job);
    match job {
        JobModel::WriteBlock(blk, data) => {
            crate::lf::tag_commands_carry_their_arguments(blk, data);
        },
        JobModel::WriteLf(id, config) => {
            crate::em4100::a_write_puts_the_frame_on_the_tag(id, config);
            let (blk, data) = plan_of(id, config)[0];
            crate::lf::tag_commands_carry_their_arguments(blk, data);
            assert(crate::em4100::frame_bytes_of(id).take(4)
                =~= crate::em4100::frame_bytes_of(id).subrange(0, 4));
        },
        JobModel::Wipe => {
            crate::command::wipe_ends_with_the_config_word();
            crate::lf::tag_commands_carry_their_arguments(1, seq![0u8, 0, 0, 0]);
        },
        JobModel::Beep => {
            assert(buzzer_payload(5, 1) =~= seq![
                0xffu8, 0x00, 0x40, 0x50, 0x04, 0x01, 0x05, 0x01, 0x01,
            ]);
        },
        _ => {},
    }
}

proof fn lemma_first_profile()
    ensures
        first_profile(sweep_query(0)),
{
    assert(sweep_query(0).payload =~= seq![
        0xffu8, 0x00, 0x65, 0x08, 0x18, 0x48, 0xe8, 0x01, 0x00, 0x00, 0x00, 0x00, 0x00,
    ]);
}

/// What a job remembers of what it was asked: which sides to poll and how often
/// to try, how often to sweep, the ID and the blocks of a write, all the blocks
/// of a wipe.
pub proof fn a_job_keeps_what_it_was_asked(w: WorkerModel, job: JobModel)
    ensures
        ({
            let n = started(w, job).0;
            &&& job matches JobModel::Poll(hf) ==> n.check_hf == hf && n.quick.left == 2
                && n.doing is PollLf
            &&& job is ReadLf ==> n.doing is Read && n.sweep.pos == 0 && n.sweep.total == 20
            &&& job matches JobModel::WriteLf(id, config) ==> n.id == id && !n.wiping && n.plan
                == plan_of(id, config) && n.at == 0 && !n.failed && n.doing is Burn
            &&& job is Wipe ==> n.wiping && n.plan == wipe_plan_of() && n.at == 0 && !n.failed
                && n.doing is Burn
            &&& job matches JobModel::WriteBlock(blk, data) ==> n.plan == seq![(blk, data)]
                && n.doing is Block
            &&& job is Dump ==> n.doing is Detect
            &&& job is Raw ==> n.doing is Raw
            &&& job is Beep ==> n.doing is Beep
            &&& job matches JobModel::Raw(p) ==> started(w, job).1.events.contains(
                EventModel::Log("-> "@ + hex_text(p), false),
            )
        }),
{
    if let JobModel::Raw(p) = job {
        assert(started(w, job).1.events[1] == EventModel::Log("-> "@ + hex_text(p), false));
    }
}

// ---- laws of the answers ----

/// A poll reports an ID that reads as a tag on the pad. Silence is asked once
/// more. With nothing there, a poll that is to look for cards asks for one, and
/// one that is not reports an empty pad.
pub proof fn a_poll_reports_what_is_there(w: WorkerModel, a: AnswerModel)
    requires
        w.wf(),
        w.doing is PollLf || w.doing is PollHf,
    ensures
        ({
            let (n, t) = answered(w, a);
            let id = crate::lf::answered_id(a);
            let again = a is Err && w.quick.left > 1;
            &&& w.doing is PollLf && id is Some ==> t.next is Rest && t.events == seq![
                EventModel::Pad(PadModel::Lf { id: id->Some_0, freq: 125_000 }),
            ]
            &&& w.doing is PollLf && again ==> n.doing is PollLf && n.quick.left == w.quick.left - 1
                && t.events.len() == 0 && (t.next matches NextModel::Ask(q) && first_profile(q))
            &&& w.doing is PollLf && id is None && !again && w.check_hf ==> n.doing is PollHf
                && t.events.len() == 0 && (t.next matches NextModel::Ask(q) && q.payload == seq![
                0xffu8, 0x00, 0x6a, 0x01, 0x00, 0x08,
            ])
            &&& w.doing is PollLf && id is None && !again && !w.check_hf ==> t.next is Rest
                && t.events == seq![EventModel::Pad(PadModel::Empty)]
            &&& w.doing is PollHf ==> t.next is Rest && t.events == seq![
                EventModel::Pad(
                    match card_in(a) {
                        Some(c) => PadModel::Hf(c),
                        None => PadModel::Empty,
                    },
                ),
            ]
        }),
{
    lemma_first_profile();
}

/// A read reports the first ID that a profile brings, with that profile's
/// carrier. Without one it asks the next profile, and after the last one says
/// that there is none.
pub proof fn a_read_reports_the_first_id(w: WorkerModel, a: AnswerModel)
    requires
        w.wf(),
        w.doing is Read,
    ensures
        ({
            let (n, t) = answered(w, a);
            let (freq, lc, w1, w2) = crate::command::LF_PROFILES@[w.sweep.pos as int % 10];
            &&& n.sweep.pos == w.sweep.pos + 1 && n.sweep.total == w.sweep.total
            &&& crate::lf::answered_id(a) matches Some(id) ==> t.next is Rest && t.events == seq![
                EventModel::Log(
                    dec_text(freq as nat) + " Hz lc "@ + hex2(lc) + "  "@ + hex_text(id),
                    false,
                ),
                EventModel::Pad(PadModel::Lf { id, freq }),
                EventModel::Idle,
            ]
            &&& crate::lf::answered_id(a) is None && w.sweep.pos + 1 < w.sweep.total
                ==> n.doing is Read && t == TurnModel {
                events: Seq::empty(),
                next: NextModel::Ask(sweep_query(w.sweep.pos + 1)),
            }
            &&& crate::lf::answered_id(a) is None && w.sweep.pos + 1 == w.sweep.total
                ==> t.next is Rest && t.events == seq![
                EventModel::Log("no ID in any profile"@, true),
                EventModel::Idle,
            ]
        }),
{
}

/// The reply to a payload that was typed in is shown as it came, and flagged if
/// its checksum or its trailer is bad; silence is bad news too.
pub proof fn a_bad_checksum_is_flagged(w: WorkerModel, r: ReplyModel, e: Seq<char>)
    requires
        w.doing is Raw,
    ensures
        ({
            let t = answered(w, Ok(r)).1;
            let shown = "<- "@ + hex_text(r.payload);
            &&& t.next is Rest
            &&& t.events.len() == 2
            &&& r.checksum_ok && r.trailer_ok ==> t.events[0] == EventModel::Log(
                shown + (""@ + ""@),
                false,
            )
            &&& !r.checksum_ok && r.trailer_ok ==> t.events[0] == EventModel::Log(
                shown + ("  [cksum BAD]"@ + ""@),
                true,
            )
            &&& r.checksum_ok && !r.trailer_ok ==> t.events[0] == EventModel::Log(
                shown + (""@ + "  [trailer BAD]"@),
                true,
            )
            &&& !r.checksum_ok && !r.trailer_ok ==> t.events[0] == EventModel::Log(
                shown + ("  [cksum BAD]"@ + "  [trailer BAD]"@),
                true,
            )
        }),
        answered(w, Err(e)).1.events == seq![
            EventModel::Log("<- "@ + e, true),
            EventModel::Idle,
        ],
{
}

/// A beep and the write of one block say what came of them, and a complaint is
/// bad news.
pub proof fn short_jobs_say_what_came_of_them(w: WorkerModel, r: ReplyModel, e: Seq<char>)
    requires
        w.wf(),
    ensures
        w.doing is Beep ==> answered(w, Ok(r)).1.events == seq![
            EventModel::Log("beep"@, false),
            EventModel::Idle,
        ],
        w.doing is Beep ==> answered(w, Err(e)).1.events == seq![
            EventModel::Log(e, true),
            EventModel::Idle,
        ],
        w.doing is Block ==> answered(w, Ok(r)).1.events == seq![
            EventModel::Log(
                "block "@ + dec_text(w.plan[0].0 as nat) + " <- "@ + hex_text(w.plan[0].1)
                    + "  reply "@ + hex_text(r.payload),
                false,
            ),
            EventModel::Idle,
        ],
        w.doing is Block ==> answered(w, Err(e)).1.events == seq![
            EventModel::Log("block "@ + dec_text(w.plan[0].0 as nat) + ": "@ + e, true),
            EventModel::Idle,
        ],
        w.doing is Release ==> answered(w, Ok(r)).1.events == seq![
            EventModel::Log("dumped "@ + dec_text(w.sectors as nat) + " sectors"@, false),
            EventModel::Idle,
        ],
{
}

/// A plan writes its blocks one after the other, each with its own four bytes.
/// A complaint names the block, is remembered, and does not stop the plan. Once
/// through, a plan without complaints is read back by three sweeps; one with
/// any is not.
pub proof fn a_plan_is_carried_out(w: WorkerModel, a: AnswerModel)
    requires
        w.wf(),
        w.doing is Burn,
        forall|i: int| 0 <= i < w.plan.len() ==> (#[trigger] w.plan[i]).1.len() == 4,
    ensures
        ({
            let (n, t) = answered(w, a);
            let bad = w.failed || a is Err;
            &&& n.id == w.id && n.wiping == w.wiping && n.plan == w.plan
            &&& n.failed == bad
            &&& a matches Err(e) ==> t.events.len() > 0 && t.events[0] == EventModel::Log(
                "block "@ + dec_text(w.plan[w.at].0 as nat) + ": "@ + e,
                true,
            )
            &&& a is Ok && w.at + 1 < w.plan.len() ==> t.events.len() == 0
            &&& w.at + 1 < w.plan.len() ==> n.doing is Burn && n.at == w.at + 1 && (
            t.next matches NextModel::Ask(q) && block_write(
                q,
                w.plan[w.at + 1].0,
                w.plan[w.at + 1].1,
            ))
            &&& w.at + 1 == w.plan.len() && bad ==> t.next is Rest && t.events.last() is Idle
            &&& w.at + 1 == w.plan.len() && !bad ==> n.doing is Check && n.sweep.pos == 0
                && n.sweep.total == 30 && t.events.len() == 0 && (t.next matches NextModel::Ask(q)
                && first_profile(q))
        }),
{
    lemma_first_profile();
    if w.at + 1 < w.plan.len() {
        let (blk, data) = w.plan[w.at + 1];
        crate::lf::tag_commands_carry_their_arguments(blk, data);
    }
}

/// What is said of a plan that has been read back. A write is good news exactly
/// if the ID that reads is the one written; a wipe exactly if none reads.
pub proof fn a_plan_is_judged_by_what_reads_back(w: WorkerModel, a: AnswerModel)
    requires
        w.wf(),
        w.doing is Check,
    ensures
        ({
            let (n, t) = answered(w, a);
            let (freq, lc, w1, w2) = crate::command::LF_PROFILES@[w.sweep.pos as int % 10];
            let last = w.sweep.pos + 1 == w.sweep.total;
            &&& crate::lf::answered_id(a) matches Some(got) ==> {
                &&& t.next is Rest
                &&& t.events.len() == 3
                &&& t.events[0] == if w.wiping {
                    EventModel::Log("wiped, but tag reads "@ + hex_text(got), true)
                } else if got == w.id {
                    EventModel::Log("wrote "@ + hex_text(got) + " and read it back"@, false)
                } else {
                    EventModel::Log(
                        "wrote "@ + hex_text(w.id) + " but tag reads "@ + hex_text(got),
                        true,
                    )
                }
                &&& t.events[1] == EventModel::Pad(PadModel::Lf { id: got, freq })
            }
            &&& crate::lf::answered_id(a) is None && !last ==> n.doing is Check && n.sweep.pos
                == w.sweep.pos + 1 && n.id == w.id && n.wiping == w.wiping && t == TurnModel {
                events: Seq::empty(),
                next: NextModel::Ask(sweep_query(w.sweep.pos + 1)),
            }
            &&& crate::lf::answered_id(a) is None && last ==> t.next is Rest && t.events[0]
                == if w.wiping {
                EventModel::Log("wiped. Nothing reads off it."@, false)
            } else {
                EventModel::Log("wrote, but nothing reads back. Try block 0."@, true)
            }
        }),
{
}

// ---- laws of the dump ----

/// Every command of a dump is about the sector at hand: it selects the card and
/// then authenticates with key A for the first block of that sector, with the
/// known key whose turn it is and the first four bytes of the UID; then it reads
/// the blocks of that sector, each in turn.
#[verifier::rlimit(30)]
pub proof fn a_dump_stays_within_its_sector(w: WorkerModel, a: AnswerModel, q: QueryModel)
    requires
        w.wf(),
        w.doing is Detect || w.doing is Hunt || w.doing is Fetch,
        answered(w, a).1.next == NextModel::Ask(q),
    ensures
        ({
            let n = answered(w, a).0;
            let b = q.payload[9] as int;
            let first = if n.sector < 32 {
                4 * n.sector
            } else {
                128 + 16 * (n.sector - 32)
            };
            &&& q.retry
            &&& n.doing is Hunt || n.doing is Fetch || n.doing is Release
            &&& n.doing is Hunt && !n.hunt.selected ==> q.payload == seq![0xffu8, 0x00, 0x61, 0x01]
            &&& n.doing is Hunt && n.hunt.selected ==> {
                &&& q.payload.len() == 20
                &&& q.payload.take(9) == seq![
                    0xffu8, 0x00, 0x00, 0x00, 0x0f, 0xd4, 0x40, 0x01, 0x60,
                ]
                &&& b == first
                &&& crate::mifare::sector_of(b) == n.sector
                &&& q.payload.subrange(10, 16) == KEYS@[n.hunt.at as int]@
                &&& q.payload.subrange(16, 20) == n.uid.take(4)
            }
            &&& n.doing is Fetch ==> {
                &&& q.payload == seq![
                    0xffu8, 0x00, 0x00, 0x00, 0x05, 0xd4, 0x40, 0x01, 0x30, q.payload[9],
                ]
                &&& b == first + n.blocks.len()
                &&& crate::mifare::sector_of(b) == n.sector
            }
            &&& n.doing is Release ==> q.payload == seq![0xffu8, 0x00, 0x62, 0x01, 0x00]
        }),
{
    let n = answered(w, a).0;
    let first = sector_first(n.sector as int);
    if n.doing is Hunt {
        assert(n.uid.len() >= 4);
        assert(n.hunt.at < 8);
        let keys = keys_view(KEYS@);
        assert(keys[n.hunt.at as int] == KEYS@[n.hunt.at as int]@);
        crate::hf::a_hunt_tries_its_key_on_its_block(n.hunt, false, first as u8, n.uid, keys);
        if n.hunt.selected {
            assert(q.payload.take(9) =~= seq![
                0xffu8, 0x00, 0x00, 0x00, 0x0f, 0xd4, 0x40, 0x01, 0x60,
            ]);
            assert(q.payload.subrange(10, 16) =~= KEYS@[n.hunt.at as int]@);
            assert(q.payload.subrange(16, 20) =~= n.uid.take(4));
        }
    } else if n.doing is Fetch {
        crate::command::a_card_write_carries_its_data(
            (first + n.blocks.len()) as u8,
            zero_block(),
        );
    }
}

/// A dump works on the card that was detected, and does not start on one that
/// has no sectors or is not there.
pub proof fn a_dump_needs_a_classic_card(w: WorkerModel, a: AnswerModel)
    requires
        w.doing is Detect,
    ensures
        ({
            let (n, t) = answered(w, a);
            match card_in(a) {
                None => t.next is Rest && t.events == seq![
                    EventModel::Log("no card on the pad"@, true),
                    EventModel::Idle,
                ],
                Some(c) => match sectors_of(c.sak) {
                    None => t.next is Rest && t.events == seq![
                        EventModel::Log(kind_of(c.sak) + " has no Classic sectors"@, true),
                        EventModel::Idle,
                    ],
                    Some(k) => n.doing is Hunt && n.uid == c.uid && n.sectors == k && n.sector == 0
                        && n.hunt.at == 0 && !n.hunt.selected && t.events.len() == 0,
                },
            }
        }),
{
}

/// How a dump goes through the keys of a sector: the card is selected, then the
/// key is tried; the one that opens the sector is kept for the report, and no
/// block has been read yet. A sector that none opens is reported without a key
/// and without blocks.
pub proof fn a_dump_tries_key_after_key(w: WorkerModel, a: AnswerModel)
    requires
        w.wf(),
        w.doing is Hunt,
    ensures
        ({
            let (n, t) = answered(w, a);
            let opens = crate::hf::exchanged_of(a) is Ok;
            &&& n.uid == w.uid && n.sectors == w.sectors
            &&& !w.hunt.selected ==> n == WorkerModel {
                hunt: Hunt { at: w.hunt.at, selected: true },
                ..w
            } && t.events.len() == 0
            &&& w.hunt.selected && opens ==> n.doing is Fetch && n.sector == w.sector && n.key
                == KEYS@[w.hunt.at as int]@ && n.blocks.len() == 0 && t.events.len() == 0
            &&& w.hunt.selected && !opens && w.hunt.at < 7 ==> n == WorkerModel {
                hunt: Hunt { at: (w.hunt.at + 1) as usize, selected: false },
                ..w
            } && t.events.len() == 0
            &&& w.hunt.selected && !opens && w.hunt.at == 7 ==> n.sector == w.sector + 1 && t.events
                == seq![
                EventModel::Sector(
                    SectorModel { number: w.sector, key: None, blocks: Seq::empty() },
                ),
            ]
        }),
{
    assert(KEYS@.len() == 8);
}

/// How a dump goes through the blocks of a sector: each is kept as it read, or
/// as sixteen zeroes. After the last the sector is reported, with the key that
/// opened it and all its blocks in order.
pub proof fn a_dump_reads_block_after_block(w: WorkerModel, a: AnswerModel)
    requires
        w.wf(),
        w.doing is Fetch,
    ensures
        ({
            let (n, t) = answered(w, a);
            let got = match crate::hf::block_of(a) {
                Ok(b) => b,
                Err(_) => Seq::new(16, |i: int| 0u8),
            };
            let len = if w.sector < 32 {
                4int
            } else {
                16
            };
            &&& n.uid == w.uid && n.sectors == w.sectors
            &&& w.blocks.len() + 1 < len ==> n == WorkerModel {
                blocks: w.blocks.push(got),
                ..w
            } && t.events.len() == 0
            &&& w.blocks.len() + 1 == len ==> n.sector == w.sector + 1 && t.events == seq![
                EventModel::Sector(
                    SectorModel {
                        number: w.sector,
                        key: Some(w.key),
                        blocks: w.blocks.push(got),
                    },
                ),
            ]
        }),
{
    assert(zero_block() =~= Seq::new(16, |i: int| 0u8));
}

/// A sector that has been reported makes way for the next, with all the keys to
/// be tried anew, until the last one is done.
pub proof fn a_dump_goes_on_to_the_next_sector(w: WorkerModel, a: AnswerModel)
    requires
        w.wf(),
        w.doing is Hunt || w.doing is Fetch,
        answered(w, a).0.sector != w.sector,
    ensures
        ({
            let n = answered(w, a).0;
            &&& n.sector == w.sector + 1
            &&& n.sector < n.sectors ==> n.doing is Hunt && n.hunt.at == 0 && !n.hunt.selected
            &&& n.sector == n.sectors ==> n.doing is Release
        }),
{
}

// ---- laws of the views ----

/// The views of jobs and events keep what they carry.
pub proof fn views_keep_jobs_and_events(
    id: [u8; 5],
    config: bool,
    blk: u8,
    data: [u8; 4],
    p: Vec<u8>,
    text: String,
    bad: bool,
    freq: u32,
    c: Card,
    q: Query,
)
    ensures
        Job::Poll(bad)@ == JobModel::Poll(bad),
        Job::ReadLf@ == JobModel::ReadLf,
        Job::WriteLf(id, config)@ == JobModel::WriteLf(id@, config),
        Job::WriteBlock(blk, data)@ == JobModel::WriteBlock(blk, data@),
        Job::Wipe@ == JobModel::Wipe,
        Job::Dump@ == JobModel::Dump,
        Job::Raw(p)@ == JobModel::Raw(p@),
        Job::Beep@ == JobModel::Beep,
        Job::Quit@ == JobModel::Quit,
        Pad::Empty@ == PadModel::Empty,
        (Pad::Lf { id, freq })@ == (PadModel::Lf { id: id@, freq }),
        Pad::Hf(c)@ == PadModel::Hf(c@),
        Event::Log(text, bad)@ == EventModel::Log(text@, bad),
        Event::Idle@ == EventModel::Idle,
        Next::Ask(q)@ == NextModel::Ask(q@),
        Next::Rest@ == NextModel::Rest,
        Next::Quit@ == NextModel::Quit,
{
}

/// The views of a sector and of a turn keep what they carry, in order.
pub proof fn views_keep_sectors_and_turns(s: Sector, t: Turn, pad: Pad, i: int, j: int)
    requires
        0 <= i < s.blocks@.len(),
        0 <= j < t.events@.len(),
    ensures
        s@.number == s.number,
        s.key matches Some(k) ==> s@.key == Some(k@),
        s.key is None ==> s@.key is None,
        s@.blocks.len() == s.blocks@.len(),
        s@.blocks[i] == s.blocks@[i]@,
        t@.next == t.next@,
        t@.events.len() == t.events@.len(),
        t@.events[j] == t.events@[j]@,
        Event::Pad(pad)@ == EventModel::Pad(pad@),
        Event::Sector(s)@ == EventModel::Sector(s@),
{
}

} // verus!
