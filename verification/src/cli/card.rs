//! The subcommands for 13.56 MHz cards.

use crate::cli::{quiet, quiet_of, tell, tell_of, Go, GoModel, Step, StepModel};
use crate::command::{
    hf_activate_payload, hf_detect_payload, hf_release_payload, mifare_read_payload,
    mifare_write_payload, push_bytes,
};
use crate::frame::reply_result;
use crate::hexes::{exact_value, hex, hex_text, key_arg, unhex_exact};
use crate::hf::{
    block_of, block_read, card_in, exchanged, exchanged_of, hf_card, hunt_opens,
    hunt_query, hunt_step, keys_view, known_keys, Hunt,
};
use crate::lf::{payload, payload_of, Answer, AnswerModel};
use crate::mifare::{
    card_view, is_trailer, kind_of, sector_first, sector_len, sector_span, sectors_of, trailer,
    Card, CardModel, KEYS, MAX_SECTORS,
};
use crate::reader::{surely, Query, QueryModel, Reader};
use crate::text::{
    dec, dec_text, hex2, hex2_string, left_padded, no_lines, one_line, pad_left, push_text, texts,
};
use crate::worker::fresh_hunt;
use vstd::prelude::*;

verus! {

// ---- hf ----

/// What is said of the card on the pad.
pub open spec fn hf_lines_of(c: Option<CardModel>) -> Seq<Seq<char>> {
    match c {
        None => seq!["no card. Is it flat on the pad?"@],
        Some(c) => seq![
            "UID   "@ + hex_text(c.uid),
            "ATQA  "@ + hex_text(c.atqa),
            "SAK   "@ + hex2(c.sak),
            "type  "@ + kind_of(c.sak),
            match sectors_of(c.sak) {
                Some(n) => "      "@ + dec_text(n as nat) + " sectors, `hf-dump` can read them"@,
                None => "      no MIFARE Classic sectors to dump"@,
            },
        ],
    }
}

pub fn hf_lines(c: &Option<Card>) -> (r: Vec<String>)
    ensures
        texts(r@) == hf_lines_of(card_view(*c)),
{
    match c {
        None => one_line("no card. Is it flat on the pad?".to_owned()),
        Some(c) => {
            let mut v = one_line("UID   ".to_owned().concat(hex(c.uid.as_slice()).as_str()));
            push_text(&mut v, "ATQA  ".to_owned().concat(hex(c.atqa.as_slice()).as_str()));
            push_text(&mut v, "SAK   ".to_owned().concat(hex2_string(c.sak).as_str()));
            push_text(&mut v, "type  ".to_owned().concat(c.kind()));
            match c.sectors() {
                Some(n) => push_text(
                    &mut v,
                    "      ".to_owned().concat(dec(n as u64).as_str()).concat(
                        " sectors, `hf-dump` can read them",
                    ),
                ),
                None => push_text(&mut v, "      no MIFARE Classic sectors to dump".to_owned()),
            }
            v
        },
    }
}

/// What `hf` does with the answer to the detect command.
pub open spec fn hf_answered_of(raw: bool, a: AnswerModel) -> StepModel {
    if raw {
        match payload_of(a) {
            Ok(p) => tell_of(hex_text(p), GoModel::Done),
            Err(e) => quiet_of(GoModel::Fail(e)),
        }
    } else {
        StepModel { lines: hf_lines_of(card_in(a)), go: GoModel::Done }
    }
}

pub fn hf_answered(raw: bool, a: Answer) -> (r: Step)
    ensures
        r@ == hf_answered_of(raw, reply_result(a)),
{
    if raw {
        match payload(a) {
            Ok(p) => tell(hex(p.as_slice()), Go::Done),
            Err(e) => quiet(Go::Fail(e)),
        }
    } else {
        let c = hf_card(&a);
        Step { lines: hf_lines(&c), go: Go::Done }
    }
}

// ---- hf-dump ----

/// The keys given, then the known ones; or what is wrong with the first that
/// is no key.
pub open spec fn given_keys(texts: Seq<Seq<char>>) -> Result<Seq<Seq<u8>>, Seq<char>>
    decreases texts.len(),
{
    if texts.len() == 0 {
        Ok(Seq::empty())
    } else {
        match given_keys(texts.drop_last()) {
            Err(e) => Err(e),
            Ok(ks) => match exact_value(texts.last(), 6, "a key is 6 bytes, got "@) {
                Err(e) => Err(e),
                Ok(k) => Ok(ks.push(k)),
            },
        }
    }
}

pub open spec fn dump_keys_of(texts: Seq<Seq<char>>) -> Result<Seq<Seq<u8>>, Seq<char>> {
    match given_keys(texts) {
        Err(e) => Err(e),
        Ok(ks) => Ok(ks + keys_view(KEYS@)),
    }
}

pub open spec fn keys_result(r: Result<Vec<[u8; 6]>, String>) -> Result<Seq<Seq<u8>>, Seq<char>> {
    match r {
        Ok(v) => Ok(keys_view(v@)),
        Err(e) => Err(e@),
    }
}

proof fn lemma_bad_key_stays(ts: Seq<Seq<char>>, k: int)
    requires
        0 <= k <= ts.len(),
        given_keys(ts.take(k)) is Err,
    ensures
        given_keys(ts) == given_keys(ts.take(k)),
    decreases ts.len() - k,
{
    if k == ts.len() {
        assert(ts.take(k) =~= ts);
    } else {
        assert(ts.take(k + 1).drop_last() =~= ts.take(k));
        lemma_bad_key_stays(ts, k + 1);
    }
}

pub fn dump_keys(given: &Vec<String>) -> (r: Result<Vec<[u8; 6]>, String>)
    ensures
        keys_result(r) == dump_keys_of(texts(given@)),
        r is Ok ==> r->Ok_0@.len() > 0,
{
    let ghost ts = texts(given@);
    let mut keys: Vec<[u8; 6]> = Vec::new();
    let n: usize = given.len();
    let mut i: usize = 0;
    assert(ts.take(0) =~= Seq::empty());
    assert(keys_view(keys@) =~= Seq::empty());
    while i < n
        invariant
            i <= n == given@.len(),
            ts == texts(given@),
            given_keys(ts.take(i as int)) == Ok::<Seq<Seq<u8>>, Seq<char>>(keys_view(keys@)),
        decreases n - i,
    {
        assert(ts.take(i + 1).drop_last() =~= ts.take(i as int));
        match key_arg(given[i].as_str()) {
            Err(e) => {
                proof {
                    lemma_bad_key_stays(ts, i + 1);
                }
                return Err(e);
            },
            Ok(k) => {
                let ghost before = keys@;
                keys.push(k);
                assert(keys_view(keys@) =~= keys_view(before).push(k@));
            },
        }
        i += 1;
    }
    assert(ts.take(n as int) =~= ts);
    let known = known_keys();
    let ghost mine = keys@;
    let mut j: usize = 0;
    assert(keys@ =~= mine + known@.take(0));
    while j < known.len()
        invariant
            j <= known@.len(),
            keys@ == mine + known@.take(j as int),
        decreases known@.len() - j,
    {
        keys.push(known[j]);
        j += 1;
        assert(keys@ =~= mine + known@.take(j as int));
    }
    assert(known@.take(j as int) =~= known@);
    assert(keys_view(keys@) =~= keys_view(mine) + keys_view(known@));
    Ok(keys)
}

#[derive(Clone, Copy, Debug, PartialEq, Eq, Structural)]
pub enum DumpStage {
    Detect,
    Hunt,
    Fetch,
    Release,
    Over,
}

/// `hf-dump`: find the card, then for each sector a key and the blocks, then
/// let go.
pub struct DumpRun {
    pub stage: DumpStage,
    /// The highest sector to try, if the card is not to say.
    pub to: Option<u8>,
    pub keys: Vec<[u8; 6]>,
    pub uid: Vec<u8>,
    pub sectors: u8,
    pub sector: u8,
    pub hunt: Hunt,
    /// Blocks of the present sector done.
    pub done: u8,
    /// Sectors that no key opened.
    pub locked: u8,
    /// What has been read, block after block.
    pub dump: Vec<u8>,
}

#[verifier::ext_equal]
pub struct DumpModel {
    pub stage: DumpStage,
    pub to: Option<u8>,
    pub keys: Seq<Seq<u8>>,
    pub uid: Seq<u8>,
    pub sectors: u8,
    pub sector: u8,
    pub hunt: Hunt,
    pub done: u8,
    pub locked: u8,
    pub dump: Seq<u8>,
}

impl View for DumpRun {
    type V = DumpModel;

    open spec fn view(&self) -> DumpModel {
        DumpModel {
            stage: self.stage,
            to: self.to,
            keys: keys_view(self.keys@),
            uid: self.uid@,
            sectors: self.sectors,
            sector: self.sector,
            hunt: self.hunt,
            done: self.done,
            locked: self.locked,
            dump: self.dump@,
        }
    }
}

/// The first byte of a block in a dump.
pub open spec fn dump_offset(blk: int) -> int {
    blk * 16
}

impl DumpModel {
    /// The dump holds sixteen bytes for every block before the one at hand.
    pub open spec fn wf(self) -> bool {
        &&& 0 < self.keys.len() <= usize::MAX
        &&& self.to is Some ==> self.to->Some_0 < MAX_SECTORS
        &&& self.locked <= self.sector
        &&& match self.stage {
            DumpStage::Detect => self.dump.len() == 0 && self.sector == 0,
            DumpStage::Hunt => {
                &&& self.sector < self.sectors <= MAX_SECTORS
                &&& self.hunt.at < self.keys.len()
                &&& self.uid.len() >= 4
                &&& self.dump.len() == dump_offset(sector_first(self.sector as int))
            },
            DumpStage::Fetch => {
                &&& self.sector < self.sectors <= MAX_SECTORS
                &&& self.uid.len() >= 4
                &&& self.done < sector_len(self.sector as int)
                &&& self.dump.len() == dump_offset(sector_first(self.sector as int) + self.done)
            },
            DumpStage::Release => {
                &&& self.sector == self.sectors <= MAX_SECTORS
                &&& self.dump.len() == dump_offset(sector_first(self.sectors as int))
            },
            DumpStage::Over => true,
        }
    }
}

/// The card as a dump introduces it.
pub open spec fn dump_card_line(c: CardModel) -> Seq<char> {
    "UID "@ + hex_text(c.uid) + "  SAK "@ + hex2(c.sak) + "  "@ + kind_of(c.sak)
}

pub open spec fn dump_over(w: DumpModel, s: StepModel) -> (DumpModel, StepModel) {
    (DumpModel { stage: DumpStage::Over, ..w }, s)
}

/// The command that the hunt for the key of the present sector sends.
pub open spec fn dump_hunt(w: DumpModel) -> QueryModel {
    hunt_query(w.hunt, false, sector_first(w.sector as int) as u8, w.uid, w.keys)
}

/// On to the present sector, or past the last one.
pub open spec fn sector_entered(w: DumpModel) -> (DumpModel, GoModel) {
    let n = DumpModel { hunt: fresh_hunt(), done: 0, ..w };
    if w.sector < w.sectors {
        let n = DumpModel { stage: DumpStage::Hunt, ..n };
        (n, GoModel::Ask(dump_hunt(n)))
    } else {
        (
            DumpModel { stage: DumpStage::Release, ..n },
            GoModel::Ask(surely(hf_release_payload())),
        )
    }
}

/// How many sectors to try: up to the highest one asked for, that one too, or
/// as many as the card has.
pub open spec fn dump_count(to: Option<u8>, sak: u8) -> Option<u8> {
    match to {
        Some(t) => Some((t + 1) as u8),
        None => sectors_of(sak),
    }
}

pub open spec fn dump_detect_answered(w: DumpModel, a: AnswerModel) -> (DumpModel, StepModel) {
    match card_in(a) {
        None => dump_over(w, quiet_of(GoModel::Fail("no card on the pad"@))),
        Some(c) => {
            match dump_count(w.to, c.sak) {
                None => dump_over(
                    w,
                    tell_of(
                        dump_card_line(c),
                        GoModel::Fail(
                            "this card has no Classic sectors; pass --to to try anyway"@,
                        ),
                    ),
                ),
                Some(k) => {
                    let (n, go) = sector_entered(DumpModel { uid: c.uid, sectors: k, ..w });
                    (
                        n,
                        StepModel {
                            lines: seq![
                                dump_card_line(c),
                                dec_text(k as nat) + " sectors, "@ + dec_text(w.keys.len())
                                    + " keys\n"@,
                            ],
                            go,
                        },
                    )
                },
            }
        },
    }
}

/// A number padded to a column.
pub open spec fn column(n: u8, width: int) -> Seq<char> {
    pad_left(dec_text(n as nat), width, ' ')
}

fn columned(n: u8, width: usize) -> (r: String)
    ensures
        r@ == column(n, width as int),
{
    left_padded(dec(n as u64).as_str(), width, ' ')
}

pub open spec fn zeroes(n: int) -> Seq<u8> {
    Seq::new(n as nat, |i: int| 0u8)
}

fn push_zeroes(v: &mut Vec<u8>, n: usize)
    ensures
        final(v)@ == old(v)@ + zeroes(n as int),
{
    let mut i: usize = 0;
    assert(v@ =~= old(v)@ + zeroes(0));
    while i < n
        invariant
            i <= n,
            v@ == old(v)@ + zeroes(i as int),
        decreases n - i,
    {
        v.push(0);
        i += 1;
        assert(v@ =~= old(v)@ + zeroes(i as int));
    }
}

/// A try of a key has been answered. A sector that no key opens is filled with
/// zeroes in the dump, so block numbers still line up with the card.
pub open spec fn dump_hunt_answered(w: DumpModel, a: AnswerModel) -> (DumpModel, StepModel) {
    let n = DumpModel { hunt: hunt_step(w.hunt, a), ..w };
    if hunt_opens(w.hunt, a) {
        (
            DumpModel { stage: DumpStage::Fetch, done: 0, ..n },
            tell_of(
                "sector "@ + column(w.sector, 2) + "  key A "@ + hex_text(w.keys[w.hunt.at as int]),
                GoModel::Ask(surely(mifare_read_payload(sector_first(w.sector as int) as u8))),
            ),
        )
    } else if n.hunt.at < n.keys.len() {
        (n, quiet_of(GoModel::Ask(dump_hunt(n))))
    } else {
        let (n, go) = sector_entered(
            DumpModel {
                sector: (w.sector + 1) as u8,
                locked: (w.locked + 1) as u8,
                dump: w.dump + zeroes(sector_len(w.sector as int) * 16),
                ..n
            },
        );
        (n, tell_of("sector "@ + column(w.sector, 2) + "  no key worked"@, go))
    }
}

/// A block has been answered. One that does not read is zeroes in the dump.
pub open spec fn dump_fetch_answered(w: DumpModel, a: AnswerModel) -> (DumpModel, StepModel) {
    let blk = (sector_first(w.sector as int) + w.done) as u8;
    let (line, bytes) = match block_of(a) {
        Ok(d) => ("  "@ + column(blk, 3) + "  "@ + hex_text(d), d),
        Err(e) => ("  "@ + column(blk, 3) + "  "@ + e, zeroes(16)),
    };
    let n = DumpModel { done: (w.done + 1) as u8, dump: w.dump + bytes, ..w };
    if n.done < sector_len(w.sector as int) {
        (n, tell_of(line, GoModel::Ask(surely(mifare_read_payload((blk + 1) as u8)))))
    } else {
        let (n, go) = sector_entered(DumpModel { sector: (w.sector + 1) as u8, ..n });
        (n, tell_of(line, go))
    }
}

/// What is said of sectors that stayed shut.
pub open spec fn locked_lines_of(locked: u8, sectors: u8) -> Seq<Seq<char>> {
    if locked > 0 {
        seq![
            "\n"@ + dec_text(locked as nat) + " of "@ + dec_text(sectors as nat)
                + " sectors had no key in the dictionary."@,
            "Their blocks read as zeroes in the output. They were never read."@,
        ]
    } else {
        Seq::empty()
    }
}

pub open spec fn dump_answered(w: DumpModel, a: AnswerModel) -> (DumpModel, StepModel) {
    match w.stage {
        DumpStage::Detect => dump_detect_answered(w, a),
        DumpStage::Hunt => dump_hunt_answered(w, a),
        DumpStage::Fetch => dump_fetch_answered(w, a),
        DumpStage::Release => dump_over(
            w,
            StepModel { lines: locked_lines_of(w.locked, w.sectors), go: GoModel::Done },
        ),
        DumpStage::Over => (w, quiet_of(GoModel::Done)),
    }
}

/// A dump that has not heard of a card yet.
pub open spec fn dump_begun(to: Option<u8>, keys: Seq<Seq<u8>>) -> DumpModel {
    DumpModel {
        stage: DumpStage::Detect,
        to,
        keys,
        uid: Seq::empty(),
        sectors: 0,
        sector: 0,
        hunt: fresh_hunt(),
        done: 0,
        locked: 0,
        dump: Seq::empty(),
    }
}

impl DumpRun {
    /// `to` is the highest sector to try.
    pub fn begin(to: Option<u8>, keys: Vec<[u8; 6]>) -> (r: (DumpRun, Step))
        requires
            keys@.len() > 0,
            to is Some ==> to->Some_0 < MAX_SECTORS,
        ensures
            r.0@ == dump_begun(to, keys_view(keys@)),
            r.1@ == quiet_of(GoModel::Ask(surely(hf_detect_payload()))),
            r.0@.wf(),
    {
        let count: usize = keys.len();
        assert(keys_view(keys@).len() == count);
        let run = DumpRun {
            stage: DumpStage::Detect,
            to,
            keys,
            uid: Vec::new(),
            sectors: 0,
            sector: 0,
            hunt: Hunt::new(),
            done: 0,
            locked: 0,
            dump: Vec::new(),
        };
        assert(run@.uid =~= Seq::empty());
        assert(run@.dump =~= Seq::empty());
        (run, quiet(Go::Ask(Reader::hf_raw())))
    }

    fn hunt_on(&self) -> (r: Query)
        requires
            self.sector < MAX_SECTORS,
            self.hunt.at < self.keys@.len(),
            self.uid@.len() >= 4,
        ensures
            r@ == dump_hunt(self@),
    {
        let (first, _len) = sector_span(self.sector);
        self.hunt.query(false, first, self.uid.as_slice(), &self.keys)
    }

    fn enter_sector(&mut self) -> (r: Go)
        requires
            old(self).sector <= old(self).sectors <= MAX_SECTORS,
            0 < old(self).keys@.len() <= usize::MAX,
            old(self).to is Some ==> old(self).to->Some_0 < MAX_SECTORS,
            old(self).locked <= old(self).sector,
            old(self).uid@.len() >= 4,
            old(self).dump@.len() == dump_offset(sector_first(old(self).sector as int)),
        ensures
            (final(self)@, r@) == sector_entered(old(self)@),
            final(self)@.wf(),
    {
        self.hunt = Hunt::new();
        self.done = 0;
        if self.sector < self.sectors {
            self.stage = DumpStage::Hunt;
            Go::Ask(self.hunt_on())
        } else {
            self.stage = DumpStage::Release;
            Go::Ask(Reader::hf_release())
        }
    }

    fn on_detect(&mut self, a: &Answer) -> (r: Step)
        requires
            old(self)@.wf(),
            old(self).stage is Detect,
        ensures
            (final(self)@, r@) == dump_detect_answered(old(self)@, reply_result(*a)),
            final(self)@.wf(),
    {
        let c = match hf_card(a) {
            None => {
                self.stage = DumpStage::Over;
                return quiet(Go::Fail("no card on the pad".to_owned()));
            },
            Some(c) => c,
        };
        let line = "UID ".to_owned().concat(hex(c.uid.as_slice()).as_str()).concat("  SAK ").concat(
            hex2_string(c.sak).as_str(),
        ).concat("  ").concat(c.kind());
        let count = match self.to {
            Some(t) => Some(t + 1),
            None => c.sectors(),
        };
        match count {
            None => {
                self.stage = DumpStage::Over;
                tell(
                    line,
                    Go::Fail("this card has no Classic sectors; pass --to to try anyway".to_owned()),
                )
            },
            Some(k) => {
                let keys: usize = self.keys.len();
                self.uid = c.uid;
                self.sectors = k;
                let go = self.enter_sector();
                let mut v = one_line(line);
                push_text(
                    &mut v,
                    dec(k as u64).concat(" sectors, ").concat(dec(keys as u64).as_str()).concat(
                        " keys\n",
                    ),
                );
                Step { lines: v, go }
            },
        }
    }

    fn on_hunt(&mut self, a: Answer) -> (r: Step)
        requires
            old(self)@.wf(),
            old(self).stage is Hunt,
        ensures
            (final(self)@, r@) == dump_hunt_answered(old(self)@, reply_result(a)),
            final(self)@.wf(),
    {
        let total: usize = self.keys.len();
        let key = self.keys[self.hunt.at];
        assert(key@ == self@.keys[self.hunt.at as int]);
        let (first, len) = sector_span(self.sector);
        let head = "sector ".to_owned().concat(columned(self.sector, 2).as_str());
        let mut hunt = self.hunt;
        let open = hunt.answer(a);
        self.hunt = hunt;
        if open {
            self.stage = DumpStage::Fetch;
            self.done = 0;
            tell(
                head.concat("  key A ").concat(hex(key.as_slice()).as_str()),
                Go::Ask(Reader::mifare_read(first)),
            )
        } else if self.hunt.at < total {
            quiet(Go::Ask(self.hunt_on()))
        } else {
            push_zeroes(&mut self.dump, len as usize * 16);
            self.sector = self.sector + 1;
            self.locked = self.locked + 1;
            let go = self.enter_sector();
            tell(head.concat("  no key worked"), go)
        }
    }

    fn on_fetch(&mut self, a: Answer) -> (r: Step)
        requires
            old(self)@.wf(),
            old(self).stage is Fetch,
        ensures
            (final(self)@, r@) == dump_fetch_answered(old(self)@, reply_result(a)),
            final(self)@.wf(),
    {
        let (first, len) = sector_span(self.sector);
        let blk: u8 = first + self.done;
        let head = "  ".to_owned().concat(columned(blk, 3).as_str()).concat("  ");
        let line = match block_read(a) {
            Ok(d) => {
                push_bytes(&mut self.dump, d.as_slice());
                head.concat(hex(d.as_slice()).as_str())
            },
            Err(e) => {
                push_zeroes(&mut self.dump, 16);
                head.concat(e.as_str())
            },
        };
        self.done = self.done + 1;
        if self.done < len {
            tell(line, Go::Ask(Reader::mifare_read(blk + 1)))
        } else {
            self.sector = self.sector + 1;
            let go = self.enter_sector();
            tell(line, go)
        }
    }

    pub fn answer(&mut self, a: Answer) -> (r: Step)
        requires
            old(self)@.wf(),
        ensures
            (final(self)@, r@) == dump_answered(old(self)@, reply_result(a)),
            final(self)@.wf(),
    {
        match self.stage {
            DumpStage::Detect => self.on_detect(&a),
            DumpStage::Hunt => self.on_hunt(a),
            DumpStage::Fetch => self.on_fetch(a),
            DumpStage::Release => {
                self.stage = DumpStage::Over;
                let mut v = no_lines();
                if self.locked > 0 {
                    push_text(
                        &mut v,
                        "\n".to_owned().concat(dec(self.locked as u64).as_str()).concat(
                            " of ",
                        ).concat(dec(self.sectors as u64).as_str()).concat(
                            " sectors had no key in the dictionary.",
                        ),
                    );
                    push_text(
                        &mut v,
                        "Their blocks read as zeroes in the output. They were never read.".to_owned(),
                    );
                }
                Step { lines: v, go: Go::Done }
            },
            DumpStage::Over => quiet(Go::Done),
        }
    }
}

/// What is said once a dump has been written to a file.
pub fn saved_line(bytes: usize, path: &str) -> (r: String)
    ensures
        r@ == "\nwrote "@ + dec_text(bytes as nat) + " bytes to "@ + path@,
{
    "\nwrote ".to_owned().concat(dec(bytes as u64).as_str()).concat(" bytes to ").concat(path)
}

/// What an answer to a block read leaves in a dump: the block, or zeroes if it
/// did not read.
pub open spec fn dumped_block(a: AnswerModel) -> Seq<u8> {
    match block_of(a) {
        Ok(d) => d,
        Err(_) => zeroes(16),
    }
}

/// A block stands in the dump at sixteen times its number, as it read or as
/// zeroes, and what was there before stays.
pub proof fn a_block_lands_at_its_place(w: DumpModel, a: AnswerModel)
    requires
        w.wf(),
        w.stage is Fetch,
    ensures
        ({
            let at = dump_offset(sector_first(w.sector as int) + w.done);
            let n = dump_answered(w, a).0;
            &&& n.dump.len() == at + 16
            &&& n.dump.take(at) == w.dump
            &&& n.dump.subrange(at, at + 16) == dumped_block(a)
        }),
{
    let at = dump_offset(sector_first(w.sector as int) + w.done);
    let n = dump_answered(w, a).0;
    assert(n.dump == w.dump + dumped_block(a));
    assert(n.dump.take(at) =~= w.dump);
    assert(n.dump.subrange(at, at + 16) =~= dumped_block(a));
}

/// A sector that no key opens leaves zeroes in the dump, as many as it has
/// bytes, and is counted.
pub proof fn a_locked_sector_is_zeroes(w: DumpModel, a: AnswerModel)
    requires
        w.wf(),
        w.stage is Hunt,
        dump_answered(w, a).0.locked != w.locked,
    ensures
        ({
            let n = dump_answered(w, a).0;
            let at = dump_offset(sector_first(w.sector as int));
            &&& n.locked == w.locked + 1
            &&& n.sector == w.sector + 1
            &&& n.dump.take(at) == w.dump
            &&& n.dump.len() == at + 16 * sector_len(w.sector as int)
            &&& forall|i: int| at <= i < n.dump.len() ==> #[trigger] n.dump[i] == 0
        }),
{
    let n = dump_answered(w, a).0;
    let at = dump_offset(sector_first(w.sector as int));
    assert(n.dump.take(at) =~= w.dump);
}

/// Commands that a dump can still send, at most.
pub open spec fn dump_left(w: DumpModel) -> int {
    let each = 2 * w.keys.len() + 20;
    let later = (w.sectors - w.sector - 1) * each;
    match w.stage {
        DumpStage::Detect => (MAX_SECTORS + 1) * each,
        DumpStage::Hunt => later + 18 + 2 * (w.keys.len() - w.hunt.at) - (if w.hunt.selected {
            1int
        } else {
            0
        }),
        DumpStage::Fetch => later + 18 - w.done,
        DumpStage::Release => 1,
        DumpStage::Over => 0,
    }
}

/// A dump comes to an end, whatever the reader answers.
pub proof fn a_dump_ends(w: DumpModel, a: AnswerModel)
    requires
        w.wf(),
        !(w.stage is Over),
    ensures
        0 <= dump_left(dump_answered(w, a).0) < dump_left(w),
        dump_answered(w, a).1.go is Ask <==> !(dump_answered(w, a).0.stage is Over),
{
    let n = dump_answered(w, a).0;
    let each = 2 * w.keys.len() + 20;
    let have = w.sectors - w.sector - 1;
    assert(have * each == (have - 1) * each + each) by (nonlinear_arith);
    assert(have >= 0 ==> have * each >= 0) by (nonlinear_arith)
        requires
            each >= 0,
    ;
    let next = n.sectors - n.sector - 1;
    assert(next >= 0 ==> next * each >= 0) by (nonlinear_arith)
        requires
            each >= 0,
    ;
    assert(next <= 39 ==> next * each <= 39 * each) by (nonlinear_arith)
        requires
            each >= 0,
    ;
    assert((MAX_SECTORS + 1) * each == 41 * each);
}

/// The first so many sectors, in order.
pub open spec fn first_sectors(n: int) -> Seq<int> {
    Seq::new(n as nat, |i: int| i)
}

/// A dump after a run of answers, and the sectors that it set about, in order.
pub open spec fn dump_run(w: DumpModel, answers: Seq<AnswerModel>) -> (DumpModel, Seq<int>)
    decreases answers.len(),
{
    if answers.len() == 0 {
        (w, Seq::empty())
    } else {
        let (p, tried) = dump_run(w, answers.drop_last());
        let n = dump_answered(p, answers.last()).0;
        (
            n,
            if n.stage is Hunt && !(p.stage is Hunt && p.sector == n.sector) {
                tried.push(n.sector as int)
            } else {
                tried
            },
        )
    }
}

/// Every step keeps the dump in line with the card.
pub proof fn a_dump_stays_in_line(w: DumpModel, a: AnswerModel)
    requires
        w.wf(),
    ensures
        dump_answered(w, a).0.wf(),
        dump_answered(w, a).0.to == w.to,
        dump_answered(w, a).0.keys == w.keys,
{
}

/// Sectors are tried from the first on, each once and in order, as many as
/// were asked for or as the card has. The dump then holds sixteen bytes for
/// every block of them.
pub proof fn a_dump_tries_each_sector_once(
    to: Option<u8>,
    keys: Seq<Seq<u8>>,
    answers: Seq<AnswerModel>,
    c: CardModel,
    count: u8,
)
    requires
        to is Some ==> to->Some_0 < MAX_SECTORS,
        0 < keys.len() <= usize::MAX,
        answers.len() > 0,
        card_in(answers[0]) == Some(c),
        dump_count(to, c.sak) == Some(count),
    ensures
        ({
            let (n, tried) = dump_run(dump_begun(to, keys), answers);
            &&& n.wf()
            &&& !(n.stage is Detect)
            &&& n.sectors == count
            &&& n.stage is Hunt || n.stage is Fetch ==> n.sector < count && tried == first_sectors(
                n.sector + 1,
            )
            &&& n.stage is Release || n.stage is Over ==> tried == first_sectors(count as int)
                && n.dump.len() == dump_offset(sector_first(count as int))
        }),
    decreases answers.len(),
{
    let w = dump_begun(to, keys);
    let before = answers.drop_last();
    let (p, tried) = dump_run(w, before);
    let (n, after) = dump_run(w, answers);
    if answers.len() == 1 {
        assert(before =~= Seq::empty());
        assert(p == w);
        a_dump_stays_in_line(w, answers.last());
        assert(after =~= first_sectors(1));
    } else {
        assert(before[0] == answers[0]);
        a_dump_tries_each_sector_once(to, keys, before, c, count);
        a_dump_stays_in_line(p, answers.last());
        if n.stage is Hunt && n.sector != p.sector {
            assert(after =~= first_sectors(n.sector + 1));
        }
    }
}

/// The sector that `--to` names is the highest one tried, and it is tried.
pub proof fn the_highest_sector_asked_for_is_tried(
    t: u8,
    keys: Seq<Seq<u8>>,
    answers: Seq<AnswerModel>,
)
    requires
        t < MAX_SECTORS,
        0 < keys.len() <= usize::MAX,
        answers.len() > 0,
        card_in(answers[0]) is Some,
    ensures
        ({
            let (n, tried) = dump_run(dump_begun(Some(t), keys), answers);
            n.stage is Release || n.stage is Over ==> {
                &&& tried == first_sectors(t + 1)
                &&& tried.last() == t
                &&& n.dump.len() == dump_offset(sector_first(t + 1))
            }
        }),
{
    a_dump_tries_each_sector_once(
        Some(t),
        keys,
        answers,
        card_in(answers[0])->Some_0,
        (t + 1) as u8,
    );
}

// ---- hf-write ----

/// What is said when a sector trailer would be written unasked.
pub open spec fn trailer_refusal_of(blk: u8) -> Seq<char> {
    "block "@ + dec_text(blk as nat)
        + " is a sector trailer. It holds the sector's keys and\naccess bits, and a wrong value locks the sector permanently.\nPass --trailer if you really mean it."@
}

/// The sixteen bytes to write and what is said of them, or why not. Without a
/// yes there is nothing to write.
pub open spec fn hf_write_preview_of(blk: u8, text: Seq<char>, allow: bool, yes: bool) -> Result<
    (Option<Seq<u8>>, Seq<Seq<char>>),
    Seq<char>,
> {
    match exact_value(text, 16, "need 16 hex bytes, got "@) {
        Err(e) => Err(e),
        Ok(data) => if trailer(blk as int) && !allow {
            Err(trailer_refusal_of(blk))
        } else {
            let head = seq!["block "@ + dec_text(blk as nat) + "  "@ + hex_text(data)];
            Ok(
                if yes {
                    (Some(data), head)
                } else {
                    (None, head.push("\nNothing written. Add --yes to go ahead."@))
                },
            )
        },
    }
}

pub open spec fn block_view(b: Option<[u8; 16]>) -> Option<Seq<u8>> {
    match b {
        Some(b) => Some(b@),
        None => None,
    }
}

pub open spec fn block_preview(r: Result<(Option<[u8; 16]>, Vec<String>), String>) -> Result<
    (Option<Seq<u8>>, Seq<Seq<char>>),
    Seq<char>,
> {
    match r {
        Ok((d, v)) => Ok((block_view(d), texts(v@))),
        Err(e) => Err(e@),
    }
}

pub fn hf_write_preview(blk: u8, text: &str, allow: bool, yes: bool) -> (r: Result<
    (Option<[u8; 16]>, Vec<String>),
    String,
>)
    ensures
        block_preview(r) == hf_write_preview_of(blk, text@, allow, yes),
{
    let v = match unhex_exact(text, 16, "need 16 hex bytes, got ") {
        Err(e) => {
            return Err(e);
        },
        Ok(v) => v,
    };
    if is_trailer(blk) && !allow {
        return Err(
            "block ".to_owned().concat(dec(blk as u64).as_str()).concat(
                " is a sector trailer. It holds the sector's keys and\naccess bits, and a wrong value locks the sector permanently.\nPass --trailer if you really mean it.",
            ),
        );
    }
    let data: [u8; 16] = [
        v[0],
        v[1],
        v[2],
        v[3],
        v[4],
        v[5],
        v[6],
        v[7],
        v[8],
        v[9],
        v[10],
        v[11],
        v[12],
        v[13],
        v[14],
        v[15],
    ];
    assert(data@ =~= v@);
    let mut lines = one_line(
        "block ".to_owned().concat(dec(blk as u64).as_str()).concat("  ").concat(
            hex(data.as_slice()).as_str(),
        ),
    );
    if yes {
        Ok((Some(data), lines))
    } else {
        push_text(&mut lines, "\nNothing written. Add --yes to go ahead.".to_owned());
        Ok((None, lines))
    }
}

/// A trailer is never written unless that was asked for by name.
pub proof fn a_trailer_is_not_written_unasked(blk: u8, text: Seq<char>, yes: bool)
    requires
        trailer(blk as int),
    ensures
        hf_write_preview_of(blk, text, false, yes) is Err,
{
}

#[derive(Clone, Copy, Debug, PartialEq, Eq, Structural)]
pub enum HfWriteStage {
    Detect,
    Hunt,
    Before,
    Write,
    /// Authenticating anew, or the read-back fails for reasons unrelated to
    /// the write.
    Again,
    After,
    Release,
    Over,
}

/// `hf-write`: find the card and a key, read the block, write it, read it
/// back.
pub struct HfWriteRun {
    pub stage: HfWriteStage,
    pub blk: u8,
    pub data: [u8; 16],
    /// The one key to use, as it was given.
    pub given: Option<String>,
    pub key_b: bool,
    pub keys: Vec<[u8; 6]>,
    pub uid: Vec<u8>,
    pub hunt: Hunt,
}

#[verifier::ext_equal]
pub struct HfWriteModel {
    pub stage: HfWriteStage,
    pub blk: u8,
    pub data: Seq<u8>,
    pub given: Option<Seq<char>>,
    pub key_b: bool,
    pub keys: Seq<Seq<u8>>,
    pub uid: Seq<u8>,
    pub hunt: Hunt,
}

pub open spec fn text_view(s: Option<String>) -> Option<Seq<char>> {
    match s {
        Some(s) => Some(s@),
        None => None,
    }
}

impl View for HfWriteRun {
    type V = HfWriteModel;

    open spec fn view(&self) -> HfWriteModel {
        HfWriteModel {
            stage: self.stage,
            blk: self.blk,
            data: self.data@,
            given: text_view(self.given),
            key_b: self.key_b,
            keys: keys_view(self.keys@),
            uid: self.uid@,
            hunt: self.hunt,
        }
    }
}

impl HfWriteModel {
    pub open spec fn wf(self) -> bool {
        match self.stage {
            HfWriteStage::Detect => true,
            HfWriteStage::Release => true,
            HfWriteStage::Over => true,
            HfWriteStage::Hunt => self.hunt.at < self.keys.len() <= KEYS@.len() && self.uid.len() >= 4,
            HfWriteStage::Again => self.hunt.at < self.keys.len() && self.uid.len() >= 4
                && self.keys.len() == 1,
            _ => self.keys.len() == 1 && self.uid.len() >= 4,
        }
    }
}

pub open spec fn hf_write_over(w: HfWriteModel, s: StepModel) -> (HfWriteModel, StepModel) {
    (HfWriteModel { stage: HfWriteStage::Over, ..w }, s)
}

pub open spec fn hf_write_hunt(w: HfWriteModel) -> QueryModel {
    hunt_query(w.hunt, w.key_b, w.blk, w.uid, w.keys)
}

/// The keys to try: the one given, or the known ones.
pub open spec fn write_keys_of(given: Option<Seq<char>>) -> Result<Seq<Seq<u8>>, Seq<char>> {
    match given {
        None => Ok(keys_view(KEYS@)),
        Some(t) => match exact_value(t, 6, "a key is 6 bytes, got "@) {
            Ok(k) => Ok(seq![k]),
            Err(e) => Err(e),
        },
    }
}

fn write_keys(given: &Option<String>) -> (r: Result<Vec<[u8; 6]>, String>)
    ensures
        keys_result(r) == write_keys_of(text_view(*given)),
        r is Ok ==> 0 < r->Ok_0@.len() <= KEYS@.len(),
{
    match given {
        None => Ok(known_keys()),
        Some(t) => match key_arg(t.as_str()) {
            Err(e) => Err(e),
            Ok(k) => {
                let mut v: Vec<[u8; 6]> = Vec::new();
                v.push(k);
                assert(keys_view(v@) =~= seq![k@]);
                Ok(v)
            },
        },
    }
}

pub open spec fn hf_write_detected(w: HfWriteModel, a: AnswerModel) -> (HfWriteModel, StepModel) {
    match card_in(a) {
        None => hf_write_over(w, quiet_of(GoModel::Fail("no card on the pad"@))),
        Some(c) => {
            let line = "UID "@ + hex_text(c.uid) + "  "@ + kind_of(c.sak);
            match write_keys_of(w.given) {
                Err(e) => hf_write_over(w, tell_of(line, GoModel::Fail(e))),
                Ok(keys) => {
                    let n = HfWriteModel {
                        stage: HfWriteStage::Hunt,
                        uid: c.uid,
                        keys,
                        hunt: fresh_hunt(),
                        ..w
                    };
                    (n, tell_of(line, GoModel::Ask(hf_write_hunt(n))))
                },
            }
        },
    }
}

pub open spec fn hf_write_hunted(w: HfWriteModel, a: AnswerModel) -> (HfWriteModel, StepModel) {
    let n = HfWriteModel { hunt: hunt_step(w.hunt, a), ..w };
    if hunt_opens(w.hunt, a) {
        let key = w.keys[w.hunt.at as int];
        (
            HfWriteModel { stage: HfWriteStage::Before, keys: seq![key], ..n },
            tell_of(
                "authenticated with key "@ + (if w.key_b {
                    "B"@
                } else {
                    "A"@
                }) + " "@ + hex_text(key),
                GoModel::Ask(surely(mifare_read_payload(w.blk))),
            ),
        )
    } else if n.hunt.at < n.keys.len() {
        (n, quiet_of(GoModel::Ask(hf_write_hunt(n))))
    } else {
        hf_write_over(n, quiet_of(GoModel::Fail("could not authenticate for that block"@)))
    }
}

/// The block before the write. That it does not read is no reason to stop.
pub open spec fn hf_write_looked(w: HfWriteModel, a: AnswerModel) -> (HfWriteModel, StepModel) {
    (
        HfWriteModel { stage: HfWriteStage::Write, ..w },
        StepModel {
            lines: match block_of(a) {
                Ok(b) => seq!["was    "@ + hex_text(b)],
                Err(_) => Seq::empty(),
            },
            go: GoModel::Ask(surely(mifare_write_payload(w.blk, w.data))),
        },
    )
}

pub open spec fn hf_write_wrote(w: HfWriteModel, a: AnswerModel) -> (HfWriteModel, StepModel) {
    match exchanged_of(a) {
        Err(e) => hf_write_over(w, quiet_of(GoModel::Fail(e))),
        Ok(_) => {
            let n = HfWriteModel { stage: HfWriteStage::Again, hunt: fresh_hunt(), ..w };
            (n, quiet_of(GoModel::Ask(hf_write_hunt(n))))
        },
    }
}

/// Authenticated anew or not, the block is read back.
pub open spec fn hf_write_again(w: HfWriteModel, a: AnswerModel) -> (HfWriteModel, StepModel) {
    let n = HfWriteModel { hunt: hunt_step(w.hunt, a), ..w };
    if hunt_opens(w.hunt, a) || n.hunt.at >= n.keys.len() {
        (
            HfWriteModel { stage: HfWriteStage::After, ..n },
            quiet_of(GoModel::Ask(surely(mifare_read_payload(w.blk)))),
        )
    } else {
        (n, quiet_of(GoModel::Ask(hf_write_hunt(n))))
    }
}

pub open spec fn hf_write_checked(w: HfWriteModel, a: AnswerModel) -> (HfWriteModel, StepModel) {
    (
        HfWriteModel { stage: HfWriteStage::Release, ..w },
        tell_of(
            match block_of(a) {
                Ok(got) => "now    "@ + hex_text(got) + "  "@ + (if got == w.data {
                    "matches"@
                } else {
                    "DOES NOT MATCH"@
                }),
                Err(e) => "read back failed: "@ + e,
            },
            GoModel::Ask(surely(hf_release_payload())),
        ),
    )
}

pub open spec fn hf_write_answered(w: HfWriteModel, a: AnswerModel) -> (HfWriteModel, StepModel) {
    match w.stage {
        HfWriteStage::Detect => hf_write_detected(w, a),
        HfWriteStage::Hunt => hf_write_hunted(w, a),
        HfWriteStage::Before => hf_write_looked(w, a),
        HfWriteStage::Write => hf_write_wrote(w, a),
        HfWriteStage::Again => hf_write_again(w, a),
        HfWriteStage::After => hf_write_checked(w, a),
        HfWriteStage::Release => hf_write_over(w, quiet_of(GoModel::Done)),
        HfWriteStage::Over => (w, quiet_of(GoModel::Done)),
    }
}

fn same_block(a: &[u8; 16], b: &[u8; 16]) -> (r: bool)
    ensures
        r == (a@ == b@),
{
    let mut i: usize = 0;
    while i < 16
        invariant
            i <= 16,
            forall|j: int| 0 <= j < i ==> a@[j] == b@[j],
        decreases 16 - i,
    {
        if a[i] != b[i] {
            return false;
        }
        i += 1;
    }
    assert(a@ =~= b@);
    true
}

impl HfWriteRun {
    pub fn begin(blk: u8, data: [u8; 16], given: Option<String>, key_b: bool) -> (r: (
        HfWriteRun,
        Step,
    ))
        ensures
            r.0@ == (HfWriteModel {
                stage: HfWriteStage::Detect,
                blk,
                data: data@,
                given: text_view(given),
                key_b,
                keys: Seq::empty(),
                uid: Seq::empty(),
                hunt: fresh_hunt(),
            }),
            r.1@ == quiet_of(GoModel::Ask(surely(hf_detect_payload()))),
            r.0@.wf(),
    {
        let run = HfWriteRun {
            stage: HfWriteStage::Detect,
            blk,
            data,
            given,
            key_b,
            keys: Vec::new(),
            uid: Vec::new(),
            hunt: Hunt::new(),
        };
        assert(run@.uid =~= Seq::empty());
        assert(run@.keys =~= Seq::empty());
        (run, quiet(Go::Ask(Reader::hf_raw())))
    }

    fn hunt_on(&self) -> (r: Query)
        requires
            self.hunt.at < self.keys@.len(),
            self.uid@.len() >= 4,
        ensures
            r@ == hf_write_hunt(self@),
    {
        self.hunt.query(self.key_b, self.blk, self.uid.as_slice(), &self.keys)
    }

    fn on_detect(&mut self, a: &Answer) -> (r: Step)
        ensures
            (final(self)@, r@) == hf_write_detected(old(self)@, reply_result(*a)),
            final(self)@.wf(),
    {
        let c = match hf_card(a) {
            None => {
                self.stage = HfWriteStage::Over;
                return quiet(Go::Fail("no card on the pad".to_owned()));
            },
            Some(c) => c,
        };
        let line = "UID ".to_owned().concat(hex(c.uid.as_slice()).as_str()).concat("  ").concat(
            c.kind(),
        );
        match write_keys(&self.given) {
            Err(e) => {
                self.stage = HfWriteStage::Over;
                tell(line, Go::Fail(e))
            },
            Ok(keys) => {
                self.stage = HfWriteStage::Hunt;
                self.uid = c.uid;
                self.keys = keys;
                self.hunt = Hunt::new();
                tell(line, Go::Ask(self.hunt_on()))
            },
        }
    }

    fn on_hunt(&mut self, a: Answer) -> (r: Step)
        requires
            old(self)@.wf(),
            old(self).stage is Hunt,
        ensures
            (final(self)@, r@) == hf_write_hunted(old(self)@, reply_result(a)),
            final(self)@.wf(),
    {
        let total: usize = self.keys.len();
        let key = self.keys[self.hunt.at];
        assert(key@ == self@.keys[self.hunt.at as int]);
        let mut hunt = self.hunt;
        let open = hunt.answer(a);
        self.hunt = hunt;
        if open {
            self.stage = HfWriteStage::Before;
            let mut one: Vec<[u8; 6]> = Vec::new();
            one.push(key);
            assert(keys_view(one@) =~= seq![key@]);
            self.keys = one;
            let which: &str = if self.key_b {
                "B"
            } else {
                "A"
            };
            tell(
                "authenticated with key ".to_owned().concat(which).concat(" ").concat(
                    hex(key.as_slice()).as_str(),
                ),
                Go::Ask(Reader::mifare_read(self.blk)),
            )
        } else if self.hunt.at < total {
            quiet(Go::Ask(self.hunt_on()))
        } else {
            self.stage = HfWriteStage::Over;
            quiet(Go::Fail("could not authenticate for that block".to_owned()))
        }
    }

    fn on_before(&mut self, a: Answer) -> (r: Step)
        requires
            old(self)@.wf(),
            old(self).stage is Before,
        ensures
            (final(self)@, r@) == hf_write_looked(old(self)@, reply_result(a)),
            final(self)@.wf(),
    {
        self.stage = HfWriteStage::Write;
        let lines = match block_read(a) {
            Ok(b) => one_line("was    ".to_owned().concat(hex(b.as_slice()).as_str())),
            Err(_) => no_lines(),
        };
        Step { lines, go: Go::Ask(Reader::mifare_write(self.blk, self.data)) }
    }

    fn on_write(&mut self, a: Answer) -> (r: Step)
        requires
            old(self)@.wf(),
            old(self).stage is Write,
        ensures
            (final(self)@, r@) == hf_write_wrote(old(self)@, reply_result(a)),
            final(self)@.wf(),
    {
        match exchanged(a) {
            Err(e) => {
                self.stage = HfWriteStage::Over;
                quiet(Go::Fail(e))
            },
            Ok(_) => {
                self.stage = HfWriteStage::Again;
                self.hunt = Hunt::new();
                quiet(Go::Ask(self.hunt_on()))
            },
        }
    }

    fn on_again(&mut self, a: Answer) -> (r: Step)
        requires
            old(self)@.wf(),
            old(self).stage is Again,
        ensures
            (final(self)@, r@) == hf_write_again(old(self)@, reply_result(a)),
            final(self)@.wf(),
    {
        let mut hunt = self.hunt;
        let open = hunt.answer(a);
        self.hunt = hunt;
        if open || self.hunt.at >= self.keys.len() {
            self.stage = HfWriteStage::After;
            quiet(Go::Ask(Reader::mifare_read(self.blk)))
        } else {
            quiet(Go::Ask(self.hunt_on()))
        }
    }

    fn on_after(&mut self, a: Answer) -> (r: Step)
        ensures
            (final(self)@, r@) == hf_write_checked(old(self)@, reply_result(a)),
            final(self)@.wf(),
    {
        self.stage = HfWriteStage::Release;
        let line = match block_read(a) {
            Ok(got) => {
                let verdict: &str = if same_block(&got, &self.data) {
                    "matches"
                } else {
                    "DOES NOT MATCH"
                };
                "now    ".to_owned().concat(hex(got.as_slice()).as_str()).concat("  ").concat(verdict)
            },
            Err(e) => "read back failed: ".to_owned().concat(e.as_str()),
        };
        tell(line, Go::Ask(Reader::hf_release()))
    }

    pub fn answer(&mut self, a: Answer) -> (r: Step)
        requires
            old(self)@.wf(),
        ensures
            (final(self)@, r@) == hf_write_answered(old(self)@, reply_result(a)),
            final(self)@.wf(),
    {
        match self.stage {
            HfWriteStage::Detect => self.on_detect(&a),
            HfWriteStage::Hunt => self.on_hunt(a),
            HfWriteStage::Before => self.on_before(a),
            HfWriteStage::Write => self.on_write(a),
            HfWriteStage::Again => self.on_again(a),
            HfWriteStage::After => self.on_after(a),
            HfWriteStage::Release => {
                self.stage = HfWriteStage::Over;
                quiet(Go::Done)
            },
            HfWriteStage::Over => quiet(Go::Done),
        }
    }
}

/// A card is written once, and only after a key has opened the block.
pub proof fn a_card_is_written_only_when_open(w: HfWriteModel, a: AnswerModel)
    requires
        w.wf(),
        hf_write_answered(w, a).1.go == GoModel::Ask(
            surely(mifare_write_payload(w.blk, w.data)),
        ),
    ensures
        w.stage is Before,
{
    assert(mifare_write_payload(w.blk, w.data)[8] == 0xa0);
    assert(mifare_write_payload(w.blk, w.data)[2] == 0x00);
    assert(mifare_read_payload(w.blk)[8] == 0x30);
    assert(hf_release_payload()[2] == 0x62);
    assert(hf_activate_payload()[2] == 0x61);
    assert forall|k: Seq<u8>, u: Seq<u8>|
        (#[trigger] crate::command::mifare_auth_payload(w.key_b, w.blk, k, u))[8] != 0xa0 by {
        let p = crate::command::mifare_auth_payload(w.key_b, w.blk, k, u);
        assert(p[8] == if w.key_b {
            0x61u8
        } else {
            0x60u8
        });
    }
}

/// Commands that a card write can still send, at most.
pub open spec fn hf_write_left(w: HfWriteModel) -> int {
    let tries = 2 * (w.keys.len() - w.hunt.at) - (if w.hunt.selected {
        1int
    } else {
        0
    });
    match w.stage {
        HfWriteStage::Detect => 100,
        HfWriteStage::Hunt => tries + 10,
        HfWriteStage::Before => 8,
        HfWriteStage::Write => 7,
        HfWriteStage::Again => tries + 3,
        HfWriteStage::After => 2,
        HfWriteStage::Release => 1,
        HfWriteStage::Over => 0,
    }
}

/// A card write comes to an end, whatever the reader answers.
pub proof fn a_card_write_ends(w: HfWriteModel, a: AnswerModel)
    requires
        w.wf(),
        !(w.stage is Over),
    ensures
        0 <= hf_write_left(hf_write_answered(w, a).0) < hf_write_left(w),
        hf_write_answered(w, a).1.go is Ask <==> !(hf_write_answered(w, a).0.stage is Over),
{
    assert(KEYS@.len() == 8);
}

// ---- laws of hf ----

/// `hf` names the card that the answer spells out: UID, ATQA, SAK, kind, and
/// how many sectors there are to dump. With `--raw` it shows the payload as it
/// came, and only there is a missing answer a complaint.
pub proof fn hf_names_the_card(
    r: crate::frame::ReplyModel,
    sak: u8,
    atqa: Seq<u8>,
    uid: Seq<u8>,
    e: Seq<char>,
)
    requires
        atqa.len() == 2,
        uid.len() == 4,
        r.payload == seq![0x07u8, sak] + atqa + uid,
    ensures
        ({
            let s = hf_answered_of(false, Ok(r));
            &&& s.go is Done
            &&& s.lines.len() == 5
            &&& s.lines[0] == "UID   "@ + hex_text(uid)
            &&& s.lines[1] == "ATQA  "@ + hex_text(atqa)
            &&& s.lines[2] == "SAK   "@ + hex2(sak)
            &&& s.lines[3] == "type  "@ + kind_of(sak)
            &&& sectors_of(sak) matches Some(n) ==> s.lines[4] == "      "@ + dec_text(n as nat)
                + " sectors, `hf-dump` can read them"@
            &&& sectors_of(sak) is None ==> s.lines[4] == "      no MIFARE Classic sectors to dump"@
        }),
        hf_answered_of(true, Ok(r)).lines == seq![hex_text(r.payload)],
        hf_answered_of(true, Ok(r)).go is Done,
        hf_answered_of(true, Err(e)).go == GoModel::Fail(e),
        hf_answered_of(false, Err(e)).lines == seq!["no card. Is it flat on the pad?"@],
        hf_answered_of(false, Err(e)).go is Done,
{
    crate::mifare::a_detected_card_is_spelled_out(sak, atqa, uid, Seq::empty(), r.payload);
    assert(r.payload + Seq::empty() =~= r.payload);
}

// ---- laws of hf-dump ----

/// The keys of a dump are those given, in order and each as it reads, and then
/// the known ones. They are all there exactly if each one given is six bytes.
pub proof fn given_keys_come_first(texts: Seq<Seq<char>>, i: int, j: int)
    requires
        0 <= i < texts.len(),
        0 <= j < 8,
    ensures
        dump_keys_of(texts) is Ok <==> forall|k: int|
            0 <= k < texts.len() ==> six_bytes(#[trigger] texts[k]),
        dump_keys_of(texts) matches Ok(ks) ==> {
            &&& ks.len() == texts.len() + 8
            &&& crate::hexes::unhex_value(texts[i]) == Ok::<Seq<u8>, Seq<char>>(ks[i])
            &&& ks[i].len() == 6
            &&& ks[texts.len() + j] == KEYS@[j]@
        },
{
    lemma_given_keys(texts);
}

/// The text reads as six bytes.
pub open spec fn six_bytes(t: Seq<char>) -> bool {
    crate::hexes::unhex_value(t) matches Ok(v) && v.len() == 6
}

proof fn lemma_given_keys(texts: Seq<Seq<char>>)
    ensures
        given_keys(texts) is Ok <==> forall|k: int|
            0 <= k < texts.len() ==> six_bytes(#[trigger] texts[k]),
        given_keys(texts) matches Ok(ks) ==> ks.len() == texts.len() && forall|k: int|
            0 <= k < texts.len() ==> crate::hexes::unhex_value(#[trigger] texts[k]) == Ok::<
                Seq<u8>,
                Seq<char>,
            >(ks[k]) && ks[k].len() == 6,
    decreases texts.len(),
{
    if texts.len() > 0 {
        let p = texts.drop_last();
        lemma_given_keys(p);
        assert(forall|k: int| 0 <= k < p.len() ==> p[k] == #[trigger] texts[k]);
        assert(texts.last() == texts[texts.len() - 1]);
        if given_keys(p) is Err {
            let k = choose|k: int| 0 <= k < p.len() && !six_bytes(#[trigger] p[k]);
            assert(!six_bytes(texts[k]));
        } else {
            assert forall|k: int| 0 <= k < p.len() implies six_bytes(#[trigger] texts[k]) by {
                assert(six_bytes(p[k]));
            }
            if given_keys(texts) is Ok {
                let ks = given_keys(texts)->Ok_0;
                assert forall|k: int| 0 <= k < texts.len() implies crate::hexes::unhex_value(
                    #[trigger] texts[k],
                ) == Ok::<Seq<u8>, Seq<char>>(ks[k]) && ks[k].len() == 6 by {
                    if k < p.len() {
                        assert(crate::hexes::unhex_value(p[k]) is Ok);
                    }
                }
            }
        }
    }
}

/// The first block of a sector by its number: four blocks to each of the first
/// thirty-two, sixteen to the rest.
pub open spec fn block_where(sector: int) -> int {
    if sector <= 32 {
        4 * sector
    } else {
        16 * sector - 384
    }
}

/// Every command that a dump sends is about the sector it is at. While it hunts
/// it selects the card, and then authenticates with key A for the first block
/// of that sector, with the key whose turn it is and the first four bytes of
/// the UID. While it fetches it reads a block of that sector, each in turn.
/// After the last sector it lets the card go.
pub proof fn a_dump_stays_within_its_sector(w: DumpModel, a: AnswerModel, q: QueryModel)
    requires
        w.wf(),
        forall|i: int| 0 <= i < w.keys.len() ==> (#[trigger] w.keys[i]).len() == 6,
        dump_answered(w, a).1.go == GoModel::Ask(q),
    ensures
        ({
            let n = dump_answered(w, a).0;
            let b = q.payload[9] as int;
            &&& q.retry
            &&& n.stage is Hunt || n.stage is Fetch || n.stage is Release
            &&& n.stage is Hunt && !n.hunt.selected ==> q.payload == seq![0xffu8, 0x00, 0x61, 0x01]
            &&& n.stage is Hunt && n.hunt.selected ==> {
                &&& q.payload.len() == 20
                &&& q.payload.take(9) == seq![
                    0xffu8, 0x00, 0x00, 0x00, 0x0f, 0xd4, 0x40, 0x01, 0x60,
                ]
                &&& b == block_where(n.sector as int)
                &&& crate::mifare::sector_of(b) == n.sector
                &&& q.payload.subrange(10, 16) == n.keys[n.hunt.at as int]
                &&& q.payload.subrange(16, 20) == n.uid.take(4)
            }
            &&& n.stage is Fetch ==> {
                &&& q.payload == seq![
                    0xffu8, 0x00, 0x00, 0x00, 0x05, 0xd4, 0x40, 0x01, 0x30, q.payload[9],
                ]
                &&& b == block_where(n.sector as int) + n.done
                &&& crate::mifare::sector_of(b) == n.sector
            }
            &&& n.stage is Release ==> q.payload == seq![0xffu8, 0x00, 0x62, 0x01, 0x00]
        }),
{
    let n = dump_answered(w, a).0;
    a_dump_stays_in_line(w, a);
    if n.stage is Hunt {
        let first = sector_first(n.sector as int);
        crate::hf::a_hunt_tries_its_key_on_its_block(n.hunt, false, first as u8, n.uid, n.keys);
        if n.hunt.selected {
            assert(q.payload.take(9) =~= seq![
                0xffu8, 0x00, 0x00, 0x00, 0x0f, 0xd4, 0x40, 0x01, 0x60,
            ]);
            assert(q.payload.subrange(10, 16) =~= n.keys[n.hunt.at as int]);
            assert(q.payload.subrange(16, 20) =~= n.uid.take(4));
        }
    } else if n.stage is Fetch {
        crate::command::a_card_write_carries_its_data(
            (sector_first(n.sector as int) + n.done) as u8,
            zeroes(16),
        );
    }
}

/// A dump works on the card that was detected: its UID, and as many sectors as
/// were asked for or as it has. Neither changes on the way, nor do the keys.
pub proof fn a_dump_sticks_to_its_card(w: DumpModel, a: AnswerModel)
    requires
        w.wf(),
    ensures
        ({
            let (n, s) = dump_answered(w, a);
            &&& n.to == w.to && n.keys == w.keys
            &&& !(w.stage is Detect) ==> n.uid == w.uid && n.sectors == w.sectors
            &&& w.stage is Detect && !(n.stage is Over) ==> {
                &&& a matches Ok(r) && r.payload[0] == 0x07 && n.uid == r.payload.subrange(4, 8)
                &&& w.to matches Some(t) ==> n.sectors == t + 1
                &&& w.to is None ==> sectors_of(a->Ok_0.payload[1]) == Some(n.sectors)
                &&& n.stage is Hunt && n.sector == 0 && n.hunt.at == 0 && !n.hunt.selected
                &&& s.lines.len() == 2
                &&& s.lines[0] == "UID "@ + hex_text(n.uid) + "  SAK "@ + hex2(
                    a->Ok_0.payload[1],
                ) + "  "@ + kind_of(a->Ok_0.payload[1])
                &&& s.lines[1] == dec_text(n.sectors as nat) + " sectors, "@ + dec_text(
                    w.keys.len(),
                ) + " keys\n"@
            }
            &&& w.stage is Detect && n.stage is Over ==> s.go is Fail && (card_in(a) is None
                || w.to is None && sectors_of(a->Ok_0.payload[1]) is None)
        }),
{
}

/// How a dump goes through the keys of a sector. The card is selected, then the
/// key is tried. One that opens the sector is named, and its blocks are read
/// from the first on; otherwise the next key has its turn. When none is left
/// the sector is named as one that no key worked on.
pub proof fn a_dump_tries_key_after_key(w: DumpModel, a: AnswerModel)
    requires
        w.wf(),
        w.stage is Hunt,
    ensures
        ({
            let (n, s) = dump_answered(w, a);
            let head = "sector "@ + pad_left(dec_text(w.sector as nat), 2, ' ');
            let opens = exchanged_of(a) is Ok;
            &&& !w.hunt.selected ==> n == DumpModel {
                hunt: Hunt { at: w.hunt.at, selected: true },
                ..w
            } && s.lines.len() == 0
            &&& w.hunt.selected && opens ==> {
                &&& n.stage is Fetch && n.sector == w.sector && n.done == 0
                &&& n.dump == w.dump && n.locked == w.locked
                &&& s.lines == seq![head + "  key A "@ + hex_text(w.keys[w.hunt.at as int])]
            }
            &&& w.hunt.selected && !opens && w.hunt.at + 1 < w.keys.len() ==> n == DumpModel {
                hunt: Hunt { at: (w.hunt.at + 1) as usize, selected: false },
                ..w
            } && s.lines.len() == 0
            &&& w.hunt.selected && !opens && w.hunt.at + 1 == w.keys.len() ==> {
                &&& !(n.stage is Fetch) && n.sector == w.sector + 1 && n.locked == w.locked + 1
                &&& s.lines == seq![head + "  no key worked"@]
            }
        }),
{
}

/// How a dump goes through the blocks of a sector: each is shown with its
/// number, as it read or with the complaint, and put down as it read or as
/// sixteen zeroes. Past the last block comes the next sector.
pub proof fn a_dump_reads_block_after_block(w: DumpModel, a: AnswerModel)
    requires
        w.wf(),
        w.stage is Fetch,
    ensures
        ({
            let (n, s) = dump_answered(w, a);
            let blk = block_where(w.sector as int) + w.done;
            let head = "  "@ + pad_left(dec_text(blk as nat), 3, ' ') + "  "@;
            let last = block_where(w.sector + 1) - 1;
            &&& w.dump.len() == 16 * blk
            &&& n.locked == w.locked
            &&& s.lines.len() == 1
            &&& block_of(a) matches Ok(d) ==> n.dump == w.dump + d && s.lines[0] == head + hex_text(d)
            &&& block_of(a) matches Err(e) ==> {
                &&& s.lines[0] == head + e
                &&& n.dump.len() == w.dump.len() + 16
                &&& n.dump.take(w.dump.len() as int) == w.dump
                &&& forall|i: int| w.dump.len() <= i < n.dump.len() ==> #[trigger] n.dump[i] == 0
            }
            &&& blk < last ==> n.stage is Fetch && n.sector == w.sector && n.done == w.done + 1
            &&& blk == last ==> !(n.stage is Fetch) && n.sector == w.sector + 1
        }),
{
    let (n, s) = dump_answered(w, a);
    if block_of(a) is Err {
        assert(n.dump.take(w.dump.len() as int) =~= w.dump);
    }
}

/// A sector that is done makes way for the next, with all the keys to be tried
/// anew, until the last one is done.
pub proof fn a_dump_goes_on_to_the_next_sector(w: DumpModel, a: AnswerModel)
    requires
        w.wf(),
        w.stage is Hunt || w.stage is Fetch,
        dump_answered(w, a).0.sector != w.sector,
    ensures
        ({
            let n = dump_answered(w, a).0;
            &&& n.sector == w.sector + 1
            &&& n.sector < n.sectors ==> n.stage is Hunt && n.hunt.at == 0 && !n.hunt.selected
            &&& n.sector == n.sectors ==> n.stage is Release
            &&& n.dump.len() == 16 * block_where(n.sector as int)
            &&& n.dump.take(w.dump.len() as int) == w.dump
        }),
{
    a_dump_stays_in_line(w, a);
    let n = dump_answered(w, a).0;
    assert(n.dump.take(w.dump.len() as int) =~= w.dump);
}

/// At the end a dump says how many sectors stayed shut, if any did, and keeps
/// what it has read.
pub proof fn a_dump_owns_up_to_locked_sectors(w: DumpModel, a: AnswerModel)
    requires
        w.stage is Release,
    ensures
        ({
            let (n, s) = dump_answered(w, a);
            &&& n.stage is Over && s.go is Done
            &&& n.dump == w.dump && n.locked == w.locked
            &&& w.locked == 0 ==> s.lines.len() == 0
            &&& w.locked > 0 ==> s.lines.len() == 2 && s.lines[0] == "\n"@ + dec_text(
                w.locked as nat,
            ) + " of "@ + dec_text(w.sectors as nat) + " sectors had no key in the dictionary."@
        }),
{
}

// ---- laws of hf-write ----

/// What is to be written to a card is what the text spells, sixteen bytes, and
/// is shown for its block. A trailer passes only if it was asked for by name.
pub proof fn a_card_write_is_what_was_asked_for(
    blk: u8,
    text: Seq<char>,
    allow: bool,
    yes: bool,
)
    ensures
        ({
            let r = hf_write_preview_of(blk, text, allow, yes);
            let spelled = crate::hexes::unhex_value(text);
            let last = if blk < 128 {
                blk % 4 == 3
            } else {
                blk % 16 == 15
            };
            &&& r is Ok <==> (spelled matches Ok(d) && d.len() == 16) && (allow || !last)
            &&& r matches Ok((data, lines)) ==> {
                &&& yes ==> data == Some(spelled->Ok_0)
                &&& !yes ==> data is None
                &&& lines[0] == "block "@ + dec_text(blk as nat) + "  "@ + hex_text(spelled->Ok_0)
                &&& lines.len() == if yes {
                    1int
                } else {
                    2
                }
            }
        }),
{
}

/// Every command that a card write sends is about its block. While it looks for
/// a key it selects the card and then authenticates for the block, with the key
/// whose turn it is; it reads the block before and after; and what it writes is
/// the sixteen bytes it was given.
pub proof fn a_card_write_stays_with_its_block(w: HfWriteModel, a: AnswerModel, q: QueryModel)
    requires
        w.wf(),
        w.data.len() == 16,
        forall|i: int| 0 <= i < w.keys.len() ==> (#[trigger] w.keys[i]).len() == 6,
        hf_write_answered(w, a).1.go == GoModel::Ask(q),
    ensures
        ({
            let n = hf_write_answered(w, a).0;
            let read = seq![0xffu8, 0x00, 0x00, 0x00, 0x05, 0xd4, 0x40, 0x01, 0x30, w.blk];
            &&& q.retry
            &&& n.stage is Hunt || n.stage is Again ==> if n.hunt.selected {
                &&& q.payload.len() == 20
                &&& q.payload.take(8) == seq![0xffu8, 0x00, 0x00, 0x00, 0x0f, 0xd4, 0x40, 0x01]
                &&& q.payload[8] == if w.key_b {
                    0x61u8
                } else {
                    0x60u8
                }
                &&& q.payload[9] == w.blk
                &&& q.payload.subrange(10, 16) == n.keys[n.hunt.at as int]
                &&& q.payload.subrange(16, 20) == n.uid.take(4)
            } else {
                q.payload == seq![0xffu8, 0x00, 0x61, 0x01]
            }
            &&& n.stage is Before || n.stage is After ==> q.payload == read
            &&& n.stage is Write ==> {
                &&& q.payload.len() == 26
                &&& q.payload.take(10) == seq![
                    0xffu8, 0x00, 0x00, 0x00, 0x15, 0xd4, 0x40, 0x01, 0xa0, w.blk,
                ]
                &&& q.payload.subrange(10, 26) == w.data
            }
            &&& n.stage is Release ==> q.payload == seq![0xffu8, 0x00, 0x62, 0x01, 0x00]
            &&& !(n.stage is Detect) && !(n.stage is Over)
        }),
{
    let n = hf_write_answered(w, a).0;
    crate::command::a_card_write_carries_its_data(w.blk, w.data);
    if n.stage is Hunt || n.stage is Again {
        lemma_keys_are_six_bytes(w, a);
        crate::hf::a_hunt_tries_its_key_on_its_block(n.hunt, n.key_b, n.blk, n.uid, n.keys);
        if n.hunt.selected {
            assert(q.payload.take(8) =~= seq![0xffu8, 0x00, 0x00, 0x00, 0x0f, 0xd4, 0x40, 0x01]);
            assert(q.payload.subrange(10, 16) =~= n.keys[n.hunt.at as int]);
            assert(q.payload.subrange(16, 20) =~= n.uid.take(4));
        }
    } else if n.stage is Write {
        assert(q.payload.take(10) =~= seq![
            0xffu8, 0x00, 0x00, 0x00, 0x15, 0xd4, 0x40, 0x01, 0xa0, w.blk,
        ]);
    }
}

proof fn lemma_keys_are_six_bytes(w: HfWriteModel, a: AnswerModel)
    requires
        w.wf(),
        forall|i: int| 0 <= i < w.keys.len() ==> (#[trigger] w.keys[i]).len() == 6,
    ensures
        ({
            let n = hf_write_answered(w, a).0;
            &&& forall|i: int| 0 <= i < n.keys.len() ==> (#[trigger] n.keys[i]).len() == 6
            &&& n.wf()
        }),
{
    crate::hf::the_known_keys_in_order();
}

/// A card write keeps to what it was given: block, bytes, and which of the two
/// keys. It tries the one key that was given or all the known ones, on the card
/// that was detected.
pub proof fn a_card_write_sticks_to_its_task(w: HfWriteModel, a: AnswerModel)
    requires
        w.wf(),
    ensures
        ({
            let (n, s) = hf_write_answered(w, a);
            &&& n.blk == w.blk && n.data == w.data && n.key_b == w.key_b && n.given == w.given
            &&& !(w.stage is Detect) ==> n.uid == w.uid
            &&& w.stage is Detect && !(n.stage is Over) ==> {
                &&& a matches Ok(r) && r.payload[0] == 0x07 && n.uid == r.payload.subrange(4, 8)
                &&& w.given matches Some(t) ==> n.keys.len() == 1 && crate::hexes::unhex_value(t)
                    == Ok::<Seq<u8>, Seq<char>>(n.keys[0]) && n.keys[0].len() == 6
                &&& w.given is None ==> n.keys == keys_view(KEYS@)
                &&& n.stage is Hunt && n.hunt.at == 0 && !n.hunt.selected
                &&& s.lines == seq![
                    "UID "@ + hex_text(n.uid) + "  "@ + kind_of(a->Ok_0.payload[1]),
                ]
            }
            &&& w.stage is Detect && n.stage is Over ==> s.go is Fail
        }),
{
}

/// The order of a card write: the keys in turn until one opens the block, which
/// is then named and kept as the only one; a look at the block, which need not
/// succeed; the write; if that went through, the same key once more; and the
/// block again.
pub proof fn a_card_write_goes_step_by_step(w: HfWriteModel, a: AnswerModel)
    requires
        w.wf(),
    ensures
        ({
            let (n, s) = hf_write_answered(w, a);
            let opens = w.hunt.selected && exchanged_of(a) is Ok;
            let next = if w.hunt.selected {
                Hunt { at: (w.hunt.at + 1) as usize, selected: false }
            } else {
                Hunt { at: w.hunt.at, selected: true }
            };
            &&& w.stage is Hunt && opens ==> n.stage is Before && n.keys == seq![
                w.keys[w.hunt.at as int],
            ] && s.lines == seq![
                "authenticated with key "@ + (if w.key_b {
                    "B"@
                } else {
                    "A"@
                }) + " "@ + hex_text(w.keys[w.hunt.at as int]),
            ]
            &&& w.stage is Hunt && !opens && next.at < w.keys.len() ==> n == HfWriteModel {
                hunt: next,
                ..w
            }
            &&& w.stage is Hunt && !opens && next.at == w.keys.len() ==> n.stage is Over && s.go
                == GoModel::Fail("could not authenticate for that block"@)
            &&& w.stage is Before ==> n.stage is Write && n.keys == w.keys
            &&& w.stage is Before ==> match block_of(a) {
                Ok(b) => s.lines == seq!["was    "@ + hex_text(b)],
                Err(_) => s.lines.len() == 0,
            }
            &&& w.stage is Write ==> match exchanged_of(a) {
                Ok(_) => n.stage is Again && n.keys == w.keys && n.hunt == (Hunt {
                    at: 0,
                    selected: false,
                }),
                Err(e) => n.stage is Over && s.go == GoModel::Fail(e),
            }
            &&& w.stage is Again ==> n.keys == w.keys && n.hunt == next && (n.stage is After
                <==> w.hunt.selected) && (n.stage is Again <==> !w.hunt.selected)
            &&& w.stage is After ==> n.stage is Release
            &&& w.stage is Release ==> n.stage is Over && s.go is Done
        }),
{
}

/// What is said in the end: the block as it reads now, and that it matches
/// exactly if it is what was to be written.
pub proof fn a_card_write_is_judged_by_what_reads_back(w: HfWriteModel, a: AnswerModel)
    requires
        w.stage is After,
    ensures
        ({
            let s = hf_write_answered(w, a).1;
            &&& s.lines.len() == 1
            &&& block_of(a) matches Ok(got) ==> if got == w.data {
                s.lines[0] == "now    "@ + hex_text(got) + "  "@ + "matches"@
            } else {
                s.lines[0] == "now    "@ + hex_text(got) + "  "@ + "DOES NOT MATCH"@
            }
            &&& block_of(a) matches Err(e) ==> s.lines[0] == "read back failed: "@ + e
        }),
{
}

/// A trailer that is refused is named, and so is the way to go ahead.
pub proof fn a_refused_trailer_is_named(blk: u8, text: Seq<char>, yes: bool, data: Seq<u8>)
    requires
        crate::hexes::unhex_value(text) == Ok::<Seq<u8>, Seq<char>>(data),
        data.len() == 16,
        trailer(blk as int),
    ensures
        hf_write_preview_of(blk, text, false, yes) == Err::<
            (Option<Seq<u8>>, Seq<Seq<char>>),
            Seq<char>,
        >(
            "block "@ + dec_text(blk as nat)
                + " is a sector trailer. It holds the sector's keys and\naccess bits, and a wrong value locks the sector permanently.\nPass --trailer if you really mean it."@,
        ),
{
}

/// The views of the two procedures keep what they hold.
pub proof fn views_keep_procedures(d: DumpRun, h: HfWriteRun, e: String, b: [u8; 16], v: Vec<String>, ks: Vec<[u8; 6]>)
    ensures
        d@.stage == d.stage && d@.to == d.to && d@.uid == d.uid@ && d@.sectors == d.sectors,
        d@.sector == d.sector && d@.hunt == d.hunt && d@.done == d.done && d@.locked == d.locked,
        d@.dump == d.dump@ && d@.keys == keys_view(d.keys@),
        h@.stage == h.stage && h@.blk == h.blk && h@.data == h.data@ && h@.key_b == h.key_b,
        h@.uid == h.uid@ && h@.hunt == h.hunt && h@.keys == keys_view(h.keys@),
        h.given matches Some(t) ==> h@.given == Some(t@),
        h.given is None ==> h@.given is None,
        keys_result(Ok(ks)) == Ok::<Seq<Seq<u8>>, Seq<char>>(keys_view(ks@)),
        keys_result(Err(e)) == Err::<Seq<Seq<u8>>, Seq<char>>(e@),
        block_preview(Ok((Some(b), v))) == Ok::<(Option<Seq<u8>>, Seq<Seq<char>>), Seq<char>>(
            (Some(b@), texts(v@)),
        ),
        block_preview(Ok((None, v))) == Ok::<(Option<Seq<u8>>, Seq<Seq<char>>), Seq<char>>(
            (None, texts(v@)),
        ),
        block_preview(Err(e)) == Err::<(Option<Seq<u8>>, Seq<Seq<char>>), Seq<char>>(e@),
{
}

} // verus!
