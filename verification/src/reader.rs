//! Talking to the reader: which frame goes out, which reports answer it, when
//! to ask again.
//!
//! Nothing here touches the device. `Reader` numbers the frames, `Exchange`
//! sorts the reports of one command, `Ask` decides whether a command goes out
//! once more. Whoever holds the device does what they say and reports back.

use crate::command::{beeps, buzzer_payload};
use crate::frame::{
    chunks, decode, decode_reply, decoded, decoded_all, encode, outgoing, reply_result, Reply,
    ReplyModel, MAX_PAYLOAD,
};
use crate::text::dec_text;
use vstd::prelude::*;

verus! {

/// The vendor's own gap between commands, in nanoseconds. Shorter and the
/// reader starts ignoring commands after the first successful one.
pub const PACE: u64 = 40_000_000;

/// How often a command that always answers is sent.
pub const TRIES: u32 = 4;

/// Milliseconds to wait for a further report once one has come.
pub const DRAIN: i32 = 20;

/// How long to hold still before the next command, given the time since the
/// last one.
pub fn pace_left(elapsed: u64) -> (r: Option<u64>)
    ensures
        r == if elapsed <= PACE {
            Some((PACE - elapsed) as u64)
        } else {
            None
        },
        r matches Some(wait) ==> elapsed + wait == 40_000_000,
        r is None ==> elapsed > 40_000_000,
{
    if elapsed <= PACE {
        Some(PACE - elapsed)
    } else {
        None
    }
}

// ---- one exchange ----

/// What the host remembers between commands.
pub struct Reader {
    /// The number of the last frame sent.
    pub seq: u16,
    /// Set when a command went unanswered. The next reply is then a `00` the
    /// reader owes the abandoned one, not an answer to what was asked.
    pub owed: bool,
    /// Milliseconds to wait for a reply.
    pub timeout: i32,
}

/// One command under way: its frame, the number its answer carries, and the
/// reports heard so far.
pub struct Exchange {
    pub frame: [u8; 65],
    pub want: u16,
    pub reports: Vec<Vec<u8>>,
}

/// The number after this one, sixteen bits wide.
pub open spec fn seq_plus(seq: u16, n: int) -> u16 {
    ((seq + n) % 0x1_0000) as u16
}

/// A reply to some other command.
pub open spec fn stale(report: Seq<u8>, want: u16) -> bool {
    decoded(report) is Ok && decoded(report)->Ok_0.seq != want
}

/// The reports heard once one more has come in. Ahead of the first that counts,
/// replies to other commands are passed over: the previous command's reply can
/// still be on its way.
pub open spec fn heard(reports: Seq<Seq<u8>>, want: u16, report: Seq<u8>) -> Seq<Seq<u8>> {
    if reports.len() == 0 && stale(report, want) {
        reports
    } else {
        reports.push(report)
    }
}

impl Reader {
    /// Frames are even-numbered, since the device replies with the number after.
    pub open spec fn wf(self) -> bool {
        self.seq % 2 == 0
    }

    /// `salt` makes the numbers distinct per run, so a reply is identifiable as
    /// this run's.
    pub fn new(salt: u32, timeout: i32) -> (r: Reader)
        ensures
            r.wf(),
            r.seq == salt as int % 0x1_0000 - salt as int % 2,
            r.seq as int / 2 == salt as int % 0x1_0000 / 2,
            !r.owed,
            r.timeout == timeout,
    {
        let low: u32 = salt % 0x1_0000;
        Reader { seq: (low - low % 2) as u16, owed: false, timeout }
    }

    /// Number and frame the next command.
    pub fn begin(&mut self, payload: &[u8]) -> (r: Result<Exchange, String>)
        requires
            old(self).wf(),
        ensures
            final(self).wf(),
            final(self).seq == seq_plus(old(self).seq, 2),
            final(self).owed == old(self).owed,
            final(self).timeout == old(self).timeout,
            match r {
                Ok(x) => {
                    &&& payload@.len() <= MAX_PAYLOAD
                    &&& x.frame@ == outgoing(payload@, final(self).seq)
                    &&& x.want == seq_plus(final(self).seq, 1)
                    &&& x.want == (x.frame@[3] + 256 * x.frame@[4] + 1) % 0x1_0000
                    &&& x.reports@.len() == 0
                },
                Err(e) => payload@.len() > MAX_PAYLOAD && e@ == "payload "@ + dec_text(
                    payload@.len(),
                ) + " exceeds 58"@,
            },
    {
        self.seq = self.seq.wrapping_add(2);
        match encode(payload, self.seq) {
            Err(e) => Err(e),
            Ok(frame) => Ok(
                Exchange { frame, want: self.seq.wrapping_add(1), reports: Vec::new() },
            ),
        }
    }

    /// How long to wait for the next report.
    pub fn patience(&self, x: &Exchange) -> (r: i32)
        ensures
            r == if x.reports@.len() == 0 {
                self.timeout
            } else {
                DRAIN
            },
    {
        if x.reports.len() == 0 {
            self.timeout
        } else {
            DRAIN
        }
    }

    /// Silence ends an exchange. With nothing heard, the reader owes an answer.
    pub fn finish(&mut self, x: Exchange) -> (r: Vec<Vec<u8>>)
        ensures
            final(self).seq == old(self).seq,
            final(self).timeout == old(self).timeout,
            final(self).owed == (x.reports@.len() == 0),
            r@ == x.reports@,
    {
        self.owed = x.reports.len() == 0;
        x.reports
    }
}

impl Exchange {
    /// Take in a report that came.
    pub fn hear(&mut self, report: &[u8])
        ensures
            final(self).frame == old(self).frame,
            final(self).want == old(self).want,
            chunks(final(self).reports@) == heard(
                chunks(old(self).reports@),
                old(self).want,
                report@,
            ),
            old(self).reports@.len() == 0 && decoded(report@) is Ok ==> (
                final(self).reports@.len() == 1 <==> decoded(report@)->Ok_0.seq == old(self).want),
    {
        if self.reports.len() == 0 {
            match decode(report) {
                Ok(d) => {
                    if d.seq != self.want {
                        return;
                    }
                },
                Err(_) => {},
            }
        }
        let copy = vstd::slice::slice_to_vec(report);
        self.reports.push(copy);
        assert(chunks(self.reports@) =~= chunks(old(self).reports@).push(report@));
    }
}

/// The reports that count, out of all that came before the silence.
pub open spec fn collected(came: Seq<Seq<u8>>, want: u16) -> Seq<Seq<u8>>
    decreases came.len(),
{
    if came.len() == 0 {
        Seq::empty()
    } else {
        heard(collected(came.drop_last(), want), want, came.last())
    }
}

/// A reply left over from another command never answers this one.
pub proof fn stale_replies_do_not_answer(came: Seq<Seq<u8>>, want: u16)
    ensures
        collected(came, want).len() > 0 ==> !stale(collected(came, want)[0], want),
    decreases came.len(),
{
    if came.len() > 0 {
        stale_replies_do_not_answer(came.drop_last(), want);
    }
}

/// Of a run of reports only a leading run of stale ones is lost.
pub proof fn only_leading_stale_replies_are_lost(came: Seq<Seq<u8>>, want: u16)
    ensures
        exists|k: int|
            0 <= k <= came.len() && collected(came, want) == #[trigger] came.skip(k) && (forall|
                i: int,
            |
                0 <= i < k ==> stale(#[trigger] came[i], want)),
    decreases came.len(),
{
    if came.len() == 0 {
        assert(collected(came, want) =~= came.skip(0));
    } else {
        let p = came.drop_last();
        only_leading_stale_replies_are_lost(p, want);
        let k = choose|k: int|
            0 <= k <= p.len() && collected(p, want) == #[trigger] p.skip(k) && (forall|i: int|
                0 <= i < k ==> stale(#[trigger] p[i], want));
        assert forall|i: int| 0 <= i < k implies stale(#[trigger] came[i], want) by {
            assert(came[i] == p[i]);
        }
        if collected(p, want).len() == 0 && stale(came.last(), want) {
            assert(k == p.len());
            assert(collected(came, want) =~= came.skip(k + 1));
        } else {
            assert(collected(came, want) =~= came.skip(k));
        }
    }
}

/// The number that an answer carries is never the number of a frame that was
/// sent, and two frames in a row carry different numbers.
pub proof fn numbers_do_not_collide(seq: u16)
    requires
        seq % 2 == 0,
    ensures
        seq_plus(seq, 2) % 2 == 0,
        seq_plus(seq, 1) % 2 == 1,
        seq_plus(seq, 2) != seq,
{
}

// ---- asking ----

/// A command on its way to an answer.
pub struct Ask {
    pub payload: Vec<u8>,
    /// Sends left, the present one counted.
    pub left: u32,
    /// The present send has already been repeated for a reply that was owed.
    pub again: bool,
}

/// What an exchange that came to an end tells: the decoded reply, or why there
/// is none.
pub open spec fn outcome(r: Result<Vec<Vec<u8>>, String>) -> Result<ReplyModel, Seq<char>> {
    match r {
        Err(e) => Err(e@),
        Ok(reports) => decoded_all(chunks(reports@)),
    }
}

/// The `00` that the reader owes an abandoned command.
pub open spec fn owed_answer(r: Result<ReplyModel, Seq<char>>) -> bool {
    r is Ok && r->Ok_0.payload == seq![0u8]
}

/// Where an ask stands.
pub struct AskModel {
    pub left: int,
    pub again: bool,
}

/// The state after one exchange and, if that settles the matter, the answer.
/// `owed` is whether the reader owed an answer when the exchange began.
pub open spec fn ask_step(m: AskModel, owed: bool, r: Result<ReplyModel, Seq<char>>) -> (
    AskModel,
    Option<Result<ReplyModel, Seq<char>>>,
) {
    if owed && !m.again && owed_answer(r) {
        (AskModel { again: true, ..m }, None)
    } else if r is Ok || m.left <= 1 {
        (AskModel { again: false, left: m.left - 1 }, Some(r))
    } else {
        (AskModel { again: false, left: m.left - 1 }, None)
    }
}

impl View for Ask {
    type V = AskModel;

    open spec fn view(&self) -> AskModel {
        AskModel { left: self.left as int, again: self.again }
    }
}

/// An answer seen through its view.
pub open spec fn answer_view(r: Option<Result<Reply, String>>) -> Option<
    Result<ReplyModel, Seq<char>>,
> {
    match r {
        None => None,
        Some(r) => Some(reply_result(r)),
    }
}

fn is_zero(p: &Vec<u8>) -> (r: bool)
    ensures
        r == (p@ == seq![0u8]),
{
    let r = p.len() == 1 && p[0] == 0;
    assert(r ==> p@ =~= seq![0u8]);
    r
}

impl Ask {
    /// A command to be sent at most `tries` times. One for those where silence
    /// is the expected answer; `TRIES` for those that always answer, where
    /// silence means the reader dropped it.
    pub fn new(payload: &[u8], tries: u32) -> (r: Ask)
        requires
            tries > 0,
        ensures
            r.payload@ == payload@,
            r@ == (AskModel { left: tries as int, again: false }),
    {
        let copy = vstd::slice::slice_to_vec(payload);
        Ask { payload: copy, left: tries, again: false }
    }

    /// Take in how an exchange ended. `None` asks for another one.
    pub fn step(&mut self, owed: bool, r: Result<Vec<Vec<u8>>, String>) -> (a: Option<
        Result<Reply, String>,
    >)
        requires
            old(self).left > 0,
        ensures
            final(self).payload == old(self).payload,
            (final(self)@, answer_view(a)) == ask_step(old(self)@, owed, outcome(r)),
            a is None ==> final(self).left > 0,
    {
        let got: Result<Reply, String> = match r {
            Err(e) => Err(e),
            Ok(reports) => decode_reply(reports.as_slice()),
        };
        match got {
            Ok(d) => {
                if owed && !self.again && is_zero(&d.payload) {
                    self.again = true;
                    return None;
                }
                self.again = false;
                self.left = self.left - 1;
                Some(Ok(d))
            },
            Err(e) => {
                self.again = false;
                self.left = self.left - 1;
                if self.left == 0 {
                    Some(Err(e))
                } else {
                    None
                }
            },
        }
    }
}

/// A command to be put to the reader.
pub struct Query {
    pub payload: Vec<u8>,
    /// Silence means that the reader dropped it, so ask again.
    pub retry: bool,
}

/// What a query asks.
pub struct QueryModel {
    pub payload: Seq<u8>,
    pub retry: bool,
}

impl View for Query {
    type V = QueryModel;

    open spec fn view(&self) -> QueryModel {
        QueryModel { payload: self.payload@, retry: self.retry }
    }
}

/// A command that is sent once.
pub open spec fn once(payload: Seq<u8>) -> QueryModel {
    QueryModel { payload, retry: false }
}

/// A command that always answers.
pub open spec fn surely(payload: Seq<u8>) -> QueryModel {
    QueryModel { payload, retry: true }
}

impl Query {
    pub fn once(payload: Vec<u8>) -> (r: Query)
        ensures
            r@ == once(payload@),
    {
        Query { payload, retry: false }
    }

    pub fn surely(payload: Vec<u8>) -> (r: Query)
        ensures
            r@ == surely(payload@),
    {
        Query { payload, retry: true }
    }

    /// The ask that this query comes to.
    pub fn ask(&self) -> (r: Ask)
        ensures
            r.payload@ == self.payload@,
            r@ == (AskModel {
                left: if self.retry {
                    TRIES as int
                } else {
                    1
                },
                again: false,
            }),
    {
        Ask::new(
            self.payload.as_slice(),
            if self.retry {
                TRIES
            } else {
                1
            },
        )
    }
}

impl Reader {
    /// Sounds the buzzer.
    pub fn beep(dur: u8, reps: u8) -> (r: Query)
        ensures
            r@ == surely(buzzer_payload(dur, reps)),
    {
        Query::surely(beeps(dur, reps))
    }
}

/// Where an ask stands after a run of exchanges, each with what the reader
/// owed at its start and how it ended.
pub open spec fn ask_run(m: AskModel, ends: Seq<(bool, Result<ReplyModel, Seq<char>>)>) -> (
    AskModel,
    Option<Result<ReplyModel, Seq<char>>>,
)
    decreases ends.len(),
{
    if ends.len() == 0 {
        (m, None)
    } else {
        let (p, a) = ask_run(m, ends.drop_last());
        if a is Some {
            (p, a)
        } else {
            ask_step(p, ends.last().0, ends.last().1)
        }
    }
}

proof fn lemma_ask_cost(m: AskModel, ends: Seq<(bool, Result<ReplyModel, Seq<char>>)>)
    requires
        m.left > 0,
    ensures
        ({
            let (p, a) = ask_run(m, ends);
            &&& p.left >= 0
            &&& a is None ==> {
                &&& p.left > 0
                &&& ends.len() <= 2 * (m.left - p.left) + (if p.again { 1int } else { 0 }) - (if m.again { 1int } else { 0 })
            }
        }),
    decreases ends.len(),
{
    if ends.len() > 0 {
        lemma_ask_cost(m, ends.drop_last());
    }
}

/// An ask is settled after at most two exchanges for each send it may make.
pub proof fn asking_ends(tries: int, ends: Seq<(bool, Result<ReplyModel, Seq<char>>)>)
    requires
        tries > 0,
        ends.len() >= 2 * tries,
    ensures
        ask_run(AskModel { left: tries, again: false }, ends).1 is Some,
{
    lemma_ask_cost(AskModel { left: tries, again: false }, ends);
}

/// A `00` that arrives while the reader owes an answer is spent, and the
/// command goes out once more; the second reply counts whatever it is.
pub proof fn an_owed_answer_is_spent_once(
    left: int,
    first: Result<ReplyModel, Seq<char>>,
    second: ReplyModel,
    owed: bool,
)
    requires
        left > 0,
        owed_answer(first),
    ensures
        ask_step(AskModel { left, again: false }, true, first) == (
            AskModel { left, again: true },
            None::<Result<ReplyModel, Seq<char>>>,
        ),
        ask_step(AskModel { left, again: true }, owed, Ok(second)).1 == Some(
            Ok::<ReplyModel, Seq<char>>(second),
        ),
{
}

// ---- laws of numbering ----

/// Numbers count up by one and start over after the largest of sixteen bits.
pub proof fn numbers_count_up(seq: u16, n: int)
    requires
        0 <= n < 0x1_0000,
    ensures
        seq + n < 0x1_0000 ==> seq_plus(seq, n) == seq + n,
        seq + n >= 0x1_0000 ==> seq_plus(seq, n) == seq + n - 0x1_0000,
{
}

/// While nothing has been kept, a report that decodes is kept exactly if it
/// carries the number waited for, be that number higher or lower than the one
/// it carries. Once one has been kept, every report is, in the order it came.
pub proof fn a_report_is_kept_by_its_number(
    reports: Seq<Seq<u8>>,
    want: u16,
    report: Seq<u8>,
    d: ReplyModel,
)
    requires
        decoded(report) == Ok::<ReplyModel, Seq<char>>(d),
    ensures
        d.seq == want ==> heard(Seq::empty(), want, report) == seq![report],
        d.seq < want || d.seq > want ==> heard(Seq::empty(), want, report) == Seq::<
            Seq<u8>,
        >::empty(),
        reports.len() > 0 ==> heard(reports, want, report) == reports + seq![report],
{
    assert(Seq::<Seq<u8>>::empty().push(report) =~= seq![report]);
    assert(reports.push(report) =~= reports + seq![report]);
}

/// A report that does not decode, such as the first part of a long reply, is
/// kept wherever it comes.
pub proof fn a_report_without_a_number_is_kept(
    reports: Seq<Seq<u8>>,
    want: u16,
    report: Seq<u8>,
)
    requires
        decoded(report) is Err,
    ensures
        heard(reports, want, report) == reports + seq![report],
{
    assert(reports.push(report) =~= reports + seq![report]);
}

/// However many reports come and in whatever order, the first that is kept, if
/// it decodes at all, carries the number waited for.
pub proof fn the_first_report_kept_has_the_number(came: Seq<Seq<u8>>, want: u16)
    ensures
        collected(came, want).len() > 0 ==> match decoded(collected(came, want)[0]) {
            Ok(d) => d.seq == want,
            Err(_) => true,
        },
    decreases came.len(),
{
    if came.len() > 0 {
        the_first_report_kept_has_the_number(came.drop_last(), want);
    }
}

/// A reply that carries the number after its command's is the answer, however
/// many replies to other commands come ahead of it.
pub proof fn the_right_reply_gets_through(
    late: Seq<Seq<u8>>,
    payload: Seq<u8>,
    seq: u16,
    rest: Seq<u8>,
)
    requires
        0 < payload.len() <= 249,
        forall|i: int|
            0 <= i < late.len() ==> match decoded(#[trigger] late[i]) {
                Ok(d) => d.seq != seq_plus(seq, 1),
                Err(_) => false,
            },
    ensures
        ({
            let want = seq_plus(seq, 1);
            let report = crate::frame::incoming(payload, want) + rest;
            &&& collected(late.push(report), want) == seq![report]
            &&& decoded_all(collected(late.push(report), want)) == Ok::<ReplyModel, Seq<char>>(
                ReplyModel { payload, seq: want, checksum_ok: true, trailer_ok: true },
            )
        }),
{
    let want = seq_plus(seq, 1);
    let report = crate::frame::incoming(payload, want) + rest;
    lemma_late_replies_are_lost(late, want);
    crate::frame::incoming_decodes(payload, want, rest);
    assert(late.push(report).drop_last() =~= late);
    assert(Seq::<Seq<u8>>::empty().push(report) =~= seq![report]);
}

proof fn lemma_late_replies_are_lost(late: Seq<Seq<u8>>, want: u16)
    requires
        forall|i: int|
            0 <= i < late.len() ==> match decoded(#[trigger] late[i]) {
                Ok(d) => d.seq != want,
                Err(_) => false,
            },
    ensures
        collected(late, want) == Seq::<Seq<u8>>::empty(),
    decreases late.len(),
{
    if late.len() > 0 {
        let p = late.drop_last();
        assert forall|i: int| 0 <= i < p.len() implies match decoded(#[trigger] p[i]) {
            Ok(d) => d.seq != want,
            Err(_) => false,
        } by {
            assert(p[i] == late[i]);
        }
        lemma_late_replies_are_lost(p, want);
        assert(decoded(late[late.len() - 1]) is Ok);
    }
}

// ---- laws of asking ----

/// A reply settles an ask at once, and is its answer, unless it is the one byte
/// nought, the reader owes an answer and none has been spent on this send yet.
pub proof fn a_reply_settles_an_ask(m: AskModel, owed: bool, d: ReplyModel)
    ensures
        ({
            let (n, a) = ask_step(m, owed, Ok(d));
            let spent = owed && !m.again && d.payload.len() == 1 && d.payload[0] == 0;
            &&& !spent ==> a == Some(Ok::<ReplyModel, Seq<char>>(d))
            &&& spent ==> a is None && n.again && n.left == m.left
        }),
{
    if d.payload.len() == 1 && d.payload[0] == 0 {
        assert(d.payload =~= seq![0u8]);
    }
}

/// A command that brings nothing is sent again until it has been sent as often
/// as it may be; then the last complaint is the answer.
pub proof fn silence_is_asked_again(
    tries: int,
    ends: Seq<(bool, Result<ReplyModel, Seq<char>>)>,
    k: int,
)
    requires
        0 <= k <= ends.len() == tries,
        tries > 0,
        forall|i: int| 0 <= i < ends.len() ==> (#[trigger] ends[i]).1 is Err,
    ensures
        k < tries ==> ask_run(AskModel { left: tries, again: false }, ends.take(k)) == (
            AskModel { left: tries - k, again: false },
            None::<Result<ReplyModel, Seq<char>>>,
        ),
        k == tries ==> ask_run(AskModel { left: tries, again: false }, ends.take(k)).1 == Some(
            ends[tries - 1].1,
        ),
    decreases k,
{
    if k > 0 {
        silence_is_asked_again(tries, ends, k - 1);
        assert(ends.take(k).drop_last() =~= ends.take(k - 1));
        assert(ends[k - 1].1 is Err);
    }
}

/// A reply that comes after some silences is the answer, as long as sends are
/// left.
pub proof fn a_late_success_counts(
    tries: int,
    ends: Seq<(bool, Result<ReplyModel, Seq<char>>)>,
    d: ReplyModel,
)
    requires
        0 <= ends.len() < tries,
        forall|i: int| 0 <= i < ends.len() ==> (#[trigger] ends[i]).1 is Err,
    ensures
        ask_run(AskModel { left: tries, again: false }, ends.push((false, Ok(d)))).1 == Some(
            Ok::<ReplyModel, Seq<char>>(d),
        ),
{
    let fault: (bool, Result<ReplyModel, Seq<char>>) = (false, Err(Seq::empty()));
    let filled = ends + Seq::new((tries - ends.len()) as nat, |i: int| fault);
    assert forall|i: int| 0 <= i < filled.len() implies (#[trigger] filled[i]).1 is Err by {
        if i < ends.len() {
            assert(filled[i] == ends[i]);
        }
    }
    silence_is_asked_again(tries, filled, ends.len() as int);
    assert(filled.take(ends.len() as int) =~= ends);
    assert(ends.push((false, Ok(d))).drop_last() =~= ends);
}

/// A query asks for its payload as it is: once where silence is an answer, four
/// times where silence means that the reader dropped it.
pub proof fn queries_keep_their_payload(p: Seq<u8>)
    ensures
        once(p).payload == p,
        !once(p).retry,
        surely(p).payload == p,
        surely(p).retry,
        TRIES == 4,
{
}

/// The views keep what they view, and how an exchange ended is what its reports
/// decode to, or the complaint.
pub proof fn views_keep_queries(
    q: Query,
    k: Ask,
    reports: Vec<Vec<u8>>,
    e: String,
    r: Result<Reply, String>,
)
    ensures
        q@.payload == q.payload@,
        q@.retry == q.retry,
        k@.left == k.left,
        k@.again == k.again,
        outcome(Ok(reports)) == decoded_all(chunks(reports@)),
        outcome(Err(e)) == Err::<ReplyModel, Seq<char>>(e@),
        answer_view(None) is None,
        answer_view(Some(r)) == Some(reply_result(r)),
{
}

/// The times that talking to the reader goes by: forty milliseconds between
/// commands, twenty for a further report.
pub proof fn talking_goes_by_these_times()
    ensures
        PACE == 40 * 1_000_000,
        DRAIN == 20,
{
}

} // verus!
