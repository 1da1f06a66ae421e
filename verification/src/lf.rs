//! The 125 kHz procedures: sweeping for an ID, burning blocks, sampling.
//!
//! Each procedure says what to ask next and takes the answer.

use crate::command::{
    id_view, lf_id, lf_id_of, lf_read, lf_read_payload, lf_sample, lf_sample_payload,
    lf_read_block, lf_read_block_payload, lf_write_block, lf_write_block_payload, LF_CARRIER, LF_PROFILES,
};
use crate::em4100::plan_view;
use crate::frame::{reply_result, Reply, ReplyModel};
use crate::hexes::{hex, hex_text, vec_result};
use crate::reader::{once, surely, Query, QueryModel, Reader};
use vstd::prelude::*;

verus! {

/// An answer, or why there is none.
pub type Answer = Result<Reply, String>;

/// An answer seen through its view.
pub type AnswerModel = Result<ReplyModel, Seq<char>>;

/// An ID, and the carrier and `lc` of the profile that it answered.
pub type Found = ([u8; 5], u32, u8);

/// A find seen through its view.
pub type FoundModel = (Seq<u8>, u32, u8);

pub open spec fn found_view(f: Option<Found>) -> Option<FoundModel> {
    match f {
        Some((id, freq, lc)) => Some((id@, freq, lc)),
        None => None,
    }
}

/// The ID that an answer holds.
pub open spec fn answered_id(a: AnswerModel) -> Option<Seq<u8>> {
    match a {
        Ok(r) => lf_id_of(r.payload),
        Err(_) => None,
    }
}

/// A query seen through its view.
pub open spec fn query_view(q: Option<Query>) -> Option<QueryModel> {
    match q {
        Some(q) => Some(q@),
        None => None,
    }
}

// ---- sweeping ----

/// How many profiles a sweep goes through.
pub const PROFILES: u64 = 10;

/// Sweeps of every demodulator profile, one after another.
#[derive(Clone, Copy)]
pub struct Sweep {
    /// Profiles asked so far, over all the sweeps.
    pub pos: u64,
    /// Profiles to ask in all.
    pub total: u64,
}

/// The command that a sweep sends at a position.
pub open spec fn sweep_query(pos: int) -> QueryModel {
    let p = LF_PROFILES@[pos % 10];
    once(lf_read_payload(p.0, p.1, p.2, p.3))
}

/// What an answer at a position finds.
pub open spec fn sweep_hit(pos: int, a: AnswerModel) -> Option<FoundModel> {
    match answered_id(a) {
        Some(id) => Some((id, LF_PROFILES@[pos % 10].0, LF_PROFILES@[pos % 10].1)),
        None => None,
    }
}

impl Sweep {
    pub open spec fn wf(self) -> bool {
        self.pos <= self.total
    }

    /// A reader that just answered often drops the next few commands, so the
    /// whole sweep is worth repeating.
    pub fn new(tries: u32) -> (r: Sweep)
        ensures
            r.wf(),
            r == (Sweep { pos: 0, total: (tries * PROFILES) as u64 }),
    {
        Sweep { pos: 0, total: tries as u64 * PROFILES }
    }

    /// The next command, or nothing once every profile has been asked.
    pub fn query(&self) -> (r: Option<Query>)
        requires
            self.wf(),
        ensures
            query_view(r) == if self.pos < self.total {
                Some(sweep_query(self.pos as int))
            } else {
                None
            },
    {
        if self.pos < self.total {
            let (freq, lc, w1, w2) = LF_PROFILES[(self.pos % PROFILES) as usize];
            Some(Query::once(lf_read(freq, lc, w1, w2)))
        } else {
            None
        }
    }

    /// Take the answer. An ID ends the sweep; anything else moves it on.
    pub fn answer(&mut self, a: &Answer) -> (r: Option<Found>)
        requires
            old(self).wf(),
            old(self).pos < old(self).total,
        ensures
            final(self).wf(),
            final(self).pos == old(self).pos + 1,
            final(self).total == old(self).total,
            found_view(r) == sweep_hit(old(self).pos as int, reply_result(*a)),
    {
        let (freq, lc, _w1, _w2) = LF_PROFILES[(self.pos % PROFILES) as usize];
        self.pos = self.pos + 1;
        match a {
            Ok(r) => match lf_id(r.payload.as_slice()) {
                Some(id) => Some((id, freq, lc)),
                None => None,
            },
            Err(_) => None,
        }
    }
}

/// What a sweep finds, given the answers it would get from a position on.
pub open spec fn swept(pos: int, answers: Seq<AnswerModel>) -> Option<FoundModel>
    decreases answers.len(),
{
    if answers.len() == 0 {
        None
    } else if sweep_hit(pos, answers[0]) is Some {
        sweep_hit(pos, answers[0])
    } else {
        swept(pos + 1, answers.skip(1))
    }
}

/// The first answer that holds an ID is what a sweep finds, with the profile
/// that was asked.
pub proof fn the_first_id_counts(pos: int, answers: Seq<AnswerModel>, k: int)
    requires
        0 <= k < answers.len(),
        answered_id(answers[k]) is Some,
        forall|i: int| 0 <= i < k ==> answered_id(#[trigger] answers[i]) is None,
    ensures
        swept(pos, answers) == sweep_hit(pos + k, answers[k]),
    decreases k,
{
    if k > 0 {
        let rest = answers.skip(1);
        assert(answered_id(answers[0]) is None);
        assert(rest[k - 1] == answers[k]);
        assert forall|i: int| 0 <= i < k - 1 implies answered_id(#[trigger] rest[i]) is None by {
            assert(rest[i] == answers[i + 1]);
        }
        the_first_id_counts(pos + 1, rest, k - 1);
    }
}

/// Without an ID in any answer a sweep finds nothing.
pub proof fn no_id_is_no_find(pos: int, answers: Seq<AnswerModel>)
    requires
        forall|i: int| 0 <= i < answers.len() ==> answered_id(#[trigger] answers[i]) is None,
    ensures
        swept(pos, answers) is None,
    decreases answers.len(),
{
    if answers.len() > 0 {
        let rest = answers.skip(1);
        assert(answered_id(answers[0]) is None);
        assert forall|i: int| 0 <= i < rest.len() implies answered_id(
            #[trigger] rest[i],
        ) is None by {
            assert(rest[i] == answers[i + 1]);
        }
        no_id_is_no_find(pos + 1, rest);
    }
}

/// One sweep that notes every profile that answers, not just the first. They
/// are not tag-exclusive, so more than one usually does.
pub struct Profiles {
    pub at: usize,
    /// Carrier, `lc` and ID of each that answered.
    pub found: Vec<(u32, u8, [u8; 5])>,
}

pub open spec fn profiles_view(v: Seq<(u32, u8, [u8; 5])>) -> Seq<(u32, u8, Seq<u8>)> {
    v.map_values(|e: (u32, u8, [u8; 5])| (e.0, e.1, e.2@))
}

/// The profiles that answered, out of the answers so far.
pub open spec fn profiles_of(answers: Seq<AnswerModel>) -> Seq<(u32, u8, Seq<u8>)>
    decreases answers.len(),
{
    if answers.len() == 0 {
        Seq::empty()
    } else {
        let before = profiles_of(answers.drop_last());
        match sweep_hit(answers.len() - 1, answers.last()) {
            Some((id, freq, lc)) => before.push((freq, lc, id)),
            None => before,
        }
    }
}

impl Profiles {
    pub fn new() -> (r: Profiles)
        ensures
            r.at == 0,
            profiles_view(r.found@) == profiles_of(Seq::empty()),
    {
        let r = Profiles { at: 0, found: Vec::new() };
        assert(profiles_view(r.found@) =~= Seq::empty());
        r
    }

    /// The next command, or nothing once every profile has been asked.
    pub fn query(&self) -> (r: Option<Query>)
        ensures
            query_view(r) == if self.at < PROFILES {
                Some(sweep_query(self.at as int))
            } else {
                None
            },
    {
        if self.at < 10 {
            let (freq, lc, w1, w2) = LF_PROFILES[self.at];
            Some(Query::once(lf_read(freq, lc, w1, w2)))
        } else {
            None
        }
    }

    /// Take the answer to the profile at hand.
    pub fn answer(&mut self, a: &Answer)
        requires
            old(self).at < PROFILES,
        ensures
            final(self).at == old(self).at + 1,
            profiles_view(final(self).found@) == match sweep_hit(
                old(self).at as int,
                reply_result(*a),
            ) {
                Some((id, freq, lc)) => profiles_view(old(self).found@).push((freq, lc, id)),
                None => profiles_view(old(self).found@),
            },
            forall|answers: Seq<AnswerModel>|
                answers.len() == old(self).at && profiles_view(old(self).found@) == profiles_of(
                    answers,
                ) ==> profiles_view(final(self).found@) == #[trigger] profiles_of(
                    answers.push(reply_result(*a)),
                ),
    {
        let (freq, lc, _w1, _w2) = LF_PROFILES[self.at];
        let id = match a {
            Ok(r) => lf_id(r.payload.as_slice()),
            Err(_) => None,
        };
        let ghost at = self.at;
        self.at = self.at + 1;
        match id {
            Some(id) => {
                self.found.push((freq, lc, id));
                assert(profiles_view(self.found@) =~= profiles_view(old(self).found@).push(
                    (freq, lc, id@),
                ));
            },
            None => {},
        }
        assert forall|answers: Seq<AnswerModel>|
            answers.len() == at && profiles_view(old(self).found@) == profiles_of(
                answers,
            ) implies profiles_view(self.found@) == #[trigger] profiles_of(
            answers.push(reply_result(*a)),
        ) by {
            assert(answers.push(reply_result(*a)).drop_last() =~= answers);
        }
    }
}

// ---- polling ----

/// The 125 kHz profile only. For polling: the full sweep waits out a timeout
/// per profile.
#[derive(Clone, Copy)]
pub struct Quick {
    /// Times left to ask.
    pub left: u32,
}

/// Where a quick read stands after an answer: done, with or without an ID, or
/// to be asked again. An empty reply is an answer; only silence is not.
pub open spec fn quick_step(left: int, a: AnswerModel) -> Option<Option<Seq<u8>>> {
    if a is Ok {
        Some(answered_id(a))
    } else if left <= 1 {
        Some(None)
    } else {
        None
    }
}

pub open spec fn quick_view(r: Option<Option<[u8; 5]>>) -> Option<Option<Seq<u8>>> {
    match r {
        Some(id) => Some(id_view(id)),
        None => None,
    }
}

impl Quick {
    pub fn query() -> (r: Query)
        ensures
            r@ == sweep_query(0),
    {
        let (freq, lc, w1, w2) = LF_PROFILES[0];
        Query::once(lf_read(freq, lc, w1, w2))
    }

    pub fn answer(&mut self, a: &Answer) -> (r: Option<Option<[u8; 5]>>)
        requires
            old(self).left > 0,
        ensures
            final(self).left == old(self).left - 1,
            quick_view(r) == quick_step(old(self).left as int, reply_result(*a)),
            r is None ==> final(self).left > 0,
    {
        self.left = self.left - 1;
        match a {
            Ok(r) => Some(lf_id(r.payload.as_slice())),
            Err(_) => {
                if self.left == 0 {
                    Some(None)
                } else {
                    None
                }
            },
        }
    }
}

// ---- writing ----

/// The command that writes one block.
pub open spec fn burn_query(blk: u8, data: Seq<u8>) -> QueryModel {
    surely(lf_write_block_payload(LF_CARRIER, blk, data))
}

/// The command that asks after one block.
pub open spec fn block_query(blk: u8) -> QueryModel {
    surely(lf_read_block_payload(LF_CARRIER, blk))
}

impl Reader {
    pub fn lf_write_block(blk: u8, data: [u8; 4]) -> (r: Query)
        ensures
            r@ == burn_query(blk, data@),
    {
        Query::surely(lf_write_block(LF_CARRIER, blk, data))
    }

    pub fn lf_read_block(blk: u8) -> (r: Query)
        ensures
            r@ == block_query(blk),
    {
        Query::surely(lf_read_block(LF_CARRIER, blk))
    }
}

/// The payload of an answer, or why there is none.
pub open spec fn payload_of(a: AnswerModel) -> Result<Seq<u8>, Seq<char>> {
    match a {
        Ok(r) => Ok(r.payload),
        Err(e) => Err(e),
    }
}

pub fn payload(a: Answer) -> (r: Result<Vec<u8>, String>)
    ensures
        vec_result(r) == payload_of(reply_result(a)),
{
    match a {
        Ok(r) => Ok(r.payload),
        Err(e) => Err(e),
    }
}

/// The blocks that a wipe writes, in order, each with four zero bytes.
pub open spec fn wipe_plan_of() -> Seq<(u8, Seq<u8>)> {
    crate::command::WIPE_ORDER@.map_values(|b: u8| (b, seq![0u8, 0, 0, 0]))
}

/// Zeroes every block. Config word last, so an interrupted wipe leaves the tag
/// still emitting.
pub fn wipe_plan() -> (r: Vec<(u8, [u8; 4])>)
    ensures
        plan_view(r@) == wipe_plan_of(),
{
    let order: [u8; 8] = crate::command::WIPE_ORDER;
    let mut v: Vec<(u8, [u8; 4])> = Vec::new();
    let zero: [u8; 4] = [0, 0, 0, 0];
    assert(zero@ =~= seq![0u8, 0, 0, 0]);
    let mut i: usize = 0;
    while i < 8
        invariant
            i <= 8,
            zero@ == seq![0u8, 0, 0, 0],
            order == crate::command::WIPE_ORDER,
            plan_view(v@) == wipe_plan_of().take(i as int),
        decreases 8 - i,
    {
        let ghost before = v@;
        v.push((order[i], zero));
        assert(plan_view(v@) =~= plan_view(before).push((order@[i as int], zero@)));
        i += 1;
        assert(wipe_plan_of().take(i as int) =~= wipe_plan_of().take(i - 1).push(
            wipe_plan_of()[i - 1],
        ));
    }
    assert(wipe_plan_of().take(8) =~= wipe_plan_of());
    v
}

/// An interrupted wipe has not touched the config word: only the last command
/// of a wipe writes block 0.
pub proof fn an_interrupted_wipe_keeps_the_config_word(k: int)
    requires
        0 <= k < 7,
    ensures
        wipe_plan_of().len() == 8,
        wipe_plan_of()[k].0 != 0,
        wipe_plan_of()[7].0 == 0,
{
    crate::command::wipe_ends_with_the_config_word();
}

// ---- sampling ----

/// `41` arms the sampler, `46` fetches from it.
pub open spec fn arm_query() -> QueryModel {
    surely(lf_sample_payload(0x41, 0x05))
}

pub open spec fn fetch_query() -> QueryModel {
    surely(lf_sample_payload(0x46, 0x00))
}

pub fn arm_sampler() -> (r: Query)
    ensures
        r@ == arm_query(),
{
    Query::surely(lf_sample(0x41, 0x05))
}

pub fn fetch_samples() -> (r: Query)
    ensures
        r@ == fetch_query(),
{
    Query::surely(lf_sample(0x46, 0x00))
}

/// A length byte, then that many bytes, the same shape as the ID read.
pub open spec fn samples_of(p: Seq<u8>) -> Result<Seq<u8>, Seq<char>> {
    if p.len() > p[0] && p.len() > 0 {
        Ok(p.subrange(1, 1 + p[0]))
    } else {
        Err("sampler answered "@ + hex_text(p))
    }
}

pub fn lf_samples(p: &[u8]) -> (r: Result<Vec<u8>, String>)
    ensures
        vec_result(r) == samples_of(p@),
{
    if p.len() > 0 && p.len() > p[0] as usize {
        Ok(vstd::slice::slice_to_vec(vstd::slice::slice_subrange(p, 1, 1 + p[0] as usize)))
    } else {
        Err("sampler answered ".to_owned().concat(hex(p).as_str()))
    }
}

/// How many of the eight bits of a byte are ones.
pub open spec fn ones_in(b: int) -> int
    decreases b,
{
    if b <= 0 {
        0
    } else {
        b % 2 + ones_in(b / 2)
    }
}

/// How many bits of some bytes are ones.
pub open spec fn ones_of(bytes: Seq<u8>) -> int
    decreases bytes.len(),
{
    if bytes.len() == 0 {
        0
    } else {
        ones_of(bytes.drop_last()) + ones_in(bytes.last() as int)
    }
}

proof fn lemma_ones_bound(b: int, k: int, top: int)
    requires
        0 <= b < top,
        0 <= k,
        top == vstd::arithmetic::power2::pow2(k as nat),
    ensures
        0 <= ones_in(b) <= k,
    decreases k,
{
    vstd::arithmetic::power2::lemma2_to64();
    if k > 0 {
        vstd::arithmetic::power2::lemma_pow2_unfold(k as nat);
        if b > 0 {
            lemma_ones_bound(b / 2, k - 1, top / 2);
        }
    }
}

fn count_byte(b: u8) -> (r: u64)
    ensures
        r == ones_in(b as int),
        r <= 8,
{
    let mut n: u8 = b;
    let mut r: u64 = 0;
    proof {
        vstd::arithmetic::power2::lemma2_to64();
        lemma_ones_bound(b as int, 8, 256);
    }
    while n > 0
        invariant
            r + ones_in(n as int) == ones_in(b as int),
            0 <= ones_in(b as int) <= 8,
            ones_in(n as int) >= 0,
        decreases n,
    {
        proof {
            vstd::arithmetic::power2::lemma2_to64();
            lemma_ones_bound(n as int, 8, 256);
            lemma_ones_bound(n as int / 2, 8, 256);
        }
        r = r + (n % 2) as u64;
        n = n / 2;
    }
    r
}

/// Count the ones among up to 256 bytes, more than any answer holds.
pub fn ones(bytes: &[u8]) -> (r: u64)
    requires
        bytes@.len() <= 256,
    ensures
        r == ones_of(bytes@),
        r <= 8 * bytes@.len(),
{
    let n: usize = bytes.len();
    let mut i: usize = 0;
    let mut r: u64 = 0;
    assert(bytes@.take(0) =~= Seq::empty());
    while i < n
        invariant
            i <= n == bytes@.len() <= 256,
            r == ones_of(bytes@.take(i as int)),
            r <= 8 * i,
        decreases n - i,
    {
        r = r + count_byte(bytes[i]);
        i += 1;
        assert(bytes@.take(i as int).drop_last() =~= bytes@.take(i - 1));
    }
    assert(bytes@.take(n as int) =~= bytes@);
    r
}

// ---- laws ----

/// At every position a sweep sends one profile whole: `lc`, the carrier and
/// both thresholds of the entry at hand, low byte first. It is sent once.
pub proof fn a_sweep_sends_profiles_whole(pos: int)
    requires
        pos >= 0,
    ensures
        ({
            let p = sweep_query(pos).payload;
            let (freq, lc, w1, w2) = LF_PROFILES@[pos % 10];
            &&& p.len() == 13
            &&& p.take(4) == seq![0xffu8, 0x00, 0x65, 0x08]
            &&& p[4] == lc
            &&& p[5] + 0x100 * p[6] + 0x1_0000 * p[7] + 0x100_0000 * p[8] == freq
            &&& p[9] + 0x100 * p[10] == w1
            &&& p[11] + 0x100 * p[12] == w2
            &&& !sweep_query(pos).retry
        }),
{
    let (freq, lc, w1, w2) = LF_PROFILES@[pos % 10];
    crate::command::an_id_read_carries_its_profile(freq, lc, w1, w2);
}

/// Positions with different profiles send different commands.
pub proof fn different_profiles_are_asked_differently(a: int, b: int)
    requires
        0 <= a,
        0 <= b,
        LF_PROFILES@[a % 10] != LF_PROFILES@[b % 10],
    ensures
        sweep_query(a).payload != sweep_query(b).payload,
{
    a_sweep_sends_profiles_whole(a);
    a_sweep_sends_profiles_whole(b);
}

/// Ten positions in a row, from wherever, ask every profile of the table.
pub proof fn ten_positions_ask_every_profile(start: int, i: int)
    requires
        start >= 0,
        0 <= i < 10,
    ensures
        exists|pos: int|
            start <= pos < start + 10 && pos % 10 == i && (#[trigger] sweep_query(pos)).payload
                == lf_read_payload(
                LF_PROFILES@[i].0,
                LF_PROFILES@[i].1,
                LF_PROFILES@[i].2,
                LF_PROFILES@[i].3,
            ),
{
    let pos = start + (i - start % 10 + 10) % 10;
    assert(pos % 10 == i);
    assert(sweep_query(pos).payload == lf_read_payload(
        LF_PROFILES@[i].0,
        LF_PROFILES@[i].1,
        LF_PROFILES@[i].2,
        LF_PROFILES@[i].3,
    ));
}

/// An answer that holds an ID is a find of that ID, with the carrier and `lc`
/// of the profile that was asked. Silence and any other answer find nothing.
pub proof fn a_find_names_the_profile_asked(
    pos: int,
    r: ReplyModel,
    id: Seq<u8>,
    rest: Seq<u8>,
    e: Seq<char>,
)
    requires
        pos >= 0,
        id.len() == 5,
    ensures
        r.payload == seq![5u8] + id + rest ==> sweep_hit(pos, Ok(r)) == Some(
            (id, LF_PROFILES@[pos % 10].0, LF_PROFILES@[pos % 10].1),
        ),
        r.payload.len() < 6 || r.payload[0] != 5 ==> sweep_hit(pos, Ok(r)) is None,
        sweep_hit(pos, Err(e)) is None,
{
    crate::command::an_id_follows_its_length(id, rest, r.payload);
}

/// The profiles that answered are those whose answer holds an ID, each with its
/// carrier, its `lc` and that ID, and no others.
pub proof fn every_profile_that_answers_is_noted(answers: Seq<AnswerModel>, k: int, j: int)
    requires
        0 <= k < answers.len(),
    ensures
        answered_id(answers[k]) matches Some(id) ==> profiles_of(answers).contains(
            (LF_PROFILES@[k % 10].0, LF_PROFILES@[k % 10].1, id),
        ),
        profiles_of(answers).len() <= answers.len(),
        0 <= j < profiles_of(answers).len() ==> exists|i: int|
            0 <= i < answers.len() && answered_id(#[trigger] answers[i]) == Some(
                profiles_of(answers)[j].2,
            ) && profiles_of(answers)[j].0 == LF_PROFILES@[i % 10].0 && profiles_of(answers)[j].1
                == LF_PROFILES@[i % 10].1,
    decreases answers.len(),
{
    let p = answers.drop_last();
    let before = profiles_of(p);
    let all = profiles_of(answers);
    let last = answers.len() - 1;
    if p.len() > 0 {
        every_profile_that_answers_is_noted(p, if k < last { k } else { 0 }, j);
    }
    if answered_id(answers[k]) is Some {
        let e = (LF_PROFILES@[k % 10].0, LF_PROFILES@[k % 10].1, answered_id(answers[k])->Some_0);
        if k == last {
            assert(all[all.len() - 1] == e);
        } else {
            assert(p[k] == answers[k]);
            let i = choose|i: int| 0 <= i < before.len() && before[i] == e;
            assert(all[i] == e);
        }
    }
    if 0 <= j < all.len() {
        if j < before.len() {
            let i = choose|i: int|
                0 <= i < p.len() && answered_id(#[trigger] p[i]) == Some(before[j].2)
                    && before[j].0 == LF_PROFILES@[i % 10].0 && before[j].1
                    == LF_PROFILES@[i % 10].1;
            assert(answers[i] == p[i]);
            assert(all[j] == before[j]);
        } else {
            assert(answered_id(answers[last]) == Some(all[j].2));
        }
    }
}

/// A quick read ends with the first reply, empty or not; silence is asked again
/// while there are tries left.
pub proof fn a_quick_read_ends_with_a_reply(left: int, a: AnswerModel)
    requires
        left > 0,
    ensures
        a matches Ok(r) ==> quick_step(left, a) == Some(crate::command::lf_id_of(r.payload)),
        a is Err && left > 1 ==> quick_step(left, a) is None,
        a is Err && left == 1 ==> quick_step(left, a) == Some(None::<Seq<u8>>),
{
}

/// The commands of the writing side by their bytes: a block write names its
/// block and carries its data, asking after a block names it, and the sampler
/// is armed and then fetched from.
pub proof fn tag_commands_carry_their_arguments(blk: u8, data: Seq<u8>)
    requires
        data.len() == 4,
    ensures
        burn_query(blk, data).payload == seq![
            0xffu8, 0x00, 0x66, 0x00, 0x1e, 0x48, 0xe8, 0x01, 0x00, 0x13, 0x00, blk,
        ] + data + seq![0x54u8, 0x69, 0x61, 0x6e],
        burn_query(blk, data).retry,
        block_query(blk).payload == seq![
            0xffu8, 0x00, 0x66, 0x00, 0x1e, 0x48, 0xe8, 0x01, 0x00, 0x12, 0x00, blk, 0x00, 0x00,
            0x00, 0x00,
        ],
        block_query(blk).retry,
        arm_query().payload == seq![
            0xffu8, 0x00, 0x66, 0x00, 0x1e, 0x48, 0xe8, 0x01, 0x00, 0x41, 0x05,
        ],
        arm_query().retry,
        fetch_query().payload == seq![
            0xffu8, 0x00, 0x66, 0x00, 0x1e, 0x48, 0xe8, 0x01, 0x00, 0x46, 0x00,
        ],
        fetch_query().retry,
{
    assert(burn_query(blk, data).payload =~= seq![
        0xffu8, 0x00, 0x66, 0x00, 0x1e, 0x48, 0xe8, 0x01, 0x00, 0x13, 0x00, blk,
    ] + data + seq![0x54u8, 0x69, 0x61, 0x6e]);
    assert(block_query(blk).payload =~= seq![
        0xffu8, 0x00, 0x66, 0x00, 0x1e, 0x48, 0xe8, 0x01, 0x00, 0x12, 0x00, blk, 0x00, 0x00,
        0x00, 0x00,
    ]);
    assert(arm_query().payload =~= seq![
        0xffu8, 0x00, 0x66, 0x00, 0x1e, 0x48, 0xe8, 0x01, 0x00, 0x41, 0x05,
    ]);
    assert(fetch_query().payload =~= seq![
        0xffu8, 0x00, 0x66, 0x00, 0x1e, 0x48, 0xe8, 0x01, 0x00, 0x46, 0x00,
    ]);
}

/// A wipe writes every block from 0 to 7 once, four zero bytes to each, and
/// block 0 after all the others.
pub proof fn a_wipe_zeroes_every_block_once(b: u8, i: int, j: int)
    requires
        b <= 7,
        0 <= i < 8,
        0 <= j < 8,
    ensures
        wipe_plan_of().len() == 8,
        wipe_plan_of().contains((b, seq![0u8, 0, 0, 0])),
        wipe_plan_of()[i].0 <= 7,
        wipe_plan_of()[i].1 == seq![0u8, 0, 0, 0],
        i != j ==> wipe_plan_of()[i].0 != wipe_plan_of()[j].0,
        wipe_plan_of()[i].0 == 0 <==> i == 7,
{
    crate::command::wipe_ends_with_the_config_word();
    let at: int = if b == 0 {
        7
    } else {
        b - 1
    };
    assert(wipe_plan_of()[at] == (b, seq![0u8, 0, 0, 0]));
}

/// Samples follow their length, which says how many there are; what comes after
/// them is no sample.
pub proof fn samples_follow_their_length(bytes: Seq<u8>, rest: Seq<u8>, p: Seq<u8>)
    requires
        bytes.len() < 256,
    ensures
        samples_of(seq![bytes.len() as u8] + bytes + rest) == Ok::<Seq<u8>, Seq<char>>(bytes),
        samples_of(p) is Ok <==> p.len() > 0 && p.len() >= 1 + p[0],
        samples_of(p) matches Ok(b) ==> b.len() == p[0] && forall|i: int|
            0 <= i < b.len() ==> #[trigger] b[i] == p[1 + i],
{
    let q = seq![bytes.len() as u8] + bytes + rest;
    assert(q.subrange(1, 1 + q[0]) =~= bytes);
}

/// The ones of a byte are its eight bits added up, and those of several bytes
/// add up.
pub proof fn ones_are_bits_added_up(b: u8, x: Seq<u8>, y: Seq<u8>)
    ensures
        ones_in(b as int) == b / 128 % 2 + b / 64 % 2 + b / 32 % 2 + b / 16 % 2 + b / 8 % 2 + b / 4
            % 2 + b / 2 % 2 + b % 2,
        ones_of(Seq::empty()) == 0,
        ones_of(seq![b]) == ones_in(b as int),
        ones_of(x + y) == ones_of(x) + ones_of(y),
    decreases y.len(),
{
    reveal_with_fuel(ones_in, 10);
    reveal_with_fuel(ones_of, 2);
    assert(seq![b].drop_last() =~= Seq::empty());
    if y.len() == 0 {
        assert(x + y =~= x);
    } else {
        assert((x + y).drop_last() =~= x + y.drop_last());
        ones_are_bits_added_up(b, x, y.drop_last());
    }
}

/// The payload of an answer is the payload of the reply, and a complaint stays
/// the complaint it is.
pub proof fn answers_keep_their_payload(r: ReplyModel, e: Seq<char>)
    ensures
        payload_of(Ok(r)) == Ok::<Seq<u8>, Seq<char>>(r.payload),
        payload_of(Err(e)) == Err::<Seq<u8>, Seq<char>>(e),
        answered_id(Ok(r)) == crate::command::lf_id_of(r.payload),
        answered_id(Err(e)) is None,
{
}

/// The views keep what they view.
pub proof fn views_keep_finds(
    id: [u8; 5],
    freq: u32,
    lc: u8,
    q: Query,
    v: Seq<(u32, u8, [u8; 5])>,
    i: int,
    r: Option<[u8; 5]>,
)
    requires
        0 <= i < v.len(),
    ensures
        found_view(Some((id, freq, lc))) == Some((id@, freq, lc)),
        found_view(None) is None,
        query_view(Some(q)) == Some(q@),
        query_view(None) is None,
        profiles_view(v).len() == v.len(),
        profiles_view(v)[i] == (v[i].0, v[i].1, v[i].2@),
        quick_view(Some(r)) == Some(id_view(r)),
        quick_view(None) is None,
{
}

} // verus!
