//! The 13.56 MHz procedures: finding a card, finding a key, reading and
//! writing blocks. Also what the reader says of itself.

use crate::command::{
    exchange_body, exchange_data, hf_activate, hf_activate_payload, hf_detect, hf_detect_payload,
    hf_release, hf_release_payload, mifare_auth, mifare_auth_payload, mifare_read,
    mifare_read_payload, mifare_write, mifare_write_payload, MODEL, SERIAL,
};
use crate::frame::reply_result;
use crate::hexes::{array_result, hex, hex_text};
use crate::lf::{payload, payload_of, Answer, AnswerModel};
use crate::mifare::{card_of, card_view, parse_card, Card, CardModel, KEYS};
use crate::reader::{surely, Query, QueryModel, Reader};
use crate::text::{chars_of, trim, trimmed};
use vstd::prelude::*;

verus! {

/// The card that an answer to the detect command describes. No answer is no
/// card.
pub open spec fn card_in(a: AnswerModel) -> Option<CardModel> {
    match a {
        Ok(r) => card_of(r.payload),
        Err(_) => None,
    }
}

/// `None` means nothing on the pad rather than an error.
pub fn hf_card(a: &Answer) -> (r: Option<Card>)
    ensures
        card_view(r) == card_in(reply_result(*a)),
{
    match a {
        Ok(r) => parse_card(r.payload.as_slice()),
        Err(_) => None,
    }
}

// ---- commands ----

/// The command that authenticates for a block. Only the first four bytes of
/// the UID travel.
pub open spec fn auth_query_of(key_b: bool, blk: u8, key: Seq<u8>, uid: Seq<u8>) -> Result<
    QueryModel,
    Seq<char>,
> {
    if uid.len() < 4 {
        Err("need at least four UID bytes to authenticate"@)
    } else {
        Ok(surely(mifare_auth_payload(key_b, blk, key, uid.take(4))))
    }
}

pub open spec fn query_result(r: Result<Query, String>) -> Result<QueryModel, Seq<char>> {
    match r {
        Ok(q) => Ok(q@),
        Err(e) => Err(e@),
    }
}

impl Reader {
    /// Asks what card is on the pad.
    pub fn hf_raw() -> (r: Query)
        ensures
            r@ == surely(hf_detect_payload()),
    {
        Query::surely(hf_detect())
    }

    /// Selects the card.
    pub fn hf_activate() -> (r: Query)
        ensures
            r@ == surely(hf_activate_payload()),
    {
        Query::surely(hf_activate())
    }

    /// Lets the card go.
    pub fn hf_release() -> (r: Query)
        ensures
            r@ == surely(hf_release_payload()),
    {
        Query::surely(hf_release())
    }

    /// Authenticates for a block.
    pub fn mifare_auth(key_b: bool, blk: u8, key: [u8; 6], uid: &[u8]) -> (r: Result<
        Query,
        String,
    >)
        ensures
            query_result(r) == auth_query_of(key_b, blk, key@, uid@),
    {
        if uid.len() < 4 {
            return Err("need at least four UID bytes to authenticate".to_owned());
        }
        let first: [u8; 4] = [uid[0], uid[1], uid[2], uid[3]];
        assert(first@ =~= uid@.take(4));
        Ok(Query::surely(mifare_auth(key_b, blk, key, first)))
    }

    /// Reads a block.
    pub fn mifare_read(blk: u8) -> (r: Query)
        ensures
            r@ == surely(mifare_read_payload(blk)),
    {
        Query::surely(mifare_read(blk))
    }

    /// Writes a block.
    pub fn mifare_write(blk: u8, data: [u8; 16]) -> (r: Query)
        ensures
            r@ == surely(mifare_write_payload(blk, data@)),
    {
        Query::surely(mifare_write(blk, data))
    }
}

// ---- answers ----

/// Whether an exchange went through, and if not, why.
pub open spec fn exchanged_of(a: AnswerModel) -> Result<(), Seq<char>> {
    match payload_of(a) {
        Err(e) => Err(e),
        Ok(p) => match exchange_body(p) {
            Ok(_) => Ok(()),
            Err(e) => Err(e),
        },
    }
}

pub open spec fn unit_result(r: Result<(), String>) -> Result<(), Seq<char>> {
    match r {
        Ok(_) => Ok(()),
        Err(e) => Err(e@),
    }
}

/// What became of an authentication or a write.
pub fn exchanged(a: Answer) -> (r: Result<(), String>)
    ensures
        unit_result(r) == exchanged_of(reply_result(a)),
{
    match payload(a) {
        Err(e) => Err(e),
        Ok(p) => match exchange_data(p.as_slice()) {
            Ok(_) => Ok(()),
            Err(e) => Err(e),
        },
    }
}

/// The sixteen bytes of a block read.
pub open spec fn block_of(a: AnswerModel) -> Result<Seq<u8>, Seq<char>> {
    match payload_of(a) {
        Err(e) => Err(e),
        Ok(p) => match exchange_body(p) {
            Err(e) => Err(e),
            Ok(d) => if d.len() < 16 {
                Err("short block read: "@ + hex_text(p))
            } else {
                Ok(d.take(16))
            },
        },
    }
}

/// What a block read brought.
pub fn block_read(a: Answer) -> (r: Result<[u8; 16], String>)
    ensures
        array_result(r) == block_of(reply_result(a)),
{
    let p = match payload(a) {
        Err(e) => {
            return Err(e);
        },
        Ok(p) => p,
    };
    match exchange_data(p.as_slice()) {
        Err(e) => Err(e),
        Ok(d) => {
            if d.len() < 16 {
                return Err("short block read: ".to_owned().concat(hex(p.as_slice()).as_str()));
            }
            let b: [u8; 16] = [
                d[0],
                d[1],
                d[2],
                d[3],
                d[4],
                d[5],
                d[6],
                d[7],
                d[8],
                d[9],
                d[10],
                d[11],
                d[12],
                d[13],
                d[14],
                d[15],
            ];
            assert(b@ =~= d@.take(16));
            Ok(b)
        },
    }
}

// ---- keys ----

/// A list of keys seen through its view.
pub open spec fn keys_view(keys: Seq<[u8; 6]>) -> Seq<Seq<u8>> {
    keys.map_values(|k: [u8; 6]| k@)
}

/// The keys that every sector is tried with.
pub fn known_keys() -> (r: Vec<[u8; 6]>)
    ensures
        r@ == KEYS@,
{
    let all: [[u8; 6]; 8] = KEYS;
    let mut v: Vec<[u8; 6]> = Vec::new();
    let mut i: usize = 0;
    while i < 8
        invariant
            i <= 8,
            all == KEYS,
            v@ == all@.take(i as int),
        decreases 8 - i,
    {
        v.push(all[i]);
        i += 1;
        assert(v@ =~= all@.take(i as int));
    }
    assert(all@.take(8) =~= all@);
    v
}

/// Trying one key after another on a block. A failed attempt desynchronises
/// the card, so the card is selected anew before each try.
#[derive(Clone, Copy)]
pub struct Hunt {
    /// The key being tried.
    pub at: usize,
    /// The card has been selected for it.
    pub selected: bool,
}

/// The command a hunt sends next.
pub open spec fn hunt_query(
    h: Hunt,
    key_b: bool,
    blk: u8,
    uid: Seq<u8>,
    keys: Seq<Seq<u8>>,
) -> QueryModel {
    if h.selected {
        surely(mifare_auth_payload(key_b, blk, keys[h.at as int], uid.take(4)))
    } else {
        surely(hf_activate_payload())
    }
}

/// Where a hunt stands after an answer.
pub open spec fn hunt_step(h: Hunt, a: AnswerModel) -> Hunt {
    if !h.selected {
        Hunt { selected: true, ..h }
    } else {
        Hunt { at: (h.at + 1) as usize, selected: false }
    }
}

/// The answer opens the block.
pub open spec fn hunt_opens(h: Hunt, a: AnswerModel) -> bool {
    h.selected && exchanged_of(a) is Ok
}

impl Hunt {
    pub fn new() -> (r: Hunt)
        ensures
            r == (Hunt { at: 0, selected: false }),
    {
        Hunt { at: 0, selected: false }
    }

    pub fn query(&self, key_b: bool, blk: u8, uid: &[u8], keys: &Vec<[u8; 6]>) -> (r: Query)
        requires
            self.at < keys@.len(),
            uid@.len() >= 4,
        ensures
            r@ == hunt_query(*self, key_b, blk, uid@, keys_view(keys@)),
    {
        if !self.selected {
            return Reader::hf_activate();
        }
        match Reader::mifare_auth(key_b, blk, keys[self.at], uid) {
            Ok(q) => q,
            // A UID is never that short
            Err(_) => Reader::hf_activate(),
        }
    }

    /// Take the answer. True if the key that was tried opens the block.
    pub fn answer(&mut self, a: Answer) -> (r: bool)
        requires
            old(self).at < usize::MAX,
        ensures
            r == hunt_opens(*old(self), reply_result(a)),
            *final(self) == hunt_step(*old(self), reply_result(a)),
    {
        if !self.selected {
            self.selected = true;
            false
        } else {
            self.at = self.at + 1;
            self.selected = false;
            match exchanged(a) {
                Ok(_) => true,
                Err(_) => false,
            }
        }
    }
}

/// The commands of a hunt through some keys, the answers given: which key
/// opens the block, if one does.
pub open spec fn hunted(h: Hunt, keys: Seq<Seq<u8>>, answers: Seq<AnswerModel>) -> Option<Seq<u8>>
    decreases answers.len(),
{
    if answers.len() == 0 || h.at >= keys.len() {
        None
    } else if hunt_opens(h, answers[0]) {
        Some(keys[h.at as int])
    } else {
        hunted(hunt_step(h, answers[0]), keys, answers.skip(1))
    }
}

/// A key that a hunt comes back with was among those to try.
pub proof fn a_found_key_was_offered(h: Hunt, keys: Seq<Seq<u8>>, answers: Seq<AnswerModel>)
    ensures
        hunted(h, keys, answers) is Some ==> keys.contains(hunted(h, keys, answers)->Some_0),
    decreases answers.len(),
{
    if answers.len() > 0 && h.at < keys.len() {
        if hunt_opens(h, answers[0]) {
            assert(keys.contains(keys[h.at as int]));
        } else {
            a_found_key_was_offered(hunt_step(h, answers[0]), keys, answers.skip(1));
        }
    }
}

/// Every try of a key comes right after the card was selected, and no key is
/// tried twice: after two answers a hunt that has not ended is at the next key.
pub proof fn the_card_is_selected_before_each_key(h: Hunt, a: AnswerModel, b: AnswerModel)
    requires
        !h.selected,
        h.at < usize::MAX,
    ensures
        !hunt_opens(h, a),
        hunt_step(hunt_step(h, a), b) == (Hunt { at: (h.at + 1) as usize, selected: false }),
{
}

// ---- the reader itself ----

/// What stands in for bytes that are no UTF-8.
pub uninterp spec fn lossy_text(bytes: Seq<u8>) -> Seq<char>;

/// `String::from_utf8_lossy`: the text of bytes that are UTF-8; of others the
/// text with replacement characters, whose number is left unsaid.
#[verifier::external_body]
fn lossy(bytes: &[u8]) -> (r: String)
    ensures
        r@ == if vstd::utf8::valid_utf8(bytes@) {
            vstd::utf8::decode_utf8(bytes@)
        } else {
            lossy_text(bytes@)
        },
{
    String::from_utf8_lossy(bytes).to_string()
}

/// Bytes read as text.
pub open spec fn told_text(bytes: Seq<u8>) -> Seq<char> {
    if vstd::utf8::valid_utf8(bytes) {
        vstd::utf8::decode_utf8(bytes)
    } else {
        lossy_text(bytes)
    }
}

/// The model or serial string in a payload.
pub fn ident(payload: &[u8]) -> (r: String)
    ensures
        r@ == trimmed(told_text(payload@)),
{
    let t = lossy(payload);
    ident_text(t.as_str())
}

/// A model or serial string without the blanks around it.
pub fn ident_text(t: &str) -> (r: String)
    ensures
        r@ == trimmed(t@),
{
    let v = chars_of(t);
    trim(&v)
}

/// Asking the reader for its model and then for its serial.
pub struct Ident {
    pub model: Option<String>,
}

/// What to do next: ask, stop with the two strings, or stop with a complaint.
pub enum Told {
    Ask(Query),
    Done(String, String),
    Fail(String),
}

pub enum ToldModel {
    Ask(QueryModel),
    Done(Seq<char>, Seq<char>),
    Fail(Seq<char>),
}

impl View for Told {
    type V = ToldModel;

    open spec fn view(&self) -> ToldModel {
        match self {
            Told::Ask(q) => ToldModel::Ask(q@),
            Told::Done(m, s) => ToldModel::Done(m@, s@),
            Told::Fail(e) => ToldModel::Fail(e@),
        }
    }
}

/// After an answer: the model is known, then the serial.
pub open spec fn ident_step(model: Option<Seq<char>>, a: AnswerModel) -> ToldModel {
    match payload_of(a) {
        Err(e) => ToldModel::Fail(e),
        Ok(p) => match model {
            None => ToldModel::Ask(surely(SERIAL@)),
            Some(m) => ToldModel::Done(m, trimmed(told_text(p))),
        },
    }
}

pub open spec fn name_view(s: Option<String>) -> Option<Seq<char>> {
    match s {
        Some(s) => Some(s@),
        None => None,
    }
}

impl Ident {
    pub fn begin() -> (r: (Ident, Query))
        ensures
            r.0.model is None,
            r.1@ == surely(MODEL@),
    {
        (Ident { model: None }, Query::surely(vstd::slice::slice_to_vec(MODEL.as_slice())))
    }

    pub fn answer(&mut self, a: Answer) -> (r: Told)
        ensures
            r@ == ident_step(name_view(old(self).model), reply_result(a)),
            r is Ask ==> name_view(final(self).model) == Some(
                trimmed(told_text(payload_of(reply_result(a))->Ok_0)),
            ),
            r is Done ==> final(self).model is None,
            r is Fail ==> final(self).model == old(self).model,
    {
        let p = match payload(a) {
            Err(e) => {
                return Told::Fail(e);
            },
            Ok(p) => p,
        };
        let text = ident(p.as_slice());
        let model = self.model.take();
        match model {
            None => {
                self.model = Some(text);
                Told::Ask(Query::surely(vstd::slice::slice_to_vec(SERIAL.as_slice())))
            },
            Some(m) => Told::Done(m, text),
        }
    }
}

// ---- laws ----

/// The keys that every sector is tried with, in order.
pub proof fn the_known_keys_in_order()
    ensures
        keys_view(KEYS@) == seq![
            seq![0xffu8, 0xff, 0xff, 0xff, 0xff, 0xff],
            seq![0xa0u8, 0xa1, 0xa2, 0xa3, 0xa4, 0xa5],
            seq![0xb0u8, 0xb1, 0xb2, 0xb3, 0xb4, 0xb5],
            seq![0xd3u8, 0xf7, 0xd3, 0xf7, 0xd3, 0xf7],
            seq![0x00u8, 0x00, 0x00, 0x00, 0x00, 0x00],
            seq![0x4du8, 0x3a, 0x99, 0xc3, 0x51, 0xdd],
            seq![0x1au8, 0x98, 0x2c, 0x7e, 0x45, 0x9a],
            seq![0xaau8, 0xbb, 0xcc, 0xdd, 0xee, 0xff],
        ],
{
    assert(keys_view(KEYS@) =~~= seq![
        seq![0xffu8, 0xff, 0xff, 0xff, 0xff, 0xff],
        seq![0xa0u8, 0xa1, 0xa2, 0xa3, 0xa4, 0xa5],
        seq![0xb0u8, 0xb1, 0xb2, 0xb3, 0xb4, 0xb5],
        seq![0xd3u8, 0xf7, 0xd3, 0xf7, 0xd3, 0xf7],
        seq![0x00u8, 0x00, 0x00, 0x00, 0x00, 0x00],
        seq![0x4du8, 0x3a, 0x99, 0xc3, 0x51, 0xdd],
        seq![0x1au8, 0x98, 0x2c, 0x7e, 0x45, 0x9a],
        seq![0xaau8, 0xbb, 0xcc, 0xdd, 0xee, 0xff],
    ]);
}

/// The bytes of an authentication: which key, which block, the key, and the
/// first four bytes of the UID, however long that is.
pub open spec fn auth_bytes(key_b: bool, blk: int, key: Seq<u8>, uid: Seq<u8>) -> Seq<u8> {
    seq![
        0xffu8,
        0x00,
        0x00,
        0x00,
        0x0f,
        0xd4,
        0x40,
        0x01,
        if key_b {
            0x61u8
        } else {
            0x60u8
        },
        blk as u8,
    ] + key + seq![uid[0], uid[1], uid[2], uid[3]]
}

/// An authentication needs four bytes of UID and sends those, with the key, for
/// the block asked for.
pub proof fn an_authentication_needs_four_uid_bytes(
    key_b: bool,
    blk: u8,
    key: Seq<u8>,
    uid: Seq<u8>,
)
    requires
        key.len() == 6,
    ensures
        auth_query_of(key_b, blk, key, uid) is Ok <==> uid.len() >= 4,
        auth_query_of(key_b, blk, key, uid) matches Ok(q) ==> q.payload == auth_bytes(
            key_b,
            blk as int,
            key,
            uid,
        ) && q.retry,
{
    if uid.len() >= 4 {
        assert(mifare_auth_payload(key_b, blk, key, uid.take(4)) =~= auth_bytes(
            key_b,
            blk as int,
            key,
            uid,
        ));
    }
}

/// What a hunt sends: until the card has been selected, the command that
/// selects it; then an authentication for the block asked for, with the key
/// whose turn it is.
pub proof fn a_hunt_tries_its_key_on_its_block(
    h: Hunt,
    key_b: bool,
    blk: u8,
    uid: Seq<u8>,
    keys: Seq<Seq<u8>>,
)
    requires
        h.at < keys.len(),
        keys[h.at as int].len() == 6,
        uid.len() >= 4,
    ensures
        !h.selected ==> hunt_query(h, key_b, blk, uid, keys).payload == seq![
            0xffu8, 0x00, 0x61, 0x01,
        ],
        h.selected ==> hunt_query(h, key_b, blk, uid, keys).payload == auth_bytes(
            key_b,
            blk as int,
            keys[h.at as int],
            uid,
        ),
        hunt_query(h, key_b, blk, uid, keys).retry,
{
    an_authentication_needs_four_uid_bytes(key_b, blk, keys[h.at as int], uid);
}

/// A reply to an exchange, status and data given.
pub open spec fn exchange_reply(p: Seq<u8>, cmd: u8, status: u8, data: Seq<u8>) -> bool {
    p == seq![0xd5u8, cmd, status] + data + seq![0x90u8, 0x00]
}

/// A key opens its block exactly if the reply to the authentication says nought.
/// Silence opens nothing, and nor does the reply to selecting the card.
pub proof fn a_key_opens_by_its_status(
    h: Hunt,
    r: crate::frame::ReplyModel,
    cmd: u8,
    status: u8,
    data: Seq<u8>,
    e: Seq<char>,
)
    requires
        exchange_reply(r.payload, cmd, status, data),
    ensures
        hunt_opens(h, Ok(r)) <==> h.selected && status == 0,
        !hunt_opens(h, Err(e)),
        exchanged_of(Ok(r)) is Ok <==> status == 0,
        exchanged_of(Err(e)) == Err::<(), Seq<char>>(e),
{
    crate::command::an_exchange_goes_by_its_status(cmd, status, data, r.payload);
}

/// A block read brings the sixteen bytes after the status, if it says nought
/// and there are as many. Anything else is no block.
pub proof fn a_block_read_brings_its_bytes(
    r: crate::frame::ReplyModel,
    cmd: u8,
    status: u8,
    data: Seq<u8>,
    e: Seq<char>,
)
    requires
        exchange_reply(r.payload, cmd, status, data),
    ensures
        block_of(Ok(r)) is Ok <==> status == 0 && data.len() >= 16,
        status == 0 && data.len() == 16 ==> block_of(Ok(r)) == Ok::<Seq<u8>, Seq<char>>(data),
        block_of(Ok(r)) matches Ok(b) ==> b.len() == 16 && forall|i: int|
            0 <= i < 16 ==> #[trigger] b[i] == r.payload[3 + i],
        block_of(Err(e)) == Err::<Seq<u8>, Seq<char>>(e),
{
    crate::command::an_exchange_goes_by_its_status(cmd, status, data, r.payload);
    if data.len() == 16 {
        assert(data.take(16) =~= data);
    }
    assert forall|i: int| 0 <= i < data.len() implies r.payload[3 + i] == #[trigger] data[i] by {}
}

/// Keys are tried in order, two answers to each: the key found is the first
/// whose authentication goes through.
pub proof fn the_first_key_that_opens_is_found(
    at: usize,
    keys: Seq<Seq<u8>>,
    answers: Seq<AnswerModel>,
    k: int,
)
    requires
        keys.len() < usize::MAX,
        0 <= k,
        at + k < keys.len(),
        answers.len() == 2 * k + 2,
        exchanged_of(answers[2 * k + 1]) is Ok,
        forall|j: int| 0 <= j < k ==> exchanged_of(#[trigger] answers[2 * j + 1]) is Err,
    ensures
        hunted(Hunt { at, selected: false }, keys, answers) == Some(keys[at + k]),
    decreases k,
{
    let h = Hunt { at, selected: false };
    let one = answers.skip(1);
    let two = one.skip(1);
    reveal_with_fuel(hunted, 3);
    assert(one[0] == answers[2 * 0int + 1]);
    if k > 0 {
        assert(exchanged_of(answers[2 * 0int + 1]) is Err);
        assert(two[2 * (k - 1) + 1] == answers[2 * k + 1]);
        assert forall|j: int| 0 <= j < k - 1 implies exchanged_of(
            #[trigger] two[2 * j + 1],
        ) is Err by {
            assert(two[2 * j + 1] == answers[2 * (j + 1) + 1]);
        }
        the_first_key_that_opens_is_found((at + 1) as usize, keys, two, k - 1);
    }
}

/// The reader is asked for its model and then for its serial; both strings come
/// back in that order. A complaint ends it.
pub proof fn model_comes_before_serial(
    m: Seq<char>,
    r: crate::frame::ReplyModel,
    e: Seq<char>,
)
    ensures
        ident_step(None, Ok(r)) matches ToldModel::Ask(q) && q.payload == seq![
            0xffu8, 0x00, 0x69, 0x00, 0x00,
        ] && q.retry,
        ident_step(Some(m), Ok(r)) == ToldModel::Done(m, trimmed(told_text(r.payload))),
        ident_step(None, Err(e)) == ToldModel::Fail(e),
        ident_step(Some(m), Err(e)) == ToldModel::Fail(e),
{
    crate::command::plain_commands(0, 0);
}

/// The views keep what they view.
pub proof fn views_keep_keys_and_names(
    keys: Seq<[u8; 6]>,
    i: int,
    q: Query,
    e: String,
    m: String,
    s: String,
)
    requires
        0 <= i < keys.len(),
    ensures
        keys_view(keys).len() == keys.len(),
        keys_view(keys)[i] == keys[i]@,
        query_result(Ok(q)) == Ok::<QueryModel, Seq<char>>(q@),
        query_result(Err(e)) == Err::<QueryModel, Seq<char>>(e@),
        unit_result(Ok(())) is Ok,
        unit_result(Err(e)) == Err::<(), Seq<char>>(e@),
        name_view(Some(m)) == Some(m@),
        name_view(None) is None,
        Told::Ask(q)@ == ToldModel::Ask(q@),
        Told::Done(m, s)@ == ToldModel::Done(m@, s@),
        Told::Fail(e)@ == ToldModel::Fail(e@),
{
}

/// Bytes that are UTF-8 are told as the text they encode.
pub proof fn names_are_told_as_they_are(t: Seq<char>)
    ensures
        told_text(vstd::utf8::encode_utf8(t)) == t,
{
    vstd::utf8::encode_utf8_valid_utf8(t);
    vstd::utf8::encode_utf8_decode_utf8(t);
}

} // verus!
