//! Bytes written out in hex, and read back.

use crate::number::{digit_value, digits_value, unsigned_digits, unsigned_value};
use crate::text::{
    chars_of, dec, dec_text, digit_char, hex2, push_hex2, split_state, split_words, texts, white,
    words,
};
use vstd::prelude::*;

verus! {

// ---- writing ----

/// Two digits per byte, a space between bytes.
pub open spec fn hex_text(bytes: Seq<u8>) -> Seq<char>
    decreases bytes.len(),
{
    if bytes.len() == 0 {
        Seq::empty()
    } else if bytes.len() == 1 {
        hex2(bytes[0])
    } else {
        hex_text(bytes.drop_last()).push(' ') + hex2(bytes.last())
    }
}

pub fn hex(bytes: &[u8]) -> (r: String)
    ensures
        r@ == hex_text(bytes@),
{
    let mut s = String::new();
    let n: usize = bytes.len();
    let mut i: usize = 0;
    assert(bytes@.take(0) =~= Seq::empty());
    while i < n
        invariant
            i <= n == bytes@.len(),
            s@ == hex_text(bytes@.take(i as int)),
        decreases n - i,
    {
        if i > 0 {
            s.push(' ');
        }
        push_hex2(&mut s, bytes[i]);
        assert(bytes@.take(i + 1).drop_last() =~= bytes@.take(i as int));
        i += 1;
        assert(s@ =~= hex_text(bytes@.take(i as int)));
    }
    assert(bytes@.take(n as int) =~= bytes@);
    s
}

/// Two digits per byte, a space after every fourth byte that another follows.
pub open spec fn groups_text(bytes: Seq<u8>) -> Seq<char>
    decreases bytes.len(),
{
    if bytes.len() == 0 {
        Seq::empty()
    } else if bytes.len() > 1 && (bytes.len() - 1) % 4 == 0 {
        groups_text(bytes.drop_last()).push(' ') + hex2(bytes.last())
    } else {
        groups_text(bytes.drop_last()) + hex2(bytes.last())
    }
}

/// Four-byte groups, so a 16-byte block fits the panel.
pub fn hex_groups(bytes: &[u8]) -> (r: String)
    ensures
        r@ == groups_text(bytes@),
{
    let mut s = String::new();
    let n: usize = bytes.len();
    let mut i: usize = 0;
    assert(bytes@.take(0) =~= Seq::empty());
    while i < n
        invariant
            i <= n == bytes@.len(),
            s@ == groups_text(bytes@.take(i as int)),
        decreases n - i,
    {
        if i > 0 && i % 4 == 0 {
            s.push(' ');
        }
        push_hex2(&mut s, bytes[i]);
        assert(bytes@.take(i + 1).drop_last() =~= bytes@.take(i as int));
        i += 1;
    }
    assert(bytes@.take(n as int) =~= bytes@);
    s
}

// ---- reading ----

/// What `{:?}` prints for a string.
pub uninterp spec fn quoted_text(s: Seq<char>) -> Seq<char>;

/// `format!` with `{:?}` on a string. Which characters std escapes is left
/// unsaid; the text depends on the string alone.
#[verifier::external_body]
pub(crate) fn quoted(s: &str) -> (r: String)
    ensures
        r@ == quoted_text(s@),
{
    format!("{s:?}")
}

/// What std says of a string that is no hex byte.
pub uninterp spec fn radix_fault(s: Seq<char>) -> Seq<char>;

/// `u8::from_str_radix` in base sixteen: an optional plus sign and hex digits
/// of either case, at least one, that make no more than 255. The wording of
/// the error is std's own.
#[verifier::external_body]
fn hex_number(s: &str) -> (r: Result<u8, String>)
    ensures
        match r {
            Ok(b) => unsigned_value(s@, 16, 255) == Some(b as nat),
            Err(e) => unsigned_value(s@, 16, 255) is None && e@ == radix_fault(s@),
        },
{
    u8::from_str_radix(s, 16).map_err(|e| e.to_string())
}

/// What std says of bytes that are no UTF-8.
pub uninterp spec fn utf8_fault(bytes: Seq<u8>) -> Seq<char>;

/// `std::str::from_utf8`: the text if the bytes are UTF-8. The wording of the
/// error is std's own.
#[verifier::external_body]
fn utf8_string(bytes: &[u8]) -> (r: Result<String, String>)
    ensures
        match r {
            Ok(t) => vstd::utf8::valid_utf8(bytes@) && t@ == vstd::utf8::decode_utf8(bytes@),
            Err(e) => !vstd::utf8::valid_utf8(bytes@) && e@ == utf8_fault(bytes@),
        },
{
    std::str::from_utf8(bytes).map(|t| t.to_string()).map_err(|e| e.to_string())
}

/// Without a leading `0x`.
pub open spec fn unprefixed(w: Seq<char>) -> Seq<char> {
    if w.len() >= 2 && w[0] == '0' && w[1] == 'x' {
        w.skip(2)
    } else {
        w
    }
}

/// Pairs of bytes, the last one alone where the number is odd.
pub open spec fn pairs(b: Seq<u8>) -> Seq<Seq<u8>> {
    Seq::new(
        ((b.len() + 1) / 2) as nat,
        |i: int|
            b.subrange(
                2 * i,
                if 2 * i + 2 <= b.len() {
                    2 * i + 2
                } else {
                    b.len() as int
                },
            ),
    )
}

/// The pairs of UTF-8 bytes that the words are cut into, each word on its own.
pub open spec fn word_pairs(ws: Seq<Seq<char>>) -> Seq<Seq<u8>>
    decreases ws.len(),
{
    if ws.len() == 0 {
        Seq::empty()
    } else {
        word_pairs(ws.drop_last()) + pairs(vstd::utf8::encode_utf8(unprefixed(ws.last())))
    }
}

/// The byte that a pair spells, or what is wrong with it.
pub open spec fn pair_byte(p: Seq<u8>) -> Result<u8, Seq<char>> {
    if !vstd::utf8::valid_utf8(p) {
        Err(utf8_fault(p))
    } else {
        let t = vstd::utf8::decode_utf8(p);
        match unsigned_value(t, 16, 255) {
            Some(n) => Ok(n as u8),
            None => Err("bad hex "@ + quoted_text(t) + ": "@ + radix_fault(t)),
        }
    }
}

/// The bytes of all the pairs, or the fault of the first pair that has one.
pub open spec fn gathered(ps: Seq<Seq<u8>>) -> Result<Seq<u8>, Seq<char>>
    decreases ps.len(),
{
    if ps.len() == 0 {
        Ok(Seq::empty())
    } else {
        match gathered(ps.drop_last()) {
            Err(e) => Err(e),
            Ok(v) => match pair_byte(ps.last()) {
                Err(e) => Err(e),
                Ok(b) => Ok(v.push(b)),
            },
        }
    }
}

/// What a line of hex stands for.
pub open spec fn unhex_value(s: Seq<char>) -> Result<Seq<u8>, Seq<char>> {
    gathered(word_pairs(words(s)))
}

/// A result seen through the views of its two sides.
pub open spec fn vec_result(r: Result<Vec<u8>, String>) -> Result<Seq<u8>, Seq<char>> {
    match r {
        Ok(v) => Ok(v@),
        Err(e) => Err(e@),
    }
}

proof fn lemma_fault_stays(ps: Seq<Seq<u8>>, k: int)
    requires
        0 <= k <= ps.len(),
        gathered(ps.take(k)) is Err,
    ensures
        gathered(ps) == gathered(ps.take(k)),
    decreases ps.len() - k,
{
    if k == ps.len() {
        assert(ps.take(k) =~= ps);
    } else {
        assert(ps.take(k + 1).drop_last() =~= ps.take(k));
        lemma_fault_stays(ps, k + 1);
    }
}

proof fn lemma_word_pairs_prefix(ws: Seq<Seq<char>>, k: int)
    requires
        0 <= k <= ws.len(),
    ensures
        word_pairs(ws.take(k)).len() <= word_pairs(ws).len(),
        word_pairs(ws.take(k)) == word_pairs(ws).take(word_pairs(ws.take(k)).len() as int),
    decreases ws.len() - k,
{
    if k == ws.len() {
        assert(ws.take(k) =~= ws);
        assert(word_pairs(ws).take(word_pairs(ws).len() as int) =~= word_pairs(ws));
    } else {
        lemma_word_pairs_prefix(ws, k + 1);
        assert(ws.take(k + 1).drop_last() =~= ws.take(k));
        let a = word_pairs(ws.take(k));
        let b = word_pairs(ws.take(k + 1));
        let c = word_pairs(ws);
        assert(a =~= b.take(a.len() as int));
        assert(a =~= c.take(a.len() as int));
    }
}

fn pair_value(p: &[u8]) -> (r: Result<u8, String>)
    ensures
        match r {
            Ok(b) => pair_byte(p@) == Ok::<u8, Seq<char>>(b),
            Err(e) => pair_byte(p@) == Err::<u8, Seq<char>>(e@),
        },
{
    match utf8_string(p) {
        Err(e) => Err(e),
        Ok(t) => match hex_number(t.as_str()) {
            Ok(b) => Ok(b),
            Err(e) => Err(
                "bad hex ".to_owned().concat(quoted(t.as_str()).as_str()).concat(": ").concat(
                    e.as_str(),
                ),
            ),
        },
    }
}

fn strip_prefix(w: &str) -> (r: String)
    ensures
        r@ == unprefixed(w@),
{
    let n: usize = w.unicode_len();
    if n >= 2 && w.get_char(0) == '0' && w.get_char(1) == 'x' {
        let r = w.substring_char(2, n).to_owned();
        assert(r@ =~= unprefixed(w@));
        r
    } else {
        w.to_owned()
    }
}

/// Hex digits in pairs, whitespace anywhere between pairs, each word with or
/// without `0x`.
#[verifier::rlimit(30)]
pub fn unhex(s: &str) -> (r: Result<Vec<u8>, String>)
    ensures
        vec_result(r) == unhex_value(s@),
{
    let v = chars_of(s);
    let ws = split_words(&v);
    let mut out: Vec<u8> = Vec::new();
    let n: usize = ws.len();
    let mut i: usize = 0;
    let ghost all = words(s@);
    assert(all.take(0) =~= Seq::empty());
    assert(out@ =~= Seq::empty());
    while i < n
        invariant
            i <= n == ws@.len() == all.len(),
            texts(ws@) == all,
            all == words(s@),
            gathered(word_pairs(all.take(i as int))) == Ok::<Seq<u8>, Seq<char>>(out@),
        decreases n - i,
    {
        let ghost before = word_pairs(all.take(i as int));
        let ghost upto = word_pairs(all.take(i + 1));
        let w = strip_prefix(ws[i].as_str());
        let b = w.as_str().as_bytes();
        let len: usize = b.len();
        let ghost mine = pairs(b@);
        proof {
            assert(all[i as int] == ws@[i as int]@);
            assert(all.take(i + 1).drop_last() =~= all.take(i as int));
            assert(upto == before + mine);
            lemma_word_pairs_prefix(all, i + 1);
            assert(upto.take(before.len() as int) =~= before);
        }
        let mut k: usize = 0;
        while k < len
            invariant
                k <= len == b@.len(),
                k % 2 == 0 || k == len,
                mine == pairs(b@),
                upto == before + mine,
                upto.len() <= word_pairs(all).len(),
                upto == word_pairs(all).take(upto.len() as int),
                all == words(s@),
                gathered(upto.take(before.len() + (k + 1) as int / 2)) == Ok::<
                    Seq<u8>,
                    Seq<char>,
                >(out@),
            decreases len - k,
        {
            let end: usize = if len - k >= 2 {
                k + 2
            } else {
                len
            };
            let ghost j = before.len() + k as int / 2;
            assert(upto[j] == mine[k as int / 2]);
            assert(mine[k as int / 2] =~= b@.subrange(k as int, end as int));
            assert(upto.take(j + 1).drop_last() =~= upto.take(j));
            match pair_value(vstd::slice::slice_subrange(b, k, end)) {
                Ok(x) => {
                    out.push(x);
                },
                Err(e) => {
                    proof {
                        let whole = word_pairs(all);
                        assert(whole.take(j + 1) =~= upto.take(j + 1));
                        lemma_fault_stays(whole, j + 1);
                    }
                    return Err(e);
                },
            }
            k = end;
        }
        assert(upto.take(before.len() + (len + 1) as int / 2) =~= upto);
        i += 1;
    }
    assert(all.take(n as int) =~= all);
    Ok(out)
}

// ---- arguments ----

/// A result seen through the views of its two sides.
pub open spec fn array_result<const N: usize>(r: Result<[u8; N], String>) -> Result<
    Seq<u8>,
    Seq<char>,
> {
    match r {
        Ok(a) => Ok(a@),
        Err(e) => Err(e@),
    }
}

/// One byte in hex, with or without `0x`.
pub open spec fn hexarg_value(s: Seq<char>) -> Result<u8, Seq<char>> {
    match unsigned_value(unprefixed(s), 16, 255) {
        Some(n) => Ok(n as u8),
        None => Err(quoted_text(s) + ": "@ + radix_fault(unprefixed(s))),
    }
}

pub fn hexarg(s: &str) -> (r: Result<u8, String>)
    ensures
        match r {
            Ok(b) => hexarg_value(s@) == Ok::<u8, Seq<char>>(b),
            Err(e) => hexarg_value(s@) == Err::<u8, Seq<char>>(e@),
        },
{
    match hex_number(strip_prefix(s).as_str()) {
        Ok(b) => Ok(b),
        Err(e) => Err(quoted(s).concat(": ").concat(e.as_str())),
    }
}

/// A line of hex that has to hold a given number of bytes. `what` opens the
/// complaint about any other number.
pub open spec fn exact_value(s: Seq<char>, n: int, what: Seq<char>) -> Result<Seq<u8>, Seq<char>> {
    match unhex_value(s) {
        Err(e) => Err(e),
        Ok(v) => if v.len() == n {
            Ok(v)
        } else {
            Err(what + dec_text(v.len()))
        },
    }
}

/// Exactly `n` bytes of hex.
pub fn unhex_exact(s: &str, n: usize, what: &str) -> (r: Result<Vec<u8>, String>)
    ensures
        vec_result(r) == exact_value(s@, n as int, what@),
{
    match unhex(s) {
        Err(e) => Err(e),
        Ok(v) => {
            let len: usize = v.len();
            if len == n {
                Ok(v)
            } else {
                Err(what.to_owned().concat(dec(len as u64).as_str()))
            }
        },
    }
}

/// A MIFARE key, six bytes of hex.
pub fn key_arg(s: &str) -> (r: Result<[u8; 6], String>)
    ensures
        array_result(r) == exact_value(s@, 6, "a key is 6 bytes, got "@),
{
    match unhex_exact(s, 6, "a key is 6 bytes, got ") {
        Err(e) => Err(e),
        Ok(v) => {
            let a: [u8; 6] = [v[0], v[1], v[2], v[3], v[4], v[5]];
            assert(a@ =~= v@);
            Ok(a)
        },
    }
}

// ---- round trip ----

/// The words that a line of hex consists of.
pub open spec fn hex_words(bytes: Seq<u8>) -> Seq<Seq<char>> {
    bytes.map_values(|b: u8| hex2(b))
}

proof fn lemma_hex_split(bytes: Seq<u8>)
    requires
        bytes.len() > 0,
    ensures
        split_state(hex_text(bytes)) == (hex_words(bytes.drop_last()), hex2(bytes.last())),
    decreases bytes.len(),
{
    reveal_with_fuel(split_state, 4);
    let s = hex_text(bytes);
    let x = bytes.last();
    assert(!white(hex2(x)[0]) && !white(hex2(x)[1]));
    if bytes.len() == 1 {
        assert(s.drop_last().drop_last() =~= Seq::empty());
        assert(Seq::<char>::empty().push(hex2(x)[0]).push(hex2(x)[1]) =~= hex2(x));
        assert(hex_words(bytes.drop_last()) =~= Seq::empty());
    } else {
        let p = bytes.drop_last();
        lemma_hex_split(p);
        let q = hex_text(p);
        assert(s.drop_last() =~= q.push(' ').push(hex2(x)[0]));
        assert(s.drop_last().drop_last() =~= q.push(' '));
        assert(q.push(' ').drop_last() =~= q);
        assert(hex_words(p.drop_last()).push(hex2(p.last())) =~= hex_words(p));
        assert(Seq::<char>::empty().push(hex2(x)[0]).push(hex2(x)[1]) =~= hex2(x));
    }
}

proof fn lemma_hex_pair(x: u8)
    ensures
        pairs(vstd::utf8::encode_utf8(unprefixed(hex2(x)))) == seq![
            vstd::utf8::encode_utf8(hex2(x)),
        ],
        pair_byte(vstd::utf8::encode_utf8(hex2(x))) == Ok::<u8, Seq<char>>(x),
{
    let w = hex2(x);
    let e = vstd::utf8::encode_utf8(w);
    vstd::utf8::is_ascii_chars_encode_utf8(w);
    vstd::utf8::encode_utf8_valid_utf8(w);
    vstd::utf8::encode_utf8_decode_utf8(w);
    assert(unprefixed(w) == w);
    assert(e.len() == 2);
    assert(pairs(e)[0] =~= e);
    assert(pairs(e) =~= seq![e]);
    let hi = x as int / 16;
    let lo = x as int % 16;
    assert(digit_value(digit_char(hi), 16) == Some(hi as nat));
    assert(digit_value(digit_char(lo), 16) == Some(lo as nat));
    assert(unsigned_digits(w) == w);
    reveal_with_fuel(digits_value, 3);
    assert(w.drop_last().drop_last() =~= Seq::empty());
    assert(digits_value(w, 16) == hi * 16 + lo);
    assert(unsigned_value(w, 16, 255) == Some(x as nat));
}

proof fn lemma_hex_gathers(bytes: Seq<u8>)
    ensures
        gathered(word_pairs(hex_words(bytes))) == Ok::<Seq<u8>, Seq<char>>(bytes),
    decreases bytes.len(),
{
    if bytes.len() == 0 {
        assert(bytes =~= Seq::empty());
    } else {
        let p = bytes.drop_last();
        let x = bytes.last();
        lemma_hex_gathers(p);
        lemma_hex_pair(x);
        assert(hex_words(bytes).drop_last() =~= hex_words(p));
        let ps = word_pairs(hex_words(bytes));
        assert(ps.drop_last() =~= word_pairs(hex_words(p)));
        assert(p.push(x) =~= bytes);
    }
}

/// Bytes written in hex read back as the same bytes.
pub proof fn unhex_reads_hex(bytes: Seq<u8>)
    ensures
        unhex_value(hex_text(bytes)) == Ok::<Seq<u8>, Seq<char>>(bytes),
{
    lemma_hex_gathers(bytes);
    if bytes.len() == 0 {
        assert(words(hex_text(bytes)) =~= hex_words(bytes));
    } else {
        lemma_hex_split(bytes);
        assert(hex_words(bytes.drop_last()).push(hex2(bytes.last())) =~= hex_words(bytes));
    }
}

// ---- laws ----

/// Bytes in hex take three characters each, the two digits and a blank, but for
/// the last, which no blank follows.
pub proof fn hex_is_two_digits_a_byte(bytes: Seq<u8>, i: int)
    requires
        0 <= i < bytes.len(),
    ensures
        ({
            let s = hex_text(bytes);
            &&& s.len() == 3 * bytes.len() - 1
            &&& s[3 * i] == digit_char(bytes[i] as int / 16)
            &&& s[3 * i + 1] == digit_char(bytes[i] as int % 16)
            &&& i + 1 < bytes.len() ==> s[3 * i + 2] == ' '
        }),
        hex_text(Seq::empty()) == Seq::<char>::empty(),
    decreases bytes.len(),
{
    if bytes.len() > 1 {
        let p = bytes.drop_last();
        if i < p.len() {
            hex_is_two_digits_a_byte(p, i);
        } else {
            hex_is_two_digits_a_byte(p, 0);
        }
    }
}

/// In groups, four bytes stand together, and a blank parts them from what
/// follows.
pub proof fn groups_are_four_bytes(a: Seq<u8>, b: Seq<u8>, x: u8)
    requires
        a.len() > 0,
        a.len() % 4 == 0,
        b.len() > 0,
    ensures
        groups_text(a + b) == groups_text(a).push(' ') + groups_text(b),
        groups_text(seq![x]) == hex2(x),
        b.len() < 4 ==> groups_text(b.push(x)) == groups_text(b) + hex2(x),
    decreases b.len(),
{
    let p = b.drop_last();
    assert((a + b).drop_last() =~= a + p);
    assert((a + b).last() == b.last());
    reveal_with_fuel(groups_text, 2);
    assert(seq![x].drop_last() =~= Seq::empty());
    assert(groups_text(seq![x]) =~= hex2(x));
    assert(b.push(x).drop_last() =~= b);
    if p.len() == 0 {
        assert(p =~= Seq::empty());
        assert(a + p =~= a);
        assert(groups_text(b) =~= hex2(b.last()));
    } else {
        groups_are_four_bytes(a, p, x);
        assert((a.len() + b.len() - 1) % 4 == (b.len() - 1) % 4);
        assert(groups_text(a + b) =~= groups_text(a).push(' ') + groups_text(b));
    }
}

proof fn lemma_gathered_adds(ps: Seq<Seq<u8>>, qs: Seq<Seq<u8>>)
    ensures
        gathered(ps + qs) == match gathered(ps) {
            Err(e) => Err(e),
            Ok(a) => match gathered(qs) {
                Err(e) => Err(e),
                Ok(b) => Ok(a + b),
            },
        },
    decreases qs.len(),
{
    if qs.len() == 0 {
        assert(ps + qs =~= ps);
        if gathered(ps) is Ok {
            assert(gathered(ps)->Ok_0 + Seq::<u8>::empty() =~= gathered(ps)->Ok_0);
        }
    } else {
        let p = qs.drop_last();
        lemma_gathered_adds(ps, p);
        assert((ps + qs).drop_last() =~= ps + p);
        assert((ps + qs).last() == qs.last());
        if gathered(ps) is Ok && gathered(p) is Ok && pair_byte(qs.last()) is Ok {
            let a = gathered(ps)->Ok_0;
            let b = gathered(p)->Ok_0;
            let x = pair_byte(qs.last())->Ok_0;
            assert((a + b).push(x) =~= a + b.push(x));
        }
    }
}

proof fn lemma_word_pairs_add(ws: Seq<Seq<char>>, vs: Seq<Seq<char>>)
    ensures
        word_pairs(ws + vs) == word_pairs(ws) + word_pairs(vs),
    decreases vs.len(),
{
    if vs.len() == 0 {
        assert(ws + vs =~= ws);
        assert(word_pairs(ws) + word_pairs(vs) =~= word_pairs(ws));
    } else {
        lemma_word_pairs_add(ws, vs.drop_last());
        assert((ws + vs).drop_last() =~= ws + vs.drop_last());
        assert((ws + vs).last() == vs.last());
        assert(word_pairs(ws + vs) =~= word_pairs(ws) + word_pairs(vs));
    }
}

/// Two stretches of hex with whitespace between them are the bytes of the one
/// and then those of the other. A fault in the first counts before one in the
/// second. Nothing spells no bytes.
pub proof fn hex_reads_from_left_to_right(s: Seq<char>, c: char, t: Seq<char>)
    requires
        white(c),
    ensures
        unhex_value(s.push(c) + t) == match unhex_value(s) {
            Err(e) => Err(e),
            Ok(a) => match unhex_value(t) {
                Err(e) => Err(e),
                Ok(b) => Ok(a + b),
            },
        },
        unhex_value(Seq::empty()) == Ok::<Seq<u8>, Seq<char>>(Seq::empty()),
{
    crate::text::whitespace_parts_words(s, c, t);
    lemma_word_pairs_add(words(s), words(t));
    lemma_gathered_adds(word_pairs(words(s)), word_pairs(words(t)));
    assert(words(Seq::empty()) =~= Seq::<Seq<char>>::empty());
}

/// Bytes in hex without blanks between them.
pub open spec fn run_text(bytes: Seq<u8>) -> Seq<char>
    decreases bytes.len(),
{
    if bytes.len() == 0 {
        Seq::empty()
    } else {
        run_text(bytes.drop_last()) + hex2(bytes.last())
    }
}

proof fn lemma_run_text(bytes: Seq<u8>)
    ensures
        run_text(bytes).len() == 2 * bytes.len(),
        forall|i: int| 0 <= i < bytes.len() ==> run_text(bytes).subrange(2 * i, 2 * i + 2) == hex2(#[trigger] bytes[i]),
        forall|j: int|
            0 <= j < run_text(bytes).len() ==> digit_value(#[trigger] run_text(bytes)[j], 16) is Some,
    decreases bytes.len(),
{
    if bytes.len() > 0 {
        let p = bytes.drop_last();
        lemma_run_text(p);
        let s = run_text(bytes);
        let q = run_text(p);
        assert forall|i: int| 0 <= i < bytes.len() implies s.subrange(2 * i, 2 * i + 2) == hex2(
            #[trigger] bytes[i],
        ) by {
            if i < p.len() {
                assert(p[i] == bytes[i]);
                assert(s.subrange(2 * i, 2 * i + 2) =~= q.subrange(2 * i, 2 * i + 2));
            } else {
                assert(s.subrange(2 * i, 2 * i + 2) =~= hex2(bytes[i]));
            }
        }
        assert forall|j: int| 0 <= j < s.len() implies digit_value(#[trigger] s[j], 16) is Some by {
            if j < q.len() {
                assert(s[j] == q[j]);
            }
        }
    }
}

proof fn lemma_all_pairs(bytes: Seq<u8>, ps: Seq<Seq<u8>>)
    requires
        ps.len() == bytes.len(),
        forall|i: int|
            0 <= i < ps.len() ==> #[trigger] ps[i] == vstd::utf8::encode_utf8(hex2(bytes[i])),
    ensures
        gathered(ps) == Ok::<Seq<u8>, Seq<char>>(bytes),
    decreases bytes.len(),
{
    if bytes.len() == 0 {
        assert(bytes =~= Seq::empty());
    } else {
        let b = bytes.drop_last();
        let p = ps.drop_last();
        assert forall|i: int| 0 <= i < p.len() implies #[trigger] p[i] == vstd::utf8::encode_utf8(
            hex2(b[i]),
        ) by {
            assert(p[i] == ps[i]);
        }
        lemma_all_pairs(b, p);
        lemma_hex_pair(bytes.last());
        assert(ps[ps.len() - 1] == vstd::utf8::encode_utf8(hex2(bytes[bytes.len() - 1])));
        assert(b.push(bytes.last()) =~= bytes);
    }
}

/// Bytes need no blanks between them: a run of digits is cut into pairs from
/// its start, with `0x` in front or without.
pub proof fn a_run_of_digits_is_cut_into_pairs(bytes: Seq<u8>)
    requires
        bytes.len() > 0,
    ensures
        unhex_value(run_text(bytes)) == Ok::<Seq<u8>, Seq<char>>(bytes),
        unhex_value(seq!['0', 'x'] + run_text(bytes)) == Ok::<Seq<u8>, Seq<char>>(bytes),
{
    let w = run_text(bytes);
    lemma_run_text(bytes);
    assert forall|j: int| 0 <= j < w.len() implies !white(#[trigger] w[j]) by {
        assert(digit_value(w[j], 16) is Some);
    }
    crate::text::whitespace_parts_words(w, ' ', Seq::empty());
    assert(digit_value(w[1], 16) is Some);
    assert(unprefixed(w) == w);
    lemma_one_word_of_digits(w, bytes);
    let x = seq!['0', 'x'] + w;
    assert forall|j: int| 0 <= j < x.len() implies !white(#[trigger] x[j]) by {
        if j >= 2 {
            assert(x[j] == w[j - 2]);
        }
    }
    crate::text::whitespace_parts_words(x, ' ', Seq::empty());
    assert(unprefixed(x) =~= w);
    reveal_with_fuel(word_pairs, 2);
    assert(seq![w].drop_last() =~= Seq::empty());
    assert(seq![x].drop_last() =~= Seq::empty());
    assert(word_pairs(seq![w]) =~= pairs(vstd::utf8::encode_utf8(w)));
    assert(word_pairs(seq![x]) =~= pairs(vstd::utf8::encode_utf8(w)));
}

#[verifier::rlimit(30)]
proof fn lemma_one_word_of_digits(w: Seq<char>, bytes: Seq<u8>)
    requires
        w == run_text(bytes),
    ensures
        gathered(pairs(vstd::utf8::encode_utf8(w))) == Ok::<Seq<u8>, Seq<char>>(bytes),
{
    lemma_run_text(bytes);
    let e = vstd::utf8::encode_utf8(w);
    assert forall|j: int| 0 <= j < w.len() implies '\0' <= #[trigger] w[j] <= '\u{7f}' by {
        assert(digit_value(w[j], 16) is Some);
    }
    vstd::utf8::is_ascii_chars_encode_utf8(w);
    let ps = pairs(e);
    assert forall|i: int| 0 <= i < ps.len() implies #[trigger] ps[i] == vstd::utf8::encode_utf8(
        hex2(bytes[i]),
    ) by {
        let h = hex2(bytes[i]);
        assert(w.subrange(2 * i, 2 * i + 2) == h);
        assert(h[0] == w[2 * i] && h[1] == w[2 * i + 1]);
        vstd::utf8::is_ascii_chars_encode_utf8(h);
        assert(ps[i] =~= vstd::utf8::encode_utf8(h));
    }
    lemma_all_pairs(bytes, ps);
}

/// So many bytes and no others: the text is taken exactly if it spells as many,
/// and a wrong number is named after the words given.
pub proof fn so_many_bytes_and_no_others(s: Seq<char>, n: int, what: Seq<char>)
    ensures
        ({
            let r = exact_value(s, n, what);
            match unhex_value(s) {
                Ok(v) => if v.len() == n {
                    r == Ok::<Seq<u8>, Seq<char>>(v)
                } else {
                    r == Err::<Seq<u8>, Seq<char>>(what + dec_text(v.len()))
                },
                Err(e) => r == Err::<Seq<u8>, Seq<char>>(e),
            }
        }),
{
}

/// A byte given in hex is the byte that its digits spell, with `0x` in front or
/// without.
pub proof fn a_hex_argument_is_its_byte(b: u8)
    ensures
        hexarg_value(hex2(b)) == Ok::<u8, Seq<char>>(b),
        hexarg_value(seq!['0', 'x'] + hex2(b)) == Ok::<u8, Seq<char>>(b),
{
    let w = hex2(b);
    let hi = b as int / 16;
    let lo = b as int % 16;
    assert(digit_value(digit_char(hi), 16) == Some(hi as nat));
    assert(digit_value(digit_char(lo), 16) == Some(lo as nat));
    reveal_with_fuel(digits_value, 3);
    assert(w.drop_last().drop_last() =~= Seq::empty());
    assert(digits_value(w, 16) == hi * 16 + lo);
    assert(unprefixed(w) == w);
    assert(unprefixed(seq!['0', 'x'] + w) =~= w);
    assert(unsigned_value(w, 16, 255) == Some(b as nat));
}

/// The views keep the bytes, or the complaint.
pub proof fn results_keep_their_bytes(v: Vec<u8>, a: [u8; 6], e: String)
    ensures
        vec_result(Ok(v)) == Ok::<Seq<u8>, Seq<char>>(v@),
        vec_result(Err(e)) == Err::<Seq<u8>, Seq<char>>(e@),
        array_result::<6>(Ok(a)) == Ok::<Seq<u8>, Seq<char>>(a@),
        array_result::<6>(Err(e)) == Err::<Seq<u8>, Seq<char>>(e@),
{
}

} // verus!
