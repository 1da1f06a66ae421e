//! EM4100 tags: the 64-bit frame they emit and the ways their ID is written.

use crate::hexes::{array_result, exact_value, hex, hex_text, quoted, quoted_text, unhex_exact};
use crate::number::{all_digits, digits_value, parse_dec, unsigned_value};
use crate::text::{
    chars_of, dec, dec_text, left_padded, pad_left, trim, trimmed,
};
use vstd::prelude::*;

verus! {

// ---- the frame ----

/// Nibble `g` of an ID, high nibble of each byte first.
pub open spec fn nibble(id: Seq<u8>, g: int) -> int {
    if g % 2 == 0 {
        id[g / 2] as int / 16
    } else {
        id[g / 2] as int % 16
    }
}

/// Bit `pos` of a nibble, most significant first.
pub open spec fn nibble_bit(n: int, pos: int) -> int {
    if pos == 0 {
        n / 8 % 2
    } else if pos == 1 {
        n / 4 % 2
    } else if pos == 2 {
        n / 2 % 2
    } else {
        n % 2
    }
}

/// Even parity over the four bits of a nibble.
pub open spec fn row_parity(n: int) -> int {
    (nibble_bit(n, 0) + nibble_bit(n, 1) + nibble_bit(n, 2) + nibble_bit(n, 3)) % 2
}

/// How many of the first `k` nibbles have bit `pos` set.
pub open spec fn column_count(id: Seq<u8>, pos: int, k: int) -> int
    decreases k,
{
    if k <= 0 {
        0
    } else {
        column_count(id, pos, k - 1) + nibble_bit(nibble(id, k - 1), pos)
    }
}

/// The frame from its first bit to its last: nine ones, each of the ten nibbles
/// followed by its even parity bit, four column parity bits, a zero.
pub open spec fn frame_bit(id: Seq<u8>, i: int) -> int {
    if i < 9 {
        1
    } else if i < 59 {
        let n = nibble(id, (i - 9) / 5);
        if (i - 9) % 5 < 4 {
            nibble_bit(n, (i - 9) % 5)
        } else {
            row_parity(n)
        }
    } else if i < 63 {
        column_count(id, i - 59, 10) % 2
    } else {
        0
    }
}

/// The number that the first `k` bits of the frame make.
pub open spec fn frame_value(id: Seq<u8>, k: int) -> nat
    decreases k,
{
    if k <= 0 {
        0
    } else {
        2 * frame_value(id, k - 1) + frame_bit(id, k - 1) as nat
    }
}

proof fn lemma_nibble_range(id: Seq<u8>, g: int)
    requires
        id.len() == 5,
        0 <= g < 10,
    ensures
        0 <= nibble(id, g) < 16,
{
}

proof fn lemma_column_positive(id: Seq<u8>, pos: int, k: int)
    requires
        id.len() == 5,
        0 <= k <= 10,
        0 <= pos < 4,
    ensures
        0 <= column_count(id, pos, k) <= k,
    decreases k,
{
    if k > 0 {
        lemma_column_positive(id, pos, k - 1);
        lemma_nibble_range(id, k - 1);
    }
}

proof fn lemma_bit_is_binary(id: Seq<u8>, i: int)
    requires
        id.len() == 5,
        0 <= i < 64,
    ensures
        frame_bit(id, i) == 0 || frame_bit(id, i) == 1,
{
    if 9 <= i < 59 {
        lemma_nibble_range(id, (i - 9) / 5);
    } else if 59 <= i < 63 {
        lemma_column_positive(id, i - 59, 10);
    }
}

/// Append one bit to a number that has room for it.
fn shift_in(f: u64, b: u8) -> (r: u64)
    requires
        f < 0x8000_0000_0000_0000,
        b <= 1,
    ensures
        r == 2 * f + b,
{
    2 * f + b as u64
}

proof fn lemma_frame_bound(id: Seq<u8>, k: int)
    requires
        id.len() == 5,
        0 <= k <= 64,
    ensures
        frame_value(id, k) < vstd::arithmetic::power2::pow2(k as nat),
    decreases k,
{
    vstd::arithmetic::power2::lemma2_to64();
    if k > 0 {
        lemma_frame_bound(id, k - 1);
        lemma_bit_is_binary(id, k - 1);
        vstd::arithmetic::power2::lemma_pow2_unfold(k as nat);
    }
}

proof fn lemma_room(id: Seq<u8>, k: int)
    requires
        id.len() == 5,
        0 <= k <= 63,
    ensures
        frame_value(id, k) < 0x8000_0000_0000_0000,
{
    lemma_frame_bound(id, k);
    vstd::arithmetic::power2::lemma2_to64_rest();
    if k < 63 {
        vstd::arithmetic::power2::lemma_pow2_strictly_increases(k as nat, 63);
    }
}

proof fn lemma_header(id: Seq<u8>)
    ensures
        frame_value(id, 9) == 0x1ff,
{
    reveal_with_fuel(frame_value, 10);
}

fn parity_flip(c: u8, b: u8) -> (r: u8)
    requires
        c <= 1,
        b <= 1,
    ensures
        r == (c + b) % 2,
{
    assert(c ^ b == (c + b) % 2) by (bit_vector)
        requires
            c <= 1,
            b <= 1,
    ;
    c ^ b
}

fn row_of(b0: u8, b1: u8, b2: u8, b3: u8) -> (r: u8)
    requires
        b0 <= 1,
        b1 <= 1,
        b2 <= 1,
        b3 <= 1,
    ensures
        r == (b0 + b1 + b2 + b3) % 2,
        r <= 1,
{
    parity_flip(parity_flip(parity_flip(b0, b1), b2), b3)
}

fn flipped(c: [u8; 4], b: [u8; 4]) -> (r: [u8; 4])
    requires
        forall|p: int| 0 <= p < 4 ==> #[trigger] c[p] <= 1,
        forall|p: int| 0 <= p < 4 ==> #[trigger] b[p] <= 1,
    ensures
        forall|p: int| 0 <= p < 4 ==> #[trigger] r[p] == (c[p] + b[p]) % 2,
{
    [
        parity_flip(c[0], b[0]),
        parity_flip(c[1], b[1]),
        parity_flip(c[2], b[2]),
        parity_flip(c[3], b[3]),
    ]
}

fn nibble_at(id: &[u8; 5], g: usize) -> (r: u8)
    requires
        g < 10,
    ensures
        r == nibble(id@, g as int),
        r < 16,
{
    let b: u8 = id[g / 2];
    if g % 2 == 0 {
        b / 16
    } else {
        b % 16
    }
}

fn bit_at(n: u8, pos: usize) -> (r: u8)
    requires
        pos < 4,
    ensures
        r == nibble_bit(n as int, pos as int),
        r <= 1,
{
    if pos == 0 {
        n / 8 % 2
    } else if pos == 1 {
        n / 4 % 2
    } else if pos == 2 {
        n / 2 % 2
    } else {
        n % 2
    }
}

/// What one nibble and its parity bit add to the frame.
proof fn lemma_group(id: Seq<u8>, g: int)
    requires
        id.len() == 5,
        0 <= g < 10,
    ensures
        ({
            let n = nibble(id, g);
            let v = frame_value(id, 9 + 5 * g);
            let v1 = 2 * v + nibble_bit(n, 0);
            let v2 = 2 * v1 + nibble_bit(n, 1);
            let v3 = 2 * v2 + nibble_bit(n, 2);
            let v4 = 2 * v3 + nibble_bit(n, 3);
            &&& v < 0x8000_0000_0000_0000
            &&& v1 < 0x8000_0000_0000_0000
            &&& v2 < 0x8000_0000_0000_0000
            &&& v3 < 0x8000_0000_0000_0000
            &&& v4 < 0x8000_0000_0000_0000
            &&& frame_value(id, 9 + 5 * (g + 1)) == 2 * v4 + row_parity(n)
        }),
        forall|p: int|
            0 <= p < 4 ==> #[trigger] column_count(id, p, g + 1) == column_count(id, p, g)
                + nibble_bit(nibble(id, g), p),
        forall|p: int| 0 <= p < 4 ==> 0 <= #[trigger] column_count(id, p, g),
{
    let k = 9 + 5 * g;
    lemma_room(id, k);
    lemma_room(id, k + 1);
    lemma_room(id, k + 2);
    lemma_room(id, k + 3);
    lemma_room(id, k + 4);
    lemma_nibble_range(id, g);
    assert(frame_bit(id, k) == nibble_bit(nibble(id, g), 0));
    assert(frame_bit(id, k + 1) == nibble_bit(nibble(id, g), 1));
    assert(frame_bit(id, k + 2) == nibble_bit(nibble(id, g), 2));
    assert(frame_bit(id, k + 3) == nibble_bit(nibble(id, g), 3));
    assert(frame_bit(id, k + 4) == row_parity(nibble(id, g)));
    assert forall|p: int| 0 <= p < 4 implies 0 <= #[trigger] column_count(id, p, g) by {
        lemma_column_positive(id, p, g);
    }
}

/// Nine 1 bits, each of the ten nibbles followed by its own even parity bit,
/// four column parity bits across the nibbles, a 0 stop bit. 9 + 50 + 4 + 1.
#[verifier::rlimit(30)]
pub fn em4100_frame(id: [u8; 5]) -> (f: u64)
    ensures
        f == frame_value(id@, 64),
{
    let mut f: u64 = 0x1ff;
    let mut col: [u8; 4] = [0, 0, 0, 0];
    proof {
        lemma_header(id@);
    }
    let mut g: usize = 0;
    while g < 10
        invariant
            g <= 10,
            id@.len() == 5,
            f == frame_value(id@, 9 + 5 * g),
            col@.len() == 4,
            forall|p: int|
                0 <= p < 4 ==> (#[trigger] col[p]) == column_count(id@, p, g as int) % 2,
        decreases 10 - g,
    {
        let n: u8 = nibble_at(&id, g);
        let b0: u8 = bit_at(n, 0);
        let b1: u8 = bit_at(n, 1);
        let b2: u8 = bit_at(n, 2);
        let b3: u8 = bit_at(n, 3);
        proof {
            lemma_group(id@, g as int);
        }
        let row: u8 = row_of(b0, b1, b2, b3);
        let ghost before = col@;
        col = flipped(col, [b0, b1, b2, b3]);
        assert forall|p: int| 0 <= p < 4 implies (#[trigger] col[p]) == column_count(
            id@,
            p,
            g + 1,
        ) % 2 by {
            assert(before[p] == column_count(id@, p, g as int) % 2);
        }
        f = shift_in(shift_in(shift_in(shift_in(shift_in(f, b0), b1), b2), b3), row);
        g += 1;
    }
    let mut pos: usize = 0;
    while pos < 4
        invariant
            pos <= 4,
            id@.len() == 5,
            f == frame_value(id@, 59 + pos),
            col@.len() == 4,
            forall|p: int| 0 <= p < 4 ==> (#[trigger] col[p]) == column_count(id@, p, 10) % 2,
        decreases 4 - pos,
    {
        proof {
            lemma_room(id@, 59 + pos);
            lemma_column_positive(id@, pos as int, 10);
            assert(frame_bit(id@, 59 + pos) == col[pos as int]);
        }
        f = shift_in(f, col[pos]);
        pos += 1;
    }
    proof {
        lemma_room(id@, 63);
    }
    shift_in(f, 0)
}

// ---- the frame as blocks ----

/// ASK/Manchester, RF/64, two data blocks, no password. A blank has no valid
/// config and is invisible to the reader until this is written.
pub const T5577_EM4100: [u8; 4] = [0x00, 0x14, 0x80, 0x40];

/// Sixty-four bits, high byte first.
pub open spec fn be64(n: nat) -> Seq<u8> {
    seq![
        (n / 0x100_0000_0000_0000 % 256) as u8,
        (n / 0x1_0000_0000_0000 % 256) as u8,
        (n / 0x100_0000_0000 % 256) as u8,
        (n / 0x1_0000_0000 % 256) as u8,
        (n / 0x100_0000 % 256) as u8,
        (n / 0x1_0000 % 256) as u8,
        (n / 0x100 % 256) as u8,
        (n % 256) as u8,
    ]
}

/// The frame as the bytes that go onto a tag.
pub open spec fn frame_bytes_of(id: Seq<u8>) -> Seq<u8> {
    be64(frame_value(id, 64))
}

pub fn frame_bytes(id: [u8; 5]) -> (r: [u8; 8])
    ensures
        r@ == frame_bytes_of(id@),
{
    let n: u64 = em4100_frame(id);
    let r: [u8; 8] = [
        (n / 0x100_0000_0000_0000 % 256) as u8,
        (n / 0x1_0000_0000_0000 % 256) as u8,
        (n / 0x100_0000_0000 % 256) as u8,
        (n / 0x1_0000_0000 % 256) as u8,
        (n / 0x100_0000 % 256) as u8,
        (n / 0x1_0000 % 256) as u8,
        (n / 0x100 % 256) as u8,
        (n % 256) as u8,
    ];
    assert(r@ =~= be64(n as nat));
    r
}

/// The block writes that put an ID on a T5577: the config word first if it is
/// asked for, then the two halves of the frame.
pub open spec fn plan_of(id: Seq<u8>, config: bool) -> Seq<(u8, Seq<u8>)> {
    let f = frame_bytes_of(id);
    let data = seq![(1u8, f.subrange(0, 4)), (2u8, f.subrange(4, 8))];
    if config {
        seq![(0u8, T5577_EM4100@)] + data
    } else {
        data
    }
}

/// What a list of block writes says.
pub open spec fn plan_view(plan: Seq<(u8, [u8; 4])>) -> Seq<(u8, Seq<u8>)> {
    plan.map_values(|w: (u8, [u8; 4])| (w.0, w.1@))
}

pub fn write_plan(id: [u8; 5], config: bool) -> (r: Vec<(u8, [u8; 4])>)
    ensures
        plan_view(r@) == plan_of(id@, config),
{
    let f = frame_bytes(id);
    let b1: [u8; 4] = [f[0], f[1], f[2], f[3]];
    let b2: [u8; 4] = [f[4], f[5], f[6], f[7]];
    assert(b1@ =~= f@.subrange(0, 4));
    assert(b2@ =~= f@.subrange(4, 8));
    let mut plan: Vec<(u8, [u8; 4])> = Vec::new();
    if config {
        plan.push((0, T5577_EM4100));
    }
    plan.push((1, b1));
    plan.push((2, b2));
    assert(plan_view(plan@) =~= plan_of(id@, config));
    plan
}

// ---- the ID in writing ----

/// The ways an EM4100 ID gets written. The decimal forms describe only part of
/// the 40 bits; converting needs the rest of the ID to fall back on.
#[derive(Clone, Copy, Debug, PartialEq, Eq, Structural)]
pub enum IdForm {
    Hex,
    /// Bytes 1-4 as one big-endian number, ten digits.
    Dec10,
    /// Byte 2 as three digits, then bytes 3-4 as a number in five digits.
    Dec35,
}

/// What a form is called.
pub open spec fn form_label(form: IdForm) -> Seq<char> {
    match form {
        IdForm::Hex => "hex"@,
        IdForm::Dec10 => "dec10"@,
        IdForm::Dec35 => "dec3+5"@,
    }
}

/// What a form says about the bytes it sets.
pub open spec fn form_covers(form: IdForm) -> Seq<char> {
    match form {
        IdForm::Hex => "Sets all five bytes."@,
        IdForm::Dec10 => "Sets bytes 1-4. Byte 0 keeps its current value."@,
        IdForm::Dec35 => "Sets bytes 2-4. Bytes 0 and 1 keep their current values."@,
    }
}

/// The form after this one, in a ring.
pub open spec fn form_after(form: IdForm) -> IdForm {
    match form {
        IdForm::Hex => IdForm::Dec10,
        IdForm::Dec10 => IdForm::Dec35,
        IdForm::Dec35 => IdForm::Hex,
    }
}

/// The form before this one, in a ring.
pub open spec fn form_before(form: IdForm) -> IdForm {
    match form {
        IdForm::Hex => IdForm::Dec35,
        IdForm::Dec10 => IdForm::Hex,
        IdForm::Dec35 => IdForm::Dec10,
    }
}

impl IdForm {
    pub const ALL: [IdForm; 3] = [IdForm::Hex, IdForm::Dec10, IdForm::Dec35];

    pub fn label(self) -> (r: &'static str)
        ensures
            r@ == form_label(self),
    {
        match self {
            IdForm::Hex => "hex",
            IdForm::Dec10 => "dec10",
            IdForm::Dec35 => "dec3+5",
        }
    }

    /// Which bytes this form sets.
    pub fn covers(self) -> (r: &'static str)
        ensures
            r@ == form_covers(self),
    {
        match self {
            IdForm::Hex => "Sets all five bytes.",
            IdForm::Dec10 => "Sets bytes 1-4. Byte 0 keeps its current value.",
            IdForm::Dec35 => "Sets bytes 2-4. Bytes 0 and 1 keep their current values.",
        }
    }

    /// One step through the forms, in a ring.
    pub fn step(self, back: bool) -> (r: IdForm)
        ensures
            r == if back {
                form_before(self)
            } else {
                form_after(self)
            },
    {
        match (self, back) {
            (IdForm::Hex, false) => IdForm::Dec10,
            (IdForm::Dec10, false) => IdForm::Dec35,
            (IdForm::Dec35, false) => IdForm::Hex,
            (IdForm::Hex, true) => IdForm::Dec35,
            (IdForm::Dec10, true) => IdForm::Hex,
            (IdForm::Dec35, true) => IdForm::Dec10,
        }
    }
}

/// Bytes 1-4 as one number.
pub open spec fn low32(id: Seq<u8>) -> nat {
    (id[1] * 0x100_0000 + id[2] * 0x1_0000 + id[3] * 0x100 + id[4]) as nat
}

/// Bytes 3-4 as one number.
pub open spec fn low16(id: Seq<u8>) -> nat {
    (id[3] * 0x100 + id[4]) as nat
}

/// Two IDs are the same byte for byte.
pub fn same_id(a: [u8; 5], b: [u8; 5]) -> (r: bool)
    ensures
        r == (a@ == b@),
{
    let r = a[0] == b[0] && a[1] == b[1] && a[2] == b[2] && a[3] == b[3] && a[4] == b[4];
    assert(r ==> a@ =~= b@);
    r
}

/// An ID in one of its forms.
pub open spec fn em4100_text(id: Seq<u8>, form: IdForm) -> Seq<char> {
    match form {
        IdForm::Hex => hex_text(id),
        IdForm::Dec10 => pad_left(dec_text(low32(id)), 10, '0'),
        IdForm::Dec35 => pad_left(dec_text(id[2] as nat), 3, '0') + pad_left(
            dec_text(low16(id)),
            5,
            '0',
        ),
    }
}

pub fn em4100_show(id: [u8; 5], form: IdForm) -> (r: String)
    ensures
        r@ == em4100_text(id@, form),
{
    match form {
        IdForm::Hex => hex(id.as_slice()),
        IdForm::Dec10 => {
            let n: u64 = id[1] as u64 * 0x100_0000 + id[2] as u64 * 0x1_0000 + id[3] as u64 * 0x100
                + id[4] as u64;
            left_padded(dec(n).as_str(), 10, '0')
        },
        IdForm::Dec35 => {
            let n: u64 = id[3] as u64 * 0x100 + id[4] as u64;
            left_padded(dec(id[2] as u64).as_str(), 3, '0').concat(
                left_padded(dec(n).as_str(), 5, '0').as_str(),
            )
        },
    }
}

/// The ID that a text stands for, the bytes the form does not mention taken from
/// `base`, or what is wrong with the text.
pub open spec fn em4100_value(s: Seq<char>, form: IdForm, base: Seq<u8>) -> Result<
    Seq<u8>,
    Seq<char>,
> {
    let t = trimmed(s);
    match form {
        IdForm::Hex => exact_value(t, 5, "an ID is 5 bytes, got "@),
        IdForm::Dec10 => match unsigned_value(t, 10, 0xffff_ffff) {
            None => Err(quoted_text(t) + " is not a number"@),
            Some(n) => Ok(
                seq![
                    base[0],
                    (n / 0x100_0000) as u8,
                    (n / 0x1_0000 % 256) as u8,
                    (n / 0x100 % 256) as u8,
                    (n % 256) as u8,
                ],
            ),
        },
        IdForm::Dec35 => if t.len() != 8 || !all_digits(t, 10) {
            Err("dec3+5 is exactly 8 digits, e.g. 08630874"@)
        } else if digits_value(t.take(3), 10) > 255 {
            Err("first 3 digits exceed 255"@)
        } else if digits_value(t.skip(3), 10) > 65535 {
            Err("last 5 digits exceed 65535"@)
        } else {
            let n = digits_value(t.skip(3), 10);
            Ok(
                seq![
                    base[0],
                    base[1],
                    digits_value(t.take(3), 10) as u8,
                    (n / 256) as u8,
                    (n % 256) as u8,
                ],
            )
        },
    }
}

fn digits_only(v: &Vec<char>) -> (r: bool)
    ensures
        r == all_digits(v@, 10),
{
    let n: usize = v.len();
    let mut i: usize = 0;
    while i < n
        invariant
            i <= n == v@.len(),
            forall|j: int|
                0 <= j < i ==> crate::number::digit_value(#[trigger] v@[j], 10) is Some,
        decreases n - i,
    {
        if crate::number::dec_digit(v[i]).is_none() {
            return false;
        }
        i += 1;
    }
    true
}

/// `base` supplies the bytes the form doesn't mention.
pub fn em4100_parse(s: &str, form: IdForm, base: [u8; 5]) -> (r: Result<[u8; 5], String>)
    ensures
        array_result(r) == em4100_value(s@, form, base@),
{
    let all = chars_of(s);
    let t = trim(&all);
    match form {
        IdForm::Hex => match unhex_exact(t.as_str(), 5, "an ID is 5 bytes, got ") {
            Err(e) => Err(e),
            Ok(v) => {
                let id: [u8; 5] = [v[0], v[1], v[2], v[3], v[4]];
                assert(id@ =~= v@);
                Ok(id)
            },
        },
        IdForm::Dec10 => {
            let v = chars_of(t.as_str());
            match parse_dec(v.as_slice(), 0xffff_ffff) {
                None => Err(quoted(t.as_str()).concat(" is not a number")),
                Some(n) => {
                    let id: [u8; 5] = [
                        base[0],
                        (n / 0x100_0000) as u8,
                        (n / 0x1_0000 % 256) as u8,
                        (n / 0x100 % 256) as u8,
                        (n % 256) as u8,
                    ];
                    assert(id@ =~= em4100_value(s@, form, base@)->Ok_0);
                    Ok(id)
                },
            }
        },
        IdForm::Dec35 => {
            let v = chars_of(t.as_str());
            if v.len() != 8 || !digits_only(&v) {
                return Err("dec3+5 is exactly 8 digits, e.g. 08630874".to_owned());
            }
            let a = vstd::slice::slice_subrange(v.as_slice(), 0, 3);
            let b = vstd::slice::slice_subrange(v.as_slice(), 3, 8);
            assert(a@ =~= v@.take(3));
            assert(b@ =~= v@.skip(3));
            assert(crate::number::digit_value(v@[0], 10) is Some);
            assert(crate::number::digit_value(v@[3], 10) is Some);
            match (parse_dec(a, 255), parse_dec(b, 65535)) {
                (None, _) => Err("first 3 digits exceed 255".to_owned()),
                (Some(_), None) => Err("last 5 digits exceed 65535".to_owned()),
                (Some(cc), Some(n)) => {
                    let id: [u8; 5] = [
                        base[0],
                        base[1],
                        cc as u8,
                        (n / 256) as u8,
                        (n % 256) as u8,
                    ];
                    assert(id@ =~= em4100_value(s@, form, base@)->Ok_0);
                    Ok(id)
                },
            }
        },
    }
}

// ---- laws of the frame ----

proof fn lemma_frame_prefix_bit(id: Seq<u8>, i: int, k: int)
    requires
        id.len() == 5,
        0 <= i < k <= 64,
    ensures
        frame_value(id, k) as int / vstd::arithmetic::power2::pow2((k - 1 - i) as nat) as int % 2
            == frame_bit(id, i),
    decreases k - i,
{
    use_pow2_facts();
    lemma_bit_is_binary(id, k - 1);
    let q = vstd::arithmetic::power2::pow2((k - 1 - i) as nat) as int;
    if i == k - 1 {
        assert(q == 1);
        assert(frame_value(id, k) as int / q == frame_value(id, k));
    } else {
        lemma_frame_prefix_bit(id, i, k - 1);
        let a = frame_value(id, k - 1) as int;
        let b = frame_bit(id, k - 1);
        let p = vstd::arithmetic::power2::pow2((k - 2 - i) as nat) as int;
        vstd::arithmetic::power2::lemma_pow2_unfold((k - 1 - i) as nat);
        vstd::arithmetic::power2::lemma_pow2_pos((k - 2 - i) as nat);
        vstd::arithmetic::div_mod::lemma_div_denominator(2 * a + b, 2, p);
        assert((2 * a + b) / 2 == a);
        assert(q == 2 * p);
        assert(frame_value(id, k) == 2 * a + b);
        assert(frame_value(id, k) as int / q == a / p);
    }
}

proof fn use_pow2_facts()
    ensures
        vstd::arithmetic::power2::pow2(0) == 1,
{
    vstd::arithmetic::power2::lemma2_to64();
}

/// Bit `i` of the 64, counted from the most significant, is the frame's bit `i`.
pub proof fn frame_shows_each_bit(id: Seq<u8>, i: int)
    requires
        id.len() == 5,
        0 <= i < 64,
    ensures
        frame_value(id, 64) as int / vstd::arithmetic::power2::pow2((63 - i) as nat) as int % 2
            == frame_bit(id, i),
{
    lemma_frame_prefix_bit(id, i, 64);
}

/// The frame fits sixty-four bits, starts with nine ones and ends with a zero,
/// every nibble with its parity bit holds an even number of ones, and so does
/// every column of the nibbles with its own.
pub proof fn frame_has_even_parity(id: Seq<u8>)
    requires
        id.len() == 5,
    ensures
        frame_value(id, 64) < 0x1_0000_0000_0000_0000,
        forall|i: int| 0 <= i < 9 ==> frame_bit(id, i) == 1,
        frame_bit(id, 63) == 0,
        forall|g: int|
            0 <= g < 10 ==> #[trigger] even(
                frame_bit(id, 9 + 5 * g) + frame_bit(id, 10 + 5 * g) + frame_bit(id, 11 + 5 * g)
                    + frame_bit(id, 12 + 5 * g) + frame_bit(id, 13 + 5 * g),
            ),
        forall|p: int|
            0 <= p < 4 ==> even(column_count(id, p, 10) + #[trigger] frame_bit(id, 59 + p)),
{
    lemma_frame_bound(id, 64);
    vstd::arithmetic::power2::lemma2_to64();
    assert forall|g: int| 0 <= g < 10 implies #[trigger] even(
        frame_bit(id, 9 + 5 * g) + frame_bit(id, 10 + 5 * g) + frame_bit(id, 11 + 5 * g)
            + frame_bit(id, 12 + 5 * g) + frame_bit(id, 13 + 5 * g),
    ) by {
        let n = nibble(id, g);
        lemma_nibble_range(id, g);
        assert(frame_bit(id, 9 + 5 * g) == nibble_bit(n, 0));
        assert(frame_bit(id, 10 + 5 * g) == nibble_bit(n, 1));
        assert(frame_bit(id, 11 + 5 * g) == nibble_bit(n, 2));
        assert(frame_bit(id, 12 + 5 * g) == nibble_bit(n, 3));
        assert(frame_bit(id, 13 + 5 * g) == row_parity(n));
    }
    assert forall|p: int| 0 <= p < 4 implies even(
        column_count(id, p, 10) + #[trigger] frame_bit(id, 59 + p),
    ) by {
        lemma_column_positive(id, p, 10);
        assert(frame_bit(id, 59 + p) == column_count(id, p, 10) % 2);
    }
}

/// Divisible by two.
pub open spec fn even(n: int) -> bool {
    n % 2 == 0
}

/// Two different IDs never make the same frame, so a frame tells which ID it
/// carries.
pub proof fn frame_tells_ids_apart(a: Seq<u8>, b: Seq<u8>)
    requires
        a.len() == 5,
        b.len() == 5,
        frame_value(a, 64) == frame_value(b, 64),
    ensures
        a == b,
{
    assert forall|g: int| 0 <= g < 10 implies nibble(a, g) == nibble(b, g) by {
        lemma_nibble_range(a, g);
        lemma_nibble_range(b, g);
        frame_shows_each_bit(a, 9 + 5 * g);
        frame_shows_each_bit(b, 9 + 5 * g);
        frame_shows_each_bit(a, 10 + 5 * g);
        frame_shows_each_bit(b, 10 + 5 * g);
        frame_shows_each_bit(a, 11 + 5 * g);
        frame_shows_each_bit(b, 11 + 5 * g);
        frame_shows_each_bit(a, 12 + 5 * g);
        frame_shows_each_bit(b, 12 + 5 * g);
        lemma_nibble_from_bits(nibble(a, g), nibble(b, g));
    }
    assert forall|i: int| 0 <= i < 5 implies a[i] == b[i] by {
        assert(nibble(a, 2 * i) == nibble(b, 2 * i));
        assert(nibble(a, 2 * i + 1) == nibble(b, 2 * i + 1));
    }
    assert(a =~= b);
}

proof fn lemma_nibble_from_bits(m: int, n: int)
    requires
        0 <= m < 16,
        0 <= n < 16,
        nibble_bit(m, 0) == nibble_bit(n, 0),
        nibble_bit(m, 1) == nibble_bit(n, 1),
        nibble_bit(m, 2) == nibble_bit(n, 2),
        nibble_bit(m, 3) == nibble_bit(n, 3),
    ensures
        m == n,
{
    assert(m == 8 * nibble_bit(m, 0) + 4 * nibble_bit(m, 1) + 2 * nibble_bit(m, 2) + nibble_bit(
        m,
        3,
    ));
    assert(n == 8 * nibble_bit(n, 0) + 4 * nibble_bit(n, 1) + 2 * nibble_bit(n, 2) + nibble_bit(
        n,
        3,
    ));
}

// ---- laws of the forms ----

/// Up and down through the forms undo each other, and three steps come round.
pub proof fn forms_go_round(form: IdForm)
    ensures
        form_before(form_after(form)) == form,
        form_after(form_before(form)) == form,
        form_after(form_after(form_after(form))) == form,
{
}

/// A form leaves alone the bytes it does not describe.
pub proof fn undescribed_bytes_stay(s: Seq<char>, form: IdForm, base: Seq<u8>)
    requires
        base.len() == 5,
        em4100_value(s, form, base) is Ok,
    ensures
        em4100_value(s, form, base)->Ok_0.len() == 5,
        form != IdForm::Hex ==> em4100_value(s, form, base)->Ok_0[0] == base[0],
        form == IdForm::Dec35 ==> em4100_value(s, form, base)->Ok_0[1] == base[1],
{
}

proof fn lemma_untrimmed(s: Seq<char>)
    requires
        s.len() > 0,
        !crate::text::white(s[0]),
        !crate::text::white(s.last()),
    ensures
        trimmed(s) == s,
{
}

proof fn lemma_digit_plain(s: Seq<char>, i: int)
    requires
        all_digits(s, 10),
        0 <= i < s.len(),
    ensures
        !crate::text::white(s[i]),
        s[i] != '+',
{
    assert(crate::number::digit_value(s[i], 10) is Some);
}

proof fn lemma_padded_reads_back(n: nat, w: int)
    ensures
        pad_left(dec_text(n), w, '0').len() > 0,
        all_digits(pad_left(dec_text(n), w, '0'), 10),
        digits_value(pad_left(dec_text(n), w, '0'), 10) == n,
{
    crate::number::dec_text_reads_back(n);
    crate::number::leading_zeros_are_nothing(w - dec_text(n).len(), dec_text(n));
}

proof fn lemma_dec_width(n: nat)
    ensures
        n < 1000 ==> dec_text(n).len() <= 3,
        n < 100000 ==> dec_text(n).len() <= 5,
{
    reveal_with_fuel(dec_text, 6);
}

/// An ID with another's bytes where a form leaves them out.
pub open spec fn filled_from(id: Seq<u8>, form: IdForm, base: Seq<u8>) -> Seq<u8> {
    match form {
        IdForm::Hex => id,
        IdForm::Dec10 => base.take(1) + id.skip(1),
        IdForm::Dec35 => base.take(2) + id.skip(2),
    }
}

/// An ID written in any form reads back in the same form as that ID, with the
/// bytes that the form leaves out taken from the base. So the same ID comes
/// back where the base is the ID itself.
pub proof fn forms_read_back(id: Seq<u8>, form: IdForm, base: Seq<u8>)
    requires
        id.len() == 5,
        base.len() == 5,
    ensures
        em4100_value(em4100_text(id, form), form, base) == Ok::<Seq<u8>, Seq<char>>(
            filled_from(id, form, base),
        ),
        filled_from(id, form, id) == id,
{
    assert(filled_from(id, form, id) =~= id);
    match form {
        IdForm::Hex => {
            lemma_hex_reads_back(id, base);
        },
        IdForm::Dec10 => {
            lemma_dec10_reads_back(id, base);
        },
        IdForm::Dec35 => {
            lemma_dec35_reads_back(id, base);
        },
    }
}

proof fn lemma_hex_reads_back(id: Seq<u8>, base: Seq<u8>)
    requires
        id.len() == 5,
    ensures
        em4100_value(em4100_text(id, IdForm::Hex), IdForm::Hex, base) == Ok::<Seq<u8>, Seq<char>>(
            id,
        ),
{
    crate::hexes::unhex_reads_hex(id);
    lemma_hex_edges(id);
    lemma_untrimmed(hex_text(id));
}

proof fn lemma_dec10_reads_back(id: Seq<u8>, base: Seq<u8>)
    requires
        id.len() == 5,
        base.len() == 5,
    ensures
        em4100_value(em4100_text(id, IdForm::Dec10), IdForm::Dec10, base) == Ok::<
            Seq<u8>,
            Seq<char>,
        >(filled_from(id, IdForm::Dec10, base)),
{
    let s = em4100_text(id, IdForm::Dec10);
    let n = low32(id);
    lemma_padded_reads_back(n, 10);
    lemma_digit_plain(s, 0);
    lemma_digit_plain(s, s.len() - 1);
    lemma_untrimmed(s);
    lemma_split32(id[1] as int, id[2] as int, id[3] as int, id[4] as int);
    assert(unsigned_value(s, 10, 0xffff_ffff) == Some(n));
    let v = em4100_value(s, IdForm::Dec10, base)->Ok_0;
    assert(v.len() == 5 && v[0] == base[0] && v[1] == id[1] && v[2] == id[2] && v[3] == id[3] && v[4]
        == id[4]);
    assert(v =~= filled_from(id, IdForm::Dec10, base));
}

proof fn lemma_split32(a: int, b: int, c: int, d: int)
    requires
        0 <= a < 256,
        0 <= b < 256,
        0 <= c < 256,
        0 <= d < 256,
    ensures
        ({
            let n = a * 0x100_0000 + b * 0x1_0000 + c * 0x100 + d;
            &&& n <= 0xffff_ffff
            &&& n / 0x100_0000 == a
            &&& n / 0x1_0000 % 256 == b
            &&& n / 0x100 % 256 == c
            &&& n % 256 == d
        }),
{
    let n = a * 0x100_0000 + b * 0x1_0000 + c * 0x100 + d;
    assert(n / 0x100 == a * 0x1_0000 + b * 0x100 + c);
    assert(n / 0x1_0000 == a * 0x100 + b);
}

proof fn lemma_dec35_reads_back(id: Seq<u8>, base: Seq<u8>)
    requires
        id.len() == 5,
        base.len() == 5,
    ensures
        em4100_value(em4100_text(id, IdForm::Dec35), IdForm::Dec35, base) == Ok::<
            Seq<u8>,
            Seq<char>,
        >(filled_from(id, IdForm::Dec35, base)),
{
    let s = em4100_text(id, IdForm::Dec35);
    let a = pad_left(dec_text(id[2] as nat), 3, '0');
    let b = pad_left(dec_text(low16(id)), 5, '0');
    lemma_padded_reads_back(id[2] as nat, 3);
    lemma_padded_reads_back(low16(id), 5);
    lemma_dec_width(id[2] as nat);
    lemma_dec_width(low16(id));
    assert(a.len() == 3 && b.len() == 5);
    assert(s.take(3) =~= a);
    assert(s.skip(3) =~= b);
    assert forall|i: int| 0 <= i < s.len() implies crate::number::digit_value(
        #[trigger] s[i],
        10,
    ) is Some by {
        if i < 3 {
            assert(s[i] == a[i]);
        } else {
            assert(s[i] == b[i - 3]);
        }
    }
    lemma_digit_plain(s, 0);
    lemma_digit_plain(s, 7);
    lemma_untrimmed(s);
    assert(em4100_value(s, IdForm::Dec35, base)->Ok_0 =~= filled_from(id, IdForm::Dec35, base));
}

proof fn lemma_hex_edges(id: Seq<u8>)
    requires
        id.len() == 5,
    ensures
        hex_text(id).len() == 14,
        !crate::text::white(hex_text(id)[0]),
        !crate::text::white(hex_text(id).last()),
{
    reveal_with_fuel(hex_text, 6);
}

// ---- more laws of the frame ----

/// The four bits of the frame that stand for a nibble spell that nibble, high
/// nibble of each byte first and high bit first.
pub proof fn frame_spells_the_id(id: Seq<u8>, i: int)
    requires
        id.len() == 5,
        0 <= i < 5,
    ensures
        8 * frame_bit(id, 9 + 10 * i) + 4 * frame_bit(id, 10 + 10 * i) + 2 * frame_bit(
            id,
            11 + 10 * i,
        ) + frame_bit(id, 12 + 10 * i) == id[i] / 16,
        8 * frame_bit(id, 14 + 10 * i) + 4 * frame_bit(id, 15 + 10 * i) + 2 * frame_bit(
            id,
            16 + 10 * i,
        ) + frame_bit(id, 17 + 10 * i) == id[i] % 16,
{
    let hi = nibble(id, 2 * i);
    let lo = nibble(id, 2 * i + 1);
    lemma_nibble_range(id, 2 * i);
    lemma_nibble_range(id, 2 * i + 1);
    assert(hi == id[i] as int / 16);
    assert(lo == id[i] as int % 16);
    assert((10 * i) / 5 == 2 * i && (10 * i) % 5 == 0);
    assert((10 * i + 1) / 5 == 2 * i && (10 * i + 1) % 5 == 1);
    assert((10 * i + 2) / 5 == 2 * i && (10 * i + 2) % 5 == 2);
    assert((10 * i + 3) / 5 == 2 * i && (10 * i + 3) % 5 == 3);
    assert((10 * i + 5) / 5 == 2 * i + 1 && (10 * i + 5) % 5 == 0);
    assert((10 * i + 6) / 5 == 2 * i + 1 && (10 * i + 6) % 5 == 1);
    assert((10 * i + 7) / 5 == 2 * i + 1 && (10 * i + 7) % 5 == 2);
    assert((10 * i + 8) / 5 == 2 * i + 1 && (10 * i + 8) % 5 == 3);
    assert(hi == 8 * nibble_bit(hi, 0) + 4 * nibble_bit(hi, 1) + 2 * nibble_bit(hi, 2)
        + nibble_bit(hi, 3));
    assert(lo == 8 * nibble_bit(lo, 0) + 4 * nibble_bit(lo, 1) + 2 * nibble_bit(lo, 2)
        + nibble_bit(lo, 3));
}

/// Down each of the four columns the bits of the ten nibbles and the parity bit
/// at the foot hold an even number of ones.
pub proof fn columns_have_even_parity(id: Seq<u8>, p: int)
    requires
        id.len() == 5,
        0 <= p < 4,
    ensures
        even(
            frame_bit(id, 9 + p) + frame_bit(id, 14 + p) + frame_bit(id, 19 + p) + frame_bit(
                id,
                24 + p,
            ) + frame_bit(id, 29 + p) + frame_bit(id, 34 + p) + frame_bit(id, 39 + p) + frame_bit(
                id,
                44 + p,
            ) + frame_bit(id, 49 + p) + frame_bit(id, 54 + p) + frame_bit(id, 59 + p),
        ),
{
    reveal_with_fuel(column_count, 11);
    assert forall|g: int| 0 <= g < 10 implies #[trigger] frame_bit(id, 9 + 5 * g + p)
        == nibble_bit(nibble(id, g), p) by {
        assert((5 * g + p) / 5 == g && (5 * g + p) % 5 == p);
    }
    assert(frame_bit(id, 9 + 5 * 0 + p) == nibble_bit(nibble(id, 0), p));
    assert(frame_bit(id, 9 + 5 * 1 + p) == nibble_bit(nibble(id, 1), p));
    assert(frame_bit(id, 9 + 5 * 2 + p) == nibble_bit(nibble(id, 2), p));
    assert(frame_bit(id, 9 + 5 * 3 + p) == nibble_bit(nibble(id, 3), p));
    assert(frame_bit(id, 9 + 5 * 4 + p) == nibble_bit(nibble(id, 4), p));
    assert(frame_bit(id, 9 + 5 * 5 + p) == nibble_bit(nibble(id, 5), p));
    assert(frame_bit(id, 9 + 5 * 6 + p) == nibble_bit(nibble(id, 6), p));
    assert(frame_bit(id, 9 + 5 * 7 + p) == nibble_bit(nibble(id, 7), p));
    assert(frame_bit(id, 9 + 5 * 8 + p) == nibble_bit(nibble(id, 8), p));
    assert(frame_bit(id, 9 + 5 * 9 + p) == nibble_bit(nibble(id, 9), p));
    lemma_column_positive(id, p, 10);
}

/// Eight bytes, high byte first, make up the number they were taken from.
pub proof fn eight_bytes_make_the_number(n: nat)
    requires
        n < 0x1_0000_0000_0000_0000,
    ensures
        be64(n).len() == 8,
        0x100_0000_0000_0000 * be64(n)[0] + 0x1_0000_0000_0000 * be64(n)[1] + 0x100_0000_0000
            * be64(n)[2] + 0x1_0000_0000 * be64(n)[3] + 0x100_0000 * be64(n)[4] + 0x1_0000
            * be64(n)[5] + 0x100 * be64(n)[6] + be64(n)[7] == n,
{
    lemma_top_byte_off(n as int, 0x1, 0x100);
    lemma_top_byte_off(n as int, 0x100, 0x1_0000);
    lemma_top_byte_off(n as int, 0x1_0000, 0x100_0000);
    lemma_top_byte_off(n as int, 0x100_0000, 0x1_0000_0000);
    lemma_top_byte_off(n as int, 0x1_0000_0000, 0x100_0000_0000);
    lemma_top_byte_off(n as int, 0x100_0000_0000, 0x1_0000_0000_0000);
    lemma_top_byte_off(n as int, 0x1_0000_0000_0000, 0x100_0000_0000_0000);
    lemma_top_byte_off(n as int, 0x100_0000_0000_0000, 0x1_0000_0000_0000_0000);
}

/// What a number holds of a unit: what it holds of the next larger one, and a
/// byte.
proof fn lemma_top_byte_off(n: int, unit: int, next: int)
    requires
        n >= 0,
        unit > 0,
        next == 256 * unit,
    ensures
        n / unit == 256 * (n / next) + n / unit % 256,
{
    vstd::arithmetic::div_mod::lemma_div_denominator(n, unit, 256);
    assert(unit * 256 == next);
    vstd::arithmetic::div_mod::lemma_fundamental_div_mod(n / unit, 256);
}

/// With the config word or without, a write ends with two blocks: block 1 gets
/// the first four bytes of the frame and block 2 the other four, so that put
/// together they are the frame, high byte first. The config word, if it is
/// asked for, goes to block 0 ahead of them, and changes nothing else.
pub proof fn a_write_puts_the_frame_on_the_tag(id: Seq<u8>, config: bool)
    requires
        id.len() == 5,
    ensures
        ({
            let plan = plan_of(id, config);
            let k = plan.len() as int;
            let (first, b1) = plan[k - 2];
            let (second, b2) = plan[k - 1];
            &&& k == if config {
                3int
            } else {
                2
            }
            &&& first == 1 && second == 2
            &&& b1.len() == 4 && b2.len() == 4
            &&& 0x100_0000_0000_0000 * b1[0] + 0x1_0000_0000_0000 * b1[1] + 0x100_0000_0000 * b1[2]
                + 0x1_0000_0000 * b1[3] + 0x100_0000 * b2[0] + 0x1_0000 * b2[1] + 0x100 * b2[2]
                + b2[3] == frame_value(id, 64)
            &&& b1 + b2 == be64(frame_value(id, 64))
            &&& b1 + b2 == frame_bytes_of(id)
        }),
        plan_of(id, true)[0] == (0u8, seq![0x00u8, 0x14, 0x80, 0x40]),
        plan_of(id, true).skip(1) == plan_of(id, false),
{
    frame_has_even_parity(id);
    eight_bytes_make_the_number(frame_value(id, 64));
    let plan = plan_of(id, config);
    let k = plan.len() as int;
    assert(plan[k - 2].1 + plan[k - 1].1 =~= be64(frame_value(id, 64)));
    assert(T5577_EM4100@ =~= seq![0x00u8, 0x14, 0x80, 0x40]);
    assert(plan_of(id, true).skip(1) =~= plan_of(id, false));
}

// ---- more laws of the forms ----

/// In writing, the decimal forms are digits of a fixed number, and what they
/// spell is bytes 1 to 4 as one number, high byte first; or byte 2 in three
/// digits and bytes 3 and 4, high byte first, in five.
pub proof fn forms_spell_the_bytes(id: Seq<u8>)
    requires
        id.len() == 5,
    ensures
        em4100_text(id, IdForm::Hex) == hex_text(id),
        ({
            let s = em4100_text(id, IdForm::Dec10);
            &&& s.len() == 10
            &&& all_digits(s, 10)
            &&& digits_value(s, 10) == 0x100_0000 * id[1] + 0x1_0000 * id[2] + 0x100 * id[3] + id[4]
        }),
        ({
            let s = em4100_text(id, IdForm::Dec35);
            &&& s.len() == 8
            &&& all_digits(s, 10)
            &&& digits_value(s.take(3), 10) == id[2]
            &&& digits_value(s.skip(3), 10) == 0x100 * id[3] + id[4]
        }),
{
    let n = low32(id);
    lemma_padded_reads_back(n, 10);
    lemma_padded_reads_back(id[2] as nat, 3);
    lemma_padded_reads_back(low16(id), 5);
    lemma_dec_width(id[2] as nat);
    lemma_dec_width(low16(id));
    assert(dec_text(n).len() <= 10) by {
        reveal_with_fuel(dec_text, 11);
    }
    let s = em4100_text(id, IdForm::Dec35);
    let a = pad_left(dec_text(id[2] as nat), 3, '0');
    let b = pad_left(dec_text(low16(id)), 5, '0');
    assert(s.take(3) =~= a);
    assert(s.skip(3) =~= b);
    assert forall|i: int| 0 <= i < s.len() implies crate::number::digit_value(
        #[trigger] s[i],
        10,
    ) is Some by {
        if i < 3 {
            assert(s[i] == a[i]);
        } else {
            assert(s[i] == b[i - 3]);
        }
    }
}

/// Blanks around a typed ID are nothing. In ten digits a text is taken exactly
/// if it is a number of thirty-two bits, and sets bytes 1 to 4 to it, high byte
/// first. In eight it is taken exactly if all are digits and neither part is
/// too large for its bytes.
pub proof fn typed_forms_set_their_bytes(s: Seq<char>, base: Seq<u8>)
    requires
        base.len() == 5,
    ensures
        ({
            let t = trimmed(s);
            let r = em4100_value(s, IdForm::Dec10, base);
            &&& r is Ok <==> unsigned_value(t, 10, 0xffff_ffff) is Some
            &&& r matches Ok(id) ==> unsigned_value(t, 10, 0xffff_ffff) == Some(
                (0x100_0000 * id[1] + 0x1_0000 * id[2] + 0x100 * id[3] + id[4]) as nat,
            )
        }),
        ({
            let t = trimmed(s);
            let r = em4100_value(s, IdForm::Dec35, base);
            &&& r is Ok <==> t.len() == 8 && all_digits(t, 10) && digits_value(t.take(3), 10) < 256
                && digits_value(t.skip(3), 10) < 0x1_0000
            &&& r matches Ok(id) ==> digits_value(t.take(3), 10) == id[2] && digits_value(
                t.skip(3),
                10,
            ) == 0x100 * id[3] + id[4]
        }),
        em4100_value(s, IdForm::Hex, base) is Ok <==> (crate::hexes::unhex_value(trimmed(s))
            matches Ok(v) && v.len() == 5),
        em4100_value(s, IdForm::Hex, base) matches Ok(id) ==> crate::hexes::unhex_value(trimmed(s))
            == Ok::<Seq<u8>, Seq<char>>(id),
{
}

/// The view of a plan keeps each block and its bytes, in order.
pub proof fn a_plan_keeps_its_blocks(plan: Seq<(u8, [u8; 4])>, i: int)
    requires
        0 <= i < plan.len(),
    ensures
        plan_view(plan).len() == plan.len(),
        plan_view(plan)[i] == (plan[i].0, plan[i].1@),
{
}

} // verus!
