//! Unsigned numbers written out in digits.

use crate::text::digit_char;
use vstd::prelude::*;

verus! {

/// The value of a digit, of either case, if it is one in this base.
pub open spec fn digit_value(c: char, radix: int) -> Option<nat> {
    let n = c as int;
    let v = if 48 <= n <= 57 {
        n - 48
    } else if 97 <= n <= 122 {
        n - 87
    } else if 65 <= n <= 90 {
        n - 55
    } else {
        radix
    };
    if v < radix {
        Some(v as nat)
    } else {
        None
    }
}

/// Every character is a digit in this base.
pub open spec fn all_digits(s: Seq<char>, radix: int) -> bool {
    forall|i: int| 0 <= i < s.len() ==> digit_value(#[trigger] s[i], radix) is Some
}

/// What a row of digits stands for.
pub open spec fn digits_value(s: Seq<char>, radix: int) -> nat
    decreases s.len(),
{
    if s.len() == 0 {
        0
    } else {
        digits_value(s.drop_last(), radix) * (radix as nat) + digit_value(s.last(), radix)->0
    }
}

/// Without a leading plus sign, if there is one.
pub open spec fn unsigned_digits(s: Seq<char>) -> Seq<char> {
    if s.len() > 0 && s[0] == '+' {
        s.drop_first()
    } else {
        s
    }
}

/// An optional plus sign and at least one digit, no greater than `max`.
pub open spec fn unsigned_value(s: Seq<char>, radix: int, max: nat) -> Option<nat> {
    let d = unsigned_digits(s);
    if d.len() > 0 && all_digits(d, radix) && digits_value(d, radix) <= max {
        Some(digits_value(d, radix))
    } else {
        None
    }
}

/// More digits never make a number smaller.
proof fn lemma_digits_grow(s: Seq<char>, k: int)
    requires
        0 <= k <= s.len(),
    ensures
        digits_value(s.take(k), 10) <= digits_value(s, 10),
    decreases s.len() - k,
{
    if k == s.len() {
        assert(s.take(k) =~= s);
    } else {
        assert(s.take(k + 1).drop_last() =~= s.take(k));
        lemma_digits_grow(s, k + 1);
    }
}

/// The value of a decimal digit.
pub fn dec_digit(c: char) -> (r: Option<u8>)
    ensures
        match r {
            Some(n) => n < 10 && digit_value(c, 10) == Some(n as nat),
            None => digit_value(c, 10) is None,
        },
{
    let n: u32 = c as u32;
    if 48 <= n && n <= 57 {
        Some((n - 48) as u8)
    } else {
        None
    }
}

/// A decimal number no greater than `max`.
pub fn parse_dec(v: &[char], max: u64) -> (r: Option<u64>)
    requires
        max <= 0xffff_ffff,
    ensures
        match r {
            Some(n) => unsigned_value(v@, 10, max as nat) == Some(n as nat),
            None => unsigned_value(v@, 10, max as nat) is None,
        },
{
    let start: usize = if v.len() > 0 && v[0] == '+' {
        1
    } else {
        0
    };
    let n: usize = v.len();
    let ghost d = unsigned_digits(v@);
    assert(d =~= v@.subrange(start as int, n as int));
    if start == n {
        return None;
    }
    let mut acc: u64 = 0;
    let mut i: usize = start;
    assert(d.take(0) =~= Seq::empty());
    while i < n
        invariant
            start <= i <= n == v@.len(),
            max <= 0xffff_ffff,
            d == unsigned_digits(v@),
            d == v@.subrange(start as int, n as int),
            forall|j: int|
                0 <= j < i - start ==> digit_value(#[trigger] d[j], 10) is Some,
            acc == digits_value(d.take(i - start), 10),
            acc <= max,
        decreases n - i,
    {
        assert(d[i - start] == v@[i as int]);
        let x: u64 = match dec_digit(v[i]) {
            Some(x) => x as u64,
            None => {
                return None;
            },
        };
        assert(d.take(i + 1 - start).drop_last() =~= d.take(i - start));
        assert(d.take(i + 1 - start).last() == v@[i as int]);
        acc = acc * 10 + x;
        if acc > max {
            proof {
                lemma_digits_grow(d, i + 1 - start);
            }
            return None;
        }
        i += 1;
    }
    assert(d.take(n - start) =~= d);
    Some(acc)
}

/// Decimal text reads back as the number it was made from.
pub proof fn dec_text_reads_back(n: nat)
    ensures
        crate::text::dec_text(n).len() > 0,
        all_digits(crate::text::dec_text(n), 10),
        digits_value(crate::text::dec_text(n), 10) == n,
    decreases n,
{
    let s = crate::text::dec_text(n);
    if n < 10 {
        assert(s.drop_last() =~= Seq::empty());
        assert(digit_value(digit_char(n as int), 10) == Some(n));
        assert(digits_value(Seq::empty(), 10) == 0);
    } else {
        dec_text_reads_back(n / 10);
        assert(s.drop_last() =~= crate::text::dec_text(n / 10));
        assert(digit_value(digit_char((n % 10) as int), 10) == Some(n % 10));
        assert(s.last() == digit_char((n % 10) as int));
    }
}

/// Zeros in front change nothing.
pub proof fn leading_zeros_are_nothing(k: int, s: Seq<char>)
    requires
        all_digits(s, 10),
    ensures
        all_digits(crate::text::fill_text(k, '0') + s, 10),
        digits_value(crate::text::fill_text(k, '0') + s, 10) == digits_value(s, 10),
    decreases s.len(), (if k < 0 { 0 } else { k }),
{
    let z = crate::text::fill_text(k, '0');
    let t = z + s;
    assert forall|i: int| 0 <= i < t.len() implies digit_value(#[trigger] t[i], 10) is Some by {
        if i < z.len() {
            assert(t[i] == '0');
        } else {
            assert(t[i] == s[i - z.len()]);
        }
    }
    if s.len() > 0 {
        assert(t.drop_last() =~= z + s.drop_last());
        leading_zeros_are_nothing(k, s.drop_last());
    } else if k > 0 {
        assert(t.drop_last() =~= crate::text::fill_text(k - 1, '0') + s);
        leading_zeros_are_nothing(k - 1, s);
        assert(t.last() == '0');
    } else {
        assert(t =~= s);
    }
}

/// A digit counts from nought, letters of either case go on from ten, and a
/// digit too large for the base is none.
pub proof fn digits_count_from_nought(n: int, radix: int, c: char)
    requires
        0 <= n < 16,
        0 < radix <= 16,
    ensures
        n < radix ==> digit_value(digit_char(n), radix) == Some(n as nat),
        n >= radix ==> digit_value(digit_char(n), radix) is None,
        n >= 10 ==> digit_value(('A' as int + n - 10) as char, radix) == digit_value(
            digit_char(n),
            radix,
        ),
        digit_value(c, radix) matches Some(v) ==> v < radix && ('0' <= c <= '9' || 'a' <= c <= 'f'
            || 'A' <= c <= 'F'),
{
}

/// Each digit further to the right makes what stands before it count the base
/// times as much.
pub proof fn digits_count_by_place(s: Seq<char>, c: char, radix: int)
    requires
        radix > 0,
        digit_value(c, radix) is Some,
    ensures
        digits_value(Seq::empty(), radix) == 0,
        digits_value(s.push(c), radix) == radix * digits_value(s, radix) + digit_value(
            c,
            radix,
        )->Some_0,
{
    assert(s.push(c).drop_last() =~= s);
    assert(radix * digits_value(s, radix) == digits_value(s, radix) * (radix as nat))
        by (nonlinear_arith)
        requires
            radix > 0,
    ;
}

/// A number may have a plus sign, needs at least one digit and nothing but
/// digits, and may not exceed what it is to fit.
pub proof fn a_number_is_digits(s: Seq<char>, radix: int, max: nat)
    ensures
        unsigned_value(s, radix, max) matches Some(n) ==> n <= max,
        s.len() == 0 ==> unsigned_value(s, radix, max) is None,
        s.len() > 0 && s[0] != '+' ==> (unsigned_value(s, radix, max) is Some <==> all_digits(
            s,
            radix,
        ) && digits_value(s, radix) <= max),
        s.len() > 0 && s[0] != '+' && unsigned_value(s, radix, max) is Some ==> unsigned_value(
            s,
            radix,
            max,
        ) == Some(digits_value(s, radix)),
        s.len() > 0 && s[0] != '+' ==> unsigned_value(seq!['+'] + s, radix, max) == unsigned_value(
            s,
            radix,
            max,
        ),
{
    assert((seq!['+'] + s).drop_first() =~= s);
}

} // verus!
