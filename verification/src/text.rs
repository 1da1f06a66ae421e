//! Text building blocks: digits, padding, whitespace, joining.

use vstd::prelude::*;

verus! {

/// `String::push` appends one character.
pub assume_specification[ String::push ](s: &mut String, c: char)
    ensures
        final(s)@ == old(s)@.push(c),
;

// ---- digits ----

/// The digit character for `n` in base sixteen or below, lower case.
pub open spec fn digit_char(n: int) -> char
    recommends
        0 <= n < 16,
{
    if n < 10 {
        (48 + n) as char
    } else {
        (87 + n) as char
    }
}

/// A byte as exactly two lower-case hex digits.
pub open spec fn hex2(b: u8) -> Seq<char> {
    seq![digit_char(b as int / 16), digit_char(b as int % 16)]
}

/// A number in decimal, no leading zeros.
pub open spec fn dec_text(n: nat) -> Seq<char>
    decreases n,
{
    if n < 10 {
        seq![digit_char(n as int)]
    } else {
        dec_text(n / 10).push(digit_char((n % 10) as int))
    }
}

pub fn digit(n: u8) -> (c: char)
    requires
        n < 16,
    ensures
        c == digit_char(n as int),
{
    if n < 10 {
        (48 + n) as char
    } else {
        (87 + n) as char
    }
}

/// Append a byte as two hex digits.
pub fn push_hex2(s: &mut String, b: u8)
    ensures
        final(s)@ == old(s)@ + hex2(b),
{
    s.push(digit(b / 16));
    s.push(digit(b % 16));
    assert(s@ =~= old(s)@ + hex2(b));
}

/// Two hex digits on their own.
pub fn hex2_string(b: u8) -> (r: String)
    ensures
        r@ == hex2(b),
{
    let mut s = String::new();
    push_hex2(&mut s, b);
    assert(s@ =~= hex2(b));
    s
}

/// A number in decimal.
pub fn dec(n: u64) -> (r: String)
    ensures
        r@ == dec_text(n as nat),
    decreases n,
{
    if n < 10 {
        let mut s = String::new();
        s.push(digit(n as u8));
        assert(s@ =~= dec_text(n as nat));
        s
    } else {
        let mut s = dec(n / 10);
        s.push(digit((n % 10) as u8));
        s
    }
}

// ---- padding ----

/// `n` copies of a character.
pub open spec fn fill_text(n: int, c: char) -> Seq<char> {
    Seq::new(
        if n < 0 {
            0
        } else {
            n as nat
        },
        |i: int| c,
    )
}

/// Padded on the left up to a width; never cut.
pub open spec fn pad_left(s: Seq<char>, width: int, c: char) -> Seq<char> {
    fill_text(width - s.len(), c) + s
}

/// Padded with spaces on the right up to a width; never cut.
pub open spec fn pad_right(s: Seq<char>, width: int) -> Seq<char> {
    s + fill_text(width - s.len(), ' ')
}

fn fill(n: usize, c: char) -> (r: String)
    ensures
        r@ == fill_text(n as int, c),
{
    let mut s = String::new();
    let mut i: usize = 0;
    while i < n
        invariant
            i <= n,
            s@ == fill_text(i as int, c),
        decreases n - i,
    {
        s.push(c);
        i += 1;
        assert(s@ =~= fill_text(i as int, c));
    }
    assert(s@ =~= fill_text(n as int, c));
    s
}

/// `{:>width}` with any fill character.
pub fn left_padded(s: &str, width: usize, c: char) -> (r: String)
    ensures
        r@ == pad_left(s@, width as int, c),
{
    let len: usize = s.unicode_len();
    let n: usize = if len < width {
        width - len
    } else {
        0
    };
    let r = fill(n, c).concat(s);
    assert(r@ =~= pad_left(s@, width as int, c));
    r
}

/// `{:<width}`.
pub fn right_padded(s: &str, width: usize) -> (r: String)
    ensures
        r@ == pad_right(s@, width as int),
{
    let len: usize = s.unicode_len();
    let n: usize = if len < width {
        width - len
    } else {
        0
    };
    let r = s.to_owned().concat(fill(n, ' ').as_str());
    assert(r@ =~= pad_right(s@, width as int));
    r
}

// ---- characters ----

/// The characters of a string, one by one.
pub fn chars_of(s: &str) -> (r: Vec<char>)
    ensures
        r@ == s@,
{
    let mut out: Vec<char> = Vec::new();
    for c in it: s.chars()
        invariant
            it.seq() == s@,
            out@ == s@.take(it.index()),
    {
        out.push(c);
        assert(out@ =~= s@.take(it.index() + 1));
    }
    assert(out@ =~= s@);
    out
}

/// The string made of `v[from..to]`.
pub fn string_of(v: &Vec<char>, from: usize, to: usize) -> (r: String)
    requires
        from <= to <= v@.len(),
    ensures
        r@ == v@.subrange(from as int, to as int),
{
    let mut s = String::new();
    let mut i: usize = from;
    while i < to
        invariant
            from <= i <= to <= v@.len(),
            s@ == v@.subrange(from as int, i as int),
        decreases to - i,
    {
        s.push(v[i]);
        i += 1;
        assert(s@ =~= v@.subrange(from as int, i as int));
    }
    s
}

// ---- whitespace ----

/// Unicode White_Space, the property that splitting and trimming go by.
pub open spec fn white(c: char) -> bool {
    let n = c as u32;
    ||| 0x9 <= n <= 0xd
    ||| n == 0x20
    ||| n == 0x85
    ||| n == 0xa0
    ||| n == 0x1680
    ||| 0x2000 <= n <= 0x200a
    ||| n == 0x2028
    ||| n == 0x2029
    ||| n == 0x202f
    ||| n == 0x205f
    ||| n == 0x3000
}

pub fn is_white(c: char) -> (r: bool)
    ensures
        r == white(c),
{
    let n: u32 = c as u32;
    (0x9 <= n && n <= 0xd) || n == 0x20 || n == 0x85 || n == 0xa0 || n == 0x1680 || (0x2000 <= n
        && n <= 0x200a) || n == 0x2028 || n == 0x2029 || n == 0x202f || n == 0x205f || n == 0x3000
}

/// Without the whitespace in front.
pub open spec fn trimmed_front(s: Seq<char>) -> Seq<char>
    decreases s.len(),
{
    if s.len() > 0 && white(s[0]) {
        trimmed_front(s.drop_first())
    } else {
        s
    }
}

/// Without the whitespace at the end.
pub open spec fn trimmed_back(s: Seq<char>) -> Seq<char>
    decreases s.len(),
{
    if s.len() > 0 && white(s.last()) {
        trimmed_back(s.drop_last())
    } else {
        s
    }
}

/// Without the whitespace on either side.
pub open spec fn trimmed(s: Seq<char>) -> Seq<char> {
    trimmed_back(trimmed_front(s))
}

/// `str::trim`, on a vector of characters.
pub fn trim(v: &Vec<char>) -> (r: String)
    ensures
        r@ == trimmed(v@),
{
    let n: usize = v.len();
    let mut i: usize = 0;
    assert(v@.subrange(0, n as int) =~= v@);
    while i < n && is_white(v[i])
        invariant
            i <= n == v@.len(),
            trimmed_front(v@) == trimmed_front(v@.subrange(i as int, n as int)),
        decreases n - i,
    {
        assert(v@.subrange(i as int, n as int).drop_first() =~= v@.subrange(i + 1, n as int));
        i += 1;
    }
    let ghost front = v@.subrange(i as int, n as int);
    assert(trimmed_front(v@) == front);
    let mut j: usize = n;
    while j > i && is_white(v[j - 1])
        invariant
            i <= j <= n == v@.len(),
            trimmed_back(front) == trimmed_back(v@.subrange(i as int, j as int)),
        decreases j - i,
    {
        assert(v@.subrange(i as int, j as int).drop_last() =~= v@.subrange(i as int, j - 1));
        j -= 1;
    }
    string_of(v, i, j)
}

/// A left-to-right split at whitespace: the finished words, and the word that
/// is still open.
pub open spec fn split_state(s: Seq<char>) -> (Seq<Seq<char>>, Seq<char>)
    decreases s.len(),
{
    if s.len() == 0 {
        (Seq::empty(), Seq::empty())
    } else {
        let (done, open) = split_state(s.drop_last());
        if !white(s.last()) {
            (done, open.push(s.last()))
        } else if open.len() > 0 {
            (done.push(open), Seq::empty())
        } else {
            (done, open)
        }
    }
}

/// The maximal runs of characters that are not whitespace.
pub open spec fn words(s: Seq<char>) -> Seq<Seq<char>> {
    let (done, open) = split_state(s);
    if open.len() > 0 {
        done.push(open)
    } else {
        done
    }
}

// ---- lists of text ----

/// What a list of strings says.
pub open spec fn texts(v: Seq<String>) -> Seq<Seq<char>> {
    v.map_values(|s: String| s@)
}

pub fn push_text(v: &mut Vec<String>, s: String)
    ensures
        texts(final(v)@) == texts(old(v)@).push(s@),
{
    v.push(s);
    assert(texts(v@) =~= texts(old(v)@).push(s@));
}

/// Words, each as a string of its own.
pub fn split_words(v: &Vec<char>) -> (r: Vec<String>)
    ensures
        texts(r@) == words(v@),
{
    let n: usize = v.len();
    let mut done: Vec<String> = Vec::new();
    let mut open = String::new();
    let mut started: bool = false;
    let mut i: usize = 0;
    assert(v@.take(0) =~= Seq::empty());
    assert(texts(done@) =~= Seq::empty());
    while i < n
        invariant
            i <= n == v@.len(),
            started == (open@.len() > 0),
            split_state(v@.take(i as int)) == (texts(done@), open@),
        decreases n - i,
    {
        assert(v@.take(i + 1).drop_last() =~= v@.take(i as int));
        if !is_white(v[i]) {
            open.push(v[i]);
            started = true;
        } else if started {
            push_text(&mut done, open);
            open = String::new();
            started = false;
        }
        i += 1;
    }
    assert(v@.take(n as int) =~= v@);
    if started {
        push_text(&mut done, open);
    }
    done
}

/// Texts in a row with a separator between neighbours.
pub open spec fn joined(parts: Seq<Seq<char>>, sep: Seq<char>) -> Seq<char>
    decreases parts.len(),
{
    if parts.len() == 0 {
        Seq::empty()
    } else if parts.len() == 1 {
        parts[0]
    } else {
        joined(parts.drop_last(), sep) + sep + parts.last()
    }
}

// ---- lines ----

/// No lines.
pub fn no_lines() -> (r: Vec<String>)
    ensures
        texts(r@) == Seq::<Seq<char>>::empty(),
{
    let v: Vec<String> = Vec::new();
    assert(texts(v@) =~= Seq::<Seq<char>>::empty());
    v
}

/// The one line given.
pub fn one_line(s: String) -> (r: Vec<String>)
    ensures
        texts(r@) == seq![s@],
{
    let mut v = no_lines();
    push_text(&mut v, s);
    v
}

/// A number with its sign, in decimal.
pub open spec fn signed_text(n: int) -> Seq<char> {
    if n < 0 {
        "-"@ + dec_text((-n) as nat)
    } else {
        dec_text(n as nat)
    }
}

pub fn signed(n: i32) -> (r: String)
    ensures
        r@ == signed_text(n as int),
{
    if n < 0 {
        let m: u64 = (-(n as i64)) as u64;
        "-".to_owned().concat(dec(m).as_str())
    } else {
        dec(n as u64)
    }
}

/// Four hex digits.
pub open spec fn hex4(n: u16) -> Seq<char> {
    hex2((n as int / 256) as u8) + hex2((n as int % 256) as u8)
}

pub fn hex4_string(n: u16) -> (r: String)
    ensures
        r@ == hex4(n),
{
    hex2_string((n / 256) as u8).concat(hex2_string((n % 256) as u8).as_str())
}

// ---- laws of digits ----

/// Digits below ten are the characters from `0` on, those above the letters
/// from `a` on.
pub proof fn digits_are_ascii(n: int)
    requires
        0 <= n < 16,
    ensures
        n < 10 ==> digit_char(n) as int == '0' as int + n,
        n >= 10 ==> digit_char(n) as int == 'a' as int + (n - 10),
        !white(digit_char(n)),
{
}

/// A byte in hex is its high digit and its low digit, two bytes are the high
/// byte and the low one.
pub proof fn hex_digits_come_high_first(b: u8, n: u16)
    ensures
        hex2(b).len() == 2,
        hex2(b)[0] == digit_char(b as int / 16),
        hex2(b)[1] == digit_char(b as int % 16),
        hex4(n).len() == 4,
        hex4(n)[0] == digit_char(n as int / 4096),
        hex4(n)[1] == digit_char(n as int / 256 % 16),
        hex4(n)[2] == digit_char(n as int / 16 % 16),
        hex4(n)[3] == digit_char(n as int % 16),
{
    assert(n as int / 256 / 16 == n as int / 4096);
    assert(n as int % 256 / 16 == n as int / 16 % 16);
}

/// A number in decimal ends in its last digit, what stands before that is the
/// number without it, and it does not start with a nought unless it is one.
pub proof fn decimals_end_in_their_last_digit(n: nat, d: int)
    requires
        0 <= d < 10,
    ensures
        dec_text(d as nat) == seq![digit_char(d)],
        n > 0 ==> dec_text(10 * n + d as nat) == dec_text(n).push(digit_char(d)),
        dec_text(n).len() > 0,
        n > 0 ==> dec_text(n)[0] != '0',
    decreases n,
{
    if n >= 10 {
        decimals_end_in_their_last_digit(n / 10, d);
        assert(dec_text(n)[0] == dec_text(n / 10)[0]);
    }
    assert((10 * n + d as nat) / 10 == n);
    assert((10 * n + d as nat) % 10 == d);
}

/// A negative number is a minus sign and the number without it.
pub proof fn negative_numbers_carry_a_sign(n: nat)
    ensures
        signed_text(n as int) == dec_text(n),
        n > 0 ==> signed_text(-(n as int)) == "-"@ + dec_text(n),
{
}

// ---- laws of padding ----

/// Padding fills up to the width and never cuts: the text stands at the far
/// end, or at the near one, and the rest is filler.
pub proof fn padding_never_cuts(s: Seq<char>, width: int, c: char, i: int)
    ensures
        ({
            let p = pad_left(s, width, c);
            let gap = p.len() - s.len();
            &&& p.len() == if s.len() < width {
                width
            } else {
                s.len() as int
            }
            &&& p.skip(gap) == s
            &&& 0 <= i < gap ==> p[i] == c
        }),
        ({
            let p = pad_right(s, width);
            &&& p.len() == if s.len() < width {
                width
            } else {
                s.len() as int
            }
            &&& p.take(s.len() as int) == s
            &&& s.len() <= i < p.len() ==> p[i] == ' '
        }),
{
    let p = pad_left(s, width, c);
    assert(p.skip(p.len() - s.len()) =~= s);
    assert(pad_right(s, width).take(s.len() as int) =~= s);
}

// ---- laws of whitespace ----

/// Blanks, tabs and line ends are whitespace; ASCII that leaves ink is not.
pub proof fn ink_is_not_whitespace(c: char)
    ensures
        white(' ') && white('\t') && white('\n') && white('\r'),
        0x21 <= c as u32 <= 0x7e ==> !white(c),
{
}

/// Trimming takes whitespace off both ends and nothing else: what is left is a
/// stretch of the text, everything outside it is whitespace, and it neither
/// starts nor ends with any.
pub proof fn trimming_takes_only_whitespace(s: Seq<char>)
    ensures
        exists|i: int, j: int|
            0 <= i <= j <= s.len() && trimmed(s) == #[trigger] s.subrange(i, j) && (forall|k: int|
                0 <= k < i || j <= k < s.len() ==> white(#[trigger] s[k])),
        trimmed(s).len() > 0 ==> !white(trimmed(s)[0]) && !white(trimmed(s).last()),
{
    let i = lemma_front(s);
    let f = trimmed_front(s);
    let j = lemma_back(f);
    assert(trimmed(s) =~= s.subrange(i, i + j));
    assert forall|k: int| 0 <= k < i || i + j <= k < s.len() implies white(#[trigger] s[k]) by {
        if k >= i + j {
            assert(f[k - i] == s[k]);
        }
    }
    if trimmed(s).len() > 0 {
        assert(trimmed(s)[0] == f[0]);
    }
}

proof fn lemma_front(s: Seq<char>) -> (i: int)
    ensures
        0 <= i <= s.len(),
        trimmed_front(s) == s.subrange(i, s.len() as int),
        forall|k: int| 0 <= k < i ==> white(#[trigger] s[k]),
        trimmed_front(s).len() > 0 ==> !white(trimmed_front(s)[0]),
    decreases s.len(),
{
    if s.len() > 0 && white(s[0]) {
        let t = s.drop_first();
        let i = lemma_front(t);
        assert(t.subrange(i, t.len() as int) =~= s.subrange(i + 1, s.len() as int));
        assert forall|k: int| 0 <= k < i + 1 implies white(#[trigger] s[k]) by {
            if k > 0 {
                assert(t[k - 1] == s[k]);
            }
        }
        i + 1
    } else {
        assert(s.subrange(0, s.len() as int) =~= s);
        0
    }
}

proof fn lemma_back(s: Seq<char>) -> (j: int)
    ensures
        0 <= j <= s.len(),
        trimmed_back(s) == s.subrange(0, j),
        forall|k: int| j <= k < s.len() ==> white(#[trigger] s[k]),
        trimmed_back(s).len() > 0 ==> !white(trimmed_back(s).last()),
    decreases s.len(),
{
    if s.len() > 0 && white(s.last()) {
        let t = s.drop_last();
        let j = lemma_back(t);
        assert(t.subrange(0, j) =~= s.subrange(0, j));
        assert forall|k: int| j <= k < s.len() implies white(#[trigger] s[k]) by {
            if k < t.len() {
                assert(t[k] == s[k]);
            }
        }
        j
    } else {
        assert(s.subrange(0, s.len() as int) =~= s);
        s.len() as int
    }
}

/// A text without whitespace is one word, and whitespace between two texts
/// parts their words.
pub proof fn whitespace_parts_words(s: Seq<char>, c: char, t: Seq<char>)
    requires
        white(c),
    ensures
        words(s.push(c) + t) == words(s) + words(t),
        words(Seq::empty()) == Seq::<Seq<char>>::empty(),
        s.len() > 0 && (forall|i: int| 0 <= i < s.len() ==> !white(#[trigger] s[i])) ==> words(s)
            == seq![s],
{
    lemma_split_after(s, c, t);
    let (done, open) = split_state(t);
    assert(words(s.push(c) + t) =~= words(s) + words(t));
    assert(words(Seq::empty()) =~= Seq::<Seq<char>>::empty());
    if s.len() > 0 && (forall|i: int| 0 <= i < s.len() ==> !white(#[trigger] s[i])) {
        lemma_one_word(s);
        assert(Seq::<Seq<char>>::empty().push(s) =~= seq![s]);
    }
}

proof fn lemma_split_after(s: Seq<char>, c: char, t: Seq<char>)
    requires
        white(c),
    ensures
        split_state(s.push(c) + t) == (words(s) + split_state(t).0, split_state(t).1),
    decreases t.len(),
{
    if t.len() == 0 {
        assert(s.push(c) + t =~= s.push(c));
        assert(s.push(c).drop_last() =~= s);
        assert(words(s) + split_state(t).0 =~= words(s));
    } else {
        let u = t.drop_last();
        lemma_split_after(s, c, u);
        assert((s.push(c) + t).drop_last() =~= s.push(c) + u);
        assert((s.push(c) + t).last() == t.last());
        let (done, open) = split_state(u);
        assert((words(s) + done).push(open) =~= words(s) + done.push(open));
    }
}

proof fn lemma_one_word(s: Seq<char>)
    requires
        forall|i: int| 0 <= i < s.len() ==> !white(#[trigger] s[i]),
    ensures
        split_state(s) == (Seq::<Seq<char>>::empty(), s),
    decreases s.len(),
{
    if s.len() == 0 {
        assert(s =~= Seq::empty());
    } else {
        let p = s.drop_last();
        assert forall|i: int| 0 <= i < p.len() implies !white(#[trigger] p[i]) by {
            assert(p[i] == s[i]);
        }
        lemma_one_word(p);
        assert(!white(s[s.len() - 1]));
        assert(p.push(s.last()) =~= s);
    }
}

/// Texts joined stand one after the other with the separator between them.
pub proof fn joining_puts_the_separator_between(
    a: Seq<Seq<char>>,
    b: Seq<Seq<char>>,
    sep: Seq<char>,
    x: Seq<char>,
)
    requires
        a.len() > 0,
        b.len() > 0,
    ensures
        joined(Seq::empty(), sep) == Seq::<char>::empty(),
        joined(seq![x], sep) == x,
        joined(a + b, sep) == joined(a, sep) + sep + joined(b, sep),
    decreases b.len(),
{
    assert((a + b).drop_last() =~= a + b.drop_last());
    assert((a + b).last() == b.last());
    if b.len() == 1 {
        assert(b.drop_last() =~= Seq::empty());
        assert(a + b.drop_last() =~= a);
    } else {
        joining_puts_the_separator_between(a, b.drop_last(), sep, x);
        assert(joined(a + b, sep) =~= joined(a, sep) + sep + joined(b, sep));
    }
}

/// The view of a list keeps each text, in order.
pub proof fn a_list_keeps_its_texts(v: Seq<String>, i: int)
    requires
        0 <= i < v.len(),
    ensures
        texts(v).len() == v.len(),
        texts(v)[i] == v[i]@,
{
}

} // verus!
