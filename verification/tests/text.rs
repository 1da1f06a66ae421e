use latchkey::hexes::{hex_groups, hexarg, key_arg, unhex, unhex_exact};
use latchkey::hf::{ident, ident_text};
use latchkey::number::parse_dec;
use latchkey::text::{
    chars_of, dec, hex2_string, hex4_string, is_white, left_padded, right_padded, signed,
    split_words, trim,
};

#[test]
fn white_is_what_std_calls_white() {
    for n in 0..=0x10ffffu32 {
        if let Some(c) = char::from_u32(n) {
            assert_eq!(is_white(c), c.is_whitespace(), "{n:x}");
        }
    }
}

#[test]
fn trimming_and_splitting_agree_with_std() {
    for s in ["", " ", "a", "  a b\t c ", "\u{3000}x\u{a0}y\n", "12 34  56\r\n", "\u{e9} \u{1f600}"] {
        assert_eq!(trim(&chars_of(s)), s.trim());
        let want: Vec<String> = s.split_whitespace().map(|w| w.to_string()).collect();
        assert_eq!(split_words(&chars_of(s)), want);
    }
}

#[test]
fn numbers_in_every_shape() {
    assert_eq!(dec(0), "0");
    assert_eq!(dec(18446744073709551615), "18446744073709551615");
    assert_eq!(signed(-2147483648), "-2147483648");
    assert_eq!(signed(1000), "1000");
    assert_eq!(hex2_string(0x0a), "0a");
    assert_eq!(hex4_string(0x2518), "2518");
    assert_eq!(left_padded("7", 3, '0'), "007");
    assert_eq!(left_padded("12345", 3, '0'), "12345");
    assert_eq!(right_padded("hex", 7), "hex    ");
}

#[test]
fn decimal_digits_read_as_std_reads_them() {
    for s in ["", "0", "007", "4294967295", "4294967296", "+5", "-1", "1a", "99999999999999999999"] {
        let v = chars_of(s);
        let want: Option<u64> = s.parse::<u32>().ok().map(|n| n as u64);
        assert_eq!(parse_dec(v.as_slice(), 0xffff_ffff), want, "{s}");
    }
}

#[test]
fn hex_comes_in_many_spellings() {
    assert_eq!(unhex("ff 00 80"), Ok(vec![0xff, 0x00, 0x80]));
    assert_eq!(unhex("ff0080"), Ok(vec![0xff, 0x00, 0x80]));
    assert_eq!(unhex("0xff 0X"), Err("bad hex \"0X\": invalid digit found in string".to_string()));
    assert_eq!(unhex("0x12\t0x3"), Ok(vec![0x12, 0x03]));
    assert_eq!(unhex(""), Ok(vec![]));
    assert_eq!(unhex("123"), Ok(vec![0x12, 0x03]));
    assert_eq!(unhex("+f"), Ok(vec![0x0f]));
}

#[test]
fn bad_hex_is_named() {
    assert_eq!(unhex("zz"), Err("bad hex \"zz\": invalid digit found in string".to_string()));
    assert_eq!(unhex("12 g"), Err("bad hex \"g\": invalid digit found in string".to_string()));
    assert_eq!(unhex("\u{e9}"), Err("bad hex \"\u{e9}\": invalid digit found in string".to_string()));
    assert_eq!(unhex("0\"q"), Err("bad hex \"0\\\"\": invalid digit found in string".to_string()));
    let torn = unhex("1\u{e9}").unwrap_err();
    assert!(torn.contains("utf-8"), "{torn}");
}

#[test]
fn one_byte_arguments() {
    assert_eq!(hexarg("0x7f"), Ok(0x7f));
    assert_eq!(hexarg("12"), Ok(0x12));
    assert_eq!(hexarg("100"), Err("\"100\": number too large to fit in target type".to_string()));
    assert_eq!(hexarg(""), Err("\"\": cannot parse integer from empty string".to_string()));
    assert_eq!(hexarg("0xzz"), Err("\"0xzz\": invalid digit found in string".to_string()));
}

#[test]
fn exact_lengths_are_asked_for() {
    assert_eq!(unhex_exact("01 02", 2, "got "), Ok(vec![1, 2]));
    assert_eq!(unhex_exact("01 02", 3, "got "), Err("got 2".to_string()));
    assert_eq!(key_arg("a0a1a2a3a4a5"), Ok([0xa0, 0xa1, 0xa2, 0xa3, 0xa4, 0xa5]));
    assert_eq!(key_arg("a0a1"), Err("a key is 6 bytes, got 2".to_string()));
}

#[test]
fn groups_of_four() {
    assert_eq!(hex_groups(&[]), "");
    assert_eq!(hex_groups(&[1, 2, 3, 4]), "01020304");
    assert_eq!(hex_groups(&[1, 2, 3, 4, 5]), "01020304 05");
    assert_eq!(hex_groups(&[0xab; 16]), "abababab abababab abababab abababab");
}

#[test]
fn the_reader_names_itself() {
    assert_eq!(ident(b" wCopy NSR109-HIDIC V806N\0"), "wCopy NSR109-HIDIC V806N\0");
    assert_eq!(ident(b"T37350466633 \r\n"), "T37350466633");
    assert_eq!(ident(&[b'a', 0xff, b'b']), "a\u{fffd}b");
    assert_eq!(ident_text("  x y "), "x y");
}
