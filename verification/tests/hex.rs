use latchkey::hexes::{hex, unhex};

#[test]
fn hex_reads_back() {
    let v = vec![0u8, 1, 0xab, 0xff];
    assert_eq!(hex(&v), "00 01 ab ff");
    assert_eq!(unhex("00 01 ab ff"), Ok(v));
}
