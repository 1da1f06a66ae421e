//! MIFARE Classic cards: sectors, keys, and what the detect command tells.

use std::ops::RangeInclusive;
use vstd::prelude::*;

verus! {

/// Factory default first, then the published keys.
pub const KEYS: [[u8; 6]; 8] = [
    [0xff, 0xff, 0xff, 0xff, 0xff, 0xff],
    [0xa0, 0xa1, 0xa2, 0xa3, 0xa4, 0xa5],
    [0xb0, 0xb1, 0xb2, 0xb3, 0xb4, 0xb5],
    [0xd3, 0xf7, 0xd3, 0xf7, 0xd3, 0xf7],
    [0x00, 0x00, 0x00, 0x00, 0x00, 0x00],
    [0x4d, 0x3a, 0x99, 0xc3, 0x51, 0xdd],
    [0x1a, 0x98, 0x2c, 0x7e, 0x45, 0x9a],
    [0xaa, 0xbb, 0xcc, 0xdd, 0xee, 0xff],
];

/// Sectors of the largest card.
pub const MAX_SECTORS: u8 = 40;

// ---- sectors ----

/// The first block of a sector.
pub open spec fn sector_first(sector: int) -> int {
    if sector < 32 {
        sector * 4
    } else {
        128 + (sector - 32) * 16
    }
}

/// How many blocks a sector holds.
pub open spec fn sector_len(sector: int) -> int {
    if sector < 32 {
        4
    } else {
        16
    }
}

/// Sectors 0-31 hold four blocks, 32-39 hold sixteen.
pub fn sector_blocks(sector: u8) -> (r: RangeInclusive<u8>)
    requires
        sector < MAX_SECTORS,
    ensures
        r@.start == sector_first(sector as int),
        r@.end == sector_first(sector as int) + sector_len(sector as int) - 1,
        !r@.exhausted,
{
    if sector < 32 {
        let first: u8 = sector * 4;
        RangeInclusive::new(first, first + 3)
    } else {
        let first: u8 = 128 + (sector - 32) * 16;
        RangeInclusive::new(first, first + 15)
    }
}

/// The first block of a sector and how many it holds.
pub fn sector_span(sector: u8) -> (r: (u8, u8))
    requires
        sector < MAX_SECTORS,
    ensures
        r.0 == sector_first(sector as int),
        r.1 == sector_len(sector as int),
{
    if sector < 32 {
        (sector * 4, 4)
    } else {
        (128 + (sector - 32) * 16, 16)
    }
}

/// The last block of a sector.
pub open spec fn trailer(blk: int) -> bool {
    if blk < 128 {
        blk % 4 == 3
    } else {
        blk % 16 == 15
    }
}

/// The last block of a sector, holding key A, the access bits and key B.
/// ! A wrong value here locks the sector permanently !
pub fn is_trailer(blk: u8) -> (r: bool)
    ensures
        r == trailer(blk as int),
{
    if blk < 128 {
        blk % 4 == 3
    } else {
        (blk - 128) % 16 == 15
    }
}

/// The last block of every sector is a trailer, and no other block of it is.
pub proof fn sector_ends_in_its_trailer(sector: int, blk: int)
    requires
        0 <= sector < MAX_SECTORS,
        sector_first(sector) <= blk < sector_first(sector) + sector_len(sector),
    ensures
        trailer(blk) <==> blk == sector_first(sector) + sector_len(sector) - 1,
{
}

/// The sector a block lies in.
pub open spec fn sector_of(blk: int) -> int {
    if blk < 128 {
        blk / 4
    } else {
        32 + (blk - 128) / 16
    }
}

/// The sectors cover the 256 blocks, each block in one sector and no other.
pub proof fn sectors_split_the_card(blk: int, sector: int)
    requires
        0 <= blk < 256,
        0 <= sector < MAX_SECTORS,
    ensures
        0 <= sector_of(blk) < MAX_SECTORS,
        sector_first(sector) <= blk < sector_first(sector) + sector_len(sector) <==> sector
            == sector_of(blk),
{
}

// ---- cards ----

/// A 13.56 MHz card as the detect command describes it.
#[derive(Clone, Debug, PartialEq)]
pub struct Card {
    pub atqa: [u8; 2],
    pub sak: u8,
    pub uid: Vec<u8>,
}

/// What is known of a card.
pub struct CardModel {
    pub atqa: Seq<u8>,
    pub sak: u8,
    pub uid: Seq<u8>,
}

impl View for Card {
    type V = CardModel;

    open spec fn view(&self) -> CardModel {
        CardModel { atqa: self.atqa@, sak: self.sak, uid: self.uid@ }
    }
}

/// The published SAK table.
pub open spec fn kind_of(sak: u8) -> Seq<char> {
    if sak == 0x08 {
        "MIFARE Classic 1K"@
    } else if sak == 0x09 {
        "MIFARE Classic Mini"@
    } else if sak == 0x18 {
        "MIFARE Classic 4K"@
    } else if sak == 0x00 {
        "MIFARE Ultralight or NTAG"@
    } else if sak == 0x20 {
        "ISO 14443-4 (DESFire or JavaCard)"@
    } else if sak == 0x28 {
        "SmartMX emulating Classic 1K"@
    } else if sak == 0x38 {
        "SmartMX emulating Classic 4K"@
    } else {
        "unknown"@
    }
}

/// How many Classic sectors a card with this SAK has.
pub open spec fn sectors_of(sak: u8) -> Option<u8> {
    if sak == 0x08 || sak == 0x28 {
        Some(16)
    } else if sak == 0x09 {
        Some(5)
    } else if sak == 0x18 || sak == 0x38 {
        Some(40)
    } else {
        None
    }
}

impl Card {
    pub fn kind(&self) -> (r: &'static str)
        ensures
            r@ == kind_of(self.sak),
    {
        match self.sak {
            0x08 => "MIFARE Classic 1K",
            0x09 => "MIFARE Classic Mini",
            0x18 => "MIFARE Classic 4K",
            0x00 => "MIFARE Ultralight or NTAG",
            0x20 => "ISO 14443-4 (DESFire or JavaCard)",
            0x28 => "SmartMX emulating Classic 1K",
            0x38 => "SmartMX emulating Classic 4K",
            _ => "unknown",
        }
    }

    pub fn sectors(&self) -> (r: Option<u8>)
        ensures
            r == sectors_of(self.sak),
    {
        match self.sak {
            0x08 | 0x28 => Some(16),
            0x09 => Some(5),
            0x18 | 0x38 => Some(40),
            _ => None,
        }
    }

    /// A copy with the same contents.
    pub fn copy(&self) -> (r: Card)
        ensures
            r@ == self@,
    {
        let uid = vstd::slice::slice_to_vec(self.uid.as_slice());
        Card { atqa: self.atqa, sak: self.sak, uid }
    }
}

/// `07 <sak> <atqa 2> <uid 4...>`.
pub open spec fn card_of(payload: Seq<u8>) -> Option<CardModel> {
    if payload.len() >= 8 && payload[0] == 0x07 {
        Some(
            CardModel {
                atqa: payload.subrange(2, 4),
                sak: payload[1],
                uid: payload.subrange(4, 8),
            },
        )
    } else {
        None
    }
}

/// A card seen through its view.
pub open spec fn card_view(c: Option<Card>) -> Option<CardModel> {
    match c {
        Some(c) => Some(c@),
        None => None,
    }
}

/// The card in the answer to the detect command. `None` means nothing on the
/// pad rather than an error.
pub fn parse_card(payload: &[u8]) -> (r: Option<Card>)
    ensures
        card_view(r) == card_of(payload@),
{
    if payload.len() >= 8 && payload[0] == 0x07 {
        let uid = vstd::slice::slice_to_vec(vstd::slice::slice_subrange(payload, 4, 8));
        let atqa: [u8; 2] = [payload[2], payload[3]];
        assert(atqa@ =~= payload@.subrange(2, 4));
        Some(Card { atqa, sak: payload[1], uid })
    } else {
        None
    }
}

// ---- laws ----

/// The sectors lie one after another from block 0 on, thirty-two of four blocks
/// and then eight of sixteen, and fill the 256 blocks.
pub proof fn sectors_follow_one_another(s: int)
    requires
        0 <= s < 40,
    ensures
        sector_first(0) == 0,
        sector_first(s + 1) == sector_first(s) + sector_len(s),
        sector_len(s) == if s < 32 {
            4int
        } else {
            16
        },
        sector_first(40) == 256,
        MAX_SECTORS == 40,
{
}

/// The sectors that a card is said to have make up its size: 1 KB, 320 bytes
/// for a Mini, or 4 KB, in blocks of sixteen bytes. A card of another make has
/// none.
pub proof fn sectors_make_up_the_card(sak: u8)
    ensures
        sak == 0x08 || sak == 0x28 <==> (sectors_of(sak) is Some && 16 * sector_first(
            sectors_of(sak)->Some_0 as int,
        ) == 1024),
        sak == 0x09 <==> (sectors_of(sak) is Some && 16 * sector_first(
            sectors_of(sak)->Some_0 as int,
        ) == 320),
        sak == 0x18 || sak == 0x38 <==> (sectors_of(sak) is Some && 16 * sector_first(
            sectors_of(sak)->Some_0 as int,
        ) == 4096),
        sectors_of(sak) matches Some(n) ==> 0 < n <= MAX_SECTORS,
        sectors_of(sak) is Some ==> sak == 0x08 || sak == 0x09 || sak == 0x18 || sak == 0x28 || sak
            == 0x38,
{
}

/// What each SAK stands for. Of the rest nothing is known.
pub proof fn kinds_by_sak(sak: u8)
    ensures
        sak == 0x00 ==> kind_of(sak) == "MIFARE Ultralight or NTAG"@,
        sak == 0x08 ==> kind_of(sak) == "MIFARE Classic 1K"@,
        sak == 0x09 ==> kind_of(sak) == "MIFARE Classic Mini"@,
        sak == 0x18 ==> kind_of(sak) == "MIFARE Classic 4K"@,
        sak == 0x20 ==> kind_of(sak) == "ISO 14443-4 (DESFire or JavaCard)"@,
        sak == 0x28 ==> kind_of(sak) == "SmartMX emulating Classic 1K"@,
        sak == 0x38 ==> kind_of(sak) == "SmartMX emulating Classic 4K"@,
        !(seq![0x00u8, 0x08, 0x09, 0x18, 0x20, 0x28, 0x38].contains(sak)) ==> kind_of(sak)
            == "unknown"@,
{
    let known = seq![0x00u8, 0x08, 0x09, 0x18, 0x20, 0x28, 0x38];
    assert(known[0] == 0x00 && known[1] == 0x08 && known[2] == 0x09 && known[3] == 0x18 && known[4]
        == 0x20 && known[5] == 0x28 && known[6] == 0x38);
}

/// The answer to the detect command spells out the card: `07`, then the SAK,
/// the two bytes of the ATQA and the four of the UID. Anything else is no card.
pub proof fn a_detected_card_is_spelled_out(
    sak: u8,
    atqa: Seq<u8>,
    uid: Seq<u8>,
    rest: Seq<u8>,
    p: Seq<u8>,
)
    requires
        atqa.len() == 2,
        uid.len() == 4,
    ensures
        card_of(seq![0x07u8, sak] + atqa + uid + rest) == Some(CardModel { atqa, sak, uid }),
        card_of(p) is Some <==> p.len() > 7 && p[0] == 0x07,
        card_of(p) matches Some(c) ==> p == seq![0x07u8, c.sak] + c.atqa + c.uid + p.skip(8)
            && c.uid.len() == 4 && c.atqa.len() == 2,
{
    let q = seq![0x07u8, sak] + atqa + uid + rest;
    assert(q.subrange(2, 4) =~= atqa);
    assert(q.subrange(4, 8) =~= uid);
    if card_of(p) is Some {
        let c = card_of(p)->Some_0;
        assert(p =~= seq![0x07u8, c.sak] + c.atqa + c.uid + p.skip(8));
    }
}

/// The view of a card keeps ATQA, SAK and UID.
pub proof fn a_card_keeps_its_bytes(c: Card)
    ensures
        c@.atqa == c.atqa@,
        c@.sak == c.sak,
        c@.uid == c.uid@,
        card_view(Some(c)) == Some(c@),
        card_view(None) is None,
{
}

} // verus!
