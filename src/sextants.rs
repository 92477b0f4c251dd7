//! Sextant glyphs: 2 dots wide and 3 dots tall.
use vstd::prelude::*;

verus! {

/// The 6-bit pattern of a 2x3 cell, given as rows of `[left, right]` dots from the top:
/// dot `(row, col)` goes to bit `2 * row + col`.
pub open spec fn sextant_code(dots: [[bool; 2]; 3]) -> u8 {
    (if dots[0][0] { 0x01u8 } else { 0u8 })
        | (if dots[0][1] { 0x02u8 } else { 0u8 })
        | (if dots[1][0] { 0x04u8 } else { 0u8 })
        | (if dots[1][1] { 0x08u8 } else { 0u8 })
        | (if dots[2][0] { 0x10u8 } else { 0u8 })
        | (if dots[2][1] { 0x20u8 } else { 0u8 })
}

/// The 2x3 cell that a 6-bit pattern stands for.
pub open spec fn sextant_cell(code: u8) -> [[bool; 2]; 3] {
    [
        [code & 0x01 != 0, code & 0x02 != 0],
        [code & 0x04 != 0, code & 0x08 != 0],
        [code & 0x10 != 0, code & 0x20 != 0],
    ]
}

/// The sextant glyph of each 6-bit pattern: the blank pattern is a no-break space, the two
/// half blocks and the full block come from the block elements, and the other sixty patterns
/// run in order from `U+1FB00`.
pub open spec fn sextant_glyph(code: u8) -> char {
    if code == 0 {
        '\u{a0}'
    } else if code == 21 {
        '\u{258c}'
    } else if code == 42 {
        '\u{2590}'
    } else if code == 63 {
        '\u{2588}'
    } else {
        (0x1FB00 + code - 1 - (if code > 21 { 1int } else { 0 }) - (if code > 42 { 1int } else { 0 })) as u32 as char
    }
}

/// A glyph, kept as its 6-bit dot pattern.
#[derive(Debug, Default, Clone, Copy, PartialEq, Eq)]
pub struct Char {
    inner: u8,
}

impl View for Char {
    type V = u8;

    closed spec fn view(&self) -> u8 {
        self.inner
    }
}

proof fn lemma_pack_unpack(b0: bool, b1: bool, b2: bool, b3: bool, b4: bool, b5: bool)
    ensures
        ({
            let x: u8 = (if b0 { 0x01u8 } else { 0u8 })
                | (if b1 { 0x02u8 } else { 0u8 })
                | (if b2 { 0x04u8 } else { 0u8 })
                | (if b3 { 0x08u8 } else { 0u8 })
                | (if b4 { 0x10u8 } else { 0u8 })
                | (if b5 { 0x20u8 } else { 0u8 });
            &&& x < 64
            &&& (x & 0x01 != 0) == b0
            &&& (x & 0x02 != 0) == b1
            &&& (x & 0x04 != 0) == b2
            &&& (x & 0x08 != 0) == b3
            &&& (x & 0x10 != 0) == b4
            &&& (x & 0x20 != 0) == b5
        }),
{
    assert(({
        let x: u8 = (if b0 { 0x01u8 } else { 0u8 })
            | (if b1 { 0x02u8 } else { 0u8 })
            | (if b2 { 0x04u8 } else { 0u8 })
            | (if b3 { 0x08u8 } else { 0u8 })
            | (if b4 { 0x10u8 } else { 0u8 })
            | (if b5 { 0x20u8 } else { 0u8 });
        &&& x < 64
        &&& (x & 0x01 != 0) == b0
        &&& (x & 0x02 != 0) == b1
        &&& (x & 0x04 != 0) == b2
        &&& (x & 0x08 != 0) == b3
        &&& (x & 0x10 != 0) == b4
        &&& (x & 0x20 != 0) == b5
    })) by (bit_vector);
}

/// Encoding a cell and reading its dots back gives the same cell.
pub proof fn lemma_round_trip(dots: [[bool; 2]; 3])
    ensures
        forall|row: int, col: int|
            0 <= row < 3 && 0 <= col < 2 ==> sextant_cell(sextant_code(dots))[row][col] == dots[row][col],
{
    lemma_pack_unpack(dots[0][0], dots[0][1], dots[1][0], dots[1][1], dots[2][0], dots[2][1]);
}

impl Char {
    /// Turns a 2x3 cell, given as rows of `[left, right]` dots from the top, into a glyph.
    pub fn new(dots: [[bool; 2]; 3]) -> (r: Self)
        ensures
            r@ == sextant_code(dots),
            r@ < 64,
    {
        let code: u8 = (if dots[0][0] { 0x01u8 } else { 0u8 })
            | (if dots[0][1] { 0x02u8 } else { 0u8 })
            | (if dots[1][0] { 0x04u8 } else { 0u8 })
            | (if dots[1][1] { 0x08u8 } else { 0u8 })
            | (if dots[2][0] { 0x10u8 } else { 0u8 })
            | (if dots[2][1] { 0x20u8 } else { 0u8 });
        proof {
            lemma_pack_unpack(dots[0][0], dots[0][1], dots[1][0], dots[1][1], dots[2][0], dots[2][1]);
        }
        Char { inner: code }
    }

    /// The glyph as text.
    pub fn as_str(&self) -> (r: &'static str)
        requires
            self@ < 64,
        ensures
            r@ == seq![sextant_glyph(self@)],
    {
        match self.inner {
            0 => {
                proof {
                    reveal_strlit("\u{a0}");
                }
                "\u{a0}"
            }
            1 => {
                proof {
                    reveal_strlit("🬀");
                }
                "🬀"
            }
            2 => {
                proof {
                    reveal_strlit("🬁");
                }
                "🬁"
            }
            3 => {
                proof {
                    reveal_strlit("🬂");
                }
                "🬂"
            }
            4 => {
                proof {
                    reveal_strlit("🬃");
                }
                "🬃"
            }
            5 => {
                proof {
                    reveal_strlit("🬄");
                }
                "🬄"
            }
            6 => {
                proof {
                    reveal_strlit("🬅");
                }
                "🬅"
            }
            7 => {
                proof {
                    reveal_strlit("🬆");
                }
                "🬆"
            }
            8 => {
                proof {
                    reveal_strlit("🬇");
                }
                "🬇"
            }
            9 => {
                proof {
                    reveal_strlit("🬈");
                }
                "🬈"
            }
            10 => {
                proof {
                    reveal_strlit("🬉");
                }
                "🬉"
            }
            11 => {
                proof {
                    reveal_strlit("🬊");
                }
                "🬊"
            }
            12 => {
                proof {
                    reveal_strlit("🬋");
                }
                "🬋"
            }
            13 => {
                proof {
                    reveal_strlit("🬌");
                }
                "🬌"
            }
            14 => {
                proof {
                    reveal_strlit("🬍");
                }
                "🬍"
            }
            15 => {
                proof {
                    reveal_strlit("🬎");
                }
                "🬎"
            }
            16 => {
                proof {
                    reveal_strlit("🬏");
                }
                "🬏"
            }
            17 => {
                proof {
                    reveal_strlit("🬐");
                }
                "🬐"
            }
            18 => {
                proof {
                    reveal_strlit("🬑");
                }
                "🬑"
            }
            19 => {
                proof {
                    reveal_strlit("🬒");
                }
                "🬒"
            }
            20 => {
                proof {
                    reveal_strlit("🬓");
                }
                "🬓"
            }
            21 => {
                proof {
                    reveal_strlit("▌");
                }
                "▌"
            }
            22 => {
                proof {
                    reveal_strlit("🬔");
                }
                "🬔"
            }
            23 => {
                proof {
                    reveal_strlit("🬕");
                }
                "🬕"
            }
            24 => {
                proof {
                    reveal_strlit("🬖");
                }
                "🬖"
            }
            25 => {
                proof {
                    reveal_strlit("🬗");
                }
                "🬗"
            }
            26 => {
                proof {
                    reveal_strlit("🬘");
                }
                "🬘"
            }
            27 => {
                proof {
                    reveal_strlit("🬙");
                }
                "🬙"
            }
            28 => {
                proof {
                    reveal_strlit("🬚");
                }
                "🬚"
            }
            29 => {
                proof {
                    reveal_strlit("🬛");
                }
                "🬛"
            }
            30 => {
                proof {
                    reveal_strlit("🬜");
                }
                "🬜"
            }
            31 => {
                proof {
                    reveal_strlit("🬝");
                }
                "🬝"
            }
            32 => {
                proof {
                    reveal_strlit("🬞");
                }
                "🬞"
            }
            33 => {
                proof {
                    reveal_strlit("🬟");
                }
                "🬟"
            }
            34 => {
                proof {
                    reveal_strlit("🬠");
                }
                "🬠"
            }
            35 => {
                proof {
                    reveal_strlit("🬡");
                }
                "🬡"
            }
            36 => {
                proof {
                    reveal_strlit("🬢");
                }
                "🬢"
            }
            37 => {
                proof {
                    reveal_strlit("🬣");
                }
                "🬣"
            }
            38 => {
                proof {
                    reveal_strlit("🬤");
                }
                "🬤"
            }
            39 => {
                proof {
                    reveal_strlit("🬥");
                }
                "🬥"
            }
            40 => {
                proof {
                    reveal_strlit("🬦");
                }
                "🬦"
            }
            41 => {
                proof {
                    reveal_strlit("🬧");
                }
                "🬧"
            }
            42 => {
                proof {
                    reveal_strlit("▐");
                }
                "▐"
            }
            43 => {
                proof {
                    reveal_strlit("🬨");
                }
                "🬨"
            }
            44 => {
                proof {
                    reveal_strlit("🬩");
                }
                "🬩"
            }
            45 => {
                proof {
                    reveal_strlit("🬪");
                }
                "🬪"
            }
            46 => {
                proof {
                    reveal_strlit("🬫");
                }
                "🬫"
            }
            47 => {
                proof {
                    reveal_strlit("🬬");
                }
                "🬬"
            }
            48 => {
                proof {
                    reveal_strlit("🬭");
                }
                "🬭"
            }
            49 => {
                proof {
                    reveal_strlit("🬮");
                }
                "🬮"
            }
            50 => {
                proof {
                    reveal_strlit("🬯");
                }
                "🬯"
            }
            51 => {
                proof {
                    reveal_strlit("🬰");
                }
                "🬰"
            }
            52 => {
                proof {
                    reveal_strlit("🬱");
                }
                "🬱"
            }
            53 => {
                proof {
                    reveal_strlit("🬲");
                }
                "🬲"
            }
            54 => {
                proof {
                    reveal_strlit("🬳");
                }
                "🬳"
            }
            55 => {
                proof {
                    reveal_strlit("🬴");
                }
                "🬴"
            }
            56 => {
                proof {
                    reveal_strlit("🬵");
                }
                "🬵"
            }
            57 => {
                proof {
                    reveal_strlit("🬶");
                }
                "🬶"
            }
            58 => {
                proof {
                    reveal_strlit("🬷");
                }
                "🬷"
            }
            59 => {
                proof {
                    reveal_strlit("🬸");
                }
                "🬸"
            }
            60 => {
                proof {
                    reveal_strlit("🬹");
                }
                "🬹"
            }
            61 => {
                proof {
                    reveal_strlit("🬺");
                }
                "🬺"
            }
            62 => {
                proof {
                    reveal_strlit("🬻");
                }
                "🬻"
            }
            63 => {
                proof {
                    reveal_strlit("█");
                }
                "█"
            }
            _ => {
                proof {
                    reveal_strlit("█");
                }
                "█"
            }
        }
    }
}

/// Distinct patterns have distinct sextant glyphs.
proof fn lemma_glyph_injective(c1: u8, c2: u8)
    requires
        c1 < 64,
        c2 < 64,
        sextant_glyph(c1) == sextant_glyph(c2),
    ensures
        c1 == c2,
{
}

/// Two cells with the same sextant glyph are the same cell: the glyph alone decodes back to
/// the cell.
pub proof fn lemma_glyph_decodes(a: [[bool; 2]; 3], b: [[bool; 2]; 3])
    requires
        sextant_glyph(sextant_code(a)) == sextant_glyph(sextant_code(b)),
    ensures
        forall|row: int, col: int| 0 <= row < 3 && 0 <= col < 2 ==> a[row][col] == b[row][col],
{
    lemma_pack_unpack(a[0][0], a[0][1], a[1][0], a[1][1], a[2][0], a[2][1]);
    lemma_pack_unpack(b[0][0], b[0][1], b[1][0], b[1][1], b[2][0], b[2][1]);
    lemma_glyph_injective(sextant_code(a), sextant_code(b));
}

} // verus!
