//! Quadrant glyphs: 2 dots wide and 2 dots tall.
use vstd::prelude::*;

verus! {

/// The 4-bit pattern of a 2x2 cell, given as rows of `[left, right]` dots from the top:
/// dot `(row, col)` goes to bit `2 * row + col`.
pub open spec fn quadrant_code(dots: [[bool; 2]; 2]) -> u8 {
    (if dots[0][0] { 0x01u8 } else { 0u8 })
        | (if dots[0][1] { 0x02u8 } else { 0u8 })
        | (if dots[1][0] { 0x04u8 } else { 0u8 })
        | (if dots[1][1] { 0x08u8 } else { 0u8 })
}

/// The 2x2 cell that a 4-bit pattern stands for.
pub open spec fn quadrant_cell(code: u8) -> [[bool; 2]; 2] {
    [
        [code & 0x01 != 0, code & 0x02 != 0],
        [code & 0x04 != 0, code & 0x08 != 0],
    ]
}

/// The quadrant glyph of each 4-bit pattern.
pub open spec fn quadrant_glyph(code: u8) -> char {
    match code {
        0 => ' ',
        1 => '▘',
        2 => '▝',
        3 => '▀',
        4 => '▖',
        5 => '▌',
        6 => '▞',
        7 => '▛',
        8 => '▗',
        9 => '▚',
        10 => '▐',
        11 => '▜',
        12 => '▄',
        13 => '▙',
        14 => '▟',
        _ => '█',
    }
}

/// A glyph, kept as its 4-bit dot pattern.
#[derive(Debug, Default, Clone, Copy, PartialEq, Eq)]
pub struct Char {
    inner: u8,
}

impl View for Char {
    type V = u8;

    closed spec fn view(&self) -> u8 {
        self.inner
    }
}

proof fn lemma_pack_unpack(b0: bool, b1: bool, b2: bool, b3: bool)
    ensures
        ({
            let x: u8 = (if b0 { 0x01u8 } else { 0u8 })
                | (if b1 { 0x02u8 } else { 0u8 })
                | (if b2 { 0x04u8 } else { 0u8 })
                | (if b3 { 0x08u8 } else { 0u8 });
            &&& x < 16
            &&& (x & 0x01 != 0) == b0
            &&& (x & 0x02 != 0) == b1
            &&& (x & 0x04 != 0) == b2
            &&& (x & 0x08 != 0) == b3
        }),
{
    assert(({
        let x: u8 = (if b0 { 0x01u8 } else { 0u8 })
            | (if b1 { 0x02u8 } else { 0u8 })
            | (if b2 { 0x04u8 } else { 0u8 })
            | (if b3 { 0x08u8 } else { 0u8 });
        &&& x < 16
        &&& (x & 0x01 != 0) == b0
        &&& (x & 0x02 != 0) == b1
        &&& (x & 0x04 != 0) == b2
        &&& (x & 0x08 != 0) == b3
    })) by (bit_vector);
}

/// Encoding a cell and reading its dots back gives the same cell.
pub proof fn lemma_round_trip(dots: [[bool; 2]; 2])
    ensures
        forall|row: int, col: int|
            0 <= row < 2 && 0 <= col < 2 ==> quadrant_cell(quadrant_code(dots))[row][col] == dots[row][col],
{
    lemma_pack_unpack(dots[0][0], dots[0][1], dots[1][0], dots[1][1]);
}

impl Char {
    /// Turns a 2x2 cell, given as rows of `[left, right]` dots from the top, into a glyph.
    pub fn new(dots: [[bool; 2]; 2]) -> (r: Self)
        ensures
            r@ == quadrant_code(dots),
            r@ < 16,
    {
        let code: u8 = (if dots[0][0] { 0x01u8 } else { 0u8 })
            | (if dots[0][1] { 0x02u8 } else { 0u8 })
            | (if dots[1][0] { 0x04u8 } else { 0u8 })
            | (if dots[1][1] { 0x08u8 } else { 0u8 });
        proof {
            lemma_pack_unpack(dots[0][0], dots[0][1], dots[1][0], dots[1][1]);
        }
        Char { inner: code }
    }

    /// The glyph as text.
    pub fn as_str(&self) -> (r: &'static str)
        requires
            self@ < 16,
        ensures
            r@ == seq![quadrant_glyph(self@)],
    {
        match self.inner {
            0 => {
                proof {
                    reveal_strlit("\u{20}");
                }
                "\u{20}"
            }
            1 => {
                proof {
                    reveal_strlit("▘");
                }
                "▘"
            }
            2 => {
                proof {
                    reveal_strlit("▝");
                }
                "▝"
            }
            3 => {
                proof {
                    reveal_strlit("▀");
                }
                "▀"
            }
            4 => {
                proof {
                    reveal_strlit("▖");
                }
                "▖"
            }
            5 => {
                proof {
                    reveal_strlit("▌");
                }
                "▌"
            }
            6 => {
                proof {
                    reveal_strlit("▞");
                }
                "▞"
            }
            7 => {
                proof {
                    reveal_strlit("▛");
                }
                "▛"
            }
            8 => {
                proof {
                    reveal_strlit("▗");
                }
                "▗"
            }
            9 => {
                proof {
                    reveal_strlit("▚");
                }
                "▚"
            }
            10 => {
                proof {
                    reveal_strlit("▐");
                }
                "▐"
            }
            11 => {
                proof {
                    reveal_strlit("▜");
                }
                "▜"
            }
            12 => {
                proof {
                    reveal_strlit("▄");
                }
                "▄"
            }
            13 => {
                proof {
                    reveal_strlit("▙");
                }
                "▙"
            }
            14 => {
                proof {
                    reveal_strlit("▟");
                }
                "▟"
            }
            15 => {
                proof {
                    reveal_strlit("█");
                }
                "█"
            }
            _ => {
                proof {
                    reveal_strlit("█");
                }
                "█"
            }
        }
    }
}

/// Distinct patterns have distinct quadrant glyphs.
proof fn lemma_glyph_injective(c1: u8, c2: u8)
    requires
        c1 < 16,
        c2 < 16,
        quadrant_glyph(c1) == quadrant_glyph(c2),
    ensures
        c1 == c2,
{
}

/// Two cells with the same quadrant glyph are the same cell: the glyph alone decodes back to
/// the cell.
pub proof fn lemma_glyph_decodes(a: [[bool; 2]; 2], b: [[bool; 2]; 2])
    requires
        quadrant_glyph(quadrant_code(a)) == quadrant_glyph(quadrant_code(b)),
    ensures
        forall|row: int, col: int| 0 <= row < 2 && 0 <= col < 2 ==> a[row][col] == b[row][col],
{
    lemma_pack_unpack(a[0][0], a[0][1], a[1][0], a[1][1]);
    lemma_pack_unpack(b[0][0], b[0][1], b[1][0], b[1][1]);
    lemma_glyph_injective(quadrant_code(a), quadrant_code(b));
}

} // verus!
