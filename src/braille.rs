//! Braille glyphs: 2 dots wide and 4 dots tall, at `U+2800` plus an 8-bit pattern.
use vstd::prelude::*;

verus! {

/// The 8-bit pattern of a 2x4 cell, given as rows of `[left, right]` dots from the top. Dot
/// `(row, col)` goes to bit `row + 3 * col` for the upper three rows, and to bit `6 + col` for
/// the bottom row.
pub open spec fn braille_code(dot_pairs: [[bool; 2]; 4]) -> u8 {
    (if dot_pairs[0][0] { 0x01u8 } else { 0u8 }) | (if dot_pairs[1][0] { 0x02u8 } else { 0u8 }) | (
    if dot_pairs[2][0] { 0x04u8 } else { 0u8 }) | (if dot_pairs[0][1] { 0x08u8 } else { 0u8 }) | (
    if dot_pairs[1][1] { 0x10u8 } else { 0u8 }) | (if dot_pairs[2][1] { 0x20u8 } else { 0u8 }) | (
    if dot_pairs[3][0] { 0x40u8 } else { 0u8 }) | (if dot_pairs[3][1] { 0x80u8 } else { 0u8 })
}

/// The 2x4 cell that an 8-bit pattern stands for.
pub open spec fn braille_dot_pairs(code: u8) -> [[bool; 2]; 4] {
    [
        [code & 0x01 != 0, code & 0x08 != 0],
        [code & 0x02 != 0, code & 0x10 != 0],
        [code & 0x04 != 0, code & 0x20 != 0],
        [code & 0x40 != 0, code & 0x80 != 0],
    ]
}

/// A braille glyph, kept as its 8-bit dot pattern.
#[derive(Debug, Default, Clone, Copy, PartialEq, Eq, PartialOrd, Ord)]
pub struct Char {
    inner: u8,
}

impl View for Char {
    type V = u8;

    closed spec fn view(&self) -> u8 {
        self.inner
    }
}

proof fn lemma_pack_unpack_8(
    b0: bool,
    b1: bool,
    b2: bool,
    b3: bool,
    b4: bool,
    b5: bool,
    b6: bool,
    b7: bool,
)
    ensures
        ({
            let x: u8 = (if b0 { 0x01u8 } else { 0u8 }) | (if b1 { 0x02u8 } else { 0u8 }) | (if b2 {
                0x04u8
            } else {
                0u8
            }) | (if b3 { 0x08u8 } else { 0u8 }) | (if b4 { 0x10u8 } else { 0u8 }) | (if b5 {
                0x20u8
            } else {
                0u8
            }) | (if b6 { 0x40u8 } else { 0u8 }) | (if b7 { 0x80u8 } else { 0u8 });
            &&& (x & 0x01 != 0) == b0
            &&& (x & 0x02 != 0) == b1
            &&& (x & 0x04 != 0) == b2
            &&& (x & 0x08 != 0) == b3
            &&& (x & 0x10 != 0) == b4
            &&& (x & 0x20 != 0) == b5
            &&& (x & 0x40 != 0) == b6
            &&& (x & 0x80 != 0) == b7
        }),
{
    assert(({
        let x: u8 = (if b0 { 0x01u8 } else { 0u8 }) | (if b1 { 0x02u8 } else { 0u8 }) | (if b2 {
            0x04u8
        } else {
            0u8
        }) | (if b3 { 0x08u8 } else { 0u8 }) | (if b4 { 0x10u8 } else { 0u8 }) | (if b5 {
            0x20u8
        } else {
            0u8
        }) | (if b6 { 0x40u8 } else { 0u8 }) | (if b7 { 0x80u8 } else { 0u8 });
        &&& (x & 0x01 != 0) == b0
        &&& (x & 0x02 != 0) == b1
        &&& (x & 0x04 != 0) == b2
        &&& (x & 0x08 != 0) == b3
        &&& (x & 0x10 != 0) == b4
        &&& (x & 0x20 != 0) == b5
        &&& (x & 0x40 != 0) == b6
        &&& (x & 0x80 != 0) == b7
    })) by (bit_vector);
}

/// Encoding a braille cell and reading its dots back gives the same cell.
pub proof fn lemma_braille_round_trip(dot_pairs: [[bool; 2]; 4])
    ensures
        forall|row: int, col: int|
            0 <= row < 4 && 0 <= col < 2 ==> braille_dot_pairs(braille_code(dot_pairs))[row][col]
                == dot_pairs[row][col],
{
    lemma_pack_unpack_8(
        dot_pairs[0][0],
        dot_pairs[1][0],
        dot_pairs[2][0],
        dot_pairs[0][1],
        dot_pairs[1][1],
        dot_pairs[2][1],
        dot_pairs[3][0],
        dot_pairs[3][1],
    );
}

impl Char {
    /// Turns a 2x4 cell, given as rows of `[left, right]` dots from the top, into a braille
    /// glyph.
    pub fn new(dot_pairs: [[bool; 2]; 4]) -> (r: Self)
        ensures
            r@ == braille_code(dot_pairs),
    {
        let dots: u8 = (if dot_pairs[0][0] { 0x01u8 } else { 0u8 }) | (if dot_pairs[1][0] {
            0x02u8
        } else {
            0u8
        }) | (if dot_pairs[2][0] { 0x04u8 } else { 0u8 }) | (if dot_pairs[0][1] {
            0x08u8
        } else {
            0u8
        }) | (if dot_pairs[1][1] { 0x10u8 } else { 0u8 }) | (if dot_pairs[2][1] {
            0x20u8
        } else {
            0u8
        }) | (if dot_pairs[3][0] { 0x40u8 } else { 0u8 }) | (if dot_pairs[3][1] {
            0x80u8
        } else {
            0u8
        });
        Char { inner: dots }
    }

    /// The glyph as a character: `U+2800` plus the dot pattern.
    pub fn as_char(self) -> (r: char)
        ensures
            r as u32 == 0x2800 + self@,
    {
        let code: u32 = 0x2800 + self.inner as u32;
        match char::from_u32(code) {
            Some(c) => c,
            None => ' ',
        }
    }

    /// The braille glyph that `c` is, `None` for a character outside `U+2800..=U+28FF`.
    pub fn from_char(c: char) -> (r: Option<Self>)
        ensures
            r is Some <==> 0x2800 <= c as u32 <= 0x28FF,
            r matches Some(b) ==> 0x2800 + b@ == c as u32,
    {
        let code = c as u32;
        if 0x2800 <= code && code <= 0x28FF {
            Some(Char { inner: (code - 0x2800) as u8 })
        } else {
            None
        }
    }

    /// The cell as rows of `[left, right]` dots from the top.
    pub fn as_dot_pairs(&self) -> (r: [[bool; 2]; 4])
        ensures
            r =~~= braille_dot_pairs(self@),
    {
        let dots = self.inner;
        [
            [dots & 0x01 != 0, dots & 0x08 != 0],
            [dots & 0x02 != 0, dots & 0x10 != 0],
            [dots & 0x04 != 0, dots & 0x20 != 0],
            [dots & 0x40 != 0, dots & 0x80 != 0],
        ]
    }

    /// The cell as its `[left, right]` columns of four dots each, from the top.
    pub fn as_dot_quads(&self) -> (r: [[bool; 4]; 2])
        ensures
            forall|col: int, row: int|
                0 <= col < 2 && 0 <= row < 4 ==> r[col][row] == braille_dot_pairs(self@)[row][col],
    {
        let dots = self.inner;
        [
            [dots & 0x01 != 0, dots & 0x02 != 0, dots & 0x04 != 0, dots & 0x40 != 0],
            [dots & 0x08 != 0, dots & 0x10 != 0, dots & 0x20 != 0, dots & 0x80 != 0],
        ]
    }
}

} // verus!
