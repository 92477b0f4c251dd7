use braille::braille::Char as BrailleChar;
use braille::mini_blocks::Char as QuadrantChar;
use braille::sextants::Char as SextantChar;

#[test]
fn braille_example_glyph() {
    let c = BrailleChar::new([[true, true], [false, true], [true, false], [true, true]]);
    assert_eq!('\u{2800}' as u32 + 0b1101_1101, c.as_char() as u32);
    assert_eq!('⣝', c.as_char());
}

#[test]
fn braille_blank_and_full() {
    assert_eq!('\u{2800}', BrailleChar::new([[false; 2]; 4]).as_char());
    assert_eq!('⣿', BrailleChar::new([[true; 2]; 4]).as_char());
}

#[test]
fn braille_bit_positions() {
    // (row, col) -> bit
    let positions = [
        ((0, 0), 0),
        ((1, 0), 1),
        ((2, 0), 2),
        ((0, 1), 3),
        ((1, 1), 4),
        ((2, 1), 5),
        ((3, 0), 6),
        ((3, 1), 7),
    ];
    for ((row, col), bit) in positions {
        let mut cell = [[false; 2]; 4];
        cell[row][col] = true;
        assert_eq!(0x2800 + (1u32 << bit), BrailleChar::new(cell).as_char() as u32);
    }
}

#[test]
fn braille_round_trip_every_cell() {
    for bits in 0u32..256 {
        let mut cell = [[false; 2]; 4];
        for (i, (row, col)) in [(0, 0), (1, 0), (2, 0), (0, 1), (1, 1), (2, 1), (3, 0), (3, 1)]
            .into_iter()
            .enumerate()
        {
            cell[row][col] = bits & (1 << i) != 0;
        }
        let c = BrailleChar::new(cell);
        assert_eq!(cell, c.as_dot_pairs());
        let quads = c.as_dot_quads();
        for row in 0..4 {
            for col in 0..2 {
                assert_eq!(cell[row][col], quads[col][row]);
            }
        }
    }
}

#[test]
fn quadrant_glyphs() {
    assert_eq!(" ", QuadrantChar::new([[false, false], [false, false]]).as_str());
    assert_eq!("▗", QuadrantChar::new([[false, false], [false, true]]).as_str());
    assert_eq!("▞", QuadrantChar::new([[false, true], [true, false]]).as_str());
    assert_eq!("▙", QuadrantChar::new([[true, false], [true, true]]).as_str());
    assert_eq!("█", QuadrantChar::new([[true, true], [true, true]]).as_str());
}

#[test]
fn quadrant_glyphs_are_distinct() {
    let mut seen = std::collections::HashSet::new();
    for bits in 0..16 {
        let cell = [[bits & 1 != 0, bits & 2 != 0], [bits & 4 != 0, bits & 8 != 0]];
        assert!(seen.insert(QuadrantChar::new(cell).as_str()));
    }
}

#[test]
fn sextant_glyphs() {
    assert_eq!("\u{a0}", SextantChar::new([[false, false], [false, false], [false, false]]).as_str());
    assert_eq!("\u{1fb00}", SextantChar::new([[true, false], [false, false], [false, false]]).as_str());
    assert_eq!("▌", SextantChar::new([[true, false], [true, false], [true, false]]).as_str());
    assert_eq!("▐", SextantChar::new([[false, true], [false, true], [false, true]]).as_str());
    assert_eq!("\u{1fb23}", SextantChar::new([[true, false], [true, false], [false, true]]).as_str());
    assert_eq!("\u{1fb3b}", SextantChar::new([[false, true], [true, true], [true, true]]).as_str());
    assert_eq!("█", SextantChar::new([[true, true], [true, true], [true, true]]).as_str());
}

#[test]
fn sextant_glyphs_are_distinct() {
    let mut seen = std::collections::HashSet::new();
    for bits in 0..64 {
        let cell = [
            [bits & 1 != 0, bits & 2 != 0],
            [bits & 4 != 0, bits & 8 != 0],
            [bits & 16 != 0, bits & 32 != 0],
        ];
        assert!(seen.insert(SextantChar::new(cell).as_str()));
    }
}

#[test]
fn braille_from_char() {
    let c = BrailleChar::from_char('⣝').unwrap();
    assert_eq!([[true, true], [false, true], [true, false], [true, true]], c.as_dot_pairs());
    assert_eq!('⣝', c.as_char());
    assert_eq!(Some('\u{2800}'), BrailleChar::from_char('\u{2800}').map(|c| c.as_char()));
    assert_eq!(Some('\u{28ff}'), BrailleChar::from_char('\u{28ff}').map(|c| c.as_char()));
    assert!(BrailleChar::from_char('a').is_none());
    assert!(BrailleChar::from_char('\u{2900}').is_none());
    assert!(BrailleChar::from_char('\u{27ff}').is_none());
}
