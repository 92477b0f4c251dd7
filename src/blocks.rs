//! Partial block glyphs: a value measured in eighths of a cell is drawn as full blocks plus
//! one block filled to the remaining eighths.
use vstd::prelude::*;

use crate::text::push_char;

verus! {

/// The full block.
pub const FULL_BLOCK: char = '█';

/// The horizontal glyph filled to `k` eighths from the left, for `1 <= k <= 7`.
pub open spec fn left_eighths(k: int) -> char {
    seq!['▏', '▎', '▍', '▌', '▋', '▊', '▉'][k - 1]
}

/// The vertical glyph filled to `k` eighths from the bottom, for `1 <= k <= 7`.
pub open spec fn lower_eighths(k: int) -> char {
    seq!['▁', '▂', '▃', '▄', '▅', '▆', '▇'][k - 1]
}

/// A horizontal bar of `eighths` eighths: full blocks, then the partial block of what is left
/// (nothing when no eighth is left).
pub open spec fn bar_text(eighths: nat) -> Seq<char> {
    Seq::new(eighths / 8, |i: int| FULL_BLOCK) + if eighths % 8 == 0 {
        Seq::<char>::empty()
    } else {
        seq![left_eighths((eighths % 8) as int)]
    }
}

/// A vertical stack of `eighths` eighths from the bottom up: full blocks, then the partial
/// block of what is left (nothing when no eighth is left).
pub open spec fn column_stack(eighths: nat) -> Seq<char> {
    Seq::new(eighths / 8, |i: int| FULL_BLOCK) + if eighths % 8 == 0 {
        Seq::<char>::empty()
    } else {
        seq![lower_eighths((eighths % 8) as int)]
    }
}

fn left_eighths_glyph(k: u32) -> (r: char)
    requires
        1 <= k <= 7,
    ensures
        r == left_eighths(k as int),
{
    match k {
        1 => '▏',
        2 => '▎',
        3 => '▍',
        4 => '▌',
        5 => '▋',
        6 => '▊',
        _ => '▉',
    }
}

fn lower_eighths_glyph(k: u32) -> (r: char)
    requires
        1 <= k <= 7,
    ensures
        r == lower_eighths(k as int),
{
    match k {
        1 => '▁',
        2 => '▂',
        3 => '▃',
        4 => '▄',
        5 => '▅',
        6 => '▆',
        _ => '▇',
    }
}

/// The text of one bar: empty for a missing value.
pub fn print_line(eighths: Option<u32>) -> (r: String)
    ensures
        r@ == match eighths {
            Some(n) => bar_text(n as nat),
            None => Seq::<char>::empty(),
        },
{
    let mut line = String::new();
    if let Some(n) = eighths {
        let stem = n / 8;
        let mut i: u32 = 0;
        while i < stem
            invariant
                i <= stem,
                stem == n / 8,
                line@ =~= Seq::new(i as nat, |k: int| FULL_BLOCK),
            decreases stem - i,
        {
            push_char(&mut line, FULL_BLOCK);
            i += 1;
        }
        let tip = n % 8;
        if tip > 0 {
            push_char(&mut line, left_eighths_glyph(tip));
        }
        proof {
            assert(line@ =~= bar_text(n as nat));
        }
    }
    line
}

/// The glyphs of one column from the bottom up: a single space for a missing value.
pub fn calculate_column(eighths: Option<u32>) -> (r: Vec<char>)
    ensures
        r@ == match eighths {
            Some(n) => column_stack(n as nat),
            None => seq![' '],
        },
{
    let mut column: Vec<char> = Vec::new();
    match eighths {
        Some(n) => {
            let stem = n / 8;
            let mut i: u32 = 0;
            while i < stem
                invariant
                    i <= stem,
                    stem == n / 8,
                    column@ =~= Seq::new(i as nat, |k: int| FULL_BLOCK),
                decreases stem - i,
            {
                column.push(FULL_BLOCK);
                i += 1;
            }
            let tip = n % 8;
            if tip > 0 {
                column.push(lower_eighths_glyph(tip));
            }
            proof {
                assert(column@ =~= column_stack(n as nat));
            }
        },
        None => {
            column.push(' ');
            proof {
                assert(column@ =~= seq![' ']);
            }
        },
    }
    column
}

/// The glyph of a column at `row` (counted from the bottom): a space above its top.
pub open spec fn column_glyph(eighths: Option<u32>, row: int) -> char {
    let stack = match eighths {
        Some(n) => column_stack(n as nat),
        None => seq![' '],
    };
    if row < stack.len() {
        stack[row]
    } else {
        ' '
    }
}

/// Writes a column chart of block glyphs as `height` lines from the top down, one glyph per
/// value on each line.
pub fn print_columns(values: &Vec<Option<u32>>, height: usize) -> (r: Vec<String>)
    ensures
        r.len() == height,
        forall|t: int|
            0 <= t < height ==> (#[trigger] r@[t])@ == Seq::new(
                values.len() as nat,
                |c: int| column_glyph(values@[c], height - 1 - t),
            ),
{
    let mut columns: Vec<Vec<char>> = Vec::new();
    let mut c: usize = 0;
    while c < values.len()
        invariant
            c <= values.len(),
            columns.len() == c,
            forall|k: int|
                0 <= k < c ==> (#[trigger] columns@[k])@ == match values@[k] {
                    Some(n) => column_stack(n as nat),
                    None => seq![' '],
                },
        decreases values.len() - c,
    {
        columns.push(calculate_column(values[c]));
        c += 1;
    }
    let mut lines: Vec<String> = Vec::new();
    let mut t: usize = 0;
    while t < height
        invariant
            t <= height,
            columns.len() == values.len(),
            forall|k: int|
                0 <= k < values.len() ==> (#[trigger] columns@[k])@ == match values@[k] {
                    Some(n) => column_stack(n as nat),
                    None => seq![' '],
                },
            lines.len() == t,
            forall|u: int|
                0 <= u < t ==> (#[trigger] lines@[u])@ == Seq::new(
                    values.len() as nat,
                    |k: int| column_glyph(values@[k], height - 1 - u),
                ),
        decreases height - t,
    {
        let row = height - 1 - t;
        let mut line = String::new();
        let mut k: usize = 0;
        while k < columns.len()
            invariant
                k <= columns.len(),
                columns.len() == values.len(),
                row == height - 1 - t,
                forall|j: int|
                    0 <= j < values.len() ==> (#[trigger] columns@[j])@ == match values@[j] {
                        Some(n) => column_stack(n as nat),
                        None => seq![' '],
                    },
                line@ =~= Seq::new(k as nat, |j: int| column_glyph(values@[j], row as int)),
            decreases columns.len() - k,
        {
            let glyph = if row < columns[k].len() {
                columns[k][row]
            } else {
                ' '
            };
            push_char(&mut line, glyph);
            k += 1;
        }
        lines.push(line);
        t += 1;
    }
    lines
}

} // verus!
