//! The cell assembler: stacks the dot groups of several rows into glyph cells.
use vstd::prelude::*;

verus! {

/// The length of the longest row.
pub open spec fn longest(rows: Seq<Seq<Seq<bool>>>) -> nat
    decreases rows.len(),
{
    if rows.len() == 0 {
        0
    } else {
        let rest = longest(rows.drop_last());
        if rest < rows.last().len() {
            rows.last().len()
        } else {
            rest
        }
    }
}

/// A group of `width` blank dots.
pub open spec fn blank_group(width: int) -> Seq<bool> {
    Seq::new(width as nat, |j: int| false)
}

/// The cell at `column`: one group from each row, blank where a row is too short.
pub open spec fn cell_at(rows: Seq<Seq<Seq<bool>>>, width: int, column: int) -> Seq<Seq<bool>> {
    Seq::new(
        rows.len(),
        |r: int|
            if column < rows[r].len() {
                rows[r][column]
            } else {
                blank_group(width)
            },
    )
}

/// Whether no dot of a cell is lit.
pub open spec fn is_blank(cell: Seq<Seq<bool>>) -> bool {
    forall|r: int, j: int| 0 <= r < cell.len() && 0 <= j < cell[r].len() ==> !cell[r][j]
}

/// Every cell up to the longest row.
pub open spec fn all_cells(rows: Seq<Seq<Seq<bool>>>, width: int) -> Seq<Seq<Seq<bool>>> {
    Seq::new(longest(rows), |c: int| cell_at(rows, width, c))
}

/// The cells of a row of glyphs: every cell up to the longest row, except a last cell that
/// is blank.
pub open spec fn spec_assemble_row(rows: Seq<Seq<Seq<bool>>>, width: int) -> Seq<Seq<Seq<bool>>> {
    let cells = all_cells(rows, width);
    if cells.len() > 0 && is_blank(cells.last()) {
        cells.drop_last()
    } else {
        cells
    }
}

/// Whether every group of every row holds `width` dots.
pub open spec fn well_shaped(rows: Seq<Seq<Seq<bool>>>, width: int) -> bool {
    forall|r: int, c: int| 0 <= r < rows.len() && 0 <= c < rows[r].len() ==> #[trigger] rows[r][c].len() == width
}

proof fn lemma_longest_step(rows: Seq<Seq<Seq<bool>>>, i: int)
    requires
        0 <= i < rows.len(),
    ensures
        longest(rows.subrange(0, i + 1)) == (if longest(rows.subrange(0, i)) < rows[i].len() {
            rows[i].len()
        } else {
            longest(rows.subrange(0, i))
        }),
{
    assert(rows.subrange(0, i + 1).drop_last() =~= rows.subrange(0, i));
}

/// Builds the cell at `column` from one group of each row.
fn build_cell(rows: &Vec<Vec<Vec<bool>>>, width: usize, column: usize) -> (r: Vec<Vec<bool>>)
    requires
        well_shaped(rows.deep_view(), width as int),
    ensures
        r.deep_view() == cell_at(rows.deep_view(), width as int, column as int),
{
    let ghost target = cell_at(rows.deep_view(), width as int, column as int);
    let mut cell: Vec<Vec<bool>> = Vec::new();
    let mut r: usize = 0;
    while r < rows.len()
        invariant
            r <= rows.len(),
            well_shaped(rows.deep_view(), width as int),
            target == cell_at(rows.deep_view(), width as int, column as int),
            cell.len() == r,
            forall|i: int| 0 <= i < r ==> #[trigger] cell@[i]@ == target[i],
        decreases rows.len() - r,
    {
        if column < rows[r].len() {
            let group = rows[r][column].clone();
            proof {
                assert(group@ =~= target[r as int]);
            }
            cell.push(group);
        } else {
            let blank: Vec<bool> = vec![false; width];
            proof {
                assert(blank@ =~= target[r as int]);
            }
            cell.push(blank);
        }
        r += 1;
    }
    proof {
        assert(cell.deep_view() =~~= target);
    }
    cell
}

/// Whether a cell has a lit dot.
fn has_lit_dot(cell: &Vec<Vec<bool>>) -> (r: bool)
    ensures
        r == !is_blank(cell.deep_view()),
{
    let mut r: usize = 0;
    while r < cell.len()
        invariant
            r <= cell.len(),
            forall|i: int, j: int|
                0 <= i < r && 0 <= j < cell.deep_view()[i].len() ==> !cell.deep_view()[i][j],
        decreases cell.len() - r,
    {
        let mut j: usize = 0;
        while j < cell[r].len()
            invariant
                r < cell.len(),
                j <= cell[r as int].len(),
                forall|k: int| 0 <= k < j ==> !cell.deep_view()[r as int][k],
            decreases cell[r as int].len() - j,
        {
            if cell[r][j] {
                proof {
                    assert(cell.deep_view()[r as int][j as int]);
                }
                return true;
            }
            j += 1;
        }
        r += 1;
    }
    false
}

/// Rows of dot groups stacked into glyph cells.
pub trait RowBuildable {
    /// Turns rows of `width`-dot groups into the cells of one row of glyphs: the cell at each
    /// column holds the group of every row at that column, blank where a row is shorter. A
    /// last cell that is blank is dropped.
    fn assemble_row(input_row: &Vec<Vec<Vec<bool>>>, width: usize) -> (r: Vec<Vec<Vec<bool>>>)
        requires
            well_shaped(input_row.deep_view(), width as int),
        ensures
            r.deep_view() == spec_assemble_row(input_row.deep_view(), width as int),
    {
        let ghost rows = input_row.deep_view();
        let mut longest_len: usize = 0;
        let mut i: usize = 0;
        while i < input_row.len()
            invariant
                i <= input_row.len(),
                rows == input_row.deep_view(),
                longest_len == longest(rows.subrange(0, i as int)),
            decreases input_row.len() - i,
        {
            proof {
                lemma_longest_step(rows, i as int);
            }
            if longest_len < input_row[i].len() {
                longest_len = input_row[i].len();
            }
            i += 1;
        }
        proof {
            assert(rows.subrange(0, rows.len() as int) =~= rows);
        }
        let mut output_row: Vec<Vec<Vec<bool>>> = Vec::new();
        let mut column: usize = 0;
        while column < longest_len
            invariant
                column <= longest_len,
                longest_len == longest(rows),
                rows == input_row.deep_view(),
                well_shaped(rows, width as int),
                forall|c: int|
                    0 <= c < column && c + 1 == longest_len ==> !is_blank(
                        #[trigger] all_cells(rows, width as int)[c],
                    ),
                output_row.deep_view() =~~= all_cells(rows, width as int).subrange(0, column as int),
            decreases longest_len - column,
        {
            let cell = build_cell(input_row, width, column);
            if column + 1 < longest_len || has_lit_dot(&cell) {
                output_row.push(cell);
            } else {
                proof {
                    assert(output_row.deep_view() =~~= spec_assemble_row(rows, width as int));
                }
                return output_row;
            }
            column += 1;
            proof {
                assert(output_row.deep_view() =~~= all_cells(rows, width as int).subrange(
                    0,
                    column as int,
                ));
            }
        }
        proof {
            let cells = all_cells(rows, width as int);
            assert(cells.subrange(0, column as int) =~~= cells);
            if cells.len() > 0 {
                assert(!is_blank(cells[cells.len() - 1]));
            }
        }
        output_row
    }
}

/// The assembler never drops a cell that has a lit dot, wherever it stands.
pub proof fn lemma_assemble_keeps_lit_cells(rows: Seq<Seq<Seq<bool>>>, width: int)
    ensures
        ({
            let cells = all_cells(rows, width);
            let out = spec_assemble_row(rows, width);
            forall|c: int|
                0 <= c < cells.len() && !is_blank(#[trigger] cells[c]) ==> c < out.len() && out[c]
                    == cells[c]
        }),
{
}

/// The assembler ends a row on at most one blank cell, unless the last three columns of its
/// input are all blank (the one blank column it drops cannot make up for two more).
pub proof fn lemma_assemble_ends_on_one_blank(rows: Seq<Seq<Seq<bool>>>, width: int)
    requires
        ({
            let cells = all_cells(rows, width);
            let n = cells.len() as int;
            n < 3 || !is_blank(cells[n - 1]) || !is_blank(cells[n - 2]) || !is_blank(cells[n - 3])
        }),
    ensures
        ({
            let out = spec_assemble_row(rows, width);
            let m = out.len() as int;
            m < 2 || !is_blank(out[m - 1]) || !is_blank(out[m - 2])
        }),
{
}

/// Whether a group has a lit dot.
pub open spec fn group_lit(group: Seq<bool>) -> bool {
    exists|j: int| 0 <= j < group.len() && group[j]
}

proof fn lemma_longest_attained(rows: Seq<Seq<Seq<bool>>>)
    ensures
        longest(rows) > 0 ==> exists|r: int| 0 <= r < rows.len() && #[trigger] rows[r].len() == longest(rows),
    decreases rows.len(),
{
    if rows.len() > 0 {
        let rest = rows.drop_last();
        lemma_longest_attained(rest);
        if longest(rest) >= rows.last().len() && longest(rows) > 0 {
            let r = choose|r: int| 0 <= r < rest.len() && #[trigger] rest[r].len() == longest(rest);
            assert(rows[r] == rest[r]);
        } else if longest(rows) > 0 {
            assert(rows[rows.len() - 1].len() == longest(rows));
        }
    }
}

/// When every row that has groups ends on a lit group, as the rows drawn by the generator for
/// pairs and for filled single values do, the assembled row never ends on a blank cell: only
/// the last column could have been dropped, and it is lit.
pub proof fn lemma_assemble_ends_lit(rows: Seq<Seq<Seq<bool>>>, width: int)
    requires
        forall|r: int|
            0 <= r < rows.len() && (#[trigger] rows[r]).len() > 0 ==> group_lit(rows[r].last()),
    ensures
        ({
            let out = spec_assemble_row(rows, width);
            out.len() == 0 || !is_blank(out.last())
        }),
{
    let n = longest(rows);
    lemma_longest_attained(rows);
    if n > 0 {
        let r = choose|r: int| 0 <= r < rows.len() && #[trigger] rows[r].len() == longest(rows);
        let cells = all_cells(rows, width);
        let last = cells[n - 1];
        assert(last[r] == rows[r][n - 1]);
        assert(group_lit(rows[r].last()));
        let j = choose|j: int| 0 <= j < rows[r].last().len() && rows[r].last()[j];
        assert(last[r][j]);
        assert(!is_blank(last));
    }
}

} // verus!
