//! Rows of glyphs: turning assembled cells into text, the streaming printer for bar charts
//! (one input line per dot row) and the printer for column charts (two input lines per glyph
//! column).
use vstd::prelude::*;
use vstd::arithmetic::div_mod::lemma_fundamental_div_mod_converse;
use vstd::string::StringExecFns;

use crate::braille::{braille_code, Char as BrailleChar};
use crate::cells::{spec_assemble_row, well_shaped, RowBuildable};
use crate::dots::{ceil_div, sample_groups, spec_sample_groups, Samples};
use crate::style::{ConfigError, GraphStyle};
use crate::mini_blocks::{quadrant_code, quadrant_glyph, Char as QuadrantChar};
use crate::sextants::{sextant_code, sextant_glyph, Char as SextantChar};
use crate::text::push_char;

verus! {

/// The glyph families whose cells are two dots wide.
#[derive(Debug, Clone, Copy, PartialEq, Eq, Structural)]
pub enum Family {
    /// 2x4 braille patterns.
    Braille,
    /// 2x3 sextants.
    Sextant,
    /// 2x2 quadrants.
    Quadrant,
}

impl Family {
    /// How many dots tall a cell of this family is.
    pub open spec fn spec_height(self) -> int {
        match self {
            Family::Braille => 4,
            Family::Sextant => 3,
            Family::Quadrant => 2,
        }
    }

    /// How many dots tall a cell of this family is.
    pub fn height(self) -> (r: usize)
        ensures
            r == self.spec_height(),
    {
        match self {
            Family::Braille => 4,
            Family::Sextant => 3,
            Family::Quadrant => 2,
        }
    }
}

/// Whether `cell` has `height` rows of two dots.
pub open spec fn cell_shaped(cell: Seq<Seq<bool>>, height: int) -> bool {
    cell.len() == height && forall|r: int| 0 <= r < height ==> #[trigger] cell[r].len() == 2
}

/// The glyph that `family` draws for a cell given as rows of `[left, right]` dots from the top.
pub open spec fn glyph_of(family: Family, cell: Seq<Seq<bool>>) -> char {
    match family {
        Family::Braille => (0x2800 + braille_code(
            [[cell[0][0], cell[0][1]], [cell[1][0], cell[1][1]], [cell[2][0], cell[2][1]], [
                cell[3][0],
                cell[3][1],
            ]],
        )) as u32 as char,
        Family::Sextant => sextant_glyph(
            sextant_code([[cell[0][0], cell[0][1]], [cell[1][0], cell[1][1]], [cell[2][0], cell[2][1]]]),
        ),
        Family::Quadrant => quadrant_glyph(
            quadrant_code([[cell[0][0], cell[0][1]], [cell[1][0], cell[1][1]]]),
        ),
    }
}

/// The text of a row of cells: one glyph per cell.
pub open spec fn glyphs_of(family: Family, cells: Seq<Seq<Seq<bool>>>) -> Seq<char> {
    Seq::new(cells.len(), |i: int| glyph_of(family, cells[i]))
}

/// Appends the glyph of one cell to `line`.
fn push_glyph(line: &mut String, family: Family, cell: &Vec<Vec<bool>>)
    requires
        cell_shaped(cell.deep_view(), family.spec_height()),
    ensures
        final(line)@ == old(line)@.push(glyph_of(family, cell.deep_view())),
{
    let ghost dv = cell.deep_view();
    assert(forall|r: int| 0 <= r < cell.len() ==> #[trigger] cell@[r]@ == dv[r]);
    match family {
        Family::Braille => {
            let c = BrailleChar::new(
                [
                    [cell[0][0], cell[0][1]],
                    [cell[1][0], cell[1][1]],
                    [cell[2][0], cell[2][1]],
                    [cell[3][0], cell[3][1]],
                ],
            ).as_char();
            proof {
                vstd::utf8::char_u32_cast(c, c as u32);
            }
            push_char(line, c);
        },
        Family::Sextant => {
            let s = SextantChar::new(
                [[cell[0][0], cell[0][1]], [cell[1][0], cell[1][1]], [cell[2][0], cell[2][1]]],
            ).as_str();
            line.append(s);
            proof {
                assert(final(line)@ =~= old(line)@.push(glyph_of(family, dv)));
            }
        },
        Family::Quadrant => {
            let s = QuadrantChar::new([[cell[0][0], cell[0][1]], [cell[1][0], cell[1][1]]]).as_str();
            line.append(s);
            proof {
                assert(final(line)@ =~= old(line)@.push(glyph_of(family, dv)));
            }
        },
    }
}

/// Writes one glyph per cell.
pub fn render_cells(family: Family, cells: &Vec<Vec<Vec<bool>>>) -> (r: String)
    requires
        forall|i: int|
            0 <= i < cells.len() ==> cell_shaped(#[trigger] cells.deep_view()[i], family.spec_height()),
    ensures
        r@ == glyphs_of(family, cells.deep_view()),
{
    let mut line = String::new();
    let mut i: usize = 0;
    while i < cells.len()
        invariant
            i <= cells.len(),
            forall|k: int|
                0 <= k < cells.len() ==> cell_shaped(#[trigger] cells.deep_view()[k], family.spec_height()),
            line@ =~= glyphs_of(family, cells.deep_view()).subrange(0, i as int),
        decreases cells.len() - i,
    {
        proof {
            assert(cells@[i as int].deep_view() == cells.deep_view()[i as int]);
        }
        push_glyph(&mut line, family, &cells[i]);
        i += 1;
    }
    line
}

/// The text of one row of a bar chart: the glyphs of the assembled cells.
pub open spec fn bar_line(family: Family, rows: Seq<Seq<Seq<bool>>>) -> Seq<char> {
    glyphs_of(family, spec_assemble_row(rows, 2))
}

/// `rows` followed by empty rows up to `height`.
pub open spec fn padded(rows: Seq<Seq<Seq<bool>>>, height: int) -> Seq<Seq<Seq<bool>>> {
    rows + Seq::new((height - rows.len()) as nat, |i: int| Seq::<Seq<bool>>::empty())
}

proof fn lemma_assembled_cells_shaped(rows: Seq<Seq<Seq<bool>>>, height: int)
    requires
        rows.len() == height,
        well_shaped(rows, 2),
    ensures
        forall|i: int|
            0 <= i < spec_assemble_row(rows, 2).len() ==> cell_shaped(
                #[trigger] spec_assemble_row(rows, 2)[i],
                height,
            ),
{
}

/// The streaming printer of a bar chart. Each input line gives the dot groups of one dot row;
/// once a glyph's worth of rows is buffered, they come out as one line of text.
pub struct Lines {
    family: Family,
    buffer: Vec<Vec<Vec<bool>>>,
}

impl RowBuildable for Lines {
}

impl Lines {
    /// The glyph family drawn.
    pub closed spec fn spec_family(&self) -> Family {
        self.family
    }

    /// The rows buffered towards the next line.
    pub closed spec fn pending(&self) -> Seq<Seq<Seq<bool>>> {
        self.buffer.deep_view()
    }

    /// Fewer rows are buffered than a glyph is tall, each of them made of two-dot groups.
    pub closed spec fn well_formed(&self) -> bool {
        &&& self.buffer.len() < self.family.spec_height()
        &&& well_shaped(self.buffer.deep_view(), 2)
    }

    /// A printer with nothing buffered.
    pub fn new(family: Family) -> (r: Self)
        ensures
            r.well_formed(),
            r.spec_family() == family,
            r.pending() == Seq::<Seq<Seq<bool>>>::empty(),
    {
        let r = Lines { family, buffer: Vec::new() };
        proof {
            assert(r.buffer.deep_view() =~= Seq::<Seq<Seq<bool>>>::empty());
        }
        r
    }

    /// Buffers the dot groups of one input line (none for a missing value). When that
    /// completes a glyph row, returns its text and empties the buffer.
    pub fn push(&mut self, groups: Vec<Vec<bool>>) -> (r: Option<String>)
        requires
            old(self).well_formed(),
            forall|j: int| 0 <= j < groups.len() ==> (#[trigger] groups.deep_view()[j]).len() == 2,
        ensures
            final(self).well_formed(),
            final(self).spec_family() == old(self).spec_family(),
            ({
                let rows = old(self).pending().push(groups.deep_view());
                if rows.len() == old(self).spec_family().spec_height() {
                    &&& final(self).pending() == Seq::<Seq<Seq<bool>>>::empty()
                    &&& r matches Some(line) && line@ == bar_line(old(self).spec_family(), rows)
                } else {
                    &&& final(self).pending() == rows
                    &&& r is None
                }
            }),
    {
        let ghost rows = self.buffer.deep_view().push(groups.deep_view());
        self.buffer.push(groups);
        proof {
            assert(self.buffer.deep_view() =~~= rows);
        }
        if self.buffer.len() == self.family.height() {
            proof {
                lemma_assembled_cells_shaped(rows, self.family.spec_height());
            }
            let cells = Self::assemble_row(&self.buffer, 2);
            let line = render_cells(self.family, &cells);
            self.buffer = Vec::new();
            proof {
                assert(self.buffer.deep_view() =~= Seq::<Seq<Seq<bool>>>::empty());
            }
            Some(line)
        } else {
            None
        }
    }

    /// Ends the input: returns the text of the glyph row still buffered, if any of its rows
    /// holds a dot group, and empties the buffer.
    pub fn finish(&mut self) -> (r: Option<String>)
        requires
            old(self).well_formed(),
        ensures
            final(self).well_formed(),
            final(self).spec_family() == old(self).spec_family(),
            final(self).pending() == Seq::<Seq<Seq<bool>>>::empty(),
            r is Some <==> exists|i: int|
                0 <= i < old(self).pending().len() && (#[trigger] old(self).pending()[i]).len() > 0,
            r matches Some(line) ==> line@ == bar_line(
                old(self).spec_family(),
                padded(old(self).pending(), old(self).spec_family().spec_height()),
            ),
    {
        let ghost rows = self.buffer.deep_view();
        let ghost height = self.family.spec_height();
        let mut any = false;
        let mut i: usize = 0;
        while i < self.buffer.len()
            invariant
                i <= self.buffer.len(),
                rows == self.buffer.deep_view(),
                any <==> exists|k: int| 0 <= k < i && (#[trigger] rows[k]).len() > 0,
            decreases self.buffer.len() - i,
        {
            proof {
                assert(rows[i as int].len() == self.buffer@[i as int].len());
            }
            if self.buffer[i].len() > 0 {
                any = true;
            }
            i += 1;
        }
        if !any {
            self.buffer = Vec::new();
            proof {
                assert(self.buffer.deep_view() =~= Seq::<Seq<Seq<bool>>>::empty());
            }
            return None;
        }
        let mut full = self.buffer.clone();
        proof {
            assert(full.deep_view() =~~= rows);
        }
        while full.len() < self.family.height()
            invariant
                rows.len() <= full.len() <= height,
                height == self.family.spec_height(),
                full.deep_view() =~~= padded(rows, full.len() as int),
            decreases height - full.len(),
        {
            let ghost before = full.deep_view();
            let empty: Vec<Vec<bool>> = Vec::new();
            proof {
                assert(empty.deep_view() =~= Seq::<Seq<bool>>::empty());
            }
            full.push(empty);
            proof {
                assert(full.deep_view() =~~= before.push(Seq::<Seq<bool>>::empty()));
                assert(padded(rows, full.len() as int) =~~= padded(rows, full.len() - 1).push(
                    Seq::<Seq<bool>>::empty(),
                ));
            }
        }
        proof {
            assert(well_shaped(full.deep_view(), 2));
            lemma_assembled_cells_shaped(full.deep_view(), height);
        }
        let cells = Self::assemble_row(&full, 2);
        let line = render_cells(self.family, &cells);
        self.buffer = Vec::new();
        proof {
            assert(self.buffer.deep_view() =~= Seq::<Seq<Seq<bool>>>::empty());
        }
        Some(line)
    }
}

/// The lines of a whole bar chart of `rows`: one line for each complete glyph row, then one
/// for the rows left over if any of them holds a dot group.
pub open spec fn stream_text(family: Family, rows: Seq<Seq<Seq<bool>>>) -> Seq<Seq<char>> {
    let h = family.spec_height();
    let full = rows.len() as int / h;
    let tail = rows.subrange(full * h, rows.len() as int);
    let lines = Seq::new(full as nat, |k: int| bar_line(family, rows.subrange(k * h, k * h + h)));
    if exists|i: int| 0 <= i < tail.len() && (#[trigger] tail[i]).len() > 0 {
        lines.push(bar_line(family, padded(tail, h)))
    } else {
        lines
    }
}

impl Lines {
    /// Prints a whole bar chart: every input line's dot groups go through the streaming
    /// printer in turn, and what is left at the end is flushed.
    pub fn print_graph(family: Family, rows: &Vec<Vec<Vec<bool>>>) -> (r: Vec<String>)
        requires
            well_shaped(rows.deep_view(), 2),
        ensures
            r.len() == stream_text(family, rows.deep_view()).len(),
            forall|k: int| 0 <= k < r.len() ==> (#[trigger] r@[k])@ == stream_text(family, rows.deep_view())[k],
    {
        let ghost rs = rows.deep_view();
        let ghost h = family.spec_height();
        let mut printer = Lines::new(family);
        let mut out: Vec<String> = Vec::new();
        let ghost mut start: int = 0;
        let mut i: usize = 0;
        assert(0 * h == 0) by (nonlinear_arith);
        while i < rows.len()
            invariant
                rs == rows.deep_view(),
                h == family.spec_height(),
                well_shaped(rs, 2),
                printer.well_formed(),
                printer.spec_family() == family,
                0 <= start <= i <= rows.len(),
                start == out.len() * h,
                printer.pending() =~~= rs.subrange(start, i as int),
                forall|k: int|
                    0 <= k < out.len() ==> (#[trigger] out@[k])@ == bar_line(
                        family,
                        rs.subrange(k * h, k * h + h),
                    ),
            decreases rows.len() - i,
        {
            let row = rows[i].clone();
            proof {
                assert(row.deep_view() =~~= rs[i as int]);
                assert(rs.subrange(start, i + 1) =~~= rs.subrange(start, i as int).push(rs[i as int]));
            }
            let emitted = printer.push(row);
            match emitted {
                Some(line) => {
                    proof {
                        let k = out.len() as int;
                        assert((k + 1) * h == k * h + h) by (nonlinear_arith);
                    }
                    out.push(line);
                    proof {
                        start = start + h;
                    }
                },
                None => {},
            }
            i += 1;
        }
        let ghost lines_before = out@;
        let ghost pending = printer.pending();
        proof {
            lemma_fundamental_div_mod_converse(rows.len() as int, h, out.len() as int, rows.len() - start);
        }
        if let Some(line) = printer.finish() {
            out.push(line);
        }
        proof {
            let st = stream_text(family, rs);
            let full = rs.len() as int / h;
            assert(full * h == start);
            assert(rs.subrange(full * h, rs.len() as int) =~~= pending);
            assert forall|k: int| 0 <= k < out.len() implies (#[trigger] out@[k])@ == st[k] by {
                if k < full {
                    assert(out@[k] == lines_before[k]);
                }
            }
        }
        out
    }
}

/// When the last input line of a bar chart is missing but an earlier line of the same glyph
/// row holds a value, that glyph row is still printed, as exactly one line and the last one.
pub proof fn lemma_missing_last_row_ends_on_its_glyph_row(family: Family, rows: Seq<Seq<Seq<bool>>>)
    requires
        rows.len() > 0,
        rows[rows.len() - 1].len() == 0,
        exists|i: int|
            ((rows.len() - 1) / family.spec_height()) * family.spec_height() <= i < rows.len() - 1
                && (#[trigger] rows[i]).len() > 0,
    ensures
        ({
            let h = family.spec_height();
            let start = ((rows.len() - 1) / h) * h;
            let st = stream_text(family, rows);
            &&& st.len() == ceil_div(rows.len() as int, h)
            &&& st.last() == bar_line(family, padded(rows.subrange(start, rows.len() as int), h))
        }),
{
    let h = family.spec_height();
    let n = rows.len() as int;
    let q = (n - 1) / h;
    let s = q * h;
    vstd::arithmetic::div_mod::lemma_fundamental_div_mod(n - 1, h);
    vstd::arithmetic::div_mod::lemma_mod_pos_bound(n - 1, h);
    assert(n - 1 == s + (n - 1) % h) by (nonlinear_arith)
        requires
            n - 1 == h * ((n - 1) / h) + (n - 1) % h,
            q == (n - 1) / h,
            s == q * h,
    ;
    let r0 = (n - 1) % h;
    let i = choose|i: int| s <= i < n - 1 && (#[trigger] rows[i]).len() > 0;
    assert((q + 1) * h == s + h) by (nonlinear_arith)
        requires
            s == q * h,
    ;
    if r0 == h - 1 {
        lemma_fundamental_div_mod_converse(n, h, q + 1, 0);
        lemma_fundamental_div_mod_converse(n + h - 1, h, q + 1, h - 1);
        let tail = rows.subrange(n, n);
        assert(!(exists|k: int| 0 <= k < tail.len() && (#[trigger] tail[k]).len() > 0));
        assert(padded(rows.subrange(s, n), h) =~~= rows.subrange(s, n));
    } else {
        lemma_fundamental_div_mod_converse(n, h, q, r0 + 1);
        lemma_fundamental_div_mod_converse(n + h - 1, h, q + 1, r0);
        let tail = rows.subrange(s, n);
        assert(tail[i - s] == rows[i]);
    }
}

/// Dot `k` of group `g` of a value's dot groups; blank past their end.
pub open spec fn dot_at(groups: Seq<Seq<bool>>, g: int, k: int) -> bool {
    0 <= g < groups.len() && 0 <= k < groups[g].len() && groups[g][k]
}

/// The cell of a column chart in glyph row `row_index` (counted from the bottom): its left
/// and right dots come from the two values of the glyph column, the lowest dot of the group at
/// the bottom.
pub open spec fn column_cell(left: Seq<Seq<bool>>, right: Seq<Seq<bool>>, row_index: int, height: int) -> Seq<
    Seq<bool>,
> {
    Seq::new(
        height as nat,
        |r: int| seq![dot_at(left, row_index, height - 1 - r), dot_at(right, row_index, height - 1 - r)],
    )
}

/// The text of glyph row `row_index` (counted from the bottom) of a column chart.
pub open spec fn column_line(family: Family, columns: Seq<[Vec<Vec<bool>>; 2]>, row_index: int) -> Seq<
    char,
> {
    Seq::new(
        columns.len(),
        |c: int|
            glyph_of(
                family,
                column_cell(
                    columns[c][0].deep_view(),
                    columns[c][1].deep_view(),
                    row_index,
                    family.spec_height(),
                ),
            ),
    )
}

/// The printer of a column chart: every glyph column holds two values side by side, each
/// drawn upwards as dot groups as tall as a glyph.
pub struct Columns {
    family: Family,
}

impl Columns {
    /// The glyph family drawn.
    pub closed spec fn spec_family(&self) -> Family {
        self.family
    }

    /// A printer for `family`.
    pub fn new(family: Family) -> (r: Self)
        ensures
            r.spec_family() == family,
    {
        Columns { family }
    }

    /// Builds the cell of one glyph column in glyph row `row_index`.
    fn column_cell(&self, column: &[Vec<Vec<bool>>; 2], row_index: usize) -> (r: Vec<Vec<bool>>)
        ensures
            r.deep_view() == column_cell(
                column[0].deep_view(),
                column[1].deep_view(),
                row_index as int,
                self.family.spec_height(),
            ),
    {
        let height = self.family.height();
        let ghost target = column_cell(
            column[0].deep_view(),
            column[1].deep_view(),
            row_index as int,
            height as int,
        );
        let mut cell: Vec<Vec<bool>> = Vec::new();
        let mut r: usize = 0;
        while r < height
            invariant
                r <= height,
                height == self.family.spec_height(),
                target == column_cell(
                    column[0].deep_view(),
                    column[1].deep_view(),
                    row_index as int,
                    height as int,
                ),
                cell.len() == r,
                forall|i: int| 0 <= i < r ==> #[trigger] cell@[i]@ == target[i],
            decreases height - r,
        {
            let k = height - 1 - r;
            let left = row_index < column[0].len() && k < column[0][row_index].len()
                && column[0][row_index][k];
            let right = row_index < column[1].len() && k < column[1][row_index].len()
                && column[1][row_index][k];
            let pair = vec![left, right];
            proof {
                assert(column[0]@.len() == column[0].deep_view().len());
                assert(column[1]@.len() == column[1].deep_view().len());
                if row_index < column[0].len() {
                    assert(column[0]@[row_index as int]@ == column[0].deep_view()[row_index as int]);
                }
                if row_index < column[1].len() {
                    assert(column[1]@[row_index as int]@ == column[1].deep_view()[row_index as int]);
                }
                assert(pair@ =~= target[r as int]);
            }
            cell.push(pair);
            r += 1;
        }
        proof {
            assert(cell.deep_view() =~~= target);
        }
        cell
    }

    /// Writes the chart as lines from the top glyph row down: `height` lines, each with one
    /// glyph per glyph column.
    pub fn into_rows(&self, columns: &Vec<[Vec<Vec<bool>>; 2]>, height: usize) -> (r: Vec<String>)
        ensures
            r.len() == height,
            forall|t: int|
                0 <= t < height ==> (#[trigger] r@[t])@ == column_line(
                    self.spec_family(),
                    columns@,
                    height - 1 - t,
                ),
    {
        let mut lines: Vec<String> = Vec::new();
        let mut t: usize = 0;
        while t < height
            invariant
                t <= height,
                lines.len() == t,
                forall|u: int|
                    0 <= u < t ==> (#[trigger] lines@[u])@ == column_line(
                        self.family,
                        columns@,
                        height - 1 - u,
                    ),
            decreases height - t,
        {
            let row_index = height - 1 - t;
            let mut line = String::new();
            let mut c: usize = 0;
            while c < columns.len()
                invariant
                    c <= columns.len(),
                    row_index == height - 1 - t,
                    line@ =~= column_line(self.family, columns@, row_index as int).subrange(0, c as int),
                decreases columns.len() - c,
            {
                let cell = self.column_cell(&columns[c], row_index);
                push_glyph(&mut line, self.family, &cell);
                c += 1;
            }
            lines.push(line);
            t += 1;
        }
        lines
    }
}

/// The dot groups that sample `i` of a column chart draws; none past the last sample or for a
/// sample that cannot be drawn.
pub open spec fn sample_side(samples: Seq<Samples>, zero: int, style: GraphStyle, width: int, i: int) -> Seq<
    Seq<bool>,
> {
    if 0 <= i < samples.len() {
        match spec_sample_groups(samples[i], zero, style, width) {
            Ok(groups) => groups,
            Err(_) => Seq::empty(),
        }
    } else {
        Seq::empty()
    }
}

/// Whether the style can draw every sample.
pub open spec fn all_drawable(samples: Seq<Samples>, zero: int, style: GraphStyle, width: int) -> bool {
    forall|i: int|
        0 <= i < samples.len() ==> (#[trigger] spec_sample_groups(samples[i], zero, style, width)) is Ok
}

/// The text of glyph row `row_index` (counted from the bottom) of a column chart of samples,
/// two samples side by side in each glyph column.
pub open spec fn sample_column_line(
    family: Family,
    samples: Seq<Samples>,
    zero: int,
    style: GraphStyle,
    row_index: int,
) -> Seq<char> {
    let h = family.spec_height();
    Seq::new(
        ceil_div(samples.len() as int, 2) as nat,
        |c: int|
            glyph_of(
                family,
                column_cell(
                    sample_side(samples, zero, style, h, 2 * c),
                    sample_side(samples, zero, style, h, 2 * c + 1),
                    row_index,
                    h,
                ),
            ),
    )
}

impl Columns {
    /// Draws a whole column chart of `height` glyph rows: each input line in turn is drawn
    /// upwards from the baseline `zero`, two lines side by side in each glyph column. Fails
    /// when the style cannot draw one of the lines.
    pub fn chart(&self, samples: &Vec<Samples>, zero: u16, style: GraphStyle, height: usize) -> (r:
        Result<Vec<String>, ConfigError>)
        ensures
            r is Ok <==> all_drawable(samples@, zero as int, style, self.spec_family().spec_height()),
            r matches Ok(lines) ==> {
                &&& lines.len() == height
                &&& forall|t: int|
                    0 <= t < height ==> (#[trigger] lines@[t])@ == sample_column_line(
                        self.spec_family(),
                        samples@,
                        zero as int,
                        style,
                        height - 1 - t,
                    )
            },
    {
        let h = self.family.height();
        let ghost hh = h as int;
        let ghost z = zero as int;
        let mut columns: Vec<[Vec<Vec<bool>>; 2]> = Vec::new();
        let mut i: usize = 0;
        while i < samples.len()
            invariant
                i <= samples.len(),
                i % 2 == 0 ==> columns.len() * 2 == i,
                i % 2 == 1 ==> i == samples.len() && columns.len() * 2 == i + 1,
                hh == self.family.spec_height(),
                h == hh,
                z == zero as int,
                forall|k: int|
                    0 <= k < i && k < samples.len() ==> (#[trigger] spec_sample_groups(
                        samples@[k],
                        z,
                        style,
                        hh,
                    )) is Ok,
                forall|c: int|
                    0 <= c < columns.len() ==> (#[trigger] columns@[c])[0].deep_view() == sample_side(
                        samples@,
                        z,
                        style,
                        hh,
                        2 * c,
                    ) && columns@[c][1].deep_view() == sample_side(samples@, z, style, hh, 2 * c + 1),
            decreases samples.len() - i,
        {
            let left = match sample_groups(&samples[i], zero, style, h) {
                Ok(groups) => groups,
                Err(e) => {
                    proof {
                        assert(!(spec_sample_groups(samples@[i as int], z, style, hh) is Ok));
                    }
                    return Err(e);
                },
            };
            let right = if i + 1 < samples.len() {
                match sample_groups(&samples[i + 1], zero, style, h) {
                    Ok(groups) => groups,
                    Err(e) => {
                        proof {
                            assert(!(spec_sample_groups(samples@[i + 1], z, style, hh) is Ok));
                        }
                        return Err(e);
                    },
                }
            } else {
                let none: Vec<Vec<bool>> = Vec::new();
                proof {
                    assert(none.deep_view() =~= Seq::<Seq<bool>>::empty());
                }
                none
            };
            proof {
                assert(left.deep_view() == sample_side(samples@, z, style, hh, i as int));
                assert(right.deep_view() == sample_side(samples@, z, style, hh, i + 1));
            }
            columns.push([left, right]);
            i = if i + 1 < samples.len() {
                i + 2
            } else {
                samples.len()
            };
        }
        let lines = self.into_rows(&columns, height);
        proof {
            assert(columns.len() == ceil_div(samples.len() as int, 2));
            assert forall|t: int| 0 <= t < height implies (#[trigger] lines@[t])@ == sample_column_line(
                self.family,
                samples@,
                z,
                style,
                height - 1 - t,
            ) by {
                assert(column_line(self.family, columns@, height - 1 - t) =~= sample_column_line(
                    self.family,
                    samples@,
                    z,
                    style,
                    height - 1 - t,
                ));
            }
        }
        Ok(lines)
    }
}

} // verus!
