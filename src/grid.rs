//! The scatter grid: a sparse set of lit dots on a `width` x `height` dot matrix, drawn as
//! braille text.
use std::collections::HashSet;
use vstd::prelude::*;

use crate::braille::braille_code;
use crate::dots::ceil_div;

verus! {

broadcast use vstd::std_specs::hash::group_hash_axioms;

/// One dot of the grid, `x` from the left and `y` from the bottom.
#[derive(Debug, Clone, Copy, PartialEq, Eq, Structural)]
pub struct Dot {
    pub x: u16,
    pub y: u16,
}

impl Dot {
    /// The dot at `(x, y)`.
    pub fn new(x: u16, y: u16) -> (r: Self)
        ensures
            r.x == x,
            r.y == y,
    {
        Dot { x, y }
    }
}

/// The key under which the dot `(x, y)` is kept.
pub open spec fn dot_key(x: int, y: int) -> int {
    y * 0x10000 + x
}

/// The grid from the top row down, each row from the left: whether each dot is lit.
pub open spec fn grid_matrix(lit: Set<(int, int)>, width: int, height: int) -> Seq<bool> {
    Seq::new(
        height as nat,
        |t: int| Seq::new(width as nat, |x: int| lit.contains((x, height - 1 - t))),
    ).flatten()
}

/// A dot of a flat row-major matrix; blank past its edges.
pub open spec fn matrix_dot(dots: Seq<bool>, width: int, height: int, x: int, y: int) -> bool {
    x < width && y < height && dots[y * width + x]
}

/// The braille cell at glyph column `cx` and glyph row `cy` of a flat row-major matrix.
pub open spec fn matrix_cell(dots: Seq<bool>, width: int, height: int, cx: int, cy: int) -> [[bool;
    2]; 4] {
    [
        [
            matrix_dot(dots, width, height, 2 * cx, 4 * cy),
            matrix_dot(dots, width, height, 2 * cx + 1, 4 * cy),
        ],
        [
            matrix_dot(dots, width, height, 2 * cx, 4 * cy + 1),
            matrix_dot(dots, width, height, 2 * cx + 1, 4 * cy + 1),
        ],
        [
            matrix_dot(dots, width, height, 2 * cx, 4 * cy + 2),
            matrix_dot(dots, width, height, 2 * cx + 1, 4 * cy + 2),
        ],
        [
            matrix_dot(dots, width, height, 2 * cx, 4 * cy + 3),
            matrix_dot(dots, width, height, 2 * cx + 1, 4 * cy + 3),
        ],
    ]
}

/// A matrix as braille text: one line per four dot rows, each holding one glyph per two dot
/// columns and ending in a line break.
pub open spec fn matrix_text(dots: Seq<bool>, width: int, height: int) -> Seq<char> {
    Seq::new(
        ceil_div(height, 4) as nat,
        |cy: int|
            Seq::new(
                ceil_div(width, 2) as nat,
                |cx: int| (0x2800 + braille_code(matrix_cell(dots, width, height, cx, cy))) as u32 as char,
            ).push('\n'),
    ).flatten()
}

/// Relies on braillefb's `Framebuffer` and its `Display`: the text holds one line per four dot
/// rows of the row-major matrix, each with the braille glyph of every two dot columns (dots
/// past the edges blank) and a line break. It panics unless the matrix holds
/// `width * height` dots, never ends for a zero width, and overflows while rounding a
/// width or height near `usize::MAX` up to whole glyphs.
#[verifier::external_body]
fn framebuffer_text(dots: &Vec<bool>, width: usize, height: usize) -> (r: String)
    requires
        dots.len() == width * height,
        1 <= width <= 0xFFFF,
        height <= 0xFFFF,
    ensures
        r@ == matrix_text(dots@, width as int, height as int),
{
    braillefb::Framebuffer::new(dots.as_slice(), width, height).to_string()
}

/// The lit dots of a `width` x `height` grid.
pub struct GridDots {
    width: u16,
    height: u16,
    inner: HashSet<u32>,
}

impl View for GridDots {
    type V = Set<(int, int)>;

    closed spec fn view(&self) -> Set<(int, int)> {
        Set::new(
            |p: (int, int)|
                0 <= p.0 < 0x10000 && 0 <= p.1 < 0x10000 && self.inner@.contains(
                    dot_key(p.0, p.1) as u32,
                ),
        )
    }
}

impl GridDots {
    /// How many dots wide the grid is.
    pub closed spec fn spec_width(&self) -> int {
        self.width as int
    }

    /// How many dots tall the grid is.
    pub closed spec fn spec_height(&self) -> int {
        self.height as int
    }

    /// An empty grid, with room for `capacity` dots before it grows.
    pub fn new(width: u16, height: u16, capacity: usize) -> (r: Self)
        ensures
            r@ == Set::<(int, int)>::empty(),
            r.spec_width() == width,
            r.spec_height() == height,
    {
        let r = GridDots { width, height, inner: HashSet::with_capacity(capacity) };
        proof {
            assert(r@ =~= Set::<(int, int)>::empty());
        }
        r
    }

    /// Lights one dot.
    pub fn insert(&mut self, dot: Dot)
        ensures
            final(self)@ == old(self)@.insert((dot.x as int, dot.y as int)),
            final(self).spec_width() == old(self).spec_width(),
            final(self).spec_height() == old(self).spec_height(),
    {
        let key: u32 = dot.y as u32 * 0x10000 + dot.x as u32;
        self.inner.insert(key);
        proof {
            assert forall|p: (int, int)|
                0 <= p.0 < 0x10000 && 0 <= p.1 < 0x10000 && dot_key(p.0, p.1) == key implies p == (
                dot.x as int,
                dot.y as int,
            ) by {}
            assert(final(self)@ =~= old(self)@.insert((dot.x as int, dot.y as int)));
        }
    }

    /// Lights every dot of `dots`.
    pub fn merge_dots(&mut self, dots: &Vec<Dot>)
        ensures
            final(self)@ == old(self)@ + Set::new(
                |p: (int, int)| exists|i: int| 0 <= i < dots.len() && p == (dots@[i].x as int, dots@[i].y as int),
            ),
            final(self).spec_width() == old(self).spec_width(),
            final(self).spec_height() == old(self).spec_height(),
    {
        let ghost start = self@;
        let mut i: usize = 0;
        while i < dots.len()
            invariant
                i <= dots.len(),
                self.spec_width() == old(self).spec_width(),
                self.spec_height() == old(self).spec_height(),
                self@ =~= start + Set::new(
                    |p: (int, int)| exists|k: int| 0 <= k < i && p == (dots@[k].x as int, dots@[k].y as int),
                ),
            decreases dots.len() - i,
        {
            self.insert(dots[i]);
            i += 1;
            proof {
                assert(self@ =~= start + Set::new(
                    |p: (int, int)| exists|k: int| 0 <= k < i && p == (dots@[k].x as int, dots@[k].y as int),
                )) by {
                    let p = (dots@[i - 1].x as int, dots@[i - 1].y as int);
                    assert(exists|k: int| 0 <= k < i && p == (dots@[k].x as int, dots@[k].y as int));
                }
            }
        }
    }

    /// The whole grid as a flat matrix, from the top row down and each row from the left.
    pub fn into_dots(self) -> (r: Vec<bool>)
        ensures
            r@ == grid_matrix(self@, self.spec_width(), self.spec_height()),
    {
        let ghost lit = self@;
        let ghost w = self.width as int;
        let ghost h = self.height as int;
        let ghost rows = Seq::new(
            h as nat,
            |t: int| Seq::new(w as nat, |x: int| lit.contains((x, h - 1 - t))),
        );
        let mut dots: Vec<bool> = Vec::new();
        let mut t: u16 = 0;
        while t < self.height
            invariant
                t <= self.height,
                lit == self@,
                w == self.width,
                h == self.height,
                rows == Seq::new(
                    h as nat,
                    |t: int| Seq::new(w as nat, |x: int| lit.contains((x, h - 1 - t))),
                ),
                dots@ == rows.subrange(0, t as int).flatten(),
            decreases self.height - t,
        {
            let y = self.height - 1 - t;
            let ghost before = dots@;
            let mut x: u16 = 0;
            while x < self.width
                invariant
                    x <= self.width,
                    t < self.height,
                    y == self.height - 1 - t,
                    lit == self@,
                    w == self.width,
                    h == self.height,
                    rows == Seq::new(
                        h as nat,
                        |t: int| Seq::new(w as nat, |x: int| lit.contains((x, h - 1 - t))),
                    ),
                    dots@ =~= before + rows[t as int].subrange(0, x as int),
                decreases self.width - x,
            {
                let key: u32 = y as u32 * 0x10000 + x as u32;
                let lit_here = self.inner.contains(&key);
                dots.push(lit_here);
                x += 1;
            }
            proof {
                assert(rows[t as int].subrange(0, w) =~= rows[t as int]);
                assert(rows.subrange(0, t + 1) =~= rows.subrange(0, t as int).push(rows[t as int]));
                rows.subrange(0, t as int).lemma_flatten_push(rows[t as int]);
            }
            t += 1;
        }
        proof {
            assert(rows.subrange(0, h) =~= rows);
        }
        dots
    }

    /// The grid as braille text: one line per four dot rows, top first.
    pub fn render(self) -> (r: String)
        requires
            1 <= self.spec_width(),
        ensures
            r@ == matrix_text(
                grid_matrix(self@, self.spec_width(), self.spec_height()),
                self.spec_width(),
                self.spec_height(),
            ),
    {
        let width = self.width as usize;
        let height = self.height as usize;
        let dots = self.into_dots();
        proof {
            lemma_grid_matrix_len(self@, width as int, height as int);
        }
        framebuffer_text(&dots, width, height)
    }
}

proof fn lemma_grid_matrix_len(lit: Set<(int, int)>, width: int, height: int)
    requires
        0 <= width,
        0 <= height,
    ensures
        grid_matrix(lit, width, height).len() == width * height,
{
    let rows = Seq::new(
        height as nat,
        |t: int| Seq::new(width as nat, |x: int| lit.contains((x, height - 1 - t))),
    );
    rows.lemma_flatten_and_flatten_alt_are_equivalent();
    lemma_flatten_rows_len(rows, width);
    assert(grid_matrix(lit, width, height) == rows.flatten());
    assert(height * width == width * height) by (nonlinear_arith);
}

proof fn lemma_flatten_rows_len(rows: Seq<Seq<bool>>, width: int)
    requires
        0 <= width,
        forall|t: int| 0 <= t < rows.len() ==> (#[trigger] rows[t]).len() == width,
    ensures
        rows.flatten_alt().len() == rows.len() * width,
    decreases rows.len(),
{
    if rows.len() > 0 {
        assert forall|t: int| 0 <= t < rows.drop_last().len() implies (
        #[trigger] rows.drop_last()[t]).len() == width by {
            assert(rows.drop_last()[t] == rows[t]);
        }
        lemma_flatten_rows_len(rows.drop_last(), width);
        assert(rows.len() * width == (rows.len() - 1) * width + width) by (nonlinear_arith);
    }
}

} // verus!
