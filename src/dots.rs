//! The dot-group generator: turns scaled values into runs of dots along the value axis, cut
//! into fixed-size groups (one group per glyph cell along that axis).
use vstd::prelude::*;
use vstd::set_lib::{lemma_int_range, set_int_range};

use crate::style::{spec_fills, ConfigError, GraphStyle};

verus! {

/// `a / b` rounded up.
pub open spec fn ceil_div(a: int, b: int) -> int {
    (a + b - 1) / b
}

/// `run` cut into groups of `width` dots; the last group is padded with blanks.
pub open spec fn chunks(run: Seq<bool>, width: int) -> Seq<Seq<bool>> {
    Seq::new(
        ceil_div(run.len() as int, width) as nat,
        |g: int| Seq::new(width as nat, |j: int| g * width + j < run.len() && run[g * width + j]),
    )
}

/// Whether dot `d` (counted from 1) is lit for `value` drawn against the baseline `zero`:
/// the value's own dot always is, and the dots between the value and the baseline are when
/// the style fills.
pub open spec fn single_dot(value: int, zero: int, style: GraphStyle, d: int) -> bool {
    d == value || (spec_fills(style, zero, value) && (if value <= zero {
        value <= d <= zero
    } else {
        zero <= d <= value
    }))
}

/// The dots `1..=max(value, zero)` of a single value.
pub open spec fn single_run(value: int, zero: int, style: GraphStyle) -> Seq<bool> {
    Seq::new(
        (if value <= zero {
            zero
        } else {
            value
        }) as nat,
        |i: int| single_dot(value, zero, style, i + 1),
    )
}

/// Whether dot `d` is lit for the pair `(start, end)`: both end points always are, the dots
/// strictly between them when the style fills.
pub open spec fn pair_dot(start: int, end: int, style: GraphStyle, d: int) -> bool {
    d == start || d == end || (spec_fills(style, start, end) && (if start <= end {
        start < d < end
    } else {
        end < d < start
    }))
}

/// The dots `1..=max(start, end)` of a pair of values.
pub open spec fn pair_run(start: int, end: int, style: GraphStyle) -> Seq<bool> {
    Seq::new(
        (if start <= end {
            end
        } else {
            start
        }) as nat,
        |i: int| pair_dot(start, end, style, i + 1),
    )
}

/// The dot groups drawn for one value.
pub open spec fn spec_dot_groups(value: int, zero: int, style: GraphStyle, width: int) -> Seq<
    Seq<bool>,
> {
    chunks(single_run(value, zero, style), width)
}

/// The dot groups drawn for a pair of values.
pub open spec fn spec_pair_groups(start: int, end: int, style: GraphStyle, width: int) -> Seq<
    Seq<bool>,
> {
    chunks(pair_run(start, end, style), width)
}

proof fn lemma_ceil_div_bounds(len: int, width: int, g: int)
    requires
        0 <= len,
        1 <= width,
    ensures
        g * width < len <==> g < ceil_div(len, width),
        ceil_div(len, width) >= 0,
{
    assert(((len + width - 1) / width) * width <= len + width - 1) by (nonlinear_arith)
        requires
            1 <= width,
            0 <= len,
    ;
    assert(((len + width - 1) / width) * width > len - 1) by (nonlinear_arith)
        requires
            1 <= width,
            0 <= len,
    ;
    assert(g * width < len <==> g < ceil_div(len, width)) by (nonlinear_arith)
        requires
            1 <= width,
            0 <= len,
            ((len + width - 1) / width) * width <= len + width - 1,
            ((len + width - 1) / width) * width > len - 1,
            ceil_div(len, width) == (len + width - 1) / width,
    ;
    assert(ceil_div(len, width) >= 0) by (nonlinear_arith)
        requires
            1 <= width,
            0 <= len,
            ceil_div(len, width) == (len + width - 1) / width,
    ;
}

/// Cuts a run of dots into groups of `width`, padding the last group with blanks.
fn chunk_dots(run: &Vec<bool>, width: usize) -> (r: Vec<Vec<bool>>)
    requires
        1 <= width <= 0x10000,
        run.len() <= 0x10000,
    ensures
        r.deep_view() == chunks(run@, width as int),
{
    let mut r: Vec<Vec<bool>> = Vec::new();
    let mut start: usize = 0;
    let ghost w = width as int;
    assert(0 * w == 0) by (nonlinear_arith);
    while start < run.len()
        invariant
            1 <= width <= 0x10000,
            run.len() <= 0x10000,
            w == width as int,
            start == r.len() * w,
            start <= run.len() + w,
            forall|g: int|
                #![trigger r@[g]]
                0 <= g < r.len() ==> r@[g]@ == chunks(run@, w)[g],
            r.len() > 0 ==> (r.len() - 1) * w < run.len(),
        decreases run.len() + width - start,
    {
        proof {
            lemma_ceil_div_bounds(run.len() as int, w, r.len() as int);
        }
        let mut group: Vec<bool> = Vec::new();
        let mut j: usize = 0;
        while j < width
            invariant
                1 <= width <= 0x10000,
                start < run.len() <= 0x10000,
                j <= width,
                group@ =~= Seq::new(
                    j as nat,
                    |k: int| start + k < run.len() && run@[start + k],
                ),
            decreases width - j,
        {
            let i = start + j;
            group.push(i < run.len() && run[i]);
            j += 1;
        }
        proof {
            let g = r.len() as int;
            lemma_ceil_div_bounds(run.len() as int, w, g);
            assert(group@ =~= chunks(run@, w)[g]);
        }
        proof {
            let n = r.len() as int;
            assert((n + 1) * w == n * w + w) by (nonlinear_arith);
        }
        r.push(group);
        start = start + width;
    }
    proof {
        lemma_ceil_div_bounds(run.len() as int, w, r.len() as int);
        lemma_ceil_div_bounds(run.len() as int, w, r.len() - 1);
        assert(r.deep_view() =~~= chunks(run@, w));
    }
    r
}

/// Lays out the dots of a single value: blanks before the lower of `value` and `zero`, then the
/// stem between them.
fn single_dots(value: u16, zero: u16, style: GraphStyle) -> (r: Vec<bool>)
    ensures
        r@ == single_run(value as int, zero as int, style),
{
    let len: u16 = if value <= zero {
        zero
    } else {
        value
    };
    let (low, high) = if value <= zero {
        (value, zero)
    } else {
        (zero, value)
    };
    let filled = style.fills(zero, value);
    let mut r: Vec<bool> = Vec::new();
    let mut d: u32 = 1;
    while d <= len as u32
        invariant
            1 <= d <= len + 1,
            len == (if value <= zero { zero } else { value }),
            low == (if value <= zero { value } else { zero }),
            high == len,
            filled == spec_fills(style, zero as int, value as int),
            r@ =~= Seq::new((d - 1) as nat, |i: int| single_dot(value as int, zero as int, style, i + 1)),
        decreases len + 1 - d,
    {
        r.push(d == value as u32 || (filled && (low as u32) <= d && d <= (high as u32)));
        d += 1;
    }
    r
}

/// Lays out the dots of a pair: blanks before the lower value, both end points lit, and the
/// dots between them lit when the style fills.
fn pair_dots(start: u16, end: u16, style: GraphStyle) -> (r: Vec<bool>)
    ensures
        r@ == pair_run(start as int, end as int, style),
{
    let (low, high) = if start <= end {
        (start, end)
    } else {
        (end, start)
    };
    let filled = style.fills(start, end);
    let mut r: Vec<bool> = Vec::new();
    let mut d: u32 = 1;
    while d <= high as u32
        invariant
            1 <= d <= high + 1,
            low <= high,
            low == (if start <= end { start } else { end }),
            high == (if start <= end { end } else { start }),
            filled == spec_fills(style, start as int, end as int),
            r@ =~= Seq::new((d - 1) as nat, |i: int| pair_dot(start as int, end as int, style, i + 1)),
        decreases high + 1 - d,
    {
        r.push(d == low as u32 || d == high as u32 || (filled && (low as u32) < d && d < (high as u32)));
        d += 1;
    }
    r
}

/// Turns one scaled value into its dot groups of `width` dots, drawn against the baseline
/// `zero`.
pub fn into_dot_groups(value: u16, zero: u16, style: GraphStyle, width: usize) -> (r: Vec<
    Vec<bool>,
>)
    requires
        1 <= width <= 0x10000,
    ensures
        r.deep_view() == spec_dot_groups(value as int, zero as int, style, width as int),
{
    let run = single_dots(value, zero, style);
    chunk_dots(&run, width)
}

/// Pairs of values drawn as a single span of dots.
pub trait DotArrayable {
    /// Turns a pair of scaled values into dot groups of `width` dots: blanks before the lower
    /// value, both end points lit, and the dots between them lit when the style fills.
    fn into_dot_array_groups(line_set: [u16; 2], style: GraphStyle, width: usize) -> (r: Vec<
        Vec<bool>,
    >)
        requires
            1 <= width <= 0x10000,
        ensures
            r.deep_view() == spec_pair_groups(
                line_set[0] as int,
                line_set[1] as int,
                style,
                width as int,
            ),
    {
        let run = pair_dots(line_set[0], line_set[1], style);
        chunk_dots(&run, width)
    }

    /// Turns a line of any number of scaled values into dot groups of `width` dots: the dot of
    /// every value is lit, and under `Filled` so are the dots between the two values of each
    /// consecutive pair. `Auto` cannot decide for more than two series and is refused.
    fn into_dot_array_groups_variable(line_set: &Vec<u16>, style: GraphStyle, width: usize) -> (r:
        Result<Vec<Vec<bool>>, ConfigError>)
        requires
            1 <= width <= 0x10000,
        ensures
            style == GraphStyle::Auto ==> r == Err::<Vec<Vec<bool>>, ConfigError>(
                ConfigError::AutoStyleWithManySeries,
            ),
            style != GraphStyle::Auto ==> (r matches Ok(groups) && groups.deep_view() == chunks(
                many_run(line_set@, style),
                width as int,
            )),
    {
        if style == GraphStyle::Auto {
            return Err(ConfigError::AutoStyleWithManySeries);
        }
        let filled = style == GraphStyle::Filled;
        let mut end: u16 = 0;
        let mut i: usize = 0;
        while i < line_set.len()
            invariant
                i <= line_set.len(),
                end == seq_max(line_set@.subrange(0, i as int)),
            decreases line_set.len() - i,
        {
            proof {
                assert(line_set@.subrange(0, i + 1).drop_last() =~= line_set@.subrange(0, i as int));
            }
            if end < line_set[i] {
                end = line_set[i];
            }
            i += 1;
        }
        proof {
            assert(line_set@.subrange(0, line_set.len() as int) =~= line_set@);
        }
        let mut run: Vec<bool> = Vec::new();
        let mut d: u32 = 1;
        while d <= end as u32
            invariant
                1 <= d <= end + 1,
                end == seq_max(line_set@),
                filled == (style == GraphStyle::Filled),
                run@ =~= Seq::new((d - 1) as nat, |i: int| many_dot(line_set@, style, i + 1)),
            decreases end + 1 - d,
        {
            let lit = many_lights(line_set, filled, d);
            run.push(lit);
            d += 1;
        }
        Ok(chunk_dots(&run, width))
    }
}

/// Whether `d` lies between `a` and `b`, both included.
pub open spec fn between(a: int, b: int, d: int) -> bool {
    if a <= b {
        a <= d <= b
    } else {
        b <= d <= a
    }
}

/// Whether pair `i` of a line of many values, `(values[2i], values[2i+1])`, spans dot `d`.
pub open spec fn pair_spans(values: Seq<u16>, i: int, d: int) -> bool {
    0 <= i && 2 * i + 1 < values.len() && between(values[2 * i] as int, values[2 * i + 1] as int, d)
}

/// Whether dot `d` is lit for a line of many values: the dot of every value is, and under
/// `Filled` so are the dots between the two values of each pair `(values[2i], values[2i+1])`;
/// an odd last value stands alone.
pub open spec fn many_dot(values: Seq<u16>, style: GraphStyle, d: int) -> bool {
    (exists|k: int| 0 <= k < values.len() && values[k] == d) || (style == GraphStyle::Filled
        && exists|i: int| #[trigger] pair_spans(values, i, d))
}

/// The largest of `values`, 0 when there are none.
pub open spec fn seq_max(values: Seq<u16>) -> int
    decreases values.len(),
{
    if values.len() == 0 {
        0
    } else if seq_max(values.drop_last()) < values.last() {
        values.last() as int
    } else {
        seq_max(values.drop_last())
    }
}

/// The dots `1..=max(values)` of a line of many values.
pub open spec fn many_run(values: Seq<u16>, style: GraphStyle) -> Seq<bool> {
    Seq::new(seq_max(values) as nat, |i: int| many_dot(values, style, i + 1))
}

/// Whether dot `d` is lit by the values before `k`.
spec fn many_dot_upto(values: Seq<u16>, filled: bool, d: int, k: int) -> bool {
    (exists|j: int| 0 <= j < k && values[j] == d) || (filled && exists|i: int|
        2 * i + 1 < k && #[trigger] pair_spans(values, i, d))
}

/// Whether one of `values` or, when `filled`, one of their pairs lights dot `d`.
fn many_lights(values: &Vec<u16>, filled: bool, d: u32) -> (r: bool)
    ensures
        r == many_dot_upto(values@, filled, d as int, values.len() as int),
{
    let mut lit = false;
    let mut k: usize = 0;
    while k < values.len()
        invariant
            k <= values.len(),
            lit == many_dot_upto(values@, filled, d as int, k as int),
        decreases values.len() - k,
    {
        let own = values[k] as u32 == d;
        let span = filled && k % 2 == 1 && {
            let a = values[k - 1] as u32;
            let b = values[k] as u32;
            if a <= b {
                a <= d && d <= b
            } else {
                b <= d && d <= a
            }
        };
        proof {
            let v = values@;
            let dd = d as int;
            let kk = k as int;
            if own {
                assert(0 <= kk < kk + 1 && v[kk] == dd);
            }
            if span {
                let i = (kk - 1) / 2;
                assert(2 * i + 1 == kk);
                assert(2 * i + 1 < kk + 1 && pair_spans(v, i, dd));
            }
            if many_dot_upto(v, filled, dd, kk + 1) {
                if !many_dot_upto(v, filled, dd, kk) {
                    if exists|j: int| 0 <= j < kk + 1 && v[j] == dd {
                        let j = choose|j: int| 0 <= j < kk + 1 && v[j] == dd;
                        assert(j == kk);
                    } else {
                        let i = choose|i: int| 2 * i + 1 < kk + 1 && #[trigger] pair_spans(v, i, dd);
                        assert(2 * i + 1 == kk);
                    }
                }
            }
        }
        lit = lit || own || span;
        k += 1;
    }
    lit
}

/// The scaled values of one input line.
#[derive(Debug, PartialEq, Eq)]
pub enum Samples {
    /// A single series; `None` for a missing value.
    One(Option<u16>),
    /// Two series drawn as one span; `None` when both values are missing.
    Two(Option<[u16; 2]>),
    /// More than two series: the values present, in order.
    Many(Vec<u16>),
}

/// The dot groups that the line `samples` draws, `Err` for a style that cannot draw it.
pub open spec fn spec_sample_groups(samples: Samples, zero: int, style: GraphStyle, width: int) -> Result<
    Seq<Seq<bool>>,
    ConfigError,
> {
    match samples {
        Samples::One(None) | Samples::Two(None) => Ok(Seq::empty()),
        Samples::One(Some(value)) => Ok(spec_dot_groups(value as int, zero, style, width)),
        Samples::Two(Some(pair)) => Ok(spec_pair_groups(pair[0] as int, pair[1] as int, style, width)),
        Samples::Many(values) => if style == GraphStyle::Auto {
            Err(ConfigError::AutoStyleWithManySeries)
        } else {
            Ok(chunks(many_run(values@, style), width))
        },
    }
}

/// The series of a chart line, drawn through the default methods of [`DotArrayable`].
pub struct Series;

impl DotArrayable for Series {
}

/// Turns the scaled values of one input line into dot groups of `width` dots: nothing for a
/// missing value, the stem from the baseline `zero` for a single series, the span between two
/// series, and the merged spans of more.
pub fn sample_groups(samples: &Samples, zero: u16, style: GraphStyle, width: usize) -> (r: Result<
    Vec<Vec<bool>>,
    ConfigError,
>)
    requires
        1 <= width <= 0x10000,
    ensures
        r matches Ok(groups) ==> spec_sample_groups(*samples, zero as int, style, width as int)
            == Ok::<Seq<Seq<bool>>, ConfigError>(groups.deep_view()),
        r matches Err(e) ==> spec_sample_groups(*samples, zero as int, style, width as int) == Err::<
            Seq<Seq<bool>>,
            ConfigError,
        >(e),
{
    match samples {
        Samples::One(None) | Samples::Two(None) => {
            let groups: Vec<Vec<bool>> = Vec::new();
            proof {
                assert(groups.deep_view() =~= Seq::<Seq<bool>>::empty());
            }
            Ok(groups)
        },
        Samples::One(Some(value)) => Ok(into_dot_groups(*value, zero, style, width)),
        Samples::Two(Some(pair)) => Ok(Series::into_dot_array_groups(*pair, style, width)),
        Samples::Many(values) => Series::into_dot_array_groups_variable(values, style, width),
    }
}

/// The positions, counted from 1, of the lit dots in `groups` of `width` dots each.
pub open spec fn lit_dots(groups: Seq<Seq<bool>>, width: int) -> Set<int> {
    Set::new(
        |d: int| 1 <= d <= groups.len() * width && groups[(d - 1) / width][(d - 1) % width],
    )
}

/// The positions, counted from 1, of the lit dots of a run.
pub open spec fn lit_run(run: Seq<bool>) -> Set<int> {
    Set::new(|d: int| 1 <= d <= run.len() && run[d - 1])
}

/// Cutting a run into groups neither adds nor loses a lit dot.
pub proof fn lemma_chunks_keep_lit_dots(run: Seq<bool>, width: int)
    requires
        1 <= width,
    ensures
        lit_dots(chunks(run, width), width) == lit_run(run),
{
    let groups = chunks(run, width);
    let n = groups.len() as int;
    lemma_ceil_div_bounds(run.len() as int, width, n);
    assert(n * width >= run.len());
    assert forall|d: int| lit_dots(groups, width).contains(d) <==> lit_run(run).contains(d) by {
        if 1 <= d {
            let g = (d - 1) / width;
            let j = (d - 1) % width;
            vstd::arithmetic::div_mod::lemma_fundamental_div_mod(d - 1, width);
            vstd::arithmetic::div_mod::lemma_mod_pos_bound(d - 1, width);
            assert(g >= 0) by (nonlinear_arith)
                requires
                    d >= 1,
                    width >= 1,
                    g == (d - 1) / width,
            ;
            assert(d - 1 == g * width + j) by (nonlinear_arith)
                requires
                    d - 1 == width * g + j,
            ;
            if d <= n * width {
                assert(g < n) by (nonlinear_arith)
                    requires
                        d - 1 == g * width + j,
                        0 <= j,
                        d <= n * width,
                        width >= 1,
                ;
            }
            if d <= run.len() {
                assert(g < n) by (nonlinear_arith)
                    requires
                        d - 1 == g * width + j,
                        0 <= j,
                        d <= n * width,
                        d <= run.len(),
                        n * width >= run.len(),
                        width >= 1,
                ;
            }
        }
    }
    assert(lit_dots(groups, width) =~= lit_run(run));
}

/// How many dots a single value lights: the whole stem from the baseline when the style
/// fills, otherwise the value's own dot alone.
pub proof fn lemma_single_lit_count(value: int, zero: int, style: GraphStyle, width: int)
    requires
        1 <= value,
        1 <= zero,
        1 <= width,
    ensures
        lit_dots(spec_dot_groups(value, zero, style, width), width).finite(),
        lit_dots(spec_dot_groups(value, zero, style, width), width).len() == if spec_fills(
            style,
            zero,
            value,
        ) {
            if value <= zero {
                zero - value + 1
            } else {
                value - zero + 1
            }
        } else {
            1
        },
{
    let run = single_run(value, zero, style);
    lemma_chunks_keep_lit_dots(run, width);
    let (low, high) = if value <= zero {
        (value, zero)
    } else {
        (zero, value)
    };
    if spec_fills(style, zero, value) {
        assert(lit_run(run) =~= set_int_range(low, high + 1));
        lemma_int_range(low, high + 1);
    } else {
        assert(lit_run(run) =~= set![value]);
        assert(set![value].len() == 1) by {
            assert(set![value] =~= Set::<int>::empty().insert(value));
        }
    }
}

/// For a fixed baseline, a value farther from it lights at least as many dots as one nearer
/// to it. Under `Auto` this needs the two values on the same side of the baseline (or the
/// nearer one not above it), since `Auto` fills only values at or above the baseline.
pub proof fn lemma_lit_count_monotone(
    near: u16,
    far: u16,
    zero: u16,
    style: GraphStyle,
    width: usize,
)
    requires
        1 <= near,
        1 <= far,
        1 <= zero,
        1 <= width,
        (if near <= zero {
            zero - near
        } else {
            near - zero
        }) <= (if far <= zero {
            zero - far
        } else {
            far - zero
        }),
        !(style == GraphStyle::Auto && near > zero && far < zero),
    ensures
        lit_dots(spec_dot_groups(near as int, zero as int, style, width as int), width as int).len()
            <= lit_dots(
            spec_dot_groups(far as int, zero as int, style, width as int),
            width as int,
        ).len(),
{
    lemma_single_lit_count(near as int, zero as int, style, width as int);
    lemma_single_lit_count(far as int, zero as int, style, width as int);
}

/// A pair whose two values coincide lights exactly their shared dot, whatever the style.
pub proof fn lemma_pair_tie_lights_one_dot(value: u16, style: GraphStyle, width: usize)
    requires
        1 <= width,
    ensures
        ({
            let groups = spec_pair_groups(value as int, value as int, style, width as int);
            forall|g: int, j: int|
                0 <= g < groups.len() && 0 <= j < width ==> (groups[g][j] <==> g * width + j + 1
                    == value)
        }),
{
}

} // verus!
