use braille::blocks::{calculate_column, print_columns, print_line};
use braille::dots::{into_dot_groups, DotArrayable, Samples};
use braille::style::ConfigError;
use braille::graph::{Columns, Family, Lines};
use braille::GraphStyle;

struct Pairs;
impl DotArrayable for Pairs {}

fn as_dot_pairs(raw: char) -> [[bool; 2]; 4] {
    let bits = u32::from(raw) - 0x2800;
    [
        [bits & 2_u32.pow(0) != 0, bits & 2_u32.pow(3) != 0],
        [bits & 2_u32.pow(1) != 0, bits & 2_u32.pow(4) != 0],
        [bits & 2_u32.pow(2) != 0, bits & 2_u32.pow(5) != 0],
        [bits & 2_u32.pow(6) != 0, bits & 2_u32.pow(7) != 0],
    ]
}

fn columns<const N: usize>(input: Vec<[Vec<[bool; N]>; 2]>) -> Vec<[Vec<Vec<bool>>; 2]> {
    input
        .into_iter()
        .map(|[left, right]| {
            [
                left.into_iter().map(|g| g.to_vec()).collect(),
                right.into_iter().map(|g| g.to_vec()).collect(),
            ]
        })
        .collect()
}

fn decode(lines: Vec<String>) -> Vec<Vec<[[bool; 2]; 4]>> {
    lines
        .iter()
        .map(|line| line.chars().map(as_dot_pairs).collect::<Vec<_>>())
        .collect()
}

#[test]
fn assemble_rows_n3_4_2() {
    let input = vec![
        [
            vec![[true, true, true, true], [false, false, false, false]], // -3
            vec![[false, true, true, true], [false, false, false, false]], // -2
        ],
        [
            vec![[false, false, true, true], [false, false, false, false]], // -1
            vec![[false, false, false, true], [false, false, false, false]], //  0
        ],
        [
            vec![[false, false, false, true], [true, false, false, false]], //  1
            vec![[false, false, false, true], [true, true, false, false]],  //  2
        ],
        [
            vec![[false, false, false, true], [true, true, true, false]], //  3
            vec![[false, false, false, true], [true, true, true, true]],  //  4
        ],
    ];

    let expected = vec![
        vec![
            [[false, false], [false, false], [false, false], [false, false]],
            [[false, false], [false, false], [false, false], [false, false]],
            [[false, false], [false, false], [false,  true], [ true,  true]],
            [[false,  true], [ true,  true], [ true,  true], [ true,  true]],
        ],
        vec![
            [[ true,  true], [ true,  true], [ true,  true], [ true, false]],
            [[ true,  true], [ true, false], [false, false], [false, false]],
            [[ true,  true], [false, false], [false, false], [false, false]],
            [[ true,  true], [false, false], [false, false], [false, false]],
        ],
    ];

    let lines = Columns::new(Family::Braille).into_rows(&columns(input), 2);
    assert_eq!(expected, decode(lines));
}

#[test]
fn transpose_all_max_2() {
    let full = [true, true, true, true];
    let input = vec![[vec![full, full], vec![full, full]]; 4];
    let expected = vec![vec![[[true, true]; 4]; 4]; 2];
    let lines = Columns::new(Family::Braille).into_rows(&columns(input), 2);
    assert_eq!(expected, decode(lines));
}

#[test]
fn quadrant_columns() {
    // two glyph columns, two glyph rows; values drawn upwards in groups of two
    let input = vec![
        [vec![[true, true], [true, false]], vec![[true, false]]],
        [vec![], vec![[true, true], [true, true]]],
    ];
    let lines = Columns::new(Family::Quadrant).into_rows(&columns(input), 2);
    assert_eq!(vec!["▖▐".to_string(), "▙▐".to_string()], lines);
}

fn pairs(input: Vec<[bool; 2]>) -> Vec<Vec<bool>> {
    input.into_iter().map(|g| g.to_vec()).collect()
}

#[test]
fn bar_lines_emit_one_line_per_glyph_row() {
    let mut lines = Lines::new(Family::Braille);
    let values = [1u16, 2, 3, 4, 5, 6, 7, 8];
    let mut out = vec![];
    for value in values {
        if let Some(line) = lines.push(into_dot_groups(value, 1, GraphStyle::Filled, 2)) {
            out.push(line);
        }
    }
    assert_eq!(None, lines.finish());
    assert_eq!(vec!["⣷⣄".to_string(), "⣿⣿⣷⣄".to_string()], out);
}

#[test]
fn bar_lines_missing_last_row_emits_one_line() {
    let mut lines = Lines::new(Family::Braille);
    let mut out = vec![];
    for value in [Some(2u16), Some(4), Some(6), Some(8), Some(3), None] {
        let groups = match value {
            Some(v) => into_dot_groups(v, 1, GraphStyle::Filled, 2),
            None => vec![],
        };
        if let Some(line) = lines.push(groups) {
            out.push(line);
        }
    }
    if let Some(line) = lines.finish() {
        out.push(line);
    }
    assert_eq!(2, out.len());
    assert_eq!("⠉⠁", out[1]);
}

#[test]
fn bar_lines_all_missing_tail_emits_nothing() {
    let mut lines = Lines::new(Family::Quadrant);
    assert_eq!(None, lines.push(vec![]));
    assert_eq!(None, lines.finish());
    assert_eq!(None, lines.finish());
}

#[test]
fn bar_lines_blank_interior_row_is_kept() {
    let mut lines = Lines::new(Family::Quadrant);
    assert_eq!(None, lines.push(vec![]));
    assert_eq!(Some(String::new()), lines.push(vec![]));
    assert_eq!(None, lines.push(pairs(vec![[true, true]])));
    assert_eq!(Some("▀".to_string()), lines.finish());
}

#[test]
fn sextant_bar_lines() {
    let mut lines = Lines::new(Family::Sextant);
    let mut out = vec![];
    for pair in [[1u16, 2], [2, 2], [1, 4]] {
        if let Some(line) = lines.push(Pairs::into_dot_array_groups(pair, GraphStyle::Filled, 2)) {
            out.push(line);
        }
    }
    assert_eq!(vec!["\u{1fb38}\u{1fb2d}".to_string()], out);
}

#[test]
fn bars_print_line_none() {
    assert_eq!("", print_line(None));
}

#[test]
fn bars_print_line_0() {
    assert_eq!("", print_line(Some(0)));
}

#[test]
fn bars_print_line_1() {
    assert_eq!("▏", print_line(Some(1)));
}

#[test]
fn bars_print_line_2() {
    assert_eq!("▎", print_line(Some(2)));
}

#[test]
fn bars_print_line_3() {
    assert_eq!("▍", print_line(Some(3)));
}

#[test]
fn bars_print_line_4() {
    assert_eq!("▌", print_line(Some(4)));
}

#[test]
fn bars_print_line_5() {
    assert_eq!("▋", print_line(Some(5)));
}

#[test]
fn bars_print_line_6() {
    assert_eq!("▊", print_line(Some(6)));
}

#[test]
fn bars_print_line_7() {
    assert_eq!("▉", print_line(Some(7)));
}

#[test]
fn bars_print_line_8() {
    assert_eq!("█", print_line(Some(8)));
}

#[test]
fn bars_partial_fill_does_not_round_up() {
    // 4.5 eighths: whole eighths only
    let eighths = 4.5f64.trunc() as u32;
    assert_eq!("▌", print_line(Some(eighths)));
    assert_eq!("██▍", print_line(Some(19)));
}

#[test]
fn block_column_stacks() {
    assert_eq!(vec![' '], calculate_column(None));
    assert_eq!(Vec::<char>::new(), calculate_column(Some(0)));
    assert_eq!(vec!['█', '▃'], calculate_column(Some(11)));
    assert_eq!(vec!['█', '█'], calculate_column(Some(16)));
}

#[test]
fn block_columns_from_the_top() {
    let lines = print_columns(&vec![Some(11), None, Some(4), Some(16)], 2);
    assert_eq!(vec!["▃  █".to_string(), "█ ▄█".to_string()], lines);
}

#[test]
fn column_chart_pairs_lines_side_by_side() {
    let samples = vec![
        Samples::One(Some(3)),
        Samples::One(None),
        Samples::One(Some(1)),
    ];
    let chart = Columns::new(Family::Quadrant).chart(&samples, 1, GraphStyle::Filled, 2);
    // dots 1..=3 on the left of the first column, dot 1 on the left of the second
    assert_eq!(Ok(vec!["▖ ".to_string(), "▌▖".to_string()]), chart);
}

#[test]
fn column_chart_refuses_auto_for_many_series() {
    let samples = vec![Samples::One(Some(2)), Samples::Many(vec![1, 2, 3])];
    assert_eq!(
        Err(ConfigError::AutoStyleWithManySeries),
        Columns::new(Family::Braille).chart(&samples, 1, GraphStyle::Auto, 2)
    );
}

#[test]
fn print_graph_missing_last_row_ends_on_its_glyph_row() {
    let mut rows: Vec<Vec<Vec<bool>>> = [2u16, 4, 6, 8, 3]
        .into_iter()
        .map(|v| into_dot_groups(v, 1, GraphStyle::Filled, 2))
        .collect();
    rows.push(vec![]);
    let out = Lines::print_graph(Family::Braille, &rows);
    assert_eq!(2, out.len());
    assert_eq!("⣿⣶⣤⣀", out[0]);
    assert_eq!("⠉⠁", out[1]);
}

#[test]
fn print_graph_drops_an_all_missing_tail() {
    let rows: Vec<Vec<Vec<bool>>> = vec![vec![vec![true, true]], vec![], vec![]];
    let out = Lines::print_graph(Family::Quadrant, &rows);
    assert_eq!(vec!["▀".to_string()], out);
}

#[test]
fn public_series_draws_pairs() {
    assert_eq!(
        vec![vec![false, true], vec![true, false]],
        braille::dots::Series::into_dot_array_groups([2, 3], GraphStyle::Line, 2)
    );
}
