use braille::cells::RowBuildable;
use braille::dots::{into_dot_groups, sample_groups, DotArrayable, Samples};
use braille::style::ConfigError;
use braille::GraphStyle;

struct Foo;
impl RowBuildable for Foo {}
impl DotArrayable for Foo {}

fn rows<const N: usize, const M: usize>(input: [Vec<[bool; N]>; M]) -> Vec<Vec<Vec<bool>>> {
    input
        .into_iter()
        .map(|row| row.into_iter().map(|group| group.to_vec()).collect())
        .collect()
}

fn cells<const N: usize, const M: usize>(input: Vec<[[bool; N]; M]>) -> Vec<Vec<Vec<bool>>> {
    input
        .into_iter()
        .map(|cell| cell.into_iter().map(|row| row.to_vec()).collect())
        .collect()
}

fn groups<const N: usize>(input: Vec<[bool; N]>) -> Vec<Vec<bool>> {
    input.into_iter().map(|group| group.to_vec()).collect()
}

#[test]
fn try_build_braille_row() {
    let input_row = [
        vec![[ true, false]],
        vec![[false,  true]],
        vec![[ true,  true]],
        vec![[false, false]],
    ];

    let expected = vec![
        [
            [ true, false],
            [false,  true],
            [ true,  true],
            [false, false],
        ],
    ];

    let actual = Foo::assemble_row(&rows(input_row), 2);

    assert_eq!(cells(expected), actual);
}

#[test]
fn test_transpose_row_line_1() {
    let input = [
        vec![[ true,  true], [ true, true], [true, false]],
        vec![[false,  true], [ true, true], [true, false]],
        vec![[false, false], [ true, true], [true, false]],
        vec![[false, false], [false, true], [true, false]],
    ];

    let expected = vec![
        [
            [ true,  true],
            [false,  true],
            [false, false],
            [false, false],
        ],
        [
            [ true,  true],
            [ true,  true],
            [ true,  true],
            [false,  true],
        ],
        [
            [ true, false],
            [ true, false],
            [ true, false],
            [ true, false],
        ],
    ];
    let actual = Foo::assemble_row(&rows(input), 2);
    assert_eq!(cells(expected), actual);
}

#[test]
fn test_transpose_row_line_2() {
    let input = [
        vec![[false, false], [false, false], [true, false]               ],
        vec![[false, false], [false, false], [true,  true]               ],
        vec![[false, false], [false, false], [true,  true], [true, false]],
        vec![[false, false], [false, false], [true,  true], [true,  true]],
    ];

    let expected = vec![
        [
            [false, false],
            [false, false],
            [false, false],
            [false, false],
        ],
        [
            [false, false],
            [false, false],
            [false, false],
            [false, false],
        ],
        [
            [ true, false],
            [ true,  true],
            [ true,  true],
            [ true,  true]
        ],
        [
            [false, false],
            [false, false],
            [ true, false],
            [ true,  true],
        ],
    ];

    assert_eq!(cells(expected), Foo::assemble_row(&rows(input), 2));
}

#[test]
fn assemble_drops_only_a_blank_last_cell() {
    let input = [
        vec![[true, false], [false, false], [false, false]],
        vec![[false, false]],
    ];
    let actual = Foo::assemble_row(&rows(input), 2);
    // the blank middle cell stays, the blank last one goes
    assert_eq!(
        cells(vec![
            [[true, false], [false, false]],
            [[false, false], [false, false]],
        ]),
        actual
    );
}

#[test]
fn assemble_keeps_a_lit_last_cell() {
    let input = [vec![[false, false], [false, false], [false, true]]];
    let actual = Foo::assemble_row(&rows(input), 2);
    assert_eq!(
        cells(vec![[[false, false]], [[false, false]], [[false, true]]]),
        actual
    );
}

#[test]
fn assemble_of_empty_rows_is_empty() {
    let input: [Vec<[bool; 2]>; 4] = [vec![], vec![], vec![], vec![]];
    assert!(Foo::assemble_row(&rows(input), 2).is_empty());
}

#[test]
fn test_into_dot_pairs() {
    assert_eq!(
        groups(vec![[false, false], [false, false], [true, false]]),
        into_dot_groups(5, 5, GraphStyle::default(), 2)
    );
}

#[test]
fn dot_groups_below_zero() {
    // value -2 at dot 2 against the baseline at dot 4
    assert_eq!(
        groups(vec![[false, true], [true, true]]),
        into_dot_groups(2, 4, GraphStyle::default(), 2)
    );
}

#[test]
fn dot_groups_above_zero() {
    // value 3 at dot 7 against the baseline at dot 4
    assert_eq!(
        groups(vec![[false, false], [false, true], [true, true], [true, false]]),
        into_dot_groups(7, 4, GraphStyle::default(), 2)
    );
}

#[test]
fn dot_groups_line_style_lights_the_value_only() {
    assert_eq!(
        groups(vec![[false, false], [false, false], [true, false]]),
        into_dot_groups(5, 2, GraphStyle::Line, 2)
    );
    assert_eq!(
        groups(vec![[false, true, false, false]]),
        into_dot_groups(2, 4, GraphStyle::Line, 4)
    );
}

#[test]
fn dot_groups_auto_fills_only_at_or_above_zero() {
    assert_eq!(
        groups(vec![[false, true, true, true]]),
        into_dot_groups(4, 2, GraphStyle::Auto, 4)
    );
    assert_eq!(
        groups(vec![[false, true, false, false]]),
        into_dot_groups(2, 4, GraphStyle::Auto, 4)
    );
}

fn lit_count(groups: &[Vec<bool>]) -> usize {
    groups.iter().flatten().filter(|dot| **dot).count()
}

#[test]
fn lit_count_grows_with_distance_from_zero() {
    for style in [GraphStyle::Filled, GraphStyle::Line] {
        let counts: Vec<usize> = [5u16, 6, 4, 8, 1, 10]
            .into_iter()
            .map(|value| lit_count(&into_dot_groups(value, 5, style, 2)))
            .collect();
        for pair in counts.windows(2) {
            assert!(pair[0] <= pair[1], "{style:?}: {counts:?}");
        }
    }
    assert_eq!(6, lit_count(&into_dot_groups(10, 5, GraphStyle::Filled, 4)));
    assert_eq!(1, lit_count(&into_dot_groups(10, 5, GraphStyle::Line, 4)));
    // under Auto, a value below the baseline lights its own dot only
    assert_eq!(1, lit_count(&into_dot_groups(1, 5, GraphStyle::Auto, 4)));
    assert_eq!(3, lit_count(&into_dot_groups(7, 5, GraphStyle::Auto, 4)));
}

#[test]
fn pair_tie_lights_one_dot_in_every_style() {
    for style in [GraphStyle::Auto, GraphStyle::Line, GraphStyle::Filled] {
        assert_eq!(
            groups(vec![[false, false], [true, false]]),
            Foo::into_dot_array_groups([3, 3], style, 2)
        );
    }
}

#[test]
fn pair_styles() {
    let filled = groups(vec![[false, true], [true, true], [true, false]]);
    let hollow = groups(vec![[false, true], [false, false], [true, false]]);
    assert_eq!(filled, Foo::into_dot_array_groups([2, 5], GraphStyle::Filled, 2));
    assert_eq!(filled, Foo::into_dot_array_groups([5, 2], GraphStyle::Filled, 2));
    assert_eq!(hollow, Foo::into_dot_array_groups([2, 5], GraphStyle::Line, 2));
    assert_eq!(filled, Foo::into_dot_array_groups([2, 5], GraphStyle::Auto, 2));
    assert_eq!(hollow, Foo::into_dot_array_groups([5, 2], GraphStyle::Auto, 2));
}

#[test]
fn many_series_merge_pairs() {
    let values = vec![2u16, 4, 7, 6, 9];
    assert_eq!(
        Ok(groups(vec![
            [false, true, true, true],
            [false, true, true, false],
            [true, false, false, false],
        ])),
        Foo::into_dot_array_groups_variable(&values, GraphStyle::Filled, 4)
    );
    assert_eq!(
        Ok(groups(vec![
            [false, true, false, true],
            [false, true, true, false],
            [true, false, false, false],
        ])),
        Foo::into_dot_array_groups_variable(&values, GraphStyle::Line, 4)
    );
    assert_eq!(
        Ok(vec![]),
        Foo::into_dot_array_groups_variable(&vec![], GraphStyle::Line, 4)
    );
}

#[test]
fn many_series_refuse_auto() {
    assert_eq!(
        Err(ConfigError::AutoStyleWithManySeries),
        Foo::into_dot_array_groups_variable(&vec![1, 2, 3], GraphStyle::Auto, 4)
    );
}

#[test]
fn samples_pick_their_generator() {
    assert_eq!(Ok(vec![]), sample_groups(&Samples::One(None), 3, GraphStyle::Filled, 2));
    assert_eq!(Ok(vec![]), sample_groups(&Samples::Two(None), 3, GraphStyle::Filled, 2));
    assert_eq!(
        Ok(groups(vec![[false, true], [true, false]])),
        sample_groups(&Samples::One(Some(3)), 2, GraphStyle::Filled, 2)
    );
    assert_eq!(
        Ok(groups(vec![[true, false], [false, true]])),
        sample_groups(&Samples::Two(Some([4, 1])), 2, GraphStyle::Line, 2)
    );
    assert_eq!(
        Ok(groups(vec![[true, true, true, false]])),
        sample_groups(&Samples::Many(vec![1, 3]), 2, GraphStyle::Filled, 4)
    );
    assert_eq!(
        Err(ConfigError::AutoStyleWithManySeries),
        sample_groups(&Samples::Many(vec![1, 3, 2]), 2, GraphStyle::Auto, 4)
    );
}
