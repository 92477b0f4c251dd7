use braille::grid::{Dot, GridDots};
use braille::scale::{dots_per_axis, zero_index, Origin};

fn diagonal() -> Vec<Dot> {
    // the points (0, -3) .. (7, 4) scaled onto an 8 x 8 dot grid
    (0..8).map(|i| Dot::new(i, i)).collect()
}

#[test]
fn check_coord_stuff() {
    let mut grid = GridDots::new(4 * 2, 2 * 4, 8);
    grid.merge_dots(&diagonal());

    let expected = vec![
        false, false, false, false, false, false, false,  true,
        false, false, false, false, false, false,  true, false,
        false, false, false, false, false,  true, false, false,
        false, false, false, false,  true, false, false, false,
        false, false, false,  true, false, false, false, false,
        false, false,  true, false, false, false, false, false,
        false,  true, false, false, false, false, false, false,
         true, false, false, false, false, false, false, false,
    ];

    let dots = grid.into_dots();
    assert_eq!(expected, dots);
}

#[test]
fn grid_renders_braille_rows() {
    let mut grid = GridDots::new(8, 8, 8);
    grid.merge_dots(&diagonal());
    assert_eq!("⠀⠀⡠⠊\n⡠⠊⠀⠀\n", grid.render());
}

#[test]
fn grid_render_pads_ragged_edges() {
    // 3 x 5 dots: two glyphs across, two glyph rows down
    let mut grid = GridDots::new(3, 5, 4);
    grid.insert(Dot::new(0, 4));
    grid.insert(Dot::new(2, 0));
    grid.insert(Dot::new(2, 0));
    assert_eq!("⠁⠀\n⠀⠁\n", grid.render());
}

#[test]
fn empty_grid_is_blank() {
    let grid = GridDots::new(2, 3, 0);
    assert_eq!(vec![false; 6], grid.into_dots());
    assert_eq!("", GridDots::new(2, 0, 0).render());
}

#[test]
fn zero_index_clamps_to_the_axis() {
    assert_eq!(1, zero_index(Origin::BelowRange, 20));
    assert_eq!(20, zero_index(Origin::AboveRange, 20));
    assert_eq!(7, zero_index(Origin::InRange(7), 20));
    assert_eq!(1, zero_index(Origin::AboveRange, 1));
}

#[test]
fn dots_per_axis_checks_the_product() {
    assert_eq!(Some(40), dots_per_axis(10, 4));
    assert_eq!(Some(65535), dots_per_axis(65535, 1));
    assert_eq!(None, dots_per_axis(16384, 4));
}
