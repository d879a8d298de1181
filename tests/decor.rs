use poliosis::decor::{crossed_box_ticks, lined_box_ticks, TickMark};

fn tick(x_corner: usize, y_corner: usize, step: u8, flipped: bool) -> TickMark {
    TickMark { x_corner, y_corner, step, flipped }
}

#[test]
fn lined_box_splits_ticks_in_halves() {
    assert_eq!(
        lined_box_ticks(5, false),
        vec![
            tick(0, 0, 1, false),
            tick(0, 0, 2, false),
            tick(1, 1, 1, false),
            tick(1, 1, 2, false),
            tick(1, 1, 3, false),
        ]
    );
}

#[test]
fn mirrored_lined_box_swaps_corners() {
    assert_eq!(
        lined_box_ticks(2, true),
        vec![tick(1, 0, 1, true), tick(0, 1, 1, true)]
    );
}

#[test]
fn single_and_no_lines() {
    assert!(lined_box_ticks(0, false).is_empty());
    assert_eq!(lined_box_ticks(1, false), vec![tick(1, 1, 1, false)]);
    assert!(crossed_box_ticks(0).is_empty());
}

#[test]
fn crossed_box_draws_both_directions() {
    let ticks = crossed_box_ticks(3);
    assert_eq!(ticks.len(), 6);
    assert_eq!(&ticks[..3], lined_box_ticks(3, false).as_slice());
    assert_eq!(&ticks[3..], lined_box_ticks(3, true).as_slice());
}

#[test]
fn largest_line_count() {
    let ticks = lined_box_ticks(255, false);
    assert_eq!(ticks.len(), 255);
    assert_eq!(ticks[126], tick(0, 0, 127, false));
    assert_eq!(ticks[127], tick(1, 1, 1, false));
    assert_eq!(ticks[254], tick(1, 1, 128, false));
}
