use std::cmp::Ordering;

use poliosis::coord::Coord;

#[test]
fn test_coord_ord() {
    assert_eq!(Coord { x: 1, y: 1 }.cmp(&Coord { x: 0, y: 0 }), Ordering::Greater);
    assert_eq!(Coord { x: 1, y: 0 }.cmp(&Coord { x: 0, y: 0 }), Ordering::Greater);
    assert_eq!(Coord { x: 1, y: 0 }.cmp(&Coord { x: 0, y: 1 }), Ordering::Greater);

    assert_eq!(Coord { x: 0, y: 0 }.cmp(&Coord { x: 1, y: 1 }), Ordering::Less);
    assert_eq!(Coord { x: 0, y: 0 }.cmp(&Coord { x: 1, y: 0 }), Ordering::Less);
    assert_eq!(Coord { x: 0, y: 1 }.cmp(&Coord { x: 1, y: 1 }), Ordering::Less);

    assert_eq!(Coord { x: 0, y: 0 }.cmp(&Coord { x: 0, y: 0 }), Ordering::Equal);
    assert_eq!(Coord { x: 1, y: 1 }.cmp(&Coord { x: 1, y: 1 }), Ordering::Equal);
    assert_eq!(Coord { x: 1, y: 0 }.cmp(&Coord { x: 1, y: 0 }), Ordering::Equal);
    assert_eq!(Coord { x: 0, y: 1 }.cmp(&Coord { x: 0, y: 1 }), Ordering::Equal);
}

#[test]
fn test_coord_from() {
    assert_eq!(Coord::from([3, 5]), Coord { x: 3, y: 5 }, "ERROR: Failed assertion while converting from [i32;2] to Coord.");
    assert_eq!(Coord::from((3, 5)), Coord { x: 3, y: 5 }, "ERROR: Failed assertion while converting from (i32, i32) to Coord.");
}

#[test]
fn test_coord_origin() {
    assert_eq!(Coord::origin(), Coord { x: 0, y: 0 })
}

#[test]
fn test_coord_spread() {
    assert_eq!(
        Coord::origin().spread(Coord { x: 2, y: 2 }),
        vec![
            Coord { x: 0, y: 0 },
            Coord { x: 0, y: 1 },
            Coord { x: 0, y: 2 },
            Coord { x: 1, y: 0 },
            Coord { x: 1, y: 1 },
            Coord { x: 1, y: 2 },
            Coord { x: 2, y: 0 },
            Coord { x: 2, y: 1 },
            Coord { x: 2, y: 2 },
        ]
    )
}

#[test]
fn spread_of_empty_range_is_empty() {
    assert!(Coord { x: 2, y: 0 }.spread(Coord { x: 1, y: 5 }).is_empty());
    assert!(Coord { x: 0, y: 2 }.spread(Coord { x: 5, y: 1 }).is_empty());
}

#[test]
fn spread_of_single_cell_and_negative_range() {
    assert_eq!(Coord { x: -1, y: 4 }.spread(Coord { x: -1, y: 4 }), vec![Coord { x: -1, y: 4 }]);
    assert_eq!(
        Coord { x: -2, y: -1 }.spread(Coord { x: -1, y: -1 }),
        vec![Coord { x: -2, y: -1 }, Coord { x: -1, y: -1 }]
    );
}

#[test]
fn spread_reaches_the_largest_coordinate() {
    let cells = Coord { x: i32::MAX - 1, y: i32::MAX }.spread(Coord { x: i32::MAX, y: i32::MAX });
    assert_eq!(cells, vec![Coord { x: i32::MAX - 1, y: i32::MAX }, Coord { x: i32::MAX, y: i32::MAX }]);
}
