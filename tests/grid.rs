use std::collections::HashMap;

use poliosis::coord::Coord;
use poliosis::grid::Grid;

#[derive(Debug, Copy, Clone, PartialEq)]
enum Tile {
    Air,
    Ground,
}

fn create_test_grid() -> Grid<Tile> {
    Grid::new(Vec::from([
        (Coord { x: 0, y: 0 }, Tile::Air),
        (Coord { x: 0, y: 1 }, Tile::Air),
        (Coord { x: 1, y: 0 }, Tile::Air),
        (Coord { x: 1, y: 1 }, Tile::Air),
    ]))
}

#[test]
fn test_grid_intoiter() {
    let test_grid = create_test_grid();

    for elem in test_grid.flatten() {
        assert!(matches!(elem, (Coord { .. }, Tile::Air)))
    }
}

#[test]
fn test_grid_ref_intoiter() {
    let test_grid = create_test_grid();

    for elem in test_grid.to_ref_vec() {
        assert!(matches!(elem, (Coord { .. }, &Tile::Air)))
    }
}

#[test]
fn test_grid_flatten() {
    let test_grid = create_test_grid();

    assert_eq!(
        test_grid.flatten(),
        HashMap::from([
            (Coord { x: 0, y: 0 }, Tile::Air),
            (Coord { x: 0, y: 1 }, Tile::Air),
            (Coord { x: 1, y: 0 }, Tile::Air),
            (Coord { x: 1, y: 1 }, Tile::Air),
        ])
    )
}

#[test]
fn test_grid_new() {
    let test_grid = create_test_grid();

    assert_eq!(
        test_grid.columns(),
        &HashMap::from([
            (0, HashMap::from([(0, Tile::Air), (1, Tile::Air)])),
            (1, HashMap::from([(0, Tile::Air), (1, Tile::Air)])),
        ])
    );
}

#[test]
fn test_grid_get() {
    let test_grid = create_test_grid();

    assert_eq!(test_grid.get(Coord { x: 0, y: 0 }), Some(&Tile::Air))
}

#[test]
fn test_grid_get_mut() {
    let mut test_grid = create_test_grid();

    assert_eq!(test_grid.get_mut(Coord { x: 0, y: 0 }), Some(&mut Tile::Air))
}

#[test]
fn test_grid_insert() {
    let mut test_grid = create_test_grid();
    test_grid.insert(Coord::from((2, 0)), Tile::Ground);

    assert_eq!(
        test_grid,
        Grid::new(Vec::from([
            (Coord { x: 0, y: 0 }, Tile::Air),
            (Coord { x: 0, y: 1 }, Tile::Air),
            (Coord { x: 1, y: 0 }, Tile::Air),
            (Coord { x: 1, y: 1 }, Tile::Air),
            (Coord { x: 2, y: 0 }, Tile::Ground),
        ]))
    )
}

#[test]
fn test_grid_to_ref_vec() {
    let test_grid = create_test_grid();

    assert_eq!(
        test_grid.to_ref_vec(),
        Vec::from([
            (Coord { x: 0, y: 0 }, &Tile::Air),
            (Coord { x: 0, y: 1 }, &Tile::Air),
            (Coord { x: 1, y: 0 }, &Tile::Air),
            (Coord { x: 1, y: 1 }, &Tile::Air),
        ])
    )
}

#[test]
fn later_tile_at_the_same_place_wins() {
    let grid = Grid::new(vec![(Coord { x: 3, y: -4 }, Tile::Air), (Coord { x: 3, y: -4 }, Tile::Ground)]);
    assert_eq!(grid.get(Coord { x: 3, y: -4 }), Some(&Tile::Ground));
    assert_eq!(grid.to_ref_vec().len(), 1);
}

#[test]
fn missing_tiles_are_none() {
    let mut grid = create_test_grid();
    assert_eq!(grid.get(Coord { x: 0, y: 2 }), None);
    assert_eq!(grid.get(Coord { x: 5, y: 0 }), None);
    assert_eq!(grid.get_mut(Coord { x: 5, y: 0 }), None);
}

#[test]
fn writes_through_get_mut_stay() {
    let mut grid = create_test_grid();
    *grid.get_mut(Coord { x: 1, y: 0 }).unwrap() = Tile::Ground;
    assert_eq!(grid.get(Coord { x: 1, y: 0 }), Some(&Tile::Ground));
    assert_eq!(grid.get(Coord { x: 0, y: 0 }), Some(&Tile::Air));
}

#[test]
fn ref_vec_is_in_coordinate_order() {
    let grid = Grid::new(vec![
        (Coord { x: 5, y: 1 }, Tile::Air),
        (Coord { x: -2, y: 7 }, Tile::Ground),
        (Coord { x: 5, y: -3 }, Tile::Ground),
        (Coord { x: -2, y: 0 }, Tile::Air),
    ]);
    let coords: Vec<Coord> = grid.to_ref_vec().into_iter().map(|(c, _)| c).collect();
    assert_eq!(
        coords,
        vec![Coord { x: -2, y: 0 }, Coord { x: -2, y: 7 }, Coord { x: 5, y: -3 }, Coord { x: 5, y: 1 }]
    );
}
