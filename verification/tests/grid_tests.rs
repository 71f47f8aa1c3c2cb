use roguelike::components::{Entity, Position};
use roguelike::grid::{Exit, GridIndex, Placed};

fn at(x: i32, y: i32) -> Position {
    Position { x, y }
}

fn floor(id: u64, x: i32, y: i32) -> Placed {
    Placed { entity: Entity { id }, position: at(x, y), blocker: false, opaque: false }
}

fn wall(id: u64, x: i32, y: i32) -> Placed {
    Placed { entity: Entity { id }, position: at(x, y), blocker: true, opaque: true }
}

fn open_field(width: usize, height: usize) -> Vec<Placed> {
    let mut placed = Vec::new();
    for y in 0..height {
        for x in 0..width {
            placed.push(floor((y * width + x) as u64, x as i32, y as i32));
        }
    }
    placed
}

#[test]
fn a_new_index_is_empty() {
    let index = GridIndex::new(4, 3);
    assert_eq!(index.width(), 4);
    assert_eq!(index.height(), 3);
    assert!(index.at_position(&at(1, 1)).is_empty());
    assert!(index.occupants(&at(1, 1)).is_none());
    assert!(!index.is_opaque_at(&at(1, 1)));
    assert!(!index.is_blocked_at(&at(1, 1)));
}

#[test]
fn entities_are_listed_in_the_order_they_were_met() {
    let mut index = GridIndex::new(8, 8);
    let placed = vec![
        floor(1, 2, 2),
        floor(2, 3, 2),
        Placed { entity: Entity { id: 3 }, position: at(2, 2), blocker: true, opaque: false },
        floor(4, 2, 2),
    ];
    index.rebuild(&placed);
    assert_eq!(index.at_position(&at(2, 2)), vec![Entity { id: 1 }, Entity { id: 3 }, Entity { id: 4 }]);
    assert_eq!(index.at_position(&at(3, 2)), vec![Entity { id: 2 }]);
    assert_eq!(index.occupants(&at(3, 2)), Some(&vec![Entity { id: 2 }]));
    assert!(index.at_position(&at(2, 3)).is_empty());
    assert!(index.is_blocked_at(&at(2, 2)));
    assert!(!index.is_opaque_at(&at(2, 2)));
    assert!(!index.is_blocked_at(&at(3, 2)));
}

#[test]
fn sight_and_movement_are_blocked_apart() {
    let mut index = GridIndex::new(8, 8);
    let placed = vec![
        Placed { entity: Entity { id: 1 }, position: at(1, 1), blocker: true, opaque: false },
        Placed { entity: Entity { id: 2 }, position: at(2, 1), blocker: false, opaque: true },
        wall(3, 3, 1),
    ];
    index.rebuild(&placed);
    assert!(index.is_blocked_at(&at(1, 1)) && !index.is_opaque_at(&at(1, 1)));
    assert!(!index.is_blocked_at(&at(2, 1)) && index.is_opaque_at(&at(2, 1)));
    assert!(index.is_blocked_at(&at(3, 1)) && index.is_opaque_at(&at(3, 1)));
}

#[test]
fn an_entity_off_the_grid_is_indexed_as_it_is() {
    let mut index = GridIndex::new(4, 4);
    let placed = vec![wall(1, -3, 9), floor(2, i32::MAX, i32::MIN), floor(3, i32::MIN, i32::MAX)];
    index.rebuild(&placed);
    assert_eq!(index.at_position(&at(-3, 9)), vec![Entity { id: 1 }]);
    assert_eq!(index.at_position(&at(i32::MAX, i32::MIN)), vec![Entity { id: 2 }]);
    assert_eq!(index.at_position(&at(i32::MIN, i32::MAX)), vec![Entity { id: 3 }]);
    assert!(index.is_blocked_at(&at(-3, 9)));
    assert!(!index.is_in_bounds(&at(-3, 9)));
}

#[test]
fn a_rebuild_forgets_what_was_there() {
    let mut index = GridIndex::new(8, 8);
    index.rebuild(&vec![wall(1, 1, 1), floor(2, 2, 2)]);
    index.rebuild(&vec![floor(2, 3, 2)]);
    assert!(index.at_position(&at(1, 1)).is_empty());
    assert!(index.at_position(&at(2, 2)).is_empty());
    assert!(!index.is_blocked_at(&at(1, 1)));
    assert!(!index.is_opaque_at(&at(1, 1)));
    assert_eq!(index.at_position(&at(3, 2)), vec![Entity { id: 2 }]);
    assert_eq!(index.width(), 8);
    assert_eq!(index.height(), 8);
}

#[test]
fn rebuilding_twice_gives_the_same_index() {
    let mut placed = open_field(6, 5);
    placed.push(wall(100, 2, 2));
    placed.push(floor(101, 2, 2));
    placed.push(wall(102, 7, 7));
    let mut once = GridIndex::new(6, 5);
    once.rebuild(&placed);
    let mut twice = GridIndex::new(6, 5);
    twice.rebuild(&vec![wall(5, 0, 0)]);
    twice.rebuild(&placed);
    twice.rebuild(&placed);
    for y in -1..9 {
        for x in -1..9 {
            let cell = at(x, y);
            assert_eq!(once.at_position(&cell), twice.at_position(&cell));
            assert_eq!(once.is_opaque_at(&cell), twice.is_opaque_at(&cell));
            assert_eq!(once.is_blocked_at(&cell), twice.is_blocked_at(&cell));
        }
    }
    assert_eq!(once.at_position(&at(2, 2)), vec![Entity { id: 14 }, Entity { id: 100 }, Entity { id: 101 }]);
}

#[test]
fn bounds_are_those_of_the_grid() {
    let index = GridIndex::new(5, 3);
    assert!(index.is_in_bounds(&at(0, 0)));
    assert!(index.is_in_bounds(&at(4, 2)));
    assert!(!index.is_in_bounds(&at(5, 2)));
    assert!(!index.is_in_bounds(&at(4, 3)));
    assert!(!index.is_in_bounds(&at(-1, 0)));
    assert!(!index.is_in_bounds(&at(0, -1)));
    assert_eq!(index.dimensions(), at(5, 3));
}

#[test]
fn cells_are_counted_row_by_row() {
    let index = GridIndex::new(5, 3);
    assert_eq!(index.idx_position(0usize), Some(at(0, 0)));
    assert_eq!(index.idx_position(4usize), Some(at(4, 0)));
    assert_eq!(index.idx_position(5usize), Some(at(0, 1)));
    assert_eq!(index.idx_position(14usize), Some(at(4, 2)));
    assert_eq!(index.idx_position(15usize), None);
    assert_eq!(index.idx_position(7i32), Some(at(2, 1)));
    assert_eq!(index.idx_position(-1i32), None);
    assert_eq!(index.idx_position(u64::MAX), None);
    assert_eq!(index.cell_at(13), Some(at(3, 2)));
    assert_eq!(index.position_idx(&at(3, 2)), Some(13));
    assert_eq!(index.position_idx(&at(0, 0)), Some(0));
    assert_eq!(index.position_idx(&at(5, 0)), None);
    assert_eq!(index.position_idx(&at(0, 3)), None);
    assert_eq!(index.position_idx(&at(-1, 1)), None);
    for idx in 0..15usize {
        let cell = index.cell_at(idx).unwrap();
        assert_eq!(index.position_idx(&cell), Some(idx));
    }
}

#[test]
fn a_grid_without_cells_has_no_cell() {
    let index = GridIndex::new(0, 7);
    assert_eq!(index.cell_at(0), None);
    assert_eq!(index.position_idx(&at(0, 0)), None);
    assert!(index.get_available_exits(0).is_empty());
    assert!(index.is_opaque(0));
}

#[test]
fn sight_stops_beyond_the_grid() {
    let mut index = GridIndex::new(4, 4);
    index.rebuild(&vec![wall(1, 1, 0), floor(2, 2, 0)]);
    assert!(index.is_opaque(1));
    assert!(!index.is_opaque(2));
    assert!(!index.is_opaque(15));
    assert!(index.is_opaque(16));
    assert!(index.is_opaque(usize::MAX));
}

#[test]
fn an_open_cell_has_eight_exits_straight_ones_first() {
    let mut index = GridIndex::new(5, 5);
    index.rebuild(&open_field(5, 5));
    let exits = index.get_available_exits(12);
    assert_eq!(
        exits,
        vec![
            Exit { index: 11, diagonal: false },
            Exit { index: 13, diagonal: false },
            Exit { index: 7, diagonal: false },
            Exit { index: 17, diagonal: false },
            Exit { index: 6, diagonal: true },
            Exit { index: 8, diagonal: true },
            Exit { index: 16, diagonal: true },
            Exit { index: 18, diagonal: true },
        ]
    );
}

#[test]
fn exits_stay_on_the_grid() {
    let mut index = GridIndex::new(5, 5);
    index.rebuild(&open_field(5, 5));
    assert_eq!(
        index.get_available_exits(0),
        vec![
            Exit { index: 1, diagonal: false },
            Exit { index: 5, diagonal: false },
            Exit { index: 6, diagonal: true },
        ]
    );
    assert_eq!(
        index.get_available_exits(24),
        vec![
            Exit { index: 23, diagonal: false },
            Exit { index: 19, diagonal: false },
            Exit { index: 18, diagonal: true },
        ]
    );
    assert!(index.get_available_exits(25).is_empty());
}

#[test]
fn exits_avoid_blockers() {
    let mut placed = open_field(5, 5);
    placed.push(wall(100, 1, 2));
    placed.push(wall(101, 3, 3));
    placed.push(Placed { entity: Entity { id: 102 }, position: at(2, 1), blocker: false, opaque: true });
    let mut index = GridIndex::new(5, 5);
    index.rebuild(&placed);
    assert_eq!(
        index.get_available_exits(12),
        vec![
            Exit { index: 13, diagonal: false },
            Exit { index: 7, diagonal: false },
            Exit { index: 17, diagonal: false },
            Exit { index: 6, diagonal: true },
            Exit { index: 8, diagonal: true },
            Exit { index: 16, diagonal: true },
        ]
    );
    assert!(!index.is_exit_valid(1, 2));
    assert!(index.is_exit_valid(2, 1));
    assert!(!index.is_exit_valid(5, 1));
    assert!(!index.is_exit_valid(-1, 1));
    assert!(index.is_exit_valid(4, 4));
}
