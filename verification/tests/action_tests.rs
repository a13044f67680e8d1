use battleship_twist::GRID_SIZE;
use battleship_twist::board::{Board, Cells};
use battleship_twist::player::BasePlayer;
use battleship_twist::ship::{Orientation, Ship, ShipType};
use battleship_twist::twist::TwistPlayer;

fn empty_base() -> BasePlayer {
    BasePlayer {
        board: Board::new(),
        guess_board: Board::new(),
        ships: Vec::new(),
        ship_count: 5,
    }
}

fn put_ship(p: &mut BasePlayer, cells: &[(usize, usize)], t: ShipType, o: Orientation) {
    for &(x, y) in cells {
        p.board.change_cell(x, y, Cells::Occupied);
    }
    p.ships.push(Ship { ship_type: t, positions: cells.to_vec(), orientation: o });
}

fn twist_of(base: BasePlayer) -> TwistPlayer {
    let mut p = TwistPlayer::new(empty_base());
    p.base = base;
    p
}

#[test]
fn missile_hits_occupied_cell() {
    let mut shooter = empty_base();
    let mut target = empty_base();
    put_ship(&mut target, &[(5, 5), (5, 6)], ShipType::Destroyer, Orientation::Horizontal);
    let hit = shooter.fire_missile(&mut target, 5, 5);
    assert!(hit);
    assert_eq!(target.board.cells[5][5], Cells::Hit);
    assert_eq!(shooter.guess_board.cells[5][5], Cells::Hit);
    assert_eq!(target.board.cells[5][6], Cells::Occupied);
}

#[test]
fn missile_misses_empty_cell() {
    let mut shooter = empty_base();
    let mut target = empty_base();
    let hit = shooter.fire_missile(&mut target, 0, 9);
    assert!(!hit);
    assert_eq!(target.board.cells[0][9], Cells::Miss);
    assert_eq!(shooter.guess_board.cells[0][9], Cells::Miss);
}

#[test]
fn missile_on_reinforced_downgrades_then_hits() {
    let mut shooter = empty_base();
    let mut target = empty_base();
    put_ship(&mut target, &[(2, 2), (2, 3)], ShipType::Destroyer, Orientation::Horizontal);
    target.board.change_cell(2, 2, Cells::Reinforced);

    let first = shooter.fire_missile(&mut target, 2, 2);
    assert!(first);
    assert_eq!(target.board.cells[2][2], Cells::Occupied, "one call only removes protection");
    assert_ne!(target.board.cells[2][2], Cells::Hit);

    let second = shooter.fire_missile(&mut target, 2, 2);
    assert!(second);
    assert_eq!(target.board.cells[2][2], Cells::Hit);
}

#[test]
fn missile_sinking_last_cell_updates_count() {
    let mut shooter = empty_base();
    let mut target = empty_base();
    put_ship(&mut target, &[(0, 0), (0, 1)], ShipType::Destroyer, Orientation::Horizontal);
    target.ship_count = 1;
    shooter.fire_missile(&mut target, 0, 0);
    assert_eq!(target.ship_count, 1, "ship not yet sunk");
    shooter.fire_missile(&mut target, 0, 1);
    assert_eq!(target.ship_count, 0, "count recomputed when the ship sinks");
}

#[test]
fn torpedo_up_empty_column_marks_all_miss() {
    let mut shooter = twist_of(empty_base());
    let mut target = twist_of(empty_base());
    let hit = shooter.fire_torpedo(&mut target, 4);
    assert!(!hit);
    for x in 0..GRID_SIZE {
        assert_eq!(target.base.board.cells[x][4], Cells::Miss);
        assert_eq!(shooter.base.guess_board.cells[x][4], Cells::Miss);
    }
}

#[test]
fn torpedo_stops_at_first_ship_cell_from_below() {
    let mut shooter = twist_of(empty_base());
    let mut base = empty_base();
    put_ship(&mut base, &[(3, 7), (4, 7)], ShipType::Destroyer, Orientation::Verticle);
    // The scan starts at row 9 and moves toward row 0, so of the two ship
    // cells the one at row 4 blocks first.
    let mut target = twist_of(base);
    let hit = shooter.fire_torpedo(&mut target, 7);
    assert!(hit);
    for x in 5..GRID_SIZE {
        assert_eq!(target.base.board.cells[x][7], Cells::Miss);
    }
    assert_eq!(target.base.board.cells[4][7], Cells::Hit);
    assert_eq!(target.base.board.cells[3][7], Cells::Occupied, "rows above the stop are untouched");
    for x in 0..3 {
        assert_eq!(target.base.board.cells[x][7], Cells::Empty);
    }
}

#[test]
fn torpedo_single_ship_cell_at_row_three() {
    let mut shooter = twist_of(empty_base());
    let mut base = empty_base();
    base.board.change_cell(3, 2, Cells::Occupied);
    base.ships.push(Ship {
        ship_type: ShipType::Destroyer,
        positions: vec![(3, 2), (3, 3)],
        orientation: Orientation::Horizontal,
    });
    base.board.change_cell(3, 3, Cells::Occupied);
    let mut target = twist_of(base);
    let hit = shooter.fire_torpedo(&mut target, 2);
    assert!(hit);
    for x in 4..GRID_SIZE {
        assert_eq!(target.base.board.cells[x][2], Cells::Miss, "rows below the ship become Miss");
    }
    assert_eq!(target.base.board.cells[3][2], Cells::Hit);
    for x in 0..3 {
        assert_eq!(target.base.board.cells[x][2], Cells::Empty, "rows above stay untouched");
    }
}

#[test]
fn torpedo_on_reinforced_removes_protection_and_stops() {
    let mut shooter = twist_of(empty_base());
    let mut base = empty_base();
    put_ship(&mut base, &[(6, 1), (7, 1)], ShipType::Destroyer, Orientation::Verticle);
    base.board.change_cell(7, 1, Cells::Reinforced);
    let mut target = twist_of(base);
    let hit = shooter.fire_torpedo(&mut target, 1);
    assert!(hit);
    assert_eq!(target.base.board.cells[7][1], Cells::Occupied);
    assert_eq!(target.base.board.cells[6][1], Cells::Occupied);
    assert_eq!(target.base.board.cells[8][1], Cells::Miss);
    assert_eq!(target.base.board.cells[9][1], Cells::Miss);
}

#[test]
fn torpedo_blocked_by_existing_hit_reports_no_new_hit() {
    let mut shooter = twist_of(empty_base());
    let mut base = empty_base();
    put_ship(&mut base, &[(5, 0), (6, 0)], ShipType::Destroyer, Orientation::Verticle);
    base.board.change_cell(6, 0, Cells::Hit);
    let mut target = twist_of(base);
    let hit = shooter.fire_torpedo(&mut target, 0);
    assert!(!hit, "an already-hit cell blocks without a new hit");
    assert_eq!(target.base.board.cells[6][0], Cells::Hit);
    assert_eq!(target.base.board.cells[5][0], Cells::Occupied);
    assert_eq!(target.base.board.cells[9][0], Cells::Miss);
}

#[test]
fn radar_scan_interior_reveals_five_cells() {
    let mut scanner = twist_of(empty_base());
    let mut base = empty_base();
    put_ship(&mut base, &[(4, 5), (5, 5)], ShipType::Destroyer, Orientation::Verticle);
    base.board.change_cell(5, 4, Cells::Miss);
    let mut target = twist_of(base);
    scanner.radar_scan(&mut target, 5, 5);
    assert_eq!(scanner.base.guess_board.cells[5][5], Cells::Occupied);
    assert_eq!(scanner.base.guess_board.cells[4][5], Cells::Occupied);
    assert_eq!(scanner.base.guess_board.cells[6][5], Cells::Empty);
    assert_eq!(scanner.base.guess_board.cells[5][4], Cells::Miss);
    assert_eq!(scanner.base.guess_board.cells[5][6], Cells::Empty);
    let mut revealed = 0;
    for x in 0..GRID_SIZE {
        for y in 0..GRID_SIZE {
            let in_plus = (x == 5 && y == 5)
                || (x == 5 && (y == 4 || y == 6))
                || (y == 5 && (x == 4 || x == 6));
            if !in_plus {
                assert_eq!(scanner.base.guess_board.cells[x][y], Cells::Empty);
            } else {
                revealed += 1;
            }
        }
    }
    assert_eq!(revealed, 5);
}

#[test]
fn radar_scan_corner_reveals_three_cells() {
    let mut scanner = twist_of(empty_base());
    let mut base = empty_base();
    base.board.change_cell(0, 0, Cells::Occupied);
    base.ships.push(Ship {
        ship_type: ShipType::Destroyer,
        positions: vec![(0, 0), (1, 0)],
        orientation: Orientation::Verticle,
    });
    base.board.change_cell(1, 0, Cells::Occupied);
    let mut target = twist_of(base);
    scanner.radar_scan(&mut target, 0, 0);
    assert_eq!(scanner.base.guess_board.cells[0][0], Cells::Occupied);
    assert_eq!(scanner.base.guess_board.cells[1][0], Cells::Occupied);
    assert_eq!(scanner.base.guess_board.cells[0][1], Cells::Empty);
    for x in 0..GRID_SIZE {
        for y in 0..GRID_SIZE {
            let in_plus = (x == 0 && y == 0) || (x == 1 && y == 0) || (x == 0 && y == 1);
            if !in_plus {
                assert_eq!(scanner.base.guess_board.cells[x][y], Cells::Empty);
            }
        }
    }
}

#[test]
fn reinforce_only_occupied_cells() {
    let mut base = empty_base();
    put_ship(&mut base, &[(8, 8), (8, 9)], ShipType::Destroyer, Orientation::Horizontal);
    let mut p = twist_of(base);
    assert!(p.reinforce(8, 8));
    assert_eq!(p.base.board.cells[8][8], Cells::Reinforced);
    assert!(!p.reinforce(8, 8), "already reinforced");
    assert_eq!(p.base.board.cells[8][8], Cells::Reinforced);
    assert!(!p.reinforce(0, 0), "must be occupied");
    assert_eq!(p.base.board.cells[0][0], Cells::Empty);
}
