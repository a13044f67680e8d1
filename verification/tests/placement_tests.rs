use battleship_twist::GRID_SIZE;
use battleship_twist::board::{Board, Cells};
use battleship_twist::player::BasePlayer;
use battleship_twist::ship::{Orientation, Ship, ShipType};

fn expected_len(t: &ShipType) -> usize {
    match t {
        ShipType::Battleship => 4,
        ShipType::Cruiser => 3,
        ShipType::Submarine => 3,
        ShipType::Destroyer => 2,
        ShipType::Dreadnaught => 5,
    }
}

#[test]
fn new_player_fleet_is_valid() {
    let p = BasePlayer::new();
    assert_eq!(p.ship_count, 5);
    assert_eq!(p.ships.len(), 5);
    for ship in &p.ships {
        let len = expected_len(&ship.ship_type);
        assert_eq!(ship.positions.len(), len);
        for &(x, y) in &ship.positions {
            assert!(x < GRID_SIZE && y < GRID_SIZE);
            assert_eq!(p.board.cells[x][y], Cells::Occupied);
        }
        for i in 1..ship.positions.len() {
            let (ax, ay) = ship.positions[i - 1];
            let (bx, by) = ship.positions[i];
            let dx = bx as isize - ax as isize;
            let dy = by as isize - ay as isize;
            assert!(dx.abs() + dy.abs() == 1, "run must be contiguous");
            match ship.orientation {
                Orientation::Horizontal => assert_eq!(dx, 0),
                Orientation::Verticle => assert_eq!(dy, 0),
            }
        }
    }
    for a in 0..p.ships.len() {
        for b in 0..p.ships.len() {
            if a != b {
                for pa in &p.ships[a].positions {
                    for pb in &p.ships[b].positions {
                        assert_ne!(pa, pb, "ships must not share a coordinate");
                    }
                }
            }
        }
    }
}

#[test]
fn new_player_board_matches_fleet() {
    let p = BasePlayer::new();
    let mut occupied = 0;
    for x in 0..GRID_SIZE {
        for y in 0..GRID_SIZE {
            let covered = p.ships.iter().any(|s| s.positions.contains(&(x, y)));
            if covered {
                assert_eq!(p.board.cells[x][y], Cells::Occupied);
                occupied += 1;
            } else {
                assert_eq!(p.board.cells[x][y], Cells::Empty);
            }
        }
    }
    assert_eq!(occupied, 17, "lengths 4+3+3+2+5 cover 17 cells");
}

#[test]
fn new_player_fleet_types_in_placement_order() {
    let p = BasePlayer::new();
    assert_eq!(p.ships.len(), 5);
    assert!(matches!(p.ships[0].ship_type, ShipType::Battleship));
    assert!(matches!(p.ships[1].ship_type, ShipType::Submarine));
    assert!(matches!(p.ships[2].ship_type, ShipType::Cruiser));
    assert!(matches!(p.ships[3].ship_type, ShipType::Dreadnaught));
    assert!(matches!(p.ships[4].ship_type, ShipType::Destroyer));
}

#[test]
fn place_ship_uses_empty_cells_only() {
    let mut p = BasePlayer {
        board: Board::new(),
        guess_board: Board::new(),
        ships: Vec::new(),
        ship_count: 5,
    };
    let placed = p.place_ship(ShipType::Dreadnaught, Orientation::Horizontal);
    let ship = placed.expect("an empty board always has room");
    assert_eq!(ship.positions.len(), 5);
    for &(x, y) in &ship.positions {
        assert_eq!(p.board.cells[x][y], Cells::Occupied);
    }
    assert_eq!(p.ships.len(), 1);
    assert_eq!(p.ships[0].positions, ship.positions);
}

#[test]
fn find_ship_at_reports_first_cover() {
    let mut p = BasePlayer {
        board: Board::new(),
        guess_board: Board::new(),
        ships: Vec::new(),
        ship_count: 5,
    };
    for &(x, y) in &[(0usize, 0usize), (0, 1)] {
        p.board.change_cell(x, y, Cells::Occupied);
    }
    p.ships.push(Ship {
        ship_type: ShipType::Destroyer,
        positions: vec![(0, 0), (0, 1)],
        orientation: Orientation::Horizontal,
    });
    assert_eq!(p.find_ship_at(0, 0), Some(0));
    assert_eq!(p.find_ship_at(0, 1), Some(0));
    assert_eq!(p.find_ship_at(5, 5), None);
}

#[test]
fn update_ship_count_after_one_ship_sunk() {
    let mut p = BasePlayer::new();
    assert_eq!(p.ships.len(), 5);
    let coords = p.ships[0].positions.clone();
    for &(x, y) in &coords {
        p.board.change_cell(x, y, Cells::Hit);
    }
    p.update_ship_count();
    assert_eq!(p.ship_count, 4);
}

#[test]
fn is_ship_destroyed_needs_every_cell_hit() {
    let mut p = BasePlayer {
        board: Board::new(),
        guess_board: Board::new(),
        ships: Vec::new(),
        ship_count: 5,
    };
    for &(x, y) in &[(3usize, 3usize), (4, 3)] {
        p.board.change_cell(x, y, Cells::Occupied);
    }
    p.ships.push(Ship {
        ship_type: ShipType::Destroyer,
        positions: vec![(3, 3), (4, 3)],
        orientation: Orientation::Verticle,
    });
    assert!(!p.is_ship_destroyed(0));
    p.board.change_cell(3, 3, Cells::Hit);
    assert!(!p.is_ship_destroyed(0));
    p.board.change_cell(4, 3, Cells::Hit);
    assert!(p.is_ship_destroyed(0));
}
