//! Ship geometry: types, orientation, the coordinates a ship occupies, and
//! the predicates that placement and patrol movement must maintain.

use vstd::prelude::*;
use crate::GRID_SIZE;
use crate::board::Cells;

verus! {

/// Orientation of a placed ship.
#[derive(Copy, Clone, Debug)]
pub enum Orientation {
    Horizontal,
    Verticle,
}

/// The five ship types; each fixes the ship's length.
#[derive(Copy, Clone, Debug)]
pub enum ShipType {
    Battleship,
    Cruiser,
    Submarine,
    Destroyer,
    Dreadnaught,
}

/// A ship: its type, the ordered run of coordinates it occupies, and the
/// orientation it was placed with.
pub struct Ship {
    pub ship_type: ShipType,
    pub positions: Vec<(usize, usize)>,
    pub orientation: Orientation,
}

/// Length of a ship of the given type.
pub open spec fn ship_len_spec(t: ShipType) -> int {
    match t {
        ShipType::Battleship => 4,
        ShipType::Cruiser => 3,
        ShipType::Submarine => 3,
        ShipType::Destroyer => 2,
        ShipType::Dreadnaught => 5,
    }
}

/// Length of a ship of the given type.
pub fn ship_length(t: ShipType) -> (n: usize)
    ensures
        n == ship_len_spec(t),
{
    match t {
        ShipType::Battleship => 4,
        ShipType::Cruiser => 3,
        ShipType::Submarine => 3,
        ShipType::Destroyer => 2,
        ShipType::Dreadnaught => 5,
    }
}

/// The coordinate lies on the grid.
pub open spec fn pos_in_grid(p: (usize, usize)) -> bool {
    p.0 < GRID_SIZE && p.1 < GRID_SIZE
}

/// `(dx, dy)` is a unit step consistent with the orientation: horizontal
/// ships grow left or right, vertical ships up or down.
pub open spec fn dir_ok(o: Orientation, dx: int, dy: int) -> bool {
    match o {
        Orientation::Horizontal => dx == 0 && (dy == 1 || dy == -1),
        Orientation::Verticle => dy == 0 && (dx == 1 || dx == -1),
    }
}

/// Each coordinate continues the previous one by the step `(dx, dy)`:
/// the run is contiguous and lies on one straight line.
pub open spec fn straight_line(ps: Seq<(usize, usize)>, dx: int, dy: int) -> bool {
    forall|i: int|
        1 <= i < ps.len() ==> (#[trigger] ps[i]).0 == ps[i - 1].0 + dx && ps[i].1 == ps[i - 1].1
            + dy
}

/// The run of coordinates contains `(x, y)`.
pub open spec fn run_covers(ps: Seq<(usize, usize)>, x: int, y: int) -> bool {
    exists|i: int| 0 <= i < ps.len() && (#[trigger] ps[i]).0 == x && ps[i].1 == y
}

/// The ship occupies the coordinate `(x, y)`.
pub open spec fn ship_covers(s: Ship, x: int, y: int) -> bool {
    run_covers(s.positions@, x, y)
}

/// A well-formed ship: as many coordinates as its type's length, all on the
/// grid, forming a contiguous straight run consistent with its orientation.
pub open spec fn ship_wf(s: Ship) -> bool {
    &&& s.positions@.len() == ship_len_spec(s.ship_type)
    &&& forall|i: int| 0 <= i < s.positions@.len() ==> pos_in_grid(#[trigger] s.positions@[i])
    &&& exists|dx: int, dy: int|
        dir_ok(s.orientation, dx, dy) && straight_line(s.positions@, dx, dy)
}

/// No coordinate is shared between two distinct ships of the fleet.
pub open spec fn ships_disjoint(ships: Seq<Ship>) -> bool {
    forall|a: int, b: int, i: int, j: int|
        0 <= a < ships.len() && 0 <= b < ships.len() && a != b && 0 <= i
            < ships[a].positions@.len() && 0 <= j < ships[b].positions@.len()
            ==> #[trigger] ships[a].positions@[i] != #[trigger] ships[b].positions@[j]
}

/// Two distinct ships share a coordinate only where that cell is `Hit`.
/// Placement keeps ships fully disjoint, but a patrol move is blocked only
/// by `Occupied` and `Reinforced` cells, so a relocated ship may come to
/// rest on a damaged cell of another ship; `Hit` cells are terminal, so
/// this is the form of disjointness every action preserves.
pub open spec fn ships_no_live_overlap(ships: Seq<Ship>, g: Seq<Seq<Cells>>) -> bool {
    forall|a: int, b: int, i: int, j: int|
        0 <= a < ships.len() && 0 <= b < ships.len() && a != b && 0 <= i
            < ships[a].positions@.len() && 0 <= j < ships[b].positions@.len()
            && #[trigger] ships[a].positions@[i] == #[trigger] ships[b].positions@[j]
            ==> g[ships[a].positions@[i].0 as int][ships[a].positions@[i].1 as int] == Cells::Hit
}

/// Overlap-freedom survives any board change that keeps `Hit` cells `Hit`.
pub proof fn lemma_no_live_overlap_hits_preserved(
    ships: Seq<Ship>,
    g1: Seq<Seq<Cells>>,
    g2: Seq<Seq<Cells>>,
)
    requires
        ships_no_live_overlap(ships, g1),
        ships_in_grid(ships),
        crate::board::hits_preserved(g1, g2),
        crate::board::grid_wf(g1),
    ensures
        ships_no_live_overlap(ships, g2),
{
    assert forall|a: int, b: int, i: int, j: int|
        0 <= a < ships.len() && 0 <= b < ships.len() && a != b && 0 <= i
            < ships[a].positions@.len() && 0 <= j < ships[b].positions@.len()
            && #[trigger] ships[a].positions@[i] == #[trigger] ships[b].positions@[j] implies g2[ships[a].positions@[i].0 as int][ships[a].positions@[i].1 as int]
        == Cells::Hit by {
        let p = ships[a].positions@[i];
        assert(g1[p.0 as int][p.1 as int] == Cells::Hit);
        assert(pos_in_grid(p));
    }
}

/// Every coordinate of every ship lies on the grid.
pub open spec fn ships_in_grid(ships: Seq<Ship>) -> bool {
    forall|k: int, i: int|
        0 <= k < ships.len() && 0 <= i < ships[k].positions@.len() ==> pos_in_grid(
            #[trigger] ships[k].positions@[i],
        )
}

/// The cell value marks a ship cell: present, protected, or damaged.
pub open spec fn is_ship_cell(c: Cells) -> bool {
    c == Cells::Occupied || c == Cells::Reinforced || c == Cells::Hit
}

/// Some cell of the ship is `Hit` on the grid `g`.
pub open spec fn ship_has_hit(s: Ship, g: Seq<Seq<Cells>>) -> bool {
    exists|i: int|
        0 <= i < s.positions@.len() && g[(#[trigger] s.positions@[i]).0 as int][s.positions@[i].1 as int]
            == Cells::Hit
}

/// Every cell of the ship is `Hit` on the grid `g`.
pub open spec fn ship_destroyed(s: Ship, g: Seq<Seq<Cells>>) -> bool {
    forall|i: int|
        0 <= i < s.positions@.len() ==> g[(#[trigger] s.positions@[i]).0 as int][s.positions@[i].1 as int]
            == Cells::Hit
}

/// Number of ships of the fleet that still have at least one non-`Hit` cell.
pub open spec fn alive_count(ships: Seq<Ship>, g: Seq<Seq<Cells>>) -> nat
    decreases ships.len(),
{
    if ships.len() == 0 {
        0
    } else {
        alive_count(ships.drop_last(), g) + if ship_destroyed(ships.last(), g) {
            0nat
        } else {
            1nat
        }
    }
}

/// Copy of a coordinate list; coordinates are plain value pairs.
pub fn copy_positions(ps: &Vec<(usize, usize)>) -> (r: Vec<(usize, usize)>)
    ensures
        r@ == ps@,
{
    let mut r: Vec<(usize, usize)> = Vec::new();
    let mut i: usize = 0;
    while i < ps.len()
        invariant
            i <= ps@.len(),
            r@ == ps@.take(i as int),
        decreases ps@.len() - i,
    {
        r.push(ps[i]);
        proof {
            assert(r@ =~= ps@.take(i + 1));
        }
        i = i + 1;
    }
    proof {
        assert(ps@.take(ps@.len() as int) =~= ps@);
    }
    r
}

} // verus!
