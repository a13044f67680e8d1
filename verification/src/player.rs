//! The base player: own board, guess board, fleet, and the shared attack
//! and bookkeeping rules.

use vstd::prelude::*;
use crate::GRID_SIZE;
use crate::board::{Board, Cells, cell_write, hits_preserved};
use crate::ship::{
    Orientation, Ship, ShipType, alive_count, copy_positions, dir_ok, is_ship_cell,
    lemma_no_live_overlap_hits_preserved, pos_in_grid, run_covers, ship_covers, ship_destroyed,
    ship_len_spec, ship_length, ship_wf, ships_disjoint, ships_in_grid, ships_no_live_overlap,
    straight_line,
};
use crate::rng::random_below;

verus! {

/// A player: the true board holding the ships, the guess board built from
/// observations of the opponent, the fleet, and the cached count of ships
/// that are not yet fully destroyed.
pub struct BasePlayer {
    pub board: Board,
    pub guess_board: Board,
    pub ships: Vec<Ship>,
    pub ship_count: usize,
}

/// `k` is the first index of a ship of the fleet covering `(x, y)`.
pub open spec fn first_ship_at(ships: Seq<Ship>, x: int, y: int, k: int) -> bool {
    &&& 0 <= k < ships.len()
    &&& ship_covers(ships[k], x, y)
    &&& forall|j: int| 0 <= j < k ==> !ship_covers(#[trigger] ships[j], x, y)
}

/// No ship of the fleet covers `(x, y)`.
pub open spec fn no_ship_at(ships: Seq<Ship>, x: int, y: int) -> bool {
    forall|j: int| 0 <= j < ships.len() ==> !ship_covers(#[trigger] ships[j], x, y)
}

/// Every cell a ship occupies reads as a ship cell on the grid `g`.
pub open spec fn ships_on_grid(ships: Seq<Ship>, g: Seq<Seq<Cells>>) -> bool {
    forall|k: int, i: int|
        0 <= k < ships.len() && 0 <= i < ships[k].positions@.len() ==> is_ship_cell(
            g[(#[trigger] ships[k].positions@[i]).0 as int][ships[k].positions@[i].1 as int],
        )
}

/// Well-formedness of a player: both boards are full grids, every ship is
/// well formed, distinct ships never share a live coordinate, and each
/// ship cell reads as present, protected, or damaged on the true board.
pub open spec fn player_wf(p: BasePlayer) -> bool {
    &&& p.board.wf()
    &&& p.guess_board.wf()
    &&& forall|k: int| 0 <= k < p.ships@.len() ==> ship_wf(#[trigger] p.ships@[k])
    &&& ships_no_live_overlap(p.ships@, p.board@)
    &&& ships_on_grid(p.ships@, p.board@)
}

/// The true board holds exactly the fleet: a cell reads `Occupied` where
/// some recorded ship covers it and `Empty` everywhere else.  This is the
/// state of a freshly placed fleet, before any attack or patrol move.
pub open spec fn board_matches_fleet(p: BasePlayer) -> bool {
    forall|x: int, y: int|
        0 <= x < GRID_SIZE && 0 <= y < GRID_SIZE ==> #[trigger] p.board@[x][y] == (
        if exists|k: int|
            0 <= k < p.ships@.len() && #[trigger] ship_covers(p.ships@[k], x, y) {
            Cells::Occupied
        } else {
            Cells::Empty
        })
}

/// Appending one ship whose run was marked `Occupied` on a board that
/// already held exactly its fleet leaves a board that holds exactly the
/// grown fleet.
proof fn lemma_fleet_cover_after_placement(p0: BasePlayer, p1: BasePlayer, ps: Seq<(usize, usize)>)
    requires
        board_matches_fleet(p0),
        p1.ships@.len() == p0.ships@.len() + 1,
        forall|k: int| 0 <= k < p0.ships@.len() ==> #[trigger] p1.ships@[k] == p0.ships@[k],
        p1.ships@.last().positions@ == ps,
        forall|x: int, y: int|
            0 <= x < GRID_SIZE && 0 <= y < GRID_SIZE ==> #[trigger] p1.board@[x][y] == (
            if run_covers(ps, x, y) {
                Cells::Occupied
            } else {
                p0.board@[x][y]
            }),
    ensures
        board_matches_fleet(p1),
{
    let n = p0.ships@.len() as int;
    assert forall|x: int, y: int|
        0 <= x < GRID_SIZE && 0 <= y < GRID_SIZE implies #[trigger] p1.board@[x][y] == (
    if exists|k: int| 0 <= k < p1.ships@.len() && #[trigger] ship_covers(p1.ships@[k], x, y) {
        Cells::Occupied
    } else {
        Cells::Empty
    }) by {
        if run_covers(ps, x, y) {
            assert(ship_covers(p1.ships@[n], x, y));
        } else {
            assert(p1.board@[x][y] == p0.board@[x][y]);
            if exists|k: int|
                0 <= k < p1.ships@.len() && #[trigger] ship_covers(p1.ships@[k], x, y) {
                let k = choose|k: int|
                    0 <= k < p1.ships@.len() && #[trigger] ship_covers(p1.ships@[k], x, y);
                assert(k < n);
                assert(ship_covers(p0.ships@[k], x, y));
            } else {
                assert forall|k: int|
                    0 <= k < p0.ships@.len() implies !ship_covers(
                    #[trigger] p0.ships@[k],
                    x,
                    y,
                ) by {
                    if ship_covers(p0.ships@[k], x, y) {
                        assert(ship_covers(p1.ships@[k], x, y));
                    }
                }
            }
        }
    }
}

/// The fleet invariants after one placement: the grown fleet is well
/// formed, stays on the grid, keeps disjointness, and the board stays an
/// exact image of the fleet, given that the new ship's run was previously
/// empty and is now the only change to the board.
#[verifier::rlimit(100)]
proof fn lemma_fleet_after_placement(p0: BasePlayer, p1: BasePlayer, ps: Seq<(usize, usize)>)
    requires
        player_wf(p0),
        p1.ships@.len() == p0.ships@.len() + 1,
        forall|k: int| 0 <= k < p0.ships@.len() ==> #[trigger] p1.ships@[k] == p0.ships@[k],
        p1.ships@.last().positions@ == ps,
        ship_wf(p1.ships@.last()),
        forall|i: int|
            0 <= i < ps.len() ==> p0.board@[(#[trigger] ps[i]).0 as int][ps[i].1 as int]
                == Cells::Empty,
        forall|x: int, y: int|
            0 <= x < GRID_SIZE && 0 <= y < GRID_SIZE ==> #[trigger] p1.board@[x][y] == (
            if run_covers(ps, x, y) {
                Cells::Occupied
            } else {
                p0.board@[x][y]
            }),
    ensures
        forall|k: int| 0 <= k < p1.ships@.len() ==> ship_wf(#[trigger] p1.ships@[k]),
        ships_no_live_overlap(p1.ships@, p1.board@),
        ships_on_grid(p1.ships@, p1.board@),
        ships_disjoint(p0.ships@) ==> ships_disjoint(p1.ships@),
        board_matches_fleet(p0) ==> board_matches_fleet(p1),
{
    let n = p0.ships@.len() as int;
    assert forall|k: int| 0 <= k < p1.ships@.len() implies ship_wf(#[trigger] p1.ships@[k]) by {
        if k < n {
            assert(p1.ships@[k] == p0.ships@[k]);
        }
    }
    assert(ships_no_live_overlap(p1.ships@, p1.board@)) by {
        assert forall|a: int, b: int, i: int, j: int|
            0 <= a < p1.ships@.len() && 0 <= b < p1.ships@.len() && a != b && 0 <= i
                < p1.ships@[a].positions@.len() && 0 <= j < p1.ships@[b].positions@.len()
                && #[trigger] p1.ships@[a].positions@[i]
                == #[trigger] p1.ships@[b].positions@[j] implies p1.board@[p1.ships@[a].positions@[i].0 as int][p1.ships@[a].positions@[i].1 as int]
            == Cells::Hit by {
            let p = p1.ships@[a].positions@[i];
            if a < n && b < n {
                assert(p0.board@[p.0 as int][p.1 as int] == Cells::Hit);
                assert(!run_covers(ps, p.0 as int, p.1 as int)) by {
                    if run_covers(ps, p.0 as int, p.1 as int) {
                        let m = choose|m: int|
                            0 <= m < ps.len() && (#[trigger] ps[m]).0 == p.0 as int && ps[m].1
                                == p.1 as int;
                        assert(p0.board@[p.0 as int][p.1 as int] == Cells::Empty);
                    }
                }
            } else if a == n {
                let q = p1.ships@[b].positions@[j];
                assert(p0.board@[p.0 as int][p.1 as int] == Cells::Empty);
                assert(is_ship_cell(p0.board@[q.0 as int][q.1 as int]));
            } else {
                let q = p1.ships@[a].positions@[i];
                let pb = p1.ships@[b].positions@[j];
                assert(p0.board@[pb.0 as int][pb.1 as int] == Cells::Empty);
                assert(is_ship_cell(p0.board@[q.0 as int][q.1 as int]));
            }
        }
    }
    assert(ships_disjoint(p0.ships@) ==> ships_disjoint(p1.ships@)) by {
        if ships_disjoint(p0.ships@) {
            assert forall|a: int, b: int, i: int, j: int|
                0 <= a < p1.ships@.len() && 0 <= b < p1.ships@.len() && a != b && 0 <= i
                    < p1.ships@[a].positions@.len() && 0 <= j
                    < p1.ships@[b].positions@.len() implies #[trigger] p1.ships@[a].positions@[i]
                != #[trigger] p1.ships@[b].positions@[j] by {
                if a < n && b < n {
                    assert(p0.ships@[a].positions@[i] != p0.ships@[b].positions@[j]);
                } else if a == n {
                    let p = p1.ships@[a].positions@[i];
                    let q = p1.ships@[b].positions@[j];
                    assert(p0.board@[p.0 as int][p.1 as int] == Cells::Empty);
                    assert(is_ship_cell(p0.board@[q.0 as int][q.1 as int]));
                } else {
                    let p = p1.ships@[b].positions@[j];
                    let q = p1.ships@[a].positions@[i];
                    assert(p0.board@[p.0 as int][p.1 as int] == Cells::Empty);
                    assert(is_ship_cell(p0.board@[q.0 as int][q.1 as int]));
                }
            }
        }
    }
    assert(ships_on_grid(p1.ships@, p1.board@)) by {
        assert forall|k: int, i: int|
            0 <= k < p1.ships@.len() && 0 <= i < p1.ships@[k].positions@.len() implies is_ship_cell(
            p1.board@[(#[trigger] p1.ships@[k].positions@[i]).0 as int][p1.ships@[k].positions@[i].1 as int],
        ) by {
            let p = p1.ships@[k].positions@[i];
            if k < n {
                assert(is_ship_cell(p0.board@[p.0 as int][p.1 as int]));
            } else {
                assert(run_covers(ps, p.0 as int, p.1 as int));
            }
        }
    }
    if board_matches_fleet(p0) {
        lemma_fleet_cover_after_placement(p0, p1, ps);
    }
}

/// A well-formed player's fleet lies on the grid.
pub proof fn lemma_wf_ships_in_grid(p: BasePlayer)
    requires
        player_wf(p),
    ensures
        ships_in_grid(p.ships@),
{
    assert forall|k: int, i: int|
        0 <= k < p.ships@.len() && 0 <= i < p.ships@[k].positions@.len() implies pos_in_grid(
        #[trigger] p.ships@[k].positions@[i],
    ) by {
        assert(ship_wf(p.ships@[k]));
    }
}

/// Value a missile resolution writes, by the targeted cell's prior state:
/// a present ship cell is hit, a protected one loses its protection, and
/// anything else is recorded as a miss.
pub open spec fn missile_write(c: Cells) -> Cells {
    match c {
        Cells::Occupied => Cells::Hit,
        Cells::Reinforced => Cells::Occupied,
        _ => Cells::Miss,
    }
}

/// A missile reports a hit exactly on a present or protected ship cell.
pub open spec fn missile_is_hit(c: Cells) -> bool {
    c == Cells::Occupied || c == Cells::Reinforced
}

/// A missile aimed at a protected cell never produces a damaged cell: the
/// one call downgrades the protection to plain occupation, and only a
/// second call, on the now plain cell, produces the hit.
pub proof fn lemma_missile_reinforced_two_steps()
    ensures
        missile_write(Cells::Reinforced) == Cells::Occupied,
        missile_write(Cells::Reinforced) != Cells::Hit,
        missile_write(missile_write(Cells::Reinforced)) == Cells::Hit,
{
}

/// At most one index is the first ship covering `(x, y)`.
pub proof fn lemma_first_ship_at_unique(ships: Seq<Ship>, x: int, y: int)
    ensures
        forall|k1: int, k2: int|
            #[trigger] first_ship_at(ships, x, y, k1) && #[trigger] first_ship_at(ships, x, y, k2)
                ==> k1 == k2,
{
    assert forall|k1: int, k2: int|
        #[trigger] first_ship_at(ships, x, y, k1) && #[trigger] first_ship_at(
            ships,
            x,
            y,
            k2,
        ) implies k1 == k2 by {
        if k1 < k2 {
            assert(!ship_covers(ships[k1], x, y));
        }
        if k2 < k1 {
            assert(!ship_covers(ships[k2], x, y));
        }
    }
}

/// A single write under the terminal-`Hit` rule keeps every ship cell a
/// ship cell, as long as the written value is itself a ship-cell value or
/// the targeted cell was no ship cell to begin with.
pub proof fn lemma_ships_on_grid_write(
    ships: Seq<Ship>,
    g: Seq<Seq<Cells>>,
    x: int,
    y: int,
    c: Cells,
)
    requires
        crate::board::grid_wf(g),
        ships_in_grid(ships),
        ships_on_grid(ships, g),
        0 <= x < GRID_SIZE,
        0 <= y < GRID_SIZE,
        is_ship_cell(c) || g[x][y] == Cells::Hit || !is_ship_cell(g[x][y]),
    ensures
        ships_on_grid(ships, cell_write(g, x, y, c)),
{
    let g2 = cell_write(g, x, y, c);
    assert forall|k: int, i: int|
        0 <= k < ships.len() && 0 <= i < ships[k].positions@.len() implies is_ship_cell(
        g2[(#[trigger] ships[k].positions@[i]).0 as int][ships[k].positions@[i].1 as int],
    ) by {
        let p = ships[k].positions@[i];
        assert(is_ship_cell(g[p.0 as int][p.1 as int]));
        if p.0 == x && p.1 == y && g[x][y] != Cells::Hit {
            assert(g2[x][y] == c);
        } else {
            assert(g2[p.0 as int][p.1 as int] == g[p.0 as int][p.1 as int]);
        }
    }
}

/// Walk `len` cells from `(x, y)` in the unit direction `(dx, dy)`,
/// collecting the coordinates; gives up as soon as the run would leave the
/// grid.
#[verifier::loop_isolation(false)]
fn try_walk(x: usize, y: usize, dx: i32, dy: i32, len: usize) -> (r: Option<
    Vec<(usize, usize)>,
>)
    requires
        x < GRID_SIZE,
        y < GRID_SIZE,
        (dx == 0 && (dy == 1 || dy == -1)) || (dy == 0 && (dx == 1 || dx == -1)),
        1 <= len <= GRID_SIZE,
    ensures
        match r {
            Some(ps) => {
                &&& ps@.len() == len
                &&& ps@[0] == (x, y)
                &&& straight_line(ps@, dx as int, dy as int)
                &&& forall|i: int| 0 <= i < ps@.len() ==> pos_in_grid(#[trigger] ps@[i])
            },
            None => true,
        },
{
    let mut ps: Vec<(usize, usize)> = Vec::new();
    let mut cx = x;
    let mut cy = y;
    let mut i: usize = 0;
    while i < len
        invariant
            i <= len,
            ps@.len() == i,
            i > 0 ==> ps@[0] == (x, y),
            straight_line(ps@, dx as int, dy as int),
            forall|m: int| 0 <= m < i ==> pos_in_grid(#[trigger] ps@[m]),
            i == 0 ==> cx == x && cy == y,
            0 < i < len ==> cx == ps@[i - 1].0 + dx && cy == ps@[i - 1].1 + dy,
            i < len ==> cx <= GRID_SIZE && cy <= GRID_SIZE,
        decreases len - i,
    {
        if cx >= GRID_SIZE || cy >= GRID_SIZE {
            return None;
        }
        ps.push((cx, cy));
        i = i + 1;
        if i < len {
            if dx == 1 {
                cx = cx + 1;
            } else if dx == -1 {
                if cx == 0 {
                    return None;
                }
                cx = cx - 1;
            }
            if dy == 1 {
                cy = cy + 1;
            } else if dy == -1 {
                if cy == 0 {
                    return None;
                }
                cy = cy - 1;
            }
        }
    }
    Some(ps)
}

/// Whether every listed coordinate reads `Empty` on the board.
#[verifier::loop_isolation(false)]
fn cells_all_empty(b: &Board, ps: &Vec<(usize, usize)>) -> (r: bool)
    requires
        b.wf(),
        forall|i: int| 0 <= i < ps@.len() ==> pos_in_grid(#[trigger] ps@[i]),
    ensures
        r == forall|i: int|
            0 <= i < ps@.len() ==> b@[(#[trigger] ps@[i]).0 as int][ps@[i].1 as int]
                == Cells::Empty,
{
    let mut i: usize = 0;
    while i < ps.len()
        invariant
            i <= ps@.len(),
            forall|m: int|
                0 <= m < i ==> b@[(#[trigger] ps@[m]).0 as int][ps@[m].1 as int] == Cells::Empty,
        decreases ps@.len() - i,
    {
        let (px, py) = ps[i];
        proof {
            assert(b.cells@[px as int]@ == b@[px as int]);
        }
        if b.cells[px][py] != Cells::Empty {
            return false;
        }
        i = i + 1;
    }
    true
}

/// Mark every listed coordinate `Occupied`.  The coordinates are known to
/// read `Empty`, so the terminal-`Hit` rule never intervenes.
#[verifier::loop_isolation(false)]
fn mark_occupied(b: &mut Board, ps: &Vec<(usize, usize)>)
    requires
        old(b).wf(),
        forall|i: int| 0 <= i < ps@.len() ==> pos_in_grid(#[trigger] ps@[i]),
        forall|i: int|
            0 <= i < ps@.len() ==> old(b)@[(#[trigger] ps@[i]).0 as int][ps@[i].1 as int]
                == Cells::Empty,
    ensures
        final(b).wf(),
        forall|x: int, y: int|
            0 <= x < GRID_SIZE && 0 <= y < GRID_SIZE ==> #[trigger] final(b)@[x][y] == (
            if run_covers(ps@, x, y) {
                Cells::Occupied
            } else {
                old(b)@[x][y]
            }),
{
    let mut i: usize = 0;
    while i < ps.len()
        invariant
            i <= ps@.len(),
            b.wf(),
            forall|x: int, y: int|
                0 <= x < GRID_SIZE && 0 <= y < GRID_SIZE ==> #[trigger] b@[x][y] == (
                if run_covers(ps@.take(i as int), x, y) {
                    Cells::Occupied
                } else {
                    old(b)@[x][y]
                }),
        decreases ps@.len() - i,
    {
        let (px, py) = ps[i];
        let ghost prev = b@;
        proof {
            assert(prev[px as int][py as int] != Cells::Hit);
        }
        b.change_cell(px, py, Cells::Occupied);
        proof {
            assert(b@ == prev.update(px as int, prev[px as int].update(py as int, Cells::Occupied)));
            assert forall|x: int, y: int|
                0 <= x < GRID_SIZE && 0 <= y < GRID_SIZE implies #[trigger] b@[x][y] == (
            if run_covers(ps@.take(i + 1), x, y) {
                Cells::Occupied
            } else {
                old(b)@[x][y]
            }) by {
                if x == px as int && y == py as int {
                    assert(ps@.take(i + 1)[i as int] == (px, py));
                    assert(run_covers(ps@.take(i + 1), x, y));
                } else {
                    assert(b@[x][y] == prev[x][y]);
                    if run_covers(ps@.take(i + 1), x, y) {
                        let m = choose|m: int|
                            0 <= m < ps@.take(i + 1).len() && (#[trigger] ps@.take(i + 1)[m]).0
                                == x && ps@.take(i + 1)[m].1 == y;
                        assert(m < i);
                        assert(ps@.take(i as int)[m] == ps@[m]);
                        assert(run_covers(ps@.take(i as int), x, y));
                    } else {
                        assert(!run_covers(ps@.take(i as int), x, y)) by {
                            if run_covers(ps@.take(i as int), x, y) {
                                let m = choose|m: int|
                                    0 <= m < ps@.take(i as int).len() && (#[trigger] ps@.take(
                                        i as int,
                                    )[m]).0 == x && ps@.take(i as int)[m].1 == y;
                                assert(ps@.take(i + 1)[m] == ps@[m]);
                                assert(run_covers(ps@.take(i + 1), x, y));
                            }
                        }
                    }
                }
            }
        }
        i = i + 1;
    }
    proof {
        assert(ps@.take(ps@.len() as int) =~= ps@);
    }
}

impl BasePlayer {
    /// A fresh player: empty boards, the five-ship fleet placed at random,
    /// and the cached ship count at its starting value.  A ship for which
    /// no free run was found within 100 attempts is simply absent.
    pub fn new() -> (p: BasePlayer)
        ensures
            player_wf(p),
            ships_disjoint(p.ships@),
            board_matches_fleet(p),
            p.ship_count == 5,
            p.ships@.len() <= 5,
            p.ships@.len() == 5 ==> {
                &&& p.ships@[0].ship_type == ShipType::Battleship
                &&& p.ships@[1].ship_type == ShipType::Submarine
                &&& p.ships@[2].ship_type == ShipType::Cruiser
                &&& p.ships@[3].ship_type == ShipType::Dreadnaught
                &&& p.ships@[4].ship_type == ShipType::Destroyer
            },
            forall|x: int, y: int|
                0 <= x < GRID_SIZE && 0 <= y < GRID_SIZE ==> #[trigger] p.guess_board@[x][y]
                    == Cells::Empty,
    {
        let mut p = BasePlayer {
            board: Board::new(),
            guess_board: Board::new(),
            ships: Vec::new(),
            ship_count: 5,
        };
        proof {
            assert(board_matches_fleet(p));
        }
        let _ = p.place_ship(ShipType::Battleship, Orientation::Verticle);
        let _ = p.place_ship(ShipType::Submarine, Orientation::Verticle);
        let _ = p.place_ship(ShipType::Cruiser, Orientation::Horizontal);
        let _ = p.place_ship(ShipType::Dreadnaught, Orientation::Verticle);
        let _ = p.place_ship(ShipType::Destroyer, Orientation::Horizontal);
        p
    }

    /// Index of the first ship covering `(x, y)`, if any.
    #[verifier::loop_isolation(false)]
    pub fn find_ship_at(&self, x: usize, y: usize) -> (r: Option<usize>)
        ensures
            match r {
                Some(k) => first_ship_at(self.ships@, x as int, y as int, k as int),
                None => no_ship_at(self.ships@, x as int, y as int),
            },
    {
        let mut k: usize = 0;
        while k < self.ships.len()
            invariant
                k <= self.ships@.len(),
                forall|j: int| 0 <= j < k ==> !ship_covers(#[trigger] self.ships@[j], x as int, y as int),
            decreases self.ships@.len() - k,
        {
            let ship = &self.ships[k];
            let mut i: usize = 0;
            while i < ship.positions.len()
                invariant
                    i <= ship.positions@.len(),
                    k < self.ships@.len(),
                    *ship == self.ships@[k as int],
                    forall|m: int|
                        0 <= m < i ==> !((#[trigger] ship.positions@[m]).0 == x as int
                            && ship.positions@[m].1 == y as int),
                decreases ship.positions@.len() - i,
            {
                let (px, py) = ship.positions[i];
                if px == x && py == y {
                    proof {
                        assert(ship.positions@[i as int].0 == x && ship.positions@[i as int].1
                            == y);
                        assert(ship_covers(self.ships@[k as int], x as int, y as int));
                    }
                    return Some(k);
                }
                i = i + 1;
            }
            assert(!ship_covers(self.ships@[k as int], x as int, y as int));
            k = k + 1;
        }
        None
    }

    /// Whether every cell of the ship at `ship_idx` is `Hit`.
    pub fn is_ship_destroyed(&self, ship_idx: usize) -> (r: bool)
        requires
            ship_idx < self.ships@.len(),
            self.board.wf(),
            ships_in_grid(self.ships@),
        ensures
            r == ship_destroyed(self.ships@[ship_idx as int], self.board@),
    {
        let ship = &self.ships[ship_idx];
        let mut i: usize = 0;
        while i < ship.positions.len()
            invariant
                i <= ship.positions@.len(),
                self.board.wf(),
                ship == self.ships@[ship_idx as int],
                ship_idx < self.ships@.len(),
                ships_in_grid(self.ships@),
                forall|m: int|
                    0 <= m < i ==> self.board@[(#[trigger] ship.positions@[m]).0 as int][ship.positions@[m].1 as int]
                        == Cells::Hit,
            decreases ship.positions@.len() - i,
        {
            let (px, py) = ship.positions[i];
            if self.board.cells[px][py] != Cells::Hit {
                return false;
            }
            proof {
                assert(self.board.cells@[px as int]@ == self.board@[px as int]);
            }
            i = i + 1;
        }
        true
    }

    /// Resolve a missile at `(target_x, target_y)` on the opponent's true
    /// board.  A present ship cell becomes `Hit`, a protected one is
    /// downgraded to `Occupied`, anything else is recorded `Miss`; the same
    /// value is mirrored onto this player's guess board, under the
    /// terminal-`Hit` rule on both boards.  When the hit completes a ship,
    /// the opponent's alive-ship count is recomputed.
    pub fn fire_missile(&mut self, opponent: &mut BasePlayer, target_x: usize, target_y: usize) -> (hit:
        bool)
        requires
            player_wf(*old(self)),
            player_wf(*old(opponent)),
            target_x < GRID_SIZE,
            target_y < GRID_SIZE,
        ensures
            player_wf(*final(self)),
            player_wf(*final(opponent)),
            hit == missile_is_hit(old(opponent).board@[target_x as int][target_y as int]),
            final(opponent).board@ == cell_write(
                old(opponent).board@,
                target_x as int,
                target_y as int,
                missile_write(old(opponent).board@[target_x as int][target_y as int]),
            ),
            final(self).guess_board@ == cell_write(
                old(self).guess_board@,
                target_x as int,
                target_y as int,
                missile_write(old(opponent).board@[target_x as int][target_y as int]),
            ),
            final(self).board == old(self).board,
            final(self).ships == old(self).ships,
            final(self).ship_count == old(self).ship_count,
            final(opponent).guess_board == old(opponent).guess_board,
            final(opponent).ships == old(opponent).ships,
            final(opponent).ship_count as int == (
            if old(opponent).board@[target_x as int][target_y as int] == Cells::Occupied && (
            exists|k: int|
                #[trigger] first_ship_at(old(opponent).ships@, target_x as int, target_y as int, k)
                    && ship_destroyed(old(opponent).ships@[k], final(opponent).board@)) {
                alive_count(old(opponent).ships@, final(opponent).board@) as int
            } else {
                old(opponent).ship_count as int
            }),
            hits_preserved(old(opponent).board@, final(opponent).board@),
            hits_preserved(old(self).guess_board@, final(self).guess_board@),
    {
        proof {
            assert(opponent.board.cells@[target_x as int]@ == opponent.board@[target_x as int]);
        }
        let oc = opponent.board.cells[target_x][target_y];
        match oc {
            Cells::Occupied => {
                opponent.board.change_cell(target_x, target_y, Cells::Hit);
                self.guess_board.change_cell(target_x, target_y, Cells::Hit);
                proof {
                    lemma_wf_ships_in_grid(*old(opponent));
                    lemma_ships_on_grid_write(
                        opponent.ships@,
                        old(opponent).board@,
                        target_x as int,
                        target_y as int,
                        Cells::Hit,
                    );
                    lemma_no_live_overlap_hits_preserved(
                        opponent.ships@,
                        old(opponent).board@,
                        opponent.board@,
                    );
                    lemma_first_ship_at_unique(opponent.ships@, target_x as int, target_y as int);
                }
                match opponent.find_ship_at(target_x, target_y) {
                    Some(ship_idx) => {
                        if opponent.is_ship_destroyed(ship_idx) {
                            opponent.update_ship_count();
                        }
                    },
                    None => {
                    },
                }
                true
            },
            Cells::Reinforced => {
                opponent.board.change_cell(target_x, target_y, Cells::Occupied);
                self.guess_board.change_cell(target_x, target_y, Cells::Occupied);
                proof {
                    lemma_wf_ships_in_grid(*old(opponent));
                    lemma_ships_on_grid_write(
                        opponent.ships@,
                        old(opponent).board@,
                        target_x as int,
                        target_y as int,
                        Cells::Occupied,
                    );
                    lemma_no_live_overlap_hits_preserved(
                        opponent.ships@,
                        old(opponent).board@,
                        opponent.board@,
                    );
                }
                true
            },
            _ => {
                opponent.board.change_cell(target_x, target_y, Cells::Miss);
                self.guess_board.change_cell(target_x, target_y, Cells::Miss);
                proof {
                    lemma_wf_ships_in_grid(*old(opponent));
                    lemma_ships_on_grid_write(
                        opponent.ships@,
                        old(opponent).board@,
                        target_x as int,
                        target_y as int,
                        Cells::Miss,
                    );
                    lemma_no_live_overlap_hits_preserved(
                        opponent.ships@,
                        old(opponent).board@,
                        opponent.board@,
                    );
                }
                false
            },
        }
    }

    /// Try up to 100 random anchors and directions to place a ship of the
    /// given type and orientation on previously empty cells.  On success the
    /// run is marked `Occupied`, the ship joins the fleet, and the placed
    /// ship is returned; after 100 failed attempts nothing has changed and
    /// no ship is returned.
    #[verifier::loop_isolation(false)]
    #[verifier::rlimit(100)]
    pub fn place_ship(&mut self, ship_type: ShipType, orientation: Orientation) -> (res: Option<
        Ship,
    >)
        requires
            player_wf(*old(self)),
        ensures
            player_wf(*final(self)),
            final(self).guess_board == old(self).guess_board,
            final(self).ship_count == old(self).ship_count,
            hits_preserved(old(self).board@, final(self).board@),
            ships_disjoint(old(self).ships@) ==> ships_disjoint(final(self).ships@),
            board_matches_fleet(*old(self)) ==> board_matches_fleet(*final(self)),
            match res {
                Some(ship) => {
                    &&& ship_wf(ship)
                    &&& ship.ship_type == ship_type
                    &&& ship.orientation == orientation
                    &&& final(self).ships@.len() == old(self).ships@.len() + 1
                    &&& forall|k: int|
                        0 <= k < old(self).ships@.len() ==> #[trigger] final(self).ships@[k]
                            == old(self).ships@[k]
                    &&& final(self).ships@.last().positions@ == ship.positions@
                    &&& final(self).ships@.last().ship_type == ship_type
                    &&& final(self).ships@.last().orientation == orientation
                    &&& forall|i: int|
                        0 <= i < ship.positions@.len() ==> old(self).board@[(
                        #[trigger] ship.positions@[i]).0 as int][ship.positions@[i].1 as int]
                            == Cells::Empty
                    &&& forall|x: int, y: int|
                        0 <= x < GRID_SIZE && 0 <= y < GRID_SIZE
                            ==> #[trigger] final(self).board@[x][y] == (if ship_covers(
                            ship,
                            x,
                            y,
                        ) {
                            Cells::Occupied
                        } else {
                            old(self).board@[x][y]
                        })
                },
                None => *final(self) == *old(self),
            },
    {
        let length = ship_length(ship_type);
        let mut attempt: usize = 0;
        while attempt < 100
            invariant
                *self == *old(self),
            decreases 100 - attempt,
        {
            let x = random_below(GRID_SIZE);
            let y = random_below(GRID_SIZE);
            let flip = random_below(2);
            let (dx, dy): (i32, i32) = match orientation {
                Orientation::Horizontal => if flip == 0 {
                    (0, 1)
                } else {
                    (0, -1)
                },
                Orientation::Verticle => if flip == 0 {
                    (1, 0)
                } else {
                    (-1, 0)
                },
            };
            if let Some(positions) = try_walk(x, y, dx, dy, length) {
                if cells_all_empty(&self.board, &positions) {
                    mark_occupied(&mut self.board, &positions);
                    let ship = Ship {
                        ship_type,
                        positions: copy_positions(&positions),
                        orientation,
                    };
                    proof {
                        assert(ship_wf(ship)) by {
                            assert(dir_ok(orientation, dx as int, dy as int));
                        }
                    }
                    self.ships.push(
                        Ship { ship_type, positions, orientation },
                    );
                    proof {
                        assert(self.ships@.last().positions@ == ship.positions@);
                        lemma_fleet_after_placement(*old(self), *self, ship.positions@);
                    }
                    return Some(ship);
                }
            }
            attempt = attempt + 1;
        }
        None
    }

    /// Recompute the cached count of ships that still have at least one
    /// non-`Hit` cell.
    pub fn update_ship_count(&mut self)
        requires
            old(self).board.wf(),
            ships_in_grid(old(self).ships@),
        ensures
            final(self).ship_count == alive_count(old(self).ships@, old(self).board@),
            final(self).board == old(self).board,
            final(self).guess_board == old(self).guess_board,
            final(self).ships == old(self).ships,
    {
        let mut count: usize = 0;
        let mut k: usize = 0;
        while k < self.ships.len()
            invariant
                k <= self.ships@.len(),
                self.board.wf(),
                ships_in_grid(self.ships@),
                count == alive_count(self.ships@.take(k as int), self.board@),
                count <= k,
                *self == *old(self),
            decreases self.ships@.len() - k,
        {
            let destroyed = self.is_ship_destroyed(k);
            proof {
                assert(self.ships@.take(k + 1).drop_last() =~= self.ships@.take(k as int));
                assert(self.ships@.take(k + 1).last() == self.ships@[k as int]);
            }
            if !destroyed {
                count = count + 1;
            }
            k = k + 1;
        }
        proof {
            assert(self.ships@.take(self.ships@.len() as int) =~= self.ships@);
        }
        self.ship_count = count;
    }
}

} // verus!
