//! The Twist-mode player: the card economy on top of the base player, and
//! the torpedo, radar, reinforce, and patrol action resolutions.

use vstd::prelude::*;
use crate::{GRID_SIZE, HAND_SIZE};
use crate::board::{Cells, hits_preserved};
use crate::deck::{ActionType, Deck, count_of, lemma_count_of_push};
use crate::player::{
    BasePlayer, first_ship_at, lemma_first_ship_at_unique, lemma_ships_on_grid_write,
    lemma_wf_ships_in_grid, missile_write, no_ship_at, player_wf, ships_on_grid,
};
use crate::ship::{
    Ship, alive_count, copy_positions, is_ship_cell, lemma_no_live_overlap_hits_preserved,
    pos_in_grid, run_covers, ship_destroyed, ship_has_hit, ship_wf, ships_no_live_overlap,
    straight_line,
};
use crate::board::Board;
use crate::PATROL_FRAMES;

verus! {

/// A Twist-mode player: the base player plus a deck, a hand, and the
/// transient patrol state.
pub struct TwistPlayer {
    pub base: BasePlayer,
    pub deck: Deck,
    pub hand: Vec<ActionType>,
    pub patrol_mode: bool,
    pub patrol_ship: Option<usize>,
    pub patrol_frames: usize,
}

/// Well-formedness of a Twist player: the base player is well formed, and
/// the patrol state is consistent: patrol mode holds exactly while a ship
/// index is recorded, and that index points into the fleet.
pub open spec fn twist_wf(p: TwistPlayer) -> bool {
    &&& player_wf(p.base)
    &&& p.patrol_mode == (p.patrol_ship is Some)
    &&& match p.patrol_ship {
        Some(i) => i < p.base.ships@.len(),
        None => true,
    }
}

/// Row at which an upward torpedo scan of column `y` stops when the search
/// starts at row `x` and moves toward row 0: the greatest row index at
/// most `x` whose cell holds a ship (present, protected, or already hit),
/// or -1 when no such row exists.
pub open spec fn torpedo_block_from(g: Seq<Seq<Cells>>, y: int, x: int) -> int
    decreases x + 1,
{
    if x < 0 {
        -1
    } else if is_ship_cell(g[x][y]) {
        x
    } else {
        torpedo_block_from(g, y, x - 1)
    }
}

/// Row at which a torpedo fired up column `y` stops, or -1 when the whole
/// column is clear.
pub open spec fn torpedo_block(g: Seq<Seq<Cells>>, y: int) -> int {
    torpedo_block_from(g, y, GRID_SIZE - 1)
}

/// The stopping row is the greatest ship-cell row at most `x`: it lies in
/// `[-1, x]`, holds a ship cell when it exists, and every row above it up
/// to `x` is clear.
pub proof fn lemma_torpedo_block_from(g: Seq<Seq<Cells>>, y: int, x: int)
    ensures
        -1 <= torpedo_block_from(g, y, x),
        x >= -1 ==> torpedo_block_from(g, y, x) <= x,
        torpedo_block_from(g, y, x) >= 0 ==> is_ship_cell(g[torpedo_block_from(g, y, x)][y]),
        forall|i: int| torpedo_block_from(g, y, x) < i <= x ==> !is_ship_cell(#[trigger] g[i][y]),
    decreases x + 1,
{
    if x >= 0 && !is_ship_cell(g[x][y]) {
        lemma_torpedo_block_from(g, y, x - 1);
    }
}

/// The plus-shaped pattern a radar scan reveals around its center
/// `(cx, cy)`: the center and its four orthogonal neighbours.
pub open spec fn radar_covers(cx: int, cy: int, x: int, y: int) -> bool {
    ||| (x == cx && y == cy)
    ||| (x == cx && (y == cy + 1 || y == cy - 1))
    ||| (y == cy && (x == cx + 1 || x == cx - 1))
}

/// Shifting every coordinate of the ship by `(dx, dy)` keeps the run on
/// the grid, and collides with nothing but the ship's own cells: a target
/// cell that reads present or protected and does not belong to the ship
/// itself blocks the move.
pub open spec fn patrol_move_ok(s: Ship, g: Seq<Seq<Cells>>, dx: int, dy: int) -> bool {
    forall|i: int|
        0 <= i < s.positions@.len() ==> {
            let p = #[trigger] s.positions@[i];
            &&& 0 <= p.0 + dx < GRID_SIZE
            &&& 0 <= p.1 + dy < GRID_SIZE
            &&& ((g[p.0 + dx][p.1 + dy] == Cells::Occupied || g[p.0 + dx][p.1 + dy]
                == Cells::Reinforced) ==> run_covers(s.positions@, p.0 + dx, p.1 + dy))
        }
}

/// The run of coordinates, each shifted by `(dx, dy)`.
pub open spec fn shifted_positions(ps: Seq<(usize, usize)>, dx: int, dy: int) -> Seq<
    (usize, usize),
> {
    Seq::new(ps.len(), |i: int| (((ps[i].0 + dx) as usize, (ps[i].1 + dy) as usize)))
}

/// `i` is the first index of a card equal to `t` in the hand.
pub open spec fn first_card_at(hand: Seq<ActionType>, t: ActionType, i: int) -> bool {
    &&& 0 <= i < hand.len()
    &&& hand[i] == t
    &&& forall|j: int| 0 <= j < i ==> hand[j] != t
}

/// One coordinate shifted by a unit step, when the result stays on the
/// grid.
fn shift_coord(v: usize, d: isize) -> (r: Option<usize>)
    requires
        d == -1 || d == 0 || d == 1,
        v < GRID_SIZE,
    ensures
        match r {
            Some(n) => n as int == v + d && n < GRID_SIZE,
            None => !(0 <= v + d < GRID_SIZE),
        },
{
    if d == 1 {
        if v + 1 < GRID_SIZE {
            Some(v + 1)
        } else {
            None
        }
    } else if d == -1 {
        if v > 0 {
            Some(v - 1)
        } else {
            None
        }
    } else {
        Some(v)
    }
}

/// Whether the run of coordinates contains `(x, y)`.
fn positions_contain(ps: &Vec<(usize, usize)>, x: usize, y: usize) -> (r: bool)
    ensures
        r == run_covers(ps@, x as int, y as int),
{
    let mut i: usize = 0;
    while i < ps.len()
        invariant
            i <= ps@.len(),
            forall|m: int|
                0 <= m < i ==> !((#[trigger] ps@[m]).0 == x as int && ps@[m].1 == y as int),
        decreases ps@.len() - i,
    {
        let (px, py) = ps[i];
        if px == x && py == y {
            proof {
                assert(ps@[i as int].0 == x && ps@[i as int].1 == y);
            }
            return true;
        }
        i = i + 1;
    }
    false
}

/// Write `Empty` over every listed coordinate, under the terminal-`Hit`
/// rule: a `Hit` cell stays `Hit`.
#[verifier::loop_isolation(false)]
fn clear_run(b: &mut Board, ps: &Vec<(usize, usize)>)
    requires
        old(b).wf(),
        forall|i: int| 0 <= i < ps@.len() ==> pos_in_grid(#[trigger] ps@[i]),
    ensures
        final(b).wf(),
        forall|x: int, y: int|
            0 <= x < GRID_SIZE && 0 <= y < GRID_SIZE ==> #[trigger] final(b)@[x][y] == (
            if old(b)@[x][y] == Cells::Hit {
                Cells::Hit
            } else if run_covers(ps@, x, y) {
                Cells::Empty
            } else {
                old(b)@[x][y]
            }),
{
    let mut i: usize = 0;
    while i < ps.len()
        invariant
            i <= ps@.len(),
            b.wf(),
            forall|x: int, y: int|
                0 <= x < GRID_SIZE && 0 <= y < GRID_SIZE ==> #[trigger] b@[x][y] == (
                if old(b)@[x][y] == Cells::Hit {
                    Cells::Hit
                } else if run_covers(ps@.take(i as int), x, y) {
                    Cells::Empty
                } else {
                    old(b)@[x][y]
                }),
        decreases ps@.len() - i,
    {
        let (px, py) = ps[i];
        let ghost prev = b@;
        b.change_cell(px, py, Cells::Empty);
        proof {
            assert forall|x: int, y: int|
                0 <= x < GRID_SIZE && 0 <= y < GRID_SIZE implies #[trigger] b@[x][y] == (
            if old(b)@[x][y] == Cells::Hit {
                Cells::Hit
            } else if run_covers(ps@.take(i + 1), x, y) {
                Cells::Empty
            } else {
                old(b)@[x][y]
            }) by {
                if x == px as int && y == py as int {
                    assert(ps@.take(i + 1)[i as int] == (px, py));
                    assert(run_covers(ps@.take(i + 1), x, y));
                } else {
                    assert(b@[x][y] == prev[x][y]);
                    if run_covers(ps@.take(i + 1), x, y) {
                        let m = choose|m: int|
                            0 <= m < ps@.take(i + 1).len() && (#[trigger] ps@.take(i + 1)[m]).0
                                == x && ps@.take(i + 1)[m].1 == y;
                        assert(m < i);
                        assert(ps@.take(i as int)[m] == ps@[m]);
                        assert(run_covers(ps@.take(i as int), x, y));
                    } else {
                        assert(!run_covers(ps@.take(i as int), x, y)) by {
                            if run_covers(ps@.take(i as int), x, y) {
                                let m = choose|m: int|
                                    0 <= m < ps@.take(i as int).len() && (#[trigger] ps@.take(
                                        i as int,
                                    )[m]).0 == x && ps@.take(i as int)[m].1 == y;
                                assert(ps@.take(i + 1)[m] == ps@[m]);
                                assert(run_covers(ps@.take(i + 1), x, y));
                            }
                        }
                    }
                }
            }
        }
        i = i + 1;
    }
    proof {
        assert(ps@.take(ps@.len() as int) =~= ps@);
    }
}

/// Write the moved ship back: each coordinate of `ps` receives
/// `Reinforced` where its flag is set and `Occupied` otherwise, under the
/// terminal-`Hit` rule.  Coordinates listed twice must agree on the flag.
#[verifier::loop_isolation(false)]
fn write_moved(b: &mut Board, ps: &Vec<(usize, usize)>, flags: &Vec<bool>)
    requires
        old(b).wf(),
        ps@.len() == flags@.len(),
        forall|i: int| 0 <= i < ps@.len() ==> pos_in_grid(#[trigger] ps@[i]),
        forall|i: int, j: int|
            0 <= i < ps@.len() && 0 <= j < ps@.len() && #[trigger] ps@[i] == #[trigger] ps@[j]
                ==> flags@[i] == flags@[j],
    ensures
        final(b).wf(),
        forall|x: int, y: int|
            0 <= x < GRID_SIZE && 0 <= y < GRID_SIZE && !run_covers(ps@, x, y)
                ==> #[trigger] final(b)@[x][y] == old(b)@[x][y],
        forall|x: int, y: int|
            0 <= x < GRID_SIZE && 0 <= y < GRID_SIZE && run_covers(ps@, x, y) && old(b)@[x][y]
                == Cells::Hit ==> #[trigger] final(b)@[x][y] == Cells::Hit,
        forall|i: int|
            0 <= i < ps@.len() && old(b)@[ps@[i].0 as int][ps@[i].1 as int] != Cells::Hit
                ==> final(b)@[(#[trigger] ps@[i]).0 as int][ps@[i].1 as int] == (if flags@[i] {
                Cells::Reinforced
            } else {
                Cells::Occupied
            }),
{
    let mut i: usize = 0;
    while i < ps.len()
        invariant
            i <= ps@.len(),
            b.wf(),
            forall|x: int, y: int|
                0 <= x < GRID_SIZE && 0 <= y < GRID_SIZE && !run_covers(ps@.take(i as int), x, y)
                    ==> #[trigger] b@[x][y] == old(b)@[x][y],
            forall|x: int, y: int|
                0 <= x < GRID_SIZE && 0 <= y < GRID_SIZE && old(b)@[x][y] == Cells::Hit
                    ==> #[trigger] b@[x][y] == Cells::Hit,
            forall|x: int, y: int|
                0 <= x < GRID_SIZE && 0 <= y < GRID_SIZE && b@[x][y] == Cells::Hit
                    ==> old(b)@[x][y] == Cells::Hit,
            forall|m: int|
                0 <= m < i && old(b)@[ps@[m].0 as int][ps@[m].1 as int] != Cells::Hit
                    ==> b@[(#[trigger] ps@[m]).0 as int][ps@[m].1 as int] == (if flags@[m] {
                    Cells::Reinforced
                } else {
                    Cells::Occupied
                }),
        decreases ps@.len() - i,
    {
        let (px, py) = ps[i];
        let flagged = flags[i];
        let ghost prev = b@;
        if flagged {
            b.change_cell(px, py, Cells::Reinforced);
        } else {
            b.change_cell(px, py, Cells::Occupied);
        }
        proof {
            assert forall|x: int, y: int|
                0 <= x < GRID_SIZE && 0 <= y < GRID_SIZE && !run_covers(
                    ps@.take(i + 1),
                    x,
                    y,
                ) implies #[trigger] b@[x][y] == old(b)@[x][y] by {
                assert(!(x == px as int && y == py as int)) by {
                    if x == px as int && y == py as int {
                        assert(ps@.take(i + 1)[i as int] == (px, py));
                        assert(run_covers(ps@.take(i + 1), x, y));
                    }
                }
                assert(b@[x][y] == prev[x][y]);
                assert(!run_covers(ps@.take(i as int), x, y)) by {
                    if run_covers(ps@.take(i as int), x, y) {
                        let m = choose|m: int|
                            0 <= m < ps@.take(i as int).len() && (#[trigger] ps@.take(i as int)[m]).0
                                == x && ps@.take(i as int)[m].1 == y;
                        assert(ps@.take(i + 1)[m] == ps@[m]);
                        assert(run_covers(ps@.take(i + 1), x, y));
                    }
                }
            }
            assert forall|m: int|
                0 <= m < i + 1 && old(b)@[ps@[m].0 as int][ps@[m].1 as int]
                    != Cells::Hit implies b@[(#[trigger] ps@[m]).0 as int][ps@[m].1 as int] == (
            if flags@[m] {
                Cells::Reinforced
            } else {
                Cells::Occupied
            }) by {
                if ps@[m] == (px, py) {
                    assert(flags@[m] == flags@[i as int]);
                    assert(prev[px as int][py as int] != Cells::Hit);
                } else {
                    assert(b@[ps@[m].0 as int][ps@[m].1 as int] == prev[ps@[m].0 as int][ps@[m].1 as int]);
                }
            }
        }
        i = i + 1;
    }
    proof {
        assert(ps@.take(ps@.len() as int) =~= ps@);
    }
}

/// The state after a successful patrol move: given the cleared board
/// `mid`, the rewritten board `gb`, and the fleet with the moved ship in
/// place, every cell of the final board is accounted for, the moved ship
/// is well formed, and the fleet invariants hold again.
#[verifier::rlimit(100)]
proof fn lemma_patrol_move_finish(
    oldp: BasePlayer,
    fleet: Seq<Ship>,
    g: Seq<Seq<Cells>>,
    mid: Seq<Seq<Cells>>,
    gb: Seq<Seq<Cells>>,
    idx: int,
    dxg: int,
    dyg: int,
    flags: Seq<bool>,
)
    requires
        player_wf(oldp),
        g == oldp.board@,
        0 <= idx < oldp.ships@.len(),
        (dxg == 0 && (dyg == 1 || dyg == -1)) || (dyg == 0 && (dxg == 1 || dxg == -1)),
        patrol_move_ok(oldp.ships@[idx], g, dxg, dyg),
        forall|x: int, y: int|
            0 <= x < GRID_SIZE && 0 <= y < GRID_SIZE ==> #[trigger] mid[x][y] == (if g[x][y]
                == Cells::Hit {
                Cells::Hit
            } else if run_covers(oldp.ships@[idx].positions@, x, y) {
                Cells::Empty
            } else {
                g[x][y]
            }),
        forall|x: int, y: int|
            0 <= x < GRID_SIZE && 0 <= y < GRID_SIZE && !run_covers(
                shifted_positions(oldp.ships@[idx].positions@, dxg, dyg),
                x,
                y,
            ) ==> #[trigger] gb[x][y] == mid[x][y],
        forall|x: int, y: int|
            0 <= x < GRID_SIZE && 0 <= y < GRID_SIZE && run_covers(
                shifted_positions(oldp.ships@[idx].positions@, dxg, dyg),
                x,
                y,
            ) && mid[x][y] == Cells::Hit ==> #[trigger] gb[x][y] == Cells::Hit,
        forall|i: int|
            0 <= i < shifted_positions(oldp.ships@[idx].positions@, dxg, dyg).len() && mid[(
            #[trigger] shifted_positions(oldp.ships@[idx].positions@, dxg, dyg)[i]).0 as int][shifted_positions(
                oldp.ships@[idx].positions@,
                dxg,
                dyg,
            )[i].1 as int] != Cells::Hit ==> gb[shifted_positions(
                oldp.ships@[idx].positions@,
                dxg,
                dyg,
            )[i].0 as int][shifted_positions(oldp.ships@[idx].positions@, dxg, dyg)[i].1 as int]
                == (if flags[i] {
                Cells::Reinforced
            } else {
                Cells::Occupied
            }),
        flags.len() == oldp.ships@[idx].positions@.len(),
        forall|k: int|
            0 <= k < flags.len() ==> #[trigger] flags[k] == (g[oldp.ships@[idx].positions@[k].0 as int][oldp.ships@[idx].positions@[k].1 as int]
                == Cells::Reinforced),
        fleet.len() == oldp.ships@.len(),
        forall|k: int| 0 <= k < fleet.len() && k != idx ==> #[trigger] fleet[k] == oldp.ships@[k],
        fleet[idx].positions@ == shifted_positions(oldp.ships@[idx].positions@, dxg, dyg),
        fleet[idx].ship_type == oldp.ships@[idx].ship_type,
        fleet[idx].orientation == oldp.ships@[idx].orientation,
    ensures
        forall|x: int, y: int|
            0 <= x < GRID_SIZE && 0 <= y < GRID_SIZE ==> #[trigger] gb[x][y] == (if g[x][y]
                == Cells::Hit {
                Cells::Hit
            } else if run_covers(shifted_positions(oldp.ships@[idx].positions@, dxg, dyg), x, y) {
                if g[x - dxg][y - dyg] == Cells::Reinforced {
                    Cells::Reinforced
                } else {
                    Cells::Occupied
                }
            } else if run_covers(oldp.ships@[idx].positions@, x, y) {
                Cells::Empty
            } else {
                g[x][y]
            }),
        forall|k: int| 0 <= k < fleet.len() ==> ship_wf(#[trigger] fleet[k]),
        crate::player::ships_on_grid(fleet, gb),
        ships_no_live_overlap(fleet, gb),
        hits_preserved(g, gb),
{
    let s = oldp.ships@[idx];
    let newps = shifted_positions(s.positions@, dxg, dyg);
    let oldfleet = oldp.ships@;
    assert(ship_wf(s));
    assert forall|x: int, y: int|
        0 <= x < GRID_SIZE && 0 <= y < GRID_SIZE implies #[trigger] gb[x][y] == (if g[x][y]
        == Cells::Hit {
        Cells::Hit
    } else if run_covers(newps, x, y) {
        if g[x - dxg][y - dyg] == Cells::Reinforced {
            Cells::Reinforced
        } else {
            Cells::Occupied
        }
    } else if run_covers(s.positions@, x, y) {
        Cells::Empty
    } else {
        g[x][y]
    }) by {
        if g[x][y] == Cells::Hit {
            assert(mid[x][y] == Cells::Hit);
            if run_covers(newps, x, y) {
                assert(gb[x][y] == Cells::Hit);
            } else {
                assert(gb[x][y] == mid[x][y]);
            }
        } else {
            assert(mid[x][y] != Cells::Hit);
            if run_covers(newps, x, y) {
                let i0 = choose|i0: int|
                    0 <= i0 < newps.len() && (#[trigger] newps[i0]).0 == x && newps[i0].1 == y;
                assert(0 <= s.positions@[i0].0 + dxg < GRID_SIZE && 0 <= s.positions@[i0].1 + dyg
                    < GRID_SIZE);
                assert(s.positions@[i0].0 == x - dxg && s.positions@[i0].1 == y - dyg);
                assert(mid[(newps[i0]).0 as int][newps[i0].1 as int] != Cells::Hit);
                assert(gb[(newps[i0]).0 as int][newps[i0].1 as int] == (if flags[i0] {
                    Cells::Reinforced
                } else {
                    Cells::Occupied
                }));
                assert(flags[i0] == (g[x - dxg][y - dyg] == Cells::Reinforced));
            } else {
                assert(gb[x][y] == mid[x][y]);
            }
        }
    }
    assert(ship_wf(fleet[idx])) by {
        let (sdx, sdy) = choose|sdx: int, sdy: int|
            crate::ship::dir_ok(s.orientation, sdx, sdy) && straight_line(s.positions@, sdx, sdy);
        assert forall|i2: int| 0 <= i2 < newps.len() implies pos_in_grid(#[trigger] newps[i2]) by {
            assert(0 <= s.positions@[i2].0 + dxg < GRID_SIZE && 0 <= s.positions@[i2].1 + dyg
                < GRID_SIZE);
        }
        assert(straight_line(newps, sdx, sdy)) by {
            assert forall|i2: int|
                1 <= i2 < newps.len() implies (#[trigger] newps[i2]).0 == newps[i2 - 1].0 + sdx
                && newps[i2].1 == newps[i2 - 1].1 + sdy by {
                assert(s.positions@[i2].0 == s.positions@[i2 - 1].0 + sdx && s.positions@[i2].1
                    == s.positions@[i2 - 1].1 + sdy);
                assert(0 <= s.positions@[i2].0 + dxg < GRID_SIZE);
                assert(0 <= s.positions@[i2 - 1].0 + dxg < GRID_SIZE);
                assert(0 <= s.positions@[i2].1 + dyg < GRID_SIZE);
                assert(0 <= s.positions@[i2 - 1].1 + dyg < GRID_SIZE);
            }
        }
    }
    assert forall|k: int| 0 <= k < fleet.len() implies ship_wf(#[trigger] fleet[k]) by {
        if k != idx {
            assert(fleet[k] == oldfleet[k]);
        }
    }
    assert(crate::player::ships_on_grid(fleet, gb)) by {
        assert forall|k: int, i2: int|
            0 <= k < fleet.len() && 0 <= i2 < fleet[k].positions@.len() implies is_ship_cell(
            gb[(#[trigger] fleet[k].positions@[i2]).0 as int][fleet[k].positions@[i2].1 as int],
        ) by {
            let p = fleet[k].positions@[i2];
            if k == idx {
                assert(run_covers(newps, p.0 as int, p.1 as int)) by {
                    assert(newps[i2].0 == p.0 as int && newps[i2].1 == p.1 as int);
                }
            } else {
                assert(fleet[k] == oldfleet[k]);
                assert(is_ship_cell(g[p.0 as int][p.1 as int]));
                if g[p.0 as int][p.1 as int] != Cells::Hit && !run_covers(
                    newps,
                    p.0 as int,
                    p.1 as int,
                ) && run_covers(s.positions@, p.0 as int, p.1 as int) {
                    let m0 = choose|m0: int|
                        0 <= m0 < s.positions@.len() && (#[trigger] s.positions@[m0]).0
                            == p.0 as int && s.positions@[m0].1 == p.1 as int;
                    assert(oldfleet[idx].positions@[m0] == oldfleet[k].positions@[i2]);
                    assert(g[p.0 as int][p.1 as int] == Cells::Hit);
                }
            }
        }
    }
    assert(ships_no_live_overlap(fleet, gb)) by {
        assert forall|a: int, b: int, i2: int, j2: int|
            0 <= a < fleet.len() && 0 <= b < fleet.len() && a != b && 0 <= i2
                < fleet[a].positions@.len() && 0 <= j2 < fleet[b].positions@.len()
                && #[trigger] fleet[a].positions@[i2]
                == #[trigger] fleet[b].positions@[j2] implies gb[fleet[a].positions@[i2].0 as int][fleet[a].positions@[i2].1 as int]
            == Cells::Hit by {
            let p = fleet[a].positions@[i2];
            if a != idx && b != idx {
                assert(oldfleet[a].positions@[i2] == oldfleet[b].positions@[j2]);
                assert(g[p.0 as int][p.1 as int] == Cells::Hit);
            } else {
                let other: int = if a == idx {
                    b
                } else {
                    a
                };
                let oi: int = if a == idx {
                    j2
                } else {
                    i2
                };
                let mi: int = if a == idx {
                    i2
                } else {
                    j2
                };
                assert(fleet[other] == oldfleet[other]);
                assert(is_ship_cell(g[p.0 as int][p.1 as int])) by {
                    assert(oldfleet[other].positions@[oi] == p);
                }
                if g[p.0 as int][p.1 as int] == Cells::Occupied || g[p.0 as int][p.1 as int]
                    == Cells::Reinforced {
                    assert(newps[mi].0 == p.0 as int && newps[mi].1 == p.1 as int);
                    assert(0 <= s.positions@[mi].0 + dxg < GRID_SIZE);
                    assert(run_covers(s.positions@, p.0 as int, p.1 as int));
                    let m0 = choose|m0: int|
                        0 <= m0 < s.positions@.len() && (#[trigger] s.positions@[m0]).0
                            == p.0 as int && s.positions@[m0].1 == p.1 as int;
                    assert(oldfleet[idx].positions@[m0] == oldfleet[other].positions@[oi]);
                    assert(g[p.0 as int][p.1 as int] == Cells::Hit);
                }
                if g[p.0 as int][p.1 as int] == Cells::Hit {
                    assert(run_covers(newps, p.0 as int, p.1 as int)) by {
                        assert(newps[mi].0 == p.0 as int && newps[mi].1 == p.1 as int);
                    }
                    assert(gb[p.0 as int][p.1 as int] == Cells::Hit);
                }
            }
        }
    }
}

/// Check a patrol shift: walk the ship's coordinates, shift each by the
/// unit direction, and collect the results; reports failure as soon as a
/// shifted coordinate leaves the grid or lands on a present or protected
/// cell outside the ship itself.
#[verifier::loop_isolation(false)]
fn check_patrol_shift(b: &Board, ps: &Vec<(usize, usize)>, dir_x: isize, dir_y: isize) -> (r:
    Option<Vec<(usize, usize)>>)
    requires
        b.wf(),
        forall|i: int| 0 <= i < ps@.len() ==> pos_in_grid(#[trigger] ps@[i]),
        (dir_x == 0 && (dir_y == 1 || dir_y == -1)) || (dir_y == 0 && (dir_x == 1 || dir_x == -1)),
    ensures
        match r {
            Some(new_ps) => {
                &&& new_ps@ == shifted_positions(ps@, dir_x as int, dir_y as int)
                &&& forall|i: int|
                    0 <= i < ps@.len() ==> {
                        let p = #[trigger] ps@[i];
                        &&& 0 <= p.0 + dir_x < GRID_SIZE
                        &&& 0 <= p.1 + dir_y < GRID_SIZE
                        &&& ((b@[p.0 + dir_x][p.1 + dir_y] == Cells::Occupied || b@[p.0 + dir_x][p.1
                            + dir_y] == Cells::Reinforced) ==> run_covers(
                            ps@,
                            p.0 + dir_x,
                            p.1 + dir_y,
                        ))
                    }
            },
            None => exists|i: int|
                0 <= i < ps@.len() && !{
                    let p = #[trigger] ps@[i];
                    &&& 0 <= p.0 + dir_x < GRID_SIZE
                    &&& 0 <= p.1 + dir_y < GRID_SIZE
                    &&& ((b@[p.0 + dir_x][p.1 + dir_y] == Cells::Occupied || b@[p.0 + dir_x][p.1
                        + dir_y] == Cells::Reinforced) ==> run_covers(
                        ps@,
                        p.0 + dir_x,
                        p.1 + dir_y,
                    ))
                },
        },
{
    let mut new_ps: Vec<(usize, usize)> = Vec::new();
    let mut i: usize = 0;
    while i < ps.len()
        invariant
            i <= ps@.len(),
            new_ps@.len() == i,
            forall|m: int|
                0 <= m < i ==> {
                    let p = #[trigger] ps@[m];
                    &&& 0 <= p.0 + dir_x < GRID_SIZE
                    &&& 0 <= p.1 + dir_y < GRID_SIZE
                    &&& new_ps@[m].0 as int == p.0 + dir_x
                    &&& new_ps@[m].1 as int == p.1 + dir_y
                    &&& ((b@[p.0 + dir_x][p.1 + dir_y] == Cells::Occupied || b@[p.0 + dir_x][p.1
                        + dir_y] == Cells::Reinforced) ==> run_covers(
                        ps@,
                        p.0 + dir_x,
                        p.1 + dir_y,
                    ))
                },
        decreases ps@.len() - i,
    {
        let (px, py) = ps[i];
        let nxo = shift_coord(px, dir_x);
        let nyo = shift_coord(py, dir_y);
        let (nx, ny): (usize, usize) = match (nxo, nyo) {
            (Some(nx), Some(ny)) => (nx, ny),
            _ => {
                return None;
            },
        };
        let cell = b.cell_at(nx, ny);
        if cell == Cells::Occupied || cell == Cells::Reinforced {
            if !positions_contain(ps, nx, ny) {
                return None;
            }
        }
        new_ps.push((nx, ny));
        i = i + 1;
    }
    proof {
        assert(new_ps@ =~= shifted_positions(ps@, dir_x as int, dir_y as int));
    }
    Some(new_ps)
}

/// Record which of the listed coordinates read `Reinforced` on the board.
#[verifier::loop_isolation(false)]
fn collect_reinforced(b: &Board, ps: &Vec<(usize, usize)>) -> (flags: Vec<bool>)
    requires
        b.wf(),
        forall|i: int| 0 <= i < ps@.len() ==> pos_in_grid(#[trigger] ps@[i]),
    ensures
        flags@.len() == ps@.len(),
        forall|k: int|
            0 <= k < ps@.len() ==> #[trigger] flags@[k] == (b@[ps@[k].0 as int][ps@[k].1 as int]
                == Cells::Reinforced),
{
    let mut flags: Vec<bool> = Vec::new();
    let mut m: usize = 0;
    while m < ps.len()
        invariant
            m <= ps@.len(),
            flags@.len() == m,
            forall|k: int|
                0 <= k < m ==> #[trigger] flags@[k] == (b@[ps@[k].0 as int][ps@[k].1 as int]
                    == Cells::Reinforced),
        decreases ps@.len() - m,
    {
        let (px, py) = ps[m];
        let c = b.cell_at(px, py);
        flags.push(c == Cells::Reinforced);
        m = m + 1;
    }
    flags
}

/// Whether any cell of the ship reads `Hit` on the board.
fn ship_hit_anywhere(ship: &Ship, b: &Board) -> (r: bool)
    requires
        b.wf(),
        forall|i: int| 0 <= i < ship.positions@.len() ==> pos_in_grid(#[trigger] ship.positions@[i]),
    ensures
        r == ship_has_hit(*ship, b@),
{
    let mut i: usize = 0;
    while i < ship.positions.len()
        invariant
            i <= ship.positions@.len(),
            b.wf(),
            forall|i2: int|
                0 <= i2 < ship.positions@.len() ==> pos_in_grid(#[trigger] ship.positions@[i2]),
            forall|m: int|
                0 <= m < i ==> b@[(#[trigger] ship.positions@[m]).0 as int][ship.positions@[m].1 as int]
                    != Cells::Hit,
        decreases ship.positions@.len() - i,
    {
        let (px, py) = ship.positions[i];
        if b.cell_at(px, py) == Cells::Hit {
            proof {
                assert(b@[ship.positions@[i as int].0 as int][ship.positions@[i as int].1 as int]
                    == Cells::Hit);
            }
            return true;
        }
        i = i + 1;
    }
    false
}

impl TwistPlayer {
    /// A fresh Twist player around an already created base player: a
    /// built and shuffled deck, and a hand drawn up to `HAND_SIZE`.
    pub fn new(base_player: BasePlayer) -> (p: TwistPlayer)
        requires
            player_wf(base_player),
        ensures
            twist_wf(p),
            p.base == base_player,
            p.hand@.len() == HAND_SIZE,
            p.deck.deck_list@.len() == crate::DECK_SIZE - HAND_SIZE,
            count_of(p.deck.deck_list@, ActionType::Missile) + count_of(
                p.hand@,
                ActionType::Missile,
            ) == 16,
            count_of(p.deck.deck_list@, ActionType::Torpedo) + count_of(
                p.hand@,
                ActionType::Torpedo,
            ) == 9,
            count_of(p.deck.deck_list@, ActionType::Patrol) + count_of(
                p.hand@,
                ActionType::Patrol,
            ) == 8,
            count_of(p.deck.deck_list@, ActionType::Reinforce) + count_of(
                p.hand@,
                ActionType::Reinforce,
            ) == 7,
            count_of(p.deck.deck_list@, ActionType::RadarScan) + count_of(
                p.hand@,
                ActionType::RadarScan,
            ) == 8,
            !p.patrol_mode,
            p.patrol_ship is None,
            p.patrol_frames == 0,
    {
        let mut p = TwistPlayer {
            base: base_player,
            deck: Deck::new(),
            hand: Vec::new(),
            patrol_mode: false,
            patrol_ship: None,
            patrol_frames: 0,
        };
        p.deck.build();
        p.deck.shuffle();
        proof {
            assert(count_of(p.hand@, ActionType::Missile) == 0);
            assert(count_of(p.hand@, ActionType::Torpedo) == 0);
            assert(count_of(p.hand@, ActionType::Patrol) == 0);
            assert(count_of(p.hand@, ActionType::Reinforce) == 0);
            assert(count_of(p.hand@, ActionType::RadarScan) == 0);
        }
        p.draw_hand();
        p
    }

    /// Remove and return the last card of the deck; nothing changes when
    /// the deck is empty and no card is returned.
    pub fn draw_card(&mut self) -> (r: Option<ActionType>)
        ensures
            old(self).deck.deck_list@.len() == 0 ==> r is None && final(self).deck.deck_list@
                == old(self).deck.deck_list@,
            old(self).deck.deck_list@.len() > 0 ==> r == Some(old(self).deck.deck_list@.last())
                && final(self).deck.deck_list@ == old(self).deck.deck_list@.drop_last(),
            final(self).base == old(self).base,
            final(self).hand == old(self).hand,
            final(self).patrol_mode == old(self).patrol_mode,
            final(self).patrol_ship == old(self).patrol_ship,
            final(self).patrol_frames == old(self).patrol_frames,
    {
        self.deck.deck_list.pop()
    }

    /// Draw cards until the hand holds `HAND_SIZE` cards, stopping early
    /// when the deck runs out.  Cards come off the end of the deck, in
    /// order, and the cards already in hand stay where they are.
    #[verifier::loop_isolation(false)]
    pub fn draw_hand(&mut self)
        ensures
            final(self).hand@.len() == (if old(self).hand@.len() >= HAND_SIZE {
                old(self).hand@.len() as int
            } else if old(self).hand@.len() + old(self).deck.deck_list@.len() >= HAND_SIZE {
                HAND_SIZE as int
            } else {
                old(self).hand@.len() + old(self).deck.deck_list@.len() as int
            }),
            final(self).hand@.take(old(self).hand@.len() as int) == old(self).hand@,
            final(self).deck.deck_list@ == old(self).deck.deck_list@.take(
                old(self).deck.deck_list@.len() - (final(self).hand@.len()
                    - old(self).hand@.len()),
            ),
            forall|m: int|
                0 <= m < final(self).hand@.len() - old(self).hand@.len()
                    ==> #[trigger] final(self).hand@[old(self).hand@.len() + m] == old(self).deck.deck_list@[old(self).deck.deck_list@.len() - 1 - m],
            forall|t: ActionType|
                #[trigger] count_of(final(self).deck.deck_list@, t) + count_of(
                    final(self).hand@,
                    t,
                ) == count_of(old(self).deck.deck_list@, t) + count_of(old(self).hand@, t),
            final(self).base == old(self).base,
            final(self).patrol_mode == old(self).patrol_mode,
            final(self).patrol_ship == old(self).patrol_ship,
            final(self).patrol_frames == old(self).patrol_frames,
    {
        while self.hand.len() < HAND_SIZE
            invariant
                old(self).hand@.len() < HAND_SIZE ==> self.hand@.len() <= HAND_SIZE,
                old(self).hand@.len() >= HAND_SIZE ==> *self == *old(self),
                self.hand@.len() >= old(self).hand@.len(),
                self.hand@.len() - old(self).hand@.len() <= old(self).deck.deck_list@.len(),
                self.hand@.take(old(self).hand@.len() as int) == old(self).hand@,
                self.deck.deck_list@ == old(self).deck.deck_list@.take(
                    old(self).deck.deck_list@.len() - (self.hand@.len() - old(self).hand@.len()),
                ),
                forall|m: int|
                    0 <= m < self.hand@.len() - old(self).hand@.len()
                        ==> #[trigger] self.hand@[old(self).hand@.len() + m] == old(self).deck.deck_list@[old(self).deck.deck_list@.len() - 1 - m],
                forall|t: ActionType|
                    #[trigger] count_of(self.deck.deck_list@, t) + count_of(self.hand@, t)
                        == count_of(old(self).deck.deck_list@, t) + count_of(old(self).hand@, t),
                self.base == old(self).base,
                self.patrol_mode == old(self).patrol_mode,
                self.patrol_ship == old(self).patrol_ship,
                self.patrol_frames == old(self).patrol_frames,
            decreases HAND_SIZE - self.hand@.len(),
        {
            let ghost prev_hand = self.hand@;
            let ghost prev_deck = self.deck.deck_list@;
            match self.draw_card() {
                Some(card) => {
                    proof {
                        let n = old(self).deck.deck_list@.len() as int;
                        let d = prev_hand.len() - old(self).hand@.len();
                        assert(prev_deck.len() == n - d);
                        assert(prev_deck.len() > 0);
                        assert(card == prev_deck[n - d - 1]);
                        assert(prev_deck[n - d - 1] == old(self).deck.deck_list@[n - d - 1]);
                    }
                    self.hand.push(card);
                    proof {
                        assert(self.hand@.take(old(self).hand@.len() as int) =~= prev_hand.take(
                            old(self).hand@.len() as int,
                        ));
                        assert(self.deck.deck_list@ =~= old(self).deck.deck_list@.take(
                            old(self).deck.deck_list@.len() - (self.hand@.len() - old(self).hand@.len()),
                        ));
                        assert forall|t: ActionType|
                            #[trigger] count_of(self.deck.deck_list@, t) + count_of(self.hand@, t)
                                == count_of(prev_deck, t) + count_of(prev_hand, t) by {
                            lemma_count_of_push(prev_hand, card);
                            assert(count_of(prev_deck, t) == count_of(prev_deck.drop_last(), t)
                                + if prev_deck.last() == t {
                                1nat
                            } else {
                                0nat
                            });
                            assert(self.deck.deck_list@ == prev_deck.drop_last());
                        }
                    }
                },
                None => {
                    break ;
                },
            }
        }
    }

    /// Remove the first card of the hand equal to `action_type`; reports
    /// failure, with the hand unchanged, when no such card is held.
    pub fn use_card(&mut self, action_type: ActionType) -> (r: bool)
        ensures
            r == old(self).hand@.contains(action_type),
            r ==> exists|i: int|
                #[trigger] first_card_at(old(self).hand@, action_type, i) && final(self).hand@
                    == old(self).hand@.remove(i),
            !r ==> final(self).hand == old(self).hand,
            final(self).base == old(self).base,
            final(self).deck == old(self).deck,
            final(self).patrol_mode == old(self).patrol_mode,
            final(self).patrol_ship == old(self).patrol_ship,
            final(self).patrol_frames == old(self).patrol_frames,
    {
        let mut i: usize = 0;
        while i < self.hand.len()
            invariant
                i <= self.hand@.len(),
                forall|j: int| 0 <= j < i ==> self.hand@[j] != action_type,
                *self == *old(self),
            decreases self.hand@.len() - i,
        {
            if self.hand[i] == action_type {
                proof {
                    assert(first_card_at(self.hand@, action_type, i as int));
                    assert(self.hand@.contains(action_type)) by {
                        assert(self.hand@[i as int] == action_type);
                    }
                }
                self.hand.remove(i);
                return true;
            }
            i = i + 1;
        }
        proof {
            assert(!self.hand@.contains(action_type)) by {
                if self.hand@.contains(action_type) {
                    let j = choose|j: int|
                        0 <= j < self.hand@.len() && self.hand@[j] == action_type;
                }
            }
        }
        false
    }

    /// Begin a patrol at `(x, y)` on this player's own board: the ship
    /// covering that cell is selected for relocation and the countdown
    /// starts.  When no ship is there, or the ship there has already been
    /// hit, the attempt fails and the spent Patrol card goes back to the
    /// hand.
    pub fn start_patrol(&mut self, x: usize, y: usize) -> (r: bool)
        requires
            twist_wf(*old(self)),
            x < GRID_SIZE,
            y < GRID_SIZE,
        ensures
            twist_wf(*final(self)),
            final(self).base == old(self).base,
            final(self).deck == old(self).deck,
            no_ship_at(old(self).base.ships@, x as int, y as int) ==> {
                &&& !r
                &&& final(self).hand@ == old(self).hand@.push(ActionType::Patrol)
                &&& final(self).patrol_mode == old(self).patrol_mode
                &&& final(self).patrol_ship == old(self).patrol_ship
                &&& final(self).patrol_frames == old(self).patrol_frames
            },
            forall|k: int|
                #[trigger] first_ship_at(old(self).base.ships@, x as int, y as int, k) ==> (
                if ship_has_hit(old(self).base.ships@[k], old(self).base.board@) {
                    &&& !r
                    &&& final(self).hand@ == old(self).hand@.push(ActionType::Patrol)
                    &&& final(self).patrol_mode == old(self).patrol_mode
                    &&& final(self).patrol_ship == old(self).patrol_ship
                    &&& final(self).patrol_frames == old(self).patrol_frames
                } else {
                    &&& r
                    &&& final(self).patrol_mode
                    &&& final(self).patrol_ship == Some(k as usize)
                    &&& final(self).patrol_frames == PATROL_FRAMES
                    &&& final(self).hand == old(self).hand
                }),
    {
        proof {
            lemma_first_ship_at_unique(self.base.ships@, x as int, y as int);
            lemma_wf_ships_in_grid(old(self).base);
        }
        match self.base.find_ship_at(x, y) {
            Some(ship_idx) => {
                let has_hit = ship_hit_anywhere(&self.base.ships[ship_idx], &self.base.board);
                if has_hit {
                    self.hand.push(ActionType::Patrol);
                    false
                } else {
                    self.patrol_mode = true;
                    self.patrol_ship = Some(ship_idx);
                    self.patrol_frames = PATROL_FRAMES;
                    true
                }
            },
            None => {
                self.hand.push(ActionType::Patrol);
                false
            },
        }
    }

    /// Attempt to relocate the ship under patrol one step in the direction
    /// `(dir_x, dir_y)`.  The move fails, changing nothing, when no patrol
    /// is open, when the shifted run would leave the grid, or when it
    /// would land on a present or protected cell of another ship.  On
    /// success the old cells are cleared, the new cells are written with
    /// each cell's protection carried along the shift, the ship's recorded
    /// coordinates move, and the patrol ends without returning the card.
    /// Every write obeys the terminal-`Hit` rule.
    #[verifier::loop_isolation(false)]
    #[verifier::rlimit(100)]
    pub fn try_patrol_move(&mut self, dir_x: isize, dir_y: isize) -> (r: bool)
        requires
            twist_wf(*old(self)),
            (dir_x == 0 && (dir_y == 1 || dir_y == -1)) || (dir_y == 0 && (dir_x == 1 || dir_x
                == -1)),
        ensures
            twist_wf(*final(self)),
            old(self).patrol_ship is None ==> !r && *final(self) == *old(self),
            match old(self).patrol_ship {
                None => true,
                Some(idx) => {
                    let s = old(self).base.ships@[idx as int];
                    let g = old(self).base.board@;
                    if !patrol_move_ok(s, g, dir_x as int, dir_y as int) {
                        !r && *final(self) == *old(self)
                    } else {
                        &&& r
                        &&& final(self).base.ships@.len() == old(self).base.ships@.len()
                        &&& forall|k: int|
                            0 <= k < old(self).base.ships@.len() && k != idx
                                ==> #[trigger] final(self).base.ships@[k] == old(
                                self,
                            ).base.ships@[k]
                        &&& final(self).base.ships@[idx as int].positions@ == shifted_positions(
                            s.positions@,
                            dir_x as int,
                            dir_y as int,
                        )
                        &&& final(self).base.ships@[idx as int].ship_type == s.ship_type
                        &&& final(self).base.ships@[idx as int].orientation == s.orientation
                        &&& forall|x: int, y: int|
                            0 <= x < GRID_SIZE && 0 <= y < GRID_SIZE
                                ==> #[trigger] final(self).base.board@[x][y] == (if g[x][y]
                                == Cells::Hit {
                                Cells::Hit
                            } else if run_covers(
                                shifted_positions(s.positions@, dir_x as int, dir_y as int),
                                x,
                                y,
                            ) {
                                if g[x - dir_x][y - dir_y] == Cells::Reinforced {
                                    Cells::Reinforced
                                } else {
                                    Cells::Occupied
                                }
                            } else if run_covers(s.positions@, x, y) {
                                Cells::Empty
                            } else {
                                g[x][y]
                            })
                        &&& !final(self).patrol_mode
                        &&& final(self).patrol_ship is None
                        &&& final(self).patrol_frames == 0
                        &&& final(self).hand == old(self).hand
                        &&& final(self).deck == old(self).deck
                        &&& final(self).base.guess_board == old(self).base.guess_board
                        &&& final(self).base.ship_count == old(self).base.ship_count
                        &&& hits_preserved(g, final(self).base.board@)
                    }
                },
            },
    {
        let ghost g = old(self).base.board@;
        let ghost dxg = dir_x as int;
        let ghost dyg = dir_y as int;
        match self.patrol_ship {
            None => false,
            Some(ship_idx) => {
                let ghost s = old(self).base.ships@[ship_idx as int];
                proof {
                    lemma_wf_ships_in_grid(old(self).base);
                    assert(ship_wf(s));
                }
                let old_positions = copy_positions(&self.base.ships[ship_idx].positions);
                proof {
                    assert(old_positions@ == s.positions@);
                }
                let new_positions: Vec<(usize, usize)> = match check_patrol_shift(
                    &self.base.board,
                    &old_positions,
                    dir_x,
                    dir_y,
                ) {
                    Some(new_ps) => new_ps,
                    None => {
                        proof {
                            assert(!patrol_move_ok(s, g, dxg, dyg)) by {
                                let i = choose|i: int|
                                    0 <= i < old_positions@.len() && !{
                                        let p = #[trigger] old_positions@[i];
                                        &&& 0 <= p.0 + dxg < GRID_SIZE
                                        &&& 0 <= p.1 + dyg < GRID_SIZE
                                        &&& ((g[p.0 + dxg][p.1 + dyg] == Cells::Occupied || g[p.0
                                            + dxg][p.1 + dyg] == Cells::Reinforced)
                                            ==> run_covers(old_positions@, p.0 + dxg, p.1 + dyg))
                                    };
                                if patrol_move_ok(s, g, dxg, dyg) {
                                    assert(0 <= s.positions@[i].0 + dxg < GRID_SIZE && 0
                                        <= s.positions@[i].1 + dyg < GRID_SIZE);
                                }
                            }
                        }
                        return false;
                    },
                };
                proof {
                    assert(patrol_move_ok(s, g, dxg, dyg));
                }
                let flags = collect_reinforced(&self.base.board, &old_positions);
                clear_run(&mut self.base.board, &old_positions);
                proof {
                    assert forall|i2: int, j2: int|
                        0 <= i2 < new_positions@.len() && 0 <= j2 < new_positions@.len()
                            && #[trigger] new_positions@[i2] == #[trigger] new_positions@[j2] implies flags@[i2]
                        == flags@[j2] by {
                        assert(old_positions@[i2].0 == old_positions@[j2].0
                            && old_positions@[i2].1 == old_positions@[j2].1);
                    }
                }
                let ghost mid = self.base.board@;
                write_moved(&mut self.base.board, &new_positions, &flags);
                let st = self.base.ships[ship_idx].ship_type;
                let orient = self.base.ships[ship_idx].orientation;
                let moved_ship = Ship { ship_type: st, positions: new_positions, orientation: orient };
                self.base.ships.set(ship_idx, moved_ship);
                self.cancel_patrol(false);
                proof {
                    assert(self.base.ships@[ship_idx as int].positions@ == shifted_positions(
                        s.positions@,
                        dxg,
                        dyg,
                    ));
                    lemma_patrol_move_finish(
                        old(self).base,
                        self.base.ships@,
                        g,
                        mid,
                        self.base.board@,
                        ship_idx as int,
                        dxg,
                        dyg,
                        flags@,
                    );
                }
                true
            },
        }
    }

    /// Clear the patrol state; when `return_to_hand` is set, the spent
    /// Patrol card goes back to the hand.
    pub fn cancel_patrol(&mut self, return_to_hand: bool)
        ensures
            !final(self).patrol_mode,
            final(self).patrol_ship is None,
            final(self).patrol_frames == 0,
            final(self).hand@ == (if return_to_hand {
                old(self).hand@.push(ActionType::Patrol)
            } else {
                old(self).hand@
            }),
            !return_to_hand ==> final(self).hand == old(self).hand,
            final(self).base == old(self).base,
            final(self).deck == old(self).deck,
    {
        if return_to_hand {
            self.hand.push(ActionType::Patrol);
        }
        self.patrol_mode = false;
        self.patrol_ship = None;
        self.patrol_frames = 0;
    }

    /// One tick of the patrol countdown: while patrol mode is active the
    /// counter falls by one, and on reaching zero the patrol is cancelled
    /// and the card returned to the hand.
    pub fn update_patrol(&mut self)
        ensures
            old(self).patrol_mode && old(self).patrol_frames > 1 ==> *final(self)
                == (TwistPlayer { patrol_frames: (old(self).patrol_frames - 1) as usize, ..*old(self) }),
            old(self).patrol_mode && old(self).patrol_frames == 1 ==> {
                &&& !final(self).patrol_mode
                &&& final(self).patrol_ship is None
                &&& final(self).patrol_frames == 0
                &&& final(self).hand@ == old(self).hand@.push(ActionType::Patrol)
                &&& final(self).base == old(self).base
                &&& final(self).deck == old(self).deck
            },
            !(old(self).patrol_mode && old(self).patrol_frames > 0) ==> *final(self) == *old(self),
    {
        if self.patrol_mode && self.patrol_frames > 0 {
            self.patrol_frames = self.patrol_frames - 1;
            if self.patrol_frames == 0 {
                self.cancel_patrol(true);
            }
        }
    }

    /// Fire a torpedo up column `target_y` of the opponent's board: the
    /// scan starts at the bottom row and moves upward, marking every clear
    /// cell `Miss` on both the opponent's board and this player's guess
    /// board, and stops at the first ship cell: a protected cell loses its
    /// protection, a present cell is hit (recomputing the opponent's
    /// alive-ship count when this completes a ship), and an already-hit
    /// cell merely blocks the torpedo.  Reports whether anything new was
    /// hit.
    #[verifier::loop_isolation(false)]
    #[verifier::rlimit(100)]
    pub fn fire_torpedo(&mut self, opponent: &mut TwistPlayer, target_y: usize) -> (hit: bool)
        requires
            twist_wf(*old(self)),
            twist_wf(*old(opponent)),
            target_y < GRID_SIZE,
        ensures
            twist_wf(*final(self)),
            twist_wf(*final(opponent)),
            hit == {
                let g = old(opponent).base.board@;
                let blk = torpedo_block(g, target_y as int);
                blk >= 0 && g[blk][target_y as int] != Cells::Hit
            },
            forall|x: int, yy: int|
                0 <= x < GRID_SIZE && 0 <= yy < GRID_SIZE
                    ==> #[trigger] final(opponent).base.board@[x][yy] == {
                    let g = old(opponent).base.board@;
                    let blk = torpedo_block(g, target_y as int);
                    if yy != target_y {
                        g[x][yy]
                    } else if x > blk {
                        Cells::Miss
                    } else if x == blk && g[x][yy] != Cells::Hit {
                        missile_write(g[x][yy])
                    } else {
                        g[x][yy]
                    }
                },
            forall|x: int, yy: int|
                0 <= x < GRID_SIZE && 0 <= yy < GRID_SIZE
                    ==> #[trigger] final(self).base.guess_board@[x][yy] == {
                    let g = old(opponent).base.board@;
                    let q = old(self).base.guess_board@;
                    let blk = torpedo_block(g, target_y as int);
                    if yy != target_y {
                        q[x][yy]
                    } else if q[x][yy] == Cells::Hit {
                        Cells::Hit
                    } else if x > blk {
                        Cells::Miss
                    } else if x == blk && g[x][yy] != Cells::Hit {
                        missile_write(g[x][yy])
                    } else {
                        q[x][yy]
                    }
                },
            final(opponent).base.ship_count as int == {
                let g = old(opponent).base.board@;
                let blk = torpedo_block(g, target_y as int);
                if blk >= 0 && g[blk][target_y as int] == Cells::Occupied && (exists|k: int|
                    #[trigger] first_ship_at(old(opponent).base.ships@, blk, target_y as int, k)
                        && ship_destroyed(old(opponent).base.ships@[k], final(opponent).base.board@)) {
                    alive_count(old(opponent).base.ships@, final(opponent).base.board@) as int
                } else {
                    old(opponent).base.ship_count as int
                }
            },
            final(self).base.board == old(self).base.board,
            final(self).base.ships == old(self).base.ships,
            final(self).base.ship_count == old(self).base.ship_count,
            final(self).hand == old(self).hand,
            final(self).deck == old(self).deck,
            final(self).patrol_mode == old(self).patrol_mode,
            final(self).patrol_ship == old(self).patrol_ship,
            final(self).patrol_frames == old(self).patrol_frames,
            final(opponent).base.guess_board == old(opponent).base.guess_board,
            final(opponent).base.ships == old(opponent).base.ships,
            final(opponent).hand == old(opponent).hand,
            final(opponent).deck == old(opponent).deck,
            final(opponent).patrol_mode == old(opponent).patrol_mode,
            final(opponent).patrol_ship == old(opponent).patrol_ship,
            final(opponent).patrol_frames == old(opponent).patrol_frames,
            hits_preserved(old(opponent).base.board@, final(opponent).base.board@),
            hits_preserved(old(self).base.guess_board@, final(self).base.guess_board@),
    {
        let ghost g = old(opponent).base.board@;
        let ghost q = old(self).base.guess_board@;
        let ghost gy = target_y as int;
        let ghost blk = torpedo_block(g, gy);
        proof {
            lemma_torpedo_block_from(g, gy, GRID_SIZE - 1);
            lemma_wf_ships_in_grid(old(opponent).base);
        }
        let mut xi: usize = GRID_SIZE;
        while xi > 0
            invariant
                xi <= GRID_SIZE,
                blk == torpedo_block_from(g, gy, xi - 1),
                opponent.base.board.wf(),
                self.base.guess_board.wf(),
                forall|x: int, yy: int|
                    0 <= x < GRID_SIZE && 0 <= yy < GRID_SIZE
                        ==> #[trigger] opponent.base.board@[x][yy] == (if yy == gy && xi <= x {
                        Cells::Miss
                    } else {
                        g[x][yy]
                    }),
                forall|x: int, yy: int|
                    0 <= x < GRID_SIZE && 0 <= yy < GRID_SIZE
                        ==> #[trigger] self.base.guess_board@[x][yy] == (if yy == gy && xi <= x {
                        if q[x][yy] == Cells::Hit {
                            Cells::Hit
                        } else {
                            Cells::Miss
                        }
                    } else {
                        q[x][yy]
                    }),
                ships_on_grid(opponent.base.ships@, opponent.base.board@),
                crate::ship::ships_no_live_overlap(opponent.base.ships@, opponent.base.board@),
                hits_preserved(g, opponent.base.board@),
                hits_preserved(q, self.base.guess_board@),
                opponent.base.guess_board == old(opponent).base.guess_board,
                opponent.base.ships == old(opponent).base.ships,
                opponent.base.ship_count == old(opponent).base.ship_count,
                opponent.hand == old(opponent).hand,
                opponent.deck == old(opponent).deck,
                opponent.patrol_mode == old(opponent).patrol_mode,
                opponent.patrol_ship == old(opponent).patrol_ship,
                opponent.patrol_frames == old(opponent).patrol_frames,
                self.base.board == old(self).base.board,
                self.base.ships == old(self).base.ships,
                self.base.ship_count == old(self).base.ship_count,
                self.hand == old(self).hand,
                self.deck == old(self).deck,
                self.patrol_mode == old(self).patrol_mode,
                self.patrol_ship == old(self).patrol_ship,
                self.patrol_frames == old(self).patrol_frames,
            decreases xi,
        {
            let x = xi - 1;
            let c = opponent.base.board.cell_at(x, target_y);
            proof {
                assert(c == g[x as int][gy]);
            }
            match c {
                Cells::Reinforced => {
                    proof {
                        assert(blk == x as int);
                    }
                    self.base.guess_board.change_cell(x, target_y, Cells::Occupied);
                    let ghost prev = opponent.base.board@;
                    opponent.base.board.change_cell(x, target_y, Cells::Occupied);
                    proof {
                        lemma_ships_on_grid_write(
                            opponent.base.ships@,
                            prev,
                            x as int,
                            gy,
                            Cells::Occupied,
                        );
                        lemma_no_live_overlap_hits_preserved(
                            opponent.base.ships@,
                            prev,
                            opponent.base.board@,
                        );
                        crate::board::lemma_hits_preserved_trans(g, prev, opponent.base.board@);
                    }
                    return true;
                },
                Cells::Occupied => {
                    proof {
                        assert(blk == x as int);
                    }
                    self.base.guess_board.change_cell(x, target_y, Cells::Hit);
                    let ghost prev = opponent.base.board@;
                    opponent.base.board.change_cell(x, target_y, Cells::Hit);
                    proof {
                        lemma_ships_on_grid_write(
                            opponent.base.ships@,
                            prev,
                            x as int,
                            gy,
                            Cells::Hit,
                        );
                        lemma_no_live_overlap_hits_preserved(
                            opponent.base.ships@,
                            prev,
                            opponent.base.board@,
                        );
                        crate::board::lemma_hits_preserved_trans(g, prev, opponent.base.board@);
                        lemma_first_ship_at_unique(opponent.base.ships@, x as int, gy);
                    }
                    match opponent.base.find_ship_at(x, target_y) {
                        Some(ship_idx) => {
                            if opponent.base.is_ship_destroyed(ship_idx) {
                                opponent.base.update_ship_count();
                            }
                        },
                        None => {
                        },
                    }
                    return true;
                },
                Cells::Hit => {
                    proof {
                        assert(blk == x as int);
                    }
                    return false;
                },
                _ => {
                    self.base.guess_board.change_cell(x, target_y, Cells::Miss);
                    let ghost prev = opponent.base.board@;
                    opponent.base.board.change_cell(x, target_y, Cells::Miss);
                    proof {
                        assert(!is_ship_cell(g[x as int][gy]));
                        assert(torpedo_block_from(g, gy, x as int) == torpedo_block_from(
                            g,
                            gy,
                            x as int - 1,
                        ));
                        lemma_ships_on_grid_write(
                            opponent.base.ships@,
                            prev,
                            x as int,
                            gy,
                            Cells::Miss,
                        );
                        lemma_no_live_overlap_hits_preserved(
                            opponent.base.ships@,
                            prev,
                            opponent.base.board@,
                        );
                        crate::board::lemma_hits_preserved_trans(g, prev, opponent.base.board@);
                    }
                    xi = x;
                },
            }
        }
        proof {
            assert(blk == -1);
        }
        false
    }

    /// Reveal the true state of `(target_x, target_y)` and its in-bounds
    /// orthogonal neighbours on this player's guess board, copying the
    /// opponent's true cell values verbatim; only an already-`Hit` guess
    /// cell keeps its state, by the terminal-`Hit` rule.  The opponent is
    /// only read.
    #[verifier::rlimit(100)]
    pub fn radar_scan(&mut self, opponent: &mut TwistPlayer, target_x: usize, target_y: usize)
        requires
            twist_wf(*old(self)),
            twist_wf(*old(opponent)),
            target_x < GRID_SIZE,
            target_y < GRID_SIZE,
        ensures
            twist_wf(*final(self)),
            *final(opponent) == *old(opponent),
            forall|x: int, y: int|
                0 <= x < GRID_SIZE && 0 <= y < GRID_SIZE
                    ==> #[trigger] final(self).base.guess_board@[x][y] == (if radar_covers(
                    target_x as int,
                    target_y as int,
                    x,
                    y,
                ) {
                    if old(self).base.guess_board@[x][y] == Cells::Hit {
                        Cells::Hit
                    } else {
                        old(opponent).base.board@[x][y]
                    }
                } else {
                    old(self).base.guess_board@[x][y]
                }),
            final(self).base.board == old(self).base.board,
            final(self).base.ships == old(self).base.ships,
            final(self).base.ship_count == old(self).base.ship_count,
            final(self).hand == old(self).hand,
            final(self).deck == old(self).deck,
            final(self).patrol_mode == old(self).patrol_mode,
            final(self).patrol_ship == old(self).patrol_ship,
            final(self).patrol_frames == old(self).patrol_frames,
            hits_preserved(old(self).base.guess_board@, final(self).base.guess_board@),
    {
        let c0 = opponent.base.board.cell_at(target_x, target_y);
        self.base.guess_board.change_cell(target_x, target_y, c0);
        if target_y + 1 < GRID_SIZE {
            let c = opponent.base.board.cell_at(target_x, target_y + 1);
            self.base.guess_board.change_cell(target_x, target_y + 1, c);
        }
        if target_y > 0 {
            let c = opponent.base.board.cell_at(target_x, target_y - 1);
            self.base.guess_board.change_cell(target_x, target_y - 1, c);
        }
        if target_x + 1 < GRID_SIZE {
            let c = opponent.base.board.cell_at(target_x + 1, target_y);
            self.base.guess_board.change_cell(target_x + 1, target_y, c);
        }
        if target_x > 0 {
            let c = opponent.base.board.cell_at(target_x - 1, target_y);
            self.base.guess_board.change_cell(target_x - 1, target_y, c);
        }
    }

    /// Reinforce the cell at `(target_x, target_y)` on this player's own
    /// board: an `Occupied` cell gains protection; any other state is a
    /// rule rejection and nothing changes.
    pub fn reinforce(&mut self, target_x: usize, target_y: usize) -> (r: bool)
        requires
            twist_wf(*old(self)),
            target_x < GRID_SIZE,
            target_y < GRID_SIZE,
        ensures
            twist_wf(*final(self)),
            r == (old(self).base.board@[target_x as int][target_y as int] == Cells::Occupied),
            r ==> final(self).base.board@ == old(self).base.board@.update(
                target_x as int,
                old(self).base.board@[target_x as int].update(target_y as int, Cells::Reinforced),
            ),
            !r ==> *final(self) == *old(self),
            final(self).base.guess_board == old(self).base.guess_board,
            final(self).base.ships == old(self).base.ships,
            final(self).base.ship_count == old(self).base.ship_count,
            final(self).hand == old(self).hand,
            final(self).deck == old(self).deck,
            final(self).patrol_mode == old(self).patrol_mode,
            final(self).patrol_ship == old(self).patrol_ship,
            final(self).patrol_frames == old(self).patrol_frames,
            hits_preserved(old(self).base.board@, final(self).base.board@),
    {
        proof {
            assert(self.base.board.cells@[target_x as int]@ == self.base.board@[target_x as int]);
        }
        let current_state = self.base.board.cells[target_x][target_y];
        match current_state {
            Cells::Occupied => {
                self.base.board.change_cell(target_x, target_y, Cells::Reinforced);
                proof {
                    lemma_wf_ships_in_grid(old(self).base);
                    lemma_ships_on_grid_write(
                        self.base.ships@,
                        old(self).base.board@,
                        target_x as int,
                        target_y as int,
                        Cells::Reinforced,
                    );
                    lemma_no_live_overlap_hits_preserved(
                        self.base.ships@,
                        old(self).base.board@,
                        self.base.board@,
                    );
                }
                true
            },
            _ => {
                false
            },
        }
    }
}

} // verus!
