//! Cell states and the board grid, with the single write rule every action
//! must respect: a `Hit` cell is terminal and is never overwritten.

use vstd::prelude::*;
use crate::GRID_SIZE;

verus! {

/// The state of one square of a board.
#[derive(Copy, Clone, PartialEq, Eq, Structural, Debug)]
pub enum Cells {
    /// Nothing known or nothing present.
    Empty,
    /// A ship cell, undamaged.
    Occupied,
    /// A ship cell that was hit; terminal for that cell.
    Hit,
    /// Fired upon, nothing was there.
    Miss,
    /// A ship cell with one extra layer of protection.
    Reinforced,
}

/// A `GRID_SIZE` x `GRID_SIZE` grid of cell states, indexed row first.
pub struct Board {
    pub cells: Vec<Vec<Cells>>,
}

/// A grid is well formed when it is exactly `GRID_SIZE` rows of
/// `GRID_SIZE` cells.
pub open spec fn grid_wf(g: Seq<Seq<Cells>>) -> bool {
    &&& g.len() == GRID_SIZE
    &&& forall|x: int| 0 <= x < g.len() ==> (#[trigger] g[x]).len() == GRID_SIZE
}

/// The one write rule of a board: writing `c` at `(x, y)` leaves the grid
/// unchanged when that cell is already `Hit`, and otherwise overwrites
/// exactly that cell.
pub open spec fn cell_write(g: Seq<Seq<Cells>>, x: int, y: int, c: Cells) -> Seq<Seq<Cells>> {
    if g[x][y] == Cells::Hit {
        g
    } else {
        g.update(x, g[x].update(y, c))
    }
}

/// Every cell that is `Hit` in `a` is still `Hit` in `b`.
pub open spec fn hits_preserved(a: Seq<Seq<Cells>>, b: Seq<Seq<Cells>>) -> bool {
    forall|x: int, y: int|
        0 <= x < a.len() && 0 <= y < a[x].len() && a[x][y] == Cells::Hit
            ==> #[trigger] b[x][y] == Cells::Hit
}

/// Hit cells are preserved across any chain of actions: preservation from
/// `a` to `b` and from `b` to `c` gives preservation from `a` to `c`, so a
/// cell once `Hit` stays `Hit` through every later action.
pub proof fn lemma_hits_preserved_trans(a: Seq<Seq<Cells>>, b: Seq<Seq<Cells>>, c: Seq<Seq<Cells>>)
    requires
        grid_wf(a),
        grid_wf(b),
        grid_wf(c),
        hits_preserved(a, b),
        hits_preserved(b, c),
    ensures
        hits_preserved(a, c),
{
}

impl View for Board {
    type V = Seq<Seq<Cells>>;

    open spec fn view(&self) -> Seq<Seq<Cells>> {
        self.cells@.map_values(|row: Vec<Cells>| row@)
    }
}

impl Board {
    /// The board is a well-formed grid.
    pub open spec fn wf(&self) -> bool {
        grid_wf(self@)
    }

    /// A fresh all-`Empty` board.
    pub fn new() -> (b: Board)
        ensures
            b.wf(),
            forall|x: int, y: int|
                0 <= x < GRID_SIZE && 0 <= y < GRID_SIZE ==> #[trigger] b@[x][y] == Cells::Empty,
    {
        let mut cells: Vec<Vec<Cells>> = Vec::new();
        let mut x: usize = 0;
        while x < GRID_SIZE
            invariant
                x <= GRID_SIZE,
                cells@.len() == x,
                forall|i: int| 0 <= i < x ==> (#[trigger] cells@[i])@.len() == GRID_SIZE,
                forall|i: int, j: int|
                    0 <= i < x && 0 <= j < GRID_SIZE ==> #[trigger] cells@[i]@[j] == Cells::Empty,
            decreases GRID_SIZE - x,
        {
            let mut row: Vec<Cells> = Vec::new();
            let mut y: usize = 0;
            while y < GRID_SIZE
                invariant
                    y <= GRID_SIZE,
                    row@.len() == y,
                    forall|j: int| 0 <= j < y ==> #[trigger] row@[j] == Cells::Empty,
                decreases GRID_SIZE - y,
            {
                row.push(Cells::Empty);
                y = y + 1;
            }
            cells.push(row);
            x = x + 1;
        }
        Board { cells }
    }

    /// Read the cell at `(x, y)`.
    pub fn cell_at(&self, x: usize, y: usize) -> (c: Cells)
        requires
            self.wf(),
            x < GRID_SIZE,
            y < GRID_SIZE,
        ensures
            c == self@[x as int][y as int],
    {
        proof {
            assert(self.cells@.len() == self@.len());
            assert(self.cells@[x as int]@ == self@[x as int]);
        }
        self.cells[x][y]
    }

    /// Overwrite the cell at `(x, y)` with `ctype`, unless that cell is
    /// already `Hit`: a `Hit` cell is terminal and the call is a no-op.
    pub fn change_cell(&mut self, x: usize, y: usize, ctype: Cells)
        requires
            old(self).wf(),
            x < GRID_SIZE,
            y < GRID_SIZE,
        ensures
            final(self)@ == cell_write(old(self)@, x as int, y as int, ctype),
            final(self).wf(),
            hits_preserved(old(self)@, final(self)@),
    {
        proof {
            assert(self.cells@.len() == self@.len());
            assert(self.cells@[x as int]@ == self@[x as int]);
        }
        if self.cells[x][y] != Cells::Hit {
            let row = &mut self.cells[x];
            row.set(y, ctype);
            proof {
                assert(self@ =~= cell_write(old(self)@, x as int, y as int, ctype));
            }
        }
    }
}

} // verus!
