//! Cells, the grid that owns them, and the generation step.
use vstd::prelude::*;
use crate::rules::{count_alive, lemma_count_neighbor_seq, next_state, step_spec};
use crate::topology::{lemma_index_coords, lemma_neighbor_in_bounds, neighbor_seq, site, CELL_COUNT, GRIDSIZE};

verus! {

/// One site of the board: its state (alive or dead) and its row-major index.
#[derive(Debug, Copy, Clone, Default)]
pub struct Cell {
    pub state: bool,
    pub ind: usize,
}

/// Appends the index of `(rp - 1, cp - 1)` when that pair lies on the board.
/// The coordinates come shifted by one so that the row and column before the
/// first stay representable.
fn push_site(v: &mut Vec<usize>, rp: usize, cp: usize)
    requires
        rp <= 101,
        cp <= 101,
    ensures
        final(v)@ == old(v)@ + site(rp - 1, cp - 1),
{
    if 1 <= rp && rp <= 100 && 1 <= cp && cp <= 100 {
        v.push((rp - 1) * 100 + (cp - 1));
        assert(final(v)@ =~= old(v)@ + site(rp - 1, cp - 1));
    } else {
        assert(old(v)@ + site(rp - 1, cp - 1) =~= old(v)@);
    }
}

impl Cell {
    /// Flips the state.
    pub fn _toggle(&mut self)
        ensures
            final(self).state == !old(self).state,
            final(self).ind == old(self).ind,
    {
        if self.state {
            self.state = false;
        } else {
            self.state = true;
        }
    }

    /// The indices of the on-board sites around this one, in row-major order.
    pub fn neighbours(&self) -> (r: Vec<usize>)
        requires
            self.ind < CELL_COUNT,
        ensures
            r@ == neighbor_seq(self.ind as int),
    {
        let row = self.ind / GRIDSIZE;
        let col = self.ind % GRIDSIZE;
        let mut v: Vec<usize> = Vec::new();
        push_site(&mut v, row, col);
        push_site(&mut v, row, col + 1);
        push_site(&mut v, row, col + 2);
        push_site(&mut v, row + 1, col);
        push_site(&mut v, row + 1, col + 2);
        push_site(&mut v, row + 2, col);
        push_site(&mut v, row + 2, col + 1);
        push_site(&mut v, row + 2, col + 2);
        assert(v@ =~= neighbor_seq(self.ind as int));
        v
    }

    /// Whether the cell is alive.
    pub fn is_alive(&self) -> (r: bool)
        ensures
            r == self.state,
    {
        self.state
    }

    /// Makes the cell alive.
    pub fn set_alive(&mut self)
        ensures
            final(self).state,
            final(self).ind == old(self).ind,
    {
        self.state = true;
    }

    /// Makes the cell dead.
    pub fn set_dead(&mut self)
        ensures
            !final(self).state,
            final(self).ind == old(self).ind,
    {
        self.state = false;
    }
}

/// The whole board: its cells in row-major order and, for each site, the
/// precomputed list of its neighbors.
#[allow(non_camel_case_types, non_snake_case)]
pub struct grid {
    pub Cells: Vec<Cell>,
    pub Nes: Vec<Vec<usize>>,
}

impl View for grid {
    type V = Seq<bool>;

    /// The states of the cells, in row-major order.
    open spec fn view(&self) -> Seq<bool> {
        self.Cells@.map_values(|c: Cell| c.state)
    }
}

/// Relies on rand::random::<bool>, a fair coin drawn from the thread-local
/// generator; nothing is known of the value drawn.
#[verifier::external_body]
fn coin() -> bool {
    rand::random::<bool>()
}

/// Number of entries of `ns` that name an alive entry of `states`.
fn count_alive_in(states: &Vec<bool>, ns: &Vec<usize>) -> (r: usize)
    requires
        forall|k: int| 0 <= k < ns@.len() ==> ns@[k] < states@.len(),
    ensures
        r as int == count_alive(states@, ns@),
{
    let mut n: usize = 0;
    let mut j: usize = 0;
    while j < ns.len()
        invariant
            j <= ns@.len(),
            n <= j,
            n as int == count_alive(states@, ns@.take(j as int)),
            forall|k: int| 0 <= k < ns@.len() ==> ns@[k] < states@.len(),
        decreases ns@.len() - j,
    {
        assert(ns@.take(j + 1).drop_last() =~= ns@.take(j as int));
        if states[ns[j]] {
            n = n + 1;
        }
        j = j + 1;
    }
    assert(ns@.take(j as int) =~= ns@);
    n
}

impl grid {
    /// The cells are the sites of the board in row-major order, each carrying
    /// its own index, and each site's neighbor list is the one of the board.
    pub open spec fn wf(&self) -> bool {
        &&& self.Cells@.len() == 10000
        &&& self.Nes@.len() == 10000
        &&& forall|i: int| 0 <= i < 10000 ==> #[trigger] self.Cells@[i].ind == i
        &&& forall|i: int| 0 <= i < 10000 ==> #[trigger] self.Nes@[i]@ == neighbor_seq(i)
    }

    /// A board of dead cells with its neighbor lists.
    pub fn new() -> (g: grid)
        ensures
            g.wf(),
            forall|i: int| 0 <= i < 10000 ==> !(#[trigger] g@[i]),
    {
        let mut cells: Vec<Cell> = Vec::new();
        let mut nes: Vec<Vec<usize>> = Vec::new();
        let mut ind: usize = 0;
        while ind < CELL_COUNT
            invariant
                ind <= 10000,
                cells@.len() == ind,
                nes@.len() == ind,
                forall|i: int| 0 <= i < ind ==> #[trigger] cells@[i] == (Cell { state: false, ind: i as usize }),
                forall|i: int| 0 <= i < ind ==> #[trigger] nes@[i]@ == neighbor_seq(i),
            decreases 10000 - ind,
        {
            let cell = Cell { state: false, ind: ind };
            cells.push(cell);
            nes.push(cell.neighbours());
            ind = ind + 1;
        }
        let g = grid { Cells: cells, Nes: nes };
        assert forall|i: int| 0 <= i < 10000 implies !(#[trigger] g@[i]) by {
            assert(g.Cells@[i] == (Cell { state: false, ind: i as usize }));
        }
        g
    }

    /// Fewer than two alive neighbors: an alive cell dies of isolation.
    pub fn alone(&self, alive_nes_count: usize) -> (r: bool)
        ensures
            r == (alive_nes_count < 2),
    {
        alive_nes_count < 2
    }

    /// More than three alive neighbors: an alive cell dies of overcrowding.
    pub fn overpopulated(&self, alive_nes_count: usize) -> (r: bool)
        ensures
            r == (alive_nes_count > 3),
    {
        alive_nes_count > 3
    }

    /// Exactly three alive neighbors: a dead cell comes alive.
    pub fn can_be_revived(&self, alive_nes_count: usize) -> (r: bool)
        ensures
            r == (alive_nes_count == 3),
    {
        alive_nes_count == 3
    }

    /// Sets cell `i` alive exactly when `bits[i]` holds, for every site.
    pub fn set_states(&mut self, bits: &Vec<bool>)
        requires
            old(self).wf(),
            bits@.len() == 10000,
        ensures
            final(self).wf(),
            final(self).Nes == old(self).Nes,
            final(self)@ == bits@,
    {
        let mut i: usize = 0;
        while i < CELL_COUNT
            invariant
                i <= 10000,
                self.wf(),
                self.Nes == old(self).Nes,
                bits@.len() == 10000,
                forall|k: int| 0 <= k < i ==> #[trigger] self@[k] == bits@[k],
            decreases 10000 - i,
        {
            let ghost before = self@;
            self.Cells.set(i, Cell { state: bits[i], ind: i });
            assert(self@ =~= before.update(i as int, bits@[i as int]));
            i = i + 1;
        }
        assert(self@ =~= bits@);
    }

    /// Draws a fair coin for every cell and sets it alive on heads, dead on
    /// tails. Whatever is drawn, the board stays well formed and its neighbor
    /// lists stay as they were.
    pub fn random_gen(&mut self)
        requires
            old(self).wf(),
        ensures
            final(self).wf(),
            final(self).Nes == old(self).Nes,
    {
        let mut bits: Vec<bool> = Vec::new();
        let mut i: usize = 0;
        while i < CELL_COUNT
            invariant
                i <= 10000,
                bits@.len() == i,
            decreases 10000 - i,
        {
            bits.push(coin());
            i = i + 1;
        }
        self.set_states(&bits);
    }

    /// The pixels of the canvas in row-major order of the sites: for each
    /// site its column, its row and whether it is alive.
    pub fn points(&self) -> (r: Vec<(usize, usize, bool)>)
        requires
            self.wf(),
        ensures
            r@.len() == 10000,
            forall|k: int|
                0 <= k < 10000 ==> #[trigger] r@[k] == ((k % 100) as usize, (k / 100) as usize, self@[k]),
    {
        let mut r: Vec<(usize, usize, bool)> = Vec::new();
        let mut row: usize = 0;
        while row < GRIDSIZE
            invariant
                row <= 100,
                self.wf(),
                r@.len() == row * 100,
                forall|k: int|
                    0 <= k < row * 100 ==> #[trigger] r@[k] == ((k % 100) as usize, (k / 100) as usize, self@[k]),
            decreases 100 - row,
        {
            let mut col: usize = 0;
            while col < GRIDSIZE
                invariant
                    row < 100,
                    col <= 100,
                    self.wf(),
                    r@.len() == row * 100 + col,
                    forall|k: int|
                        0 <= k < row * 100 + col ==> #[trigger] r@[k] == ((k % 100) as usize, (k / 100) as usize, self@[k]),
                decreases 100 - col,
            {
                let ind = row * GRIDSIZE + col;
                proof {
                    lemma_index_coords(row as int, col as int);
                }
                r.push((col, row, self.Cells[ind].state));
                col = col + 1;
            }
            row = row + 1;
        }
        r
    }

    /// The states of the cells, in row-major order.
    pub fn states(&self) -> (r: Vec<bool>)
        ensures
            r@ == self@,
    {
        let mut r: Vec<bool> = Vec::new();
        let mut i: usize = 0;
        while i < self.Cells.len()
            invariant
                i <= self.Cells@.len(),
                r@ =~= self@.take(i as int),
            decreases self.Cells@.len() - i,
        {
            r.push(self.Cells[i].state);
            i = i + 1;
        }
        assert(self@.take(i as int) =~= self@);
        r
    }

    /// Advances one generation when `active`, every cell computed from the
    /// states at the start of the call; leaves the board as it is otherwise.
    pub fn on_tick(&mut self, active: bool)
        requires
            old(self).wf(),
        ensures
            final(self).wf(),
            final(self).Nes == old(self).Nes,
            active ==> final(self)@ == step_spec(old(self)@),
            !active ==> final(self)@ == old(self)@,
    {
        if active {
            let snap = self.states();
            let ghost start = self@;
            let mut i: usize = 0;
            while i < CELL_COUNT
                invariant
                    i <= 10000,
                    self.wf(),
                    self.Nes == old(self).Nes,
                    snap@ == start,
                    start.len() == 10000,
                    self@.len() == 10000,
                    forall|k: int| 0 <= k < i ==> #[trigger] self@[k] == step_spec(start)[k],
                    forall|k: int| i <= k < 10000 ==> #[trigger] self@[k] == start[k],
                decreases 10000 - i,
            {
                proof {
                    assert forall|k: int| 0 <= k < self.Nes@[i as int]@.len() implies
                        #[trigger] self.Nes@[i as int]@[k] < snap@.len() by {
                        lemma_neighbor_in_bounds(i as int, k);
                    }
                    lemma_count_neighbor_seq(start, i as int);
                }
                let k = count_alive_in(&snap, &self.Nes[i]);
                let alive = snap[i];
                let next = if alive {
                    !self.alone(k) && !self.overpopulated(k)
                } else {
                    self.can_be_revived(k)
                };
                assert(next == next_state(start[i as int], k as int));
                let ghost before = self@;
                self.Cells.set(i, Cell { state: next, ind: i });
                assert(self@ =~= before.update(i as int, next));
                i = i + 1;
            }
            assert(self@ =~= step_spec(start));
        }
    }
}

} // verus!
