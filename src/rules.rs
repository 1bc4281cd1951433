//! The transition rule of the automaton, stated over a board given as the
//! sequence of its states in row-major order.
use vstd::prelude::*;
use crate::topology::{
    lemma_coords_of_index, lemma_index_coords, neighbor_seq, on_board, site, col_of, row_of,
};

verus! {

/// Whether `(r, c)` is on the board and alive in `s`; sites off the board count
/// as dead.
pub open spec fn alive_at(s: Seq<bool>, r: int, c: int) -> bool {
    on_board(r, c) && s[r * 100 + c]
}

/// One for alive, zero for dead.
pub open spec fn as_count(b: bool) -> int {
    if b {
        1
    } else {
        0
    }
}

/// Number of alive sites among the eight around site `i`.
pub open spec fn live_neighbors(s: Seq<bool>, i: int) -> int {
    let r = row_of(i);
    let c = col_of(i);
    as_count(alive_at(s, r - 1, c - 1)) + as_count(alive_at(s, r - 1, c)) + as_count(
        alive_at(s, r - 1, c + 1),
    ) + as_count(alive_at(s, r, c - 1)) + as_count(alive_at(s, r, c + 1)) + as_count(
        alive_at(s, r + 1, c - 1),
    ) + as_count(alive_at(s, r + 1, c)) + as_count(alive_at(s, r + 1, c + 1))
}

/// The state of a site in the next generation, from its own state and its
/// number `k` of alive neighbors: an alive site survives with two or three,
/// a dead one comes alive with exactly three.
pub open spec fn next_state(alive: bool, k: int) -> bool {
    if alive {
        k == 2 || k == 3
    } else {
        k == 3
    }
}

/// The next generation of the whole board, every site computed from `s`.
pub open spec fn step_spec(s: Seq<bool>) -> Seq<bool> {
    Seq::new(s.len(), |i: int| next_state(s[i], live_neighbors(s, i)))
}

/// Number of entries of `ns` that name an alive site of `s`.
pub open spec fn count_alive(s: Seq<bool>, ns: Seq<usize>) -> int
    decreases ns.len(),
{
    if ns.len() == 0 {
        0
    } else {
        count_alive(s, ns.drop_last()) + as_count(s[ns.last() as int])
    }
}

proof fn lemma_count_alive_add(s: Seq<bool>, a: Seq<usize>, b: Seq<usize>)
    ensures
        count_alive(s, a + b) == count_alive(s, a) + count_alive(s, b),
    decreases b.len(),
{
    if b.len() == 0 {
        assert(a + b =~= a);
    } else {
        assert((a + b).drop_last() =~= a + b.drop_last());
        lemma_count_alive_add(s, a, b.drop_last());
    }
}

proof fn lemma_count_alive_site(s: Seq<bool>, r: int, c: int)
    ensures
        count_alive(s, site(r, c)) == as_count(alive_at(s, r, c)),
{
    if on_board(r, c) {
        lemma_index_coords(r, c);
        assert(site(r, c).drop_last() =~= Seq::<usize>::empty());
        assert(count_alive(s, Seq::<usize>::empty()) == 0);
        assert(site(r, c).last() as int == r * 100 + c);
    } else {
        assert(count_alive(s, site(r, c)) == 0);
    }
}

/// Counting alive entries of the neighbor list of `i` gives its number of
/// alive neighbors.
pub proof fn lemma_count_neighbor_seq(s: Seq<bool>, i: int)
    requires
        0 <= i < 10000,
    ensures
        count_alive(s, neighbor_seq(i)) == live_neighbors(s, i),
{
    let r = row_of(i);
    let c = col_of(i);
    lemma_coords_of_index(i);
    let s1 = site(r - 1, c - 1);
    let s2 = site(r - 1, c);
    let s3 = site(r - 1, c + 1);
    let s4 = site(r, c - 1);
    let s5 = site(r, c + 1);
    let s6 = site(r + 1, c - 1);
    let s7 = site(r + 1, c);
    let s8 = site(r + 1, c + 1);
    lemma_count_alive_add(s, s1, s2);
    lemma_count_alive_add(s, s1 + s2, s3);
    lemma_count_alive_add(s, s1 + s2 + s3, s4);
    lemma_count_alive_add(s, s1 + s2 + s3 + s4, s5);
    lemma_count_alive_add(s, s1 + s2 + s3 + s4 + s5, s6);
    lemma_count_alive_add(s, s1 + s2 + s3 + s4 + s5 + s6, s7);
    lemma_count_alive_add(s, s1 + s2 + s3 + s4 + s5 + s6 + s7, s8);
    lemma_count_alive_site(s, r - 1, c - 1);
    lemma_count_alive_site(s, r - 1, c);
    lemma_count_alive_site(s, r - 1, c + 1);
    lemma_count_alive_site(s, r, c - 1);
    lemma_count_alive_site(s, r, c + 1);
    lemma_count_alive_site(s, r + 1, c - 1);
    lemma_count_alive_site(s, r + 1, c);
    lemma_count_alive_site(s, r + 1, c + 1);
}

/// The board whose site `(r, c)` is alive exactly when `p(r, c)` holds.
pub open spec fn pattern(p: spec_fn(int, int) -> bool) -> Seq<bool> {
    Seq::new(10000, |i: int| p(row_of(i), col_of(i)))
}

/// A 2 x 2 block of alive cells with its top-left corner at `(r0, c0)`.
pub open spec fn block(r0: int, c0: int) -> Seq<bool> {
    pattern(|r: int, c: int| r0 <= r <= r0 + 1 && c0 <= c <= c0 + 1)
}

/// Three alive cells in row `r0`, at columns `c0` to `c0 + 2`.
pub open spec fn blinker_horizontal(r0: int, c0: int) -> Seq<bool> {
    pattern(|r: int, c: int| r == r0 && c0 <= c <= c0 + 2)
}

/// Three alive cells in column `c0 + 1`, at rows `r0 - 1` to `r0 + 1`.
pub open spec fn blinker_vertical(r0: int, c0: int) -> Seq<bool> {
    pattern(|r: int, c: int| r0 - 1 <= r <= r0 + 1 && c == c0 + 1)
}

proof fn lemma_alive_at_pattern(p: spec_fn(int, int) -> bool, r: int, c: int)
    ensures
        alive_at(pattern(p), r, c) == (on_board(r, c) && p(r, c)),
{
    if on_board(r, c) {
        lemma_index_coords(r, c);
    }
}

proof fn lemma_live_neighbors_pattern(p: spec_fn(int, int) -> bool, i: int)
    requires
        0 <= i < 10000,
    ensures
        ({
            let r = row_of(i);
            let c = col_of(i);
            let on = |rr: int, cc: int| as_count(on_board(rr, cc) && p(rr, cc));
            live_neighbors(pattern(p), i) == on(r - 1, c - 1) + on(r - 1, c) + on(r - 1, c + 1)
                + on(r, c - 1) + on(r, c + 1) + on(r + 1, c - 1) + on(r + 1, c) + on(r + 1, c + 1)
        }),
        pattern(p)[i] == p(row_of(i), col_of(i)),
{
    let r = row_of(i);
    let c = col_of(i);
    lemma_alive_at_pattern(p, r - 1, c - 1);
    lemma_alive_at_pattern(p, r - 1, c);
    lemma_alive_at_pattern(p, r - 1, c + 1);
    lemma_alive_at_pattern(p, r, c - 1);
    lemma_alive_at_pattern(p, r, c + 1);
    lemma_alive_at_pattern(p, r + 1, c - 1);
    lemma_alive_at_pattern(p, r + 1, c);
    lemma_alive_at_pattern(p, r + 1, c + 1);
}

/// The next generation is a function of the current states alone: equal
/// boards step to equal boards.
pub proof fn lemma_step_deterministic(s: Seq<bool>, t: Seq<bool>)
    requires
        s == t,
    ensures
        step_spec(s) == step_spec(t),
{
}

/// A dead cell with fewer than three alive neighbors is still dead after a step.
pub proof fn lemma_dead_stays_dead(s: Seq<bool>, i: int)
    requires
        s.len() == 10000,
        0 <= i < 10000,
        !s[i],
        count_alive(s, neighbor_seq(i)) < 3,
    ensures
        !step_spec(s)[i],
{
    lemma_count_neighbor_seq(s, i);
}

/// A 2 x 2 block that fits on the board is a still life.
pub proof fn lemma_block_still_life(r0: int, c0: int)
    requires
        0 <= r0 < 99,
        0 <= c0 < 99,
    ensures
        step_spec(block(r0, c0)) == block(r0, c0),
{
    let p = |r: int, c: int| r0 <= r <= r0 + 1 && c0 <= c <= c0 + 1;
    assert forall|i: int| 0 <= i < 10000 implies #[trigger] step_spec(block(r0, c0))[i] == block(
        r0,
        c0,
    )[i] by {
        lemma_coords_of_index(i);
        lemma_live_neighbors_pattern(p, i);
    }
    assert(step_spec(block(r0, c0)) =~= block(r0, c0));
}

/// A horizontal blinker whose vertical phase fits on the board turns
/// vertical, and back.
pub proof fn lemma_blinker_phases(r0: int, c0: int)
    requires
        1 <= r0 < 99,
        0 <= c0 < 98,
    ensures
        step_spec(blinker_horizontal(r0, c0)) == blinker_vertical(r0, c0),
        step_spec(blinker_vertical(r0, c0)) == blinker_horizontal(r0, c0),
{
    let h = |r: int, c: int| r == r0 && c0 <= c <= c0 + 2;
    let v = |r: int, c: int| r0 - 1 <= r <= r0 + 1 && c == c0 + 1;
    assert forall|i: int| 0 <= i < 10000 implies #[trigger] step_spec(blinker_horizontal(r0, c0))[i]
        == blinker_vertical(r0, c0)[i] by {
        lemma_coords_of_index(i);
        lemma_live_neighbors_pattern(h, i);
        lemma_live_neighbors_pattern(v, i);
    }
    assert(step_spec(blinker_horizontal(r0, c0)) =~= blinker_vertical(r0, c0));
    assert forall|i: int| 0 <= i < 10000 implies #[trigger] step_spec(blinker_vertical(r0, c0))[i]
        == blinker_horizontal(r0, c0)[i] by {
        lemma_coords_of_index(i);
        lemma_live_neighbors_pattern(h, i);
        lemma_live_neighbors_pattern(v, i);
    }
    assert(step_spec(blinker_vertical(r0, c0)) =~= blinker_horizontal(r0, c0));
}

/// A blinker oscillates with period two: two steps give it back, one step
/// changes it.
pub proof fn lemma_blinker_period_two(r0: int, c0: int)
    requires
        1 <= r0 < 99,
        0 <= c0 < 98,
    ensures
        step_spec(step_spec(blinker_horizontal(r0, c0))) == blinker_horizontal(r0, c0),
        step_spec(blinker_horizontal(r0, c0)) != blinker_horizontal(r0, c0),
{
    lemma_blinker_phases(r0, c0);
    let i = r0 * 100 + c0;
    lemma_index_coords(r0, c0);
    assert(blinker_horizontal(r0, c0)[i]);
    assert(!blinker_vertical(r0, c0)[i]);
}

} // verus!
