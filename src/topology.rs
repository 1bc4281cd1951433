//! The bounded 100 x 100 board: row-major site indices and the neighbor lists.
use vstd::prelude::*;
use vstd::arithmetic::div_mod::lemma_fundamental_div_mod_converse;

verus! {

/// Number of rows, and of columns, of the board.
pub const GRIDSIZE: usize = 100;

/// Number of sites on the board.
pub const CELL_COUNT: usize = 10000;

/// Row of the site with row-major index `i`.
pub open spec fn row_of(i: int) -> int {
    i / 100
}

/// Column of the site with row-major index `i`.
pub open spec fn col_of(i: int) -> int {
    i % 100
}

/// Whether `(r, c)` lies on the board.
pub open spec fn on_board(r: int, c: int) -> bool {
    0 <= r < 100 && 0 <= c < 100
}

/// The index of `(r, c)` as a one-element list when it lies on the board,
/// and the empty list otherwise.
pub open spec fn site(r: int, c: int) -> Seq<usize> {
    if on_board(r, c) {
        seq![(r * 100 + c) as usize]
    } else {
        Seq::empty()
    }
}

/// The neighbor list of site `i`: the on-board sites among the eight around it,
/// in row-major order.
pub open spec fn neighbor_seq(i: int) -> Seq<usize> {
    let r = row_of(i);
    let c = col_of(i);
    site(r - 1, c - 1) + site(r - 1, c) + site(r - 1, c + 1) + site(r, c - 1) + site(r, c + 1)
        + site(r + 1, c - 1) + site(r + 1, c) + site(r + 1, c + 1)
}

/// Two distinct sites whose rows and columns each differ by at most one.
pub open spec fn adjacent(i: int, j: int) -> bool {
    &&& 0 <= i < 10000
    &&& 0 <= j < 10000
    &&& i != j
    &&& -1 <= row_of(i) - row_of(j) <= 1
    &&& -1 <= col_of(i) - col_of(j) <= 1
}

/// A site in a corner of the board.
pub open spec fn is_corner(i: int) -> bool {
    (row_of(i) == 0 || row_of(i) == 99) && (col_of(i) == 0 || col_of(i) == 99)
}

/// A site away from every edge.
pub open spec fn is_interior(i: int) -> bool {
    0 < row_of(i) < 99 && 0 < col_of(i) < 99
}

/// A site on an edge of the board but not in a corner.
pub open spec fn is_edge(i: int) -> bool {
    !is_corner(i) && !is_interior(i)
}

/// Each element strictly smaller than the next.
pub open spec fn strictly_increasing(s: Seq<usize>) -> bool {
    forall|a: int, b: int| 0 <= a < b < s.len() ==> s[a] < s[b]
}

/// Row and column of an on-board coordinate pair survive the round trip
/// through the row-major index.
pub proof fn lemma_index_coords(r: int, c: int)
    requires
        on_board(r, c),
    ensures
        row_of(r * 100 + c) == r,
        col_of(r * 100 + c) == c,
        0 <= r * 100 + c < 10000,
{
    lemma_fundamental_div_mod_converse(r * 100 + c, 100, r, c);
}

/// A valid index has on-board coordinates and is rebuilt from them.
pub proof fn lemma_coords_of_index(i: int)
    requires
        0 <= i < 10000,
    ensures
        on_board(row_of(i), col_of(i)),
        i == row_of(i) * 100 + col_of(i),
{
    vstd::arithmetic::div_mod::lemma_fundamental_div_mod(i, 100);
}

proof fn lemma_add_contains(a: Seq<usize>, b: Seq<usize>, x: usize)
    ensures
        (a + b).contains(x) <==> (a.contains(x) || b.contains(x)),
{
    if a.contains(x) {
        let k = choose|k: int| 0 <= k < a.len() && a[k] == x;
        assert((a + b)[k] == x);
    }
    if b.contains(x) {
        let k = choose|k: int| 0 <= k < b.len() && b[k] == x;
        assert((a + b)[a.len() + k] == x);
    }
    if (a + b).contains(x) {
        let k = choose|k: int| 0 <= k < (a + b).len() && (a + b)[k] == x;
        if k < a.len() {
            assert(a[k] == x);
        } else {
            assert(b[k - a.len()] == x);
        }
    }
}

proof fn lemma_site_contains(r: int, c: int, x: usize)
    ensures
        site(r, c).contains(x) <==> (on_board(r, c) && x as int == r * 100 + c),
{
    if on_board(r, c) {
        assert(site(r, c)[0] == (r * 100 + c) as usize);
    }
}

proof fn lemma_extend_increasing(s: Seq<usize>, r: int, c: int, next: int)
    requires
        strictly_increasing(s),
        forall|k: int| 0 <= k < s.len() ==> s[k] < r * 100 + c,
        r * 100 + c < next,
    ensures
        strictly_increasing(s + site(r, c)),
        forall|k: int| 0 <= k < (s + site(r, c)).len() ==> (s + site(r, c))[k] < next,
{
}

/// Site `j` is in the neighbor list of `i` exactly when the two are adjacent.
pub proof fn lemma_neighbor_seq_contains(i: int, j: usize)
    requires
        0 <= i < 10000,
    ensures
        neighbor_seq(i).contains(j) <==> adjacent(i, j as int),
{
    let r = row_of(i);
    let c = col_of(i);
    lemma_coords_of_index(i);
    let s1 = site(r - 1, c - 1);
    let s2 = site(r - 1, c);
    let s3 = site(r - 1, c + 1);
    let s4 = site(r, c - 1);
    let s5 = site(r, c + 1);
    let s6 = site(r + 1, c - 1);
    let s7 = site(r + 1, c);
    let s8 = site(r + 1, c + 1);
    lemma_add_contains(s1, s2, j);
    lemma_add_contains(s1 + s2, s3, j);
    lemma_add_contains(s1 + s2 + s3, s4, j);
    lemma_add_contains(s1 + s2 + s3 + s4, s5, j);
    lemma_add_contains(s1 + s2 + s3 + s4 + s5, s6, j);
    lemma_add_contains(s1 + s2 + s3 + s4 + s5 + s6, s7, j);
    lemma_add_contains(s1 + s2 + s3 + s4 + s5 + s6 + s7, s8, j);
    lemma_site_contains(r - 1, c - 1, j);
    lemma_site_contains(r - 1, c, j);
    lemma_site_contains(r - 1, c + 1, j);
    lemma_site_contains(r, c - 1, j);
    lemma_site_contains(r, c + 1, j);
    lemma_site_contains(r + 1, c - 1, j);
    lemma_site_contains(r + 1, c, j);
    lemma_site_contains(r + 1, c + 1, j);
    if 0 <= j < 10000 {
        lemma_coords_of_index(j as int);
    }
}

/// Corners have three neighbors, edge sites five and interior sites eight.
pub proof fn lemma_neighbor_count(i: int)
    requires
        0 <= i < 10000,
    ensures
        is_interior(i) ==> neighbor_seq(i).len() == 8,
        is_edge(i) ==> neighbor_seq(i).len() == 5,
        is_corner(i) ==> neighbor_seq(i).len() == 3,
{
    lemma_coords_of_index(i);
}

/// A neighbor list is strictly increasing, so it holds no index twice.
pub proof fn lemma_neighbor_seq_distinct(i: int)
    requires
        0 <= i < 10000,
    ensures
        strictly_increasing(neighbor_seq(i)),
        neighbor_seq(i).no_duplicates(),
{
    let r = row_of(i);
    let c = col_of(i);
    lemma_coords_of_index(i);
    let s0 = Seq::<usize>::empty();
    lemma_extend_increasing(s0, r - 1, c - 1, (r - 1) * 100 + c);
    let s1 = s0 + site(r - 1, c - 1);
    lemma_extend_increasing(s1, r - 1, c, (r - 1) * 100 + c + 1);
    let s2 = s1 + site(r - 1, c);
    lemma_extend_increasing(s2, r - 1, c + 1, r * 100 + c - 1);
    let s3 = s2 + site(r - 1, c + 1);
    lemma_extend_increasing(s3, r, c - 1, r * 100 + c + 1);
    let s4 = s3 + site(r, c - 1);
    lemma_extend_increasing(s4, r, c + 1, (r + 1) * 100 + c - 1);
    let s5 = s4 + site(r, c + 1);
    lemma_extend_increasing(s5, r + 1, c - 1, (r + 1) * 100 + c);
    let s6 = s5 + site(r + 1, c - 1);
    lemma_extend_increasing(s6, r + 1, c, (r + 1) * 100 + c + 1);
    let s7 = s6 + site(r + 1, c);
    lemma_extend_increasing(s7, r + 1, c + 1, (r + 1) * 100 + c + 2);
    let s8 = s7 + site(r + 1, c + 1);
    assert(s1 =~= site(r - 1, c - 1));
    assert(s8 =~= neighbor_seq(i));
}

/// Neighborhood is symmetric: `j` is a neighbor of `i` exactly when `i` is a
/// neighbor of `j`.
pub proof fn lemma_neighbor_symmetric(i: usize, j: usize)
    requires
        i < 10000,
        j < 10000,
    ensures
        neighbor_seq(i as int).contains(j) <==> neighbor_seq(j as int).contains(i),
{
    lemma_neighbor_seq_contains(i as int, j);
    lemma_neighbor_seq_contains(j as int, i);
}

/// No site is its own neighbor.
pub proof fn lemma_no_self_neighbor(i: usize)
    requires
        i < 10000,
    ensures
        !neighbor_seq(i as int).contains(i),
{
    lemma_neighbor_seq_contains(i as int, i);
}

/// Every index in a neighbor list is a valid site index.
pub proof fn lemma_neighbor_in_bounds(i: int, k: int)
    requires
        0 <= i < 10000,
        0 <= k < neighbor_seq(i).len(),
    ensures
        neighbor_seq(i)[k] < 10000,
{
    let j = neighbor_seq(i)[k];
    assert(neighbor_seq(i).contains(j));
    lemma_neighbor_seq_contains(i, j);
}

} // verus!
