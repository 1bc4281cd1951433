use game_of_life::grid::{grid, Cell};

fn board_with(alive: &[(usize, usize)]) -> grid {
    let mut g = grid::new();
    for &(r, c) in alive {
        g.Cells[r * 100 + c].set_alive();
    }
    g
}

fn alive_set(g: &grid) -> Vec<(usize, usize)> {
    let mut v = Vec::new();
    for (i, s) in g.states().iter().enumerate() {
        if *s {
            v.push((i / 100, i % 100));
        }
    }
    v
}

fn sorted(mut v: Vec<(usize, usize)>) -> Vec<(usize, usize)> {
    v.sort();
    v
}

#[test]
fn test_rand() {
    let mut g = grid::new();
    g.random_gen();
    g.on_tick(true);
    assert_eq!(g.states().len(), 10000);
    for (i, c) in g.Cells.iter().enumerate() {
        assert_eq!(c.ind, i);
    }
}

#[test]
fn test_rect() {
    let mut g = grid::new();
    g.random_gen();
    let pts = g.points();
    assert_eq!(pts.len(), 10000);
    for (k, p) in pts.iter().enumerate() {
        assert_eq!((p.0, p.1), (k % 100, k / 100));
        assert_eq!(p.2, g.Cells[k].state);
    }
}

#[test]
fn new_grid_is_all_dead() {
    let g = grid::new();
    assert_eq!(g.Cells.len(), 10000);
    assert!(g.states().iter().all(|s| !*s));
    assert_eq!(g.Nes.len(), 10000);
}

#[test]
fn block_still_life() {
    let start = vec![(10, 10), (10, 11), (11, 10), (11, 11)];
    let mut g = board_with(&start);
    g.on_tick(true);
    assert_eq!(alive_set(&g), start);
    for _ in 0..999 {
        g.on_tick(true);
    }
    assert_eq!(alive_set(&g), start);
}

#[test]
fn blinker_period_two() {
    let start = vec![(20, 20), (20, 21), (20, 22)];
    let mut g = board_with(&start);
    g.on_tick(true);
    assert_eq!(alive_set(&g), vec![(19, 21), (20, 21), (21, 21)]);
    g.on_tick(true);
    assert_eq!(alive_set(&g), start);
}

#[test]
fn corner_l_tromino_becomes_block() {
    let mut g = board_with(&[(0, 0), (0, 1), (1, 0)]);
    g.on_tick(true);
    assert_eq!(alive_set(&g), vec![(0, 0), (0, 1), (1, 0), (1, 1)]);
}

#[test]
fn glider_moves_diagonally_after_four_steps() {
    let mut g = board_with(&[(1, 2), (2, 3), (3, 1), (3, 2), (3, 3)]);
    for _ in 0..4 {
        g.on_tick(true);
    }
    assert_eq!(
        sorted(alive_set(&g)),
        vec![(2, 3), (3, 4), (4, 2), (4, 3), (4, 4)]
    );
}

#[test]
fn empty_board_stays_empty() {
    let mut g = grid::new();
    g.on_tick(true);
    assert!(alive_set(&g).is_empty());
}

#[test]
fn full_board_leaves_four_corners() {
    let mut g = grid::new();
    g.set_states(&vec![true; 10000]);
    g.on_tick(true);
    assert_eq!(alive_set(&g), vec![(0, 0), (0, 99), (99, 0), (99, 99)]);
}

#[test]
fn inactive_tick_changes_nothing() {
    let start = vec![(20, 20), (20, 21), (20, 22)];
    let mut g = board_with(&start);
    g.on_tick(false);
    assert_eq!(alive_set(&g), start);
}

#[test]
fn step_is_deterministic() {
    let start = [(5, 5), (5, 6), (6, 7), (7, 5), (40, 40), (41, 41), (41, 42)];
    let mut a = board_with(&start);
    let mut b = board_with(&start);
    a.on_tick(true);
    b.on_tick(true);
    assert_eq!(a.states(), b.states());
}

#[test]
fn dead_cell_with_two_neighbors_stays_dead() {
    let mut g = board_with(&[(50, 49), (50, 51)]);
    g.on_tick(true);
    assert!(!g.Cells[50 * 100 + 50].state);
    assert!(alive_set(&g).is_empty());
}

#[test]
fn set_states_copies_bits() {
    let mut g = grid::new();
    let bits: Vec<bool> = (0..10000).map(|i| i % 3 == 0).collect();
    g.set_states(&bits);
    assert_eq!(g.states(), bits);
}

#[test]
fn random_gen_keeps_indices_and_is_mixed() {
    let mut g = grid::new();
    g.random_gen();
    let alive = g.states().iter().filter(|s| **s).count();
    assert!(alive > 4000 && alive < 6000);
    for (i, c) in g.Cells.iter().enumerate() {
        assert_eq!(c.ind, i);
    }
}

#[test]
fn rule_helpers() {
    let g = grid::new();
    assert!(g.alone(0) && g.alone(1) && !g.alone(2));
    assert!(!g.overpopulated(3) && g.overpopulated(4));
    assert!(g.can_be_revived(3) && !g.can_be_revived(2) && !g.can_be_revived(4));
}

#[test]
fn cell_setters_and_toggle() {
    let mut c = Cell { state: false, ind: 42 };
    c.set_alive();
    assert!(c.is_alive());
    c.set_dead();
    assert!(!c.state);
    c._toggle();
    assert!(c.state);
    c._toggle();
    assert!(!c.state);
    assert_eq!(c.ind, 42);
}

#[test]
fn neighbours_of_corners_edges_and_interior() {
    let n = |i: usize| Cell { state: false, ind: i }.neighbours();
    assert_eq!(n(0), vec![1, 100, 101]);
    assert_eq!(n(99), vec![98, 198, 199]);
    assert_eq!(n(9900), vec![9800, 9801, 9901]);
    assert_eq!(n(9999), vec![9898, 9899, 9998]);
    assert_eq!(n(50), vec![49, 51, 149, 150, 151]);
    assert_eq!(n(100), vec![0, 1, 101, 200, 201]);
    assert_eq!(n(199), vec![98, 99, 198, 298, 299]);
    assert_eq!(n(550), vec![449, 450, 451, 549, 551, 649, 650, 651]);
}

#[test]
fn neighbour_lists_symmetric_and_sized() {
    let g = grid::new();
    for i in 0..10000usize {
        let (r, c) = (i / 100, i % 100);
        let edge_r = r == 0 || r == 99;
        let edge_c = c == 0 || c == 99;
        let want = match (edge_r, edge_c) {
            (true, true) => 3,
            (false, false) => 8,
            _ => 5,
        };
        assert_eq!(g.Nes[i].len(), want);
        assert!(!g.Nes[i].contains(&i));
        for &j in &g.Nes[i] {
            assert!(j < 10000);
            assert!(g.Nes[j].contains(&i));
        }
    }
}
