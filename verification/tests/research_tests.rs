use quant_platform::research::{aligned_len, cube_window_pairs, unique_sorted_usize, walk_forward_windows, window_grid, WalkForwardWindow};

#[test]
fn aligned_len_of_empty_universe_is_zero() {
    assert_eq!(aligned_len(&[]), 0);
}

#[test]
fn aligned_len_is_shortest_series() {
    assert_eq!(aligned_len(&[900, 850, 870]), 850);
    assert_eq!(aligned_len(&[7]), 7);
}

#[test]
fn unique_sorted_sorts_and_removes_duplicates() {
    assert_eq!(unique_sorted_usize(vec![10, 8, 12, 8]), vec![8, 10, 12]);
    assert_eq!(unique_sorted_usize(vec![3, 2, 1]), vec![1, 2, 3]);
}

#[test]
fn unique_sorted_of_empty_and_repeated() {
    assert_eq!(unique_sorted_usize(vec![]), Vec::<usize>::new());
    assert_eq!(unique_sorted_usize(vec![5, 5, 5]), vec![5]);
}

#[test]
fn unique_sorted_is_idempotent_and_order_blind() {
    let once = unique_sorted_usize(vec![40, 20, 60, 20, 40]);
    let twice = unique_sorted_usize(once.clone());
    assert_eq!(once, twice);
    assert_eq!(once, unique_sorted_usize(vec![60, 40, 20]));
}

#[test]
fn cube_pairs_around_typical_config() {
    let pairs = cube_window_pairs(10, 80);
    let mut expected = Vec::new();
    for s in [8, 10, 12] {
        for l in [60, 80, 100] {
            expected.push((s, l));
        }
    }
    assert_eq!(pairs, expected);
}

#[test]
fn cube_pairs_clamp_small_windows() {
    assert_eq!(cube_window_pairs(2, 5), vec![(2, 3), (2, 5), (2, 25), (4, 5), (4, 25)]);
}

#[test]
fn cube_pairs_skip_short_not_below_long() {
    assert_eq!(
        cube_window_pairs(12, 13),
        vec![(10, 13), (10, 33), (12, 13), (12, 33), (14, 33)]
    );
}

#[test]
fn walk_forward_single_window() {
    assert_eq!(
        walk_forward_windows(1000, 700, 180, 180),
        vec![WalkForwardWindow { window: 1, train_start: 0, train_end: 700, test_start: 700, test_end: 880 }]
    );
}

#[test]
fn walk_forward_several_windows() {
    let w = walk_forward_windows(1500, 700, 180, 180);
    assert_eq!(w.len(), 4);
    for (k, win) in w.iter().enumerate() {
        assert_eq!(win.window, k + 1);
        assert_eq!(win.train_start, 180 * k);
        assert_eq!(win.train_end, 180 * k + 700);
        assert_eq!(win.test_start, win.train_end);
        assert_eq!(win.test_end, 180 * k + 880);
        assert!(win.test_end <= 1500);
    }
}

#[test]
fn walk_forward_too_little_data() {
    assert!(walk_forward_windows(800, 700, 180, 180).is_empty());
    assert_eq!(walk_forward_windows(880, 700, 180, 180).len(), 1);
}

#[test]
fn grid_keeps_short_below_long_in_visit_order() {
    assert_eq!(
        window_grid(&[8, 10, 12], &[60, 80, 100]),
        vec![(8, 60), (8, 80), (8, 100), (10, 60), (10, 80), (10, 100), (12, 60), (12, 80), (12, 100)]
    );
    assert_eq!(window_grid(&[5, 30, 20], &[20, 25]), vec![(5, 20), (5, 25), (20, 25)]);
    assert!(window_grid(&[], &[1, 2]).is_empty());
    assert!(window_grid(&[3], &[]).is_empty());
}

#[test]
fn backtester_grid_size() {
    let shorts: Vec<usize> = (5..30).collect();
    let longs: Vec<usize> = (20..100).collect();
    let grid = window_grid(&shorts, &longs);
    let expected = shorts.iter().map(|s| longs.iter().filter(|l| s < l).count()).sum::<usize>();
    assert_eq!(grid.len(), expected);
    assert_eq!(grid[0], (5, 20));
    assert_eq!(*grid.last().unwrap(), (29, 99));
}

#[test]
fn walk_forward_zero_step_without_room_is_empty() {
    assert!(walk_forward_windows(100, 70, 40, 0).is_empty());
}
