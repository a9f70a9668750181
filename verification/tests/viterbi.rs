use pyin_rs::viterbi::{
    delta_index, is_valid_row, state_from_index, state_index, transition_window, HmmState,
    ViterbiTracker, MAX_TRANSITION, NUM_BINS,
};

#[test]
fn state_index_roundtrip() {
    for bin in [0usize, 1, 100, NUM_BINS - 1] {
        for voiced in [false, true] {
            let idx = state_index(bin, voiced);
            assert!(idx < 2 * NUM_BINS);
            assert_eq!(state_from_index(idx), HmmState { bin, voiced });
        }
    }
    assert_eq!(state_index(7, false), 7);
    assert_eq!(state_index(7, true), NUM_BINS + 7);
    assert_eq!(state_from_index(NUM_BINS), HmmState { bin: 0, voiced: true });
}

#[test]
fn transition_window_is_clamped() {
    assert_eq!(transition_window(0), (0, 25));
    assert_eq!(transition_window(100), (75, 125));
    assert_eq!(transition_window(NUM_BINS - 1), (NUM_BINS - 26, NUM_BINS - 1));
    assert_eq!(transition_window(NUM_BINS + 10), (NUM_BINS - 15, NUM_BINS - 1));
    assert_eq!(delta_index(-25), Some(0));
    assert_eq!(delta_index(0), Some(25));
    assert_eq!(delta_index(25), Some(50));
    assert_eq!(delta_index(26), None);
    assert_eq!(delta_index(-26), None);
}

fn bin_of(idx: usize) -> usize {
    if idx >= NUM_BINS {
        idx - NUM_BINS
    } else {
        idx
    }
}

/// Every state whose bin is near that of `state` points to it; the others
/// keep state 0, as the scoring step does when no predecessor scores.
fn row_pointing_to(state: usize) -> Vec<usize> {
    (0..2 * NUM_BINS)
        .map(|i| {
            if bin_of(i).abs_diff(bin_of(state)) <= MAX_TRANSITION {
                state
            } else {
                0
            }
        })
        .collect()
}

#[test]
fn backtracking_follows_backpointers() {
    let mut t = ViterbiTracker::new();
    t.push_row(vec![0; 2 * NUM_BINS]);
    t.push_row(row_pointing_to(state_index(100, true)));
    t.push_row(row_pointing_to(state_index(100, true)));
    let mut row = row_pointing_to(state_index(100, true));
    row[state_index(110, true)] = state_index(100, true);
    t.push_row(row);
    t.push_row(row_pointing_to(state_index(110, true)));
    assert_eq!(t.frames(), 5);
    let path = t.best_path(state_index(110, true));
    let bins: Vec<usize> = path.iter().map(|s| s.bin).collect();
    assert_eq!(bins, vec![100, 100, 100, 110, 110]);
    assert!(path.iter().all(|s| s.voiced));
    let suffix = t.best_suffix_from(2, state_index(110, true));
    assert_eq!(suffix, path[2..].to_vec());
    assert!(t.best_suffix_from(5, 0).is_empty());
}

#[test]
fn single_frame_path_is_final_state() {
    let mut t = ViterbiTracker::new();
    assert!(t.best_path(0).is_empty());
    t.push_row(vec![0; 2 * NUM_BINS]);
    assert_eq!(t.best_path(NUM_BINS + 3), vec![HmmState { bin: 3, voiced: true }]);
}

#[test]
fn prune_drops_oldest_frames() {
    let mut t = ViterbiTracker::new();
    for s in [1usize, 2, 3, 4] {
        t.push_row(row_pointing_to(s));
    }
    let full = t.best_path(9);
    t.prune(0);
    assert_eq!(t.frames(), 4);
    t.prune(2);
    assert_eq!(t.frames(), 2);
    assert_eq!(t.best_path(9), full[2..].to_vec());
    t.prune(10);
    assert_eq!(t.frames(), 0);
    assert!(t.best_path(9).is_empty());
}

#[test]
fn prune_keeps_every_suffix_and_push_extends_path() {
    let mut t = ViterbiTracker::new();
    for s in [1usize, 2, 3, 4, 5] {
        t.push_row(row_pointing_to(s));
        let n = t.frames();
        assert_eq!(t.best_path(8).len(), n);
        assert_eq!(t.best_suffix_from(n - 1, 8), vec![state_from_index(8)]);
    }
    let old: Vec<Vec<HmmState>> = (0..6).map(|k| t.best_suffix_from(k, 8)).collect();
    t.prune(2);
    for k in 0..4 {
        assert_eq!(t.best_suffix_from(k, 8), old[k + 2]);
    }
    assert_eq!(t.best_suffix_from(7, 8).len(), 0);
}

#[test]
fn rows_outside_the_window_are_refused() {
    assert!(is_valid_row(&vec![0; 2 * NUM_BINS]));
    assert!(is_valid_row(&row_pointing_to(state_index(200, true))));
    assert!(!is_valid_row(&vec![0; 2 * NUM_BINS - 1]));
    let mut row = vec![0; 2 * NUM_BINS];
    row[state_index(100, false)] = state_index(126, true);
    assert!(!is_valid_row(&row));
    row[state_index(100, false)] = state_index(125, true);
    assert!(is_valid_row(&row));
    row[3] = 2 * NUM_BINS;
    assert!(!is_valid_row(&row));
}

#[test]
fn decoded_path_moves_within_the_window() {
    let mut t = ViterbiTracker::new();
    t.push_row(vec![0; 2 * NUM_BINS]);
    // State (200, voiced) found no predecessor: it keeps state 0.
    t.push_row(vec![0; 2 * NUM_BINS]);
    t.push_row(row_pointing_to(state_index(200, true)));
    t.push_row(row_pointing_to(state_index(220, false)));
    let path = t.best_path(state_index(240, true));
    assert_eq!(
        path,
        vec![
            HmmState { bin: 0, voiced: false },
            HmmState { bin: 200, voiced: true },
            HmmState { bin: 220, voiced: false },
            HmmState { bin: 240, voiced: true },
        ]
    );
    for k in 1..path.len() {
        let (a, b) = (path[k - 1], path[k]);
        assert!(a == HmmState { bin: 0, voiced: false } || a.bin.abs_diff(b.bin) <= MAX_TRANSITION);
    }
}
