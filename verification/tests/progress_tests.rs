use vote_bootstrap::progress::{check_progress_sequence, sync_progress};

#[test]
fn sync_progress_boundary_values() {
    assert_eq!(sync_progress(0, 2, 0), 0);
    assert_eq!(sync_progress(0, 2, 1), 25);
    assert_eq!(sync_progress(1000, 1010, 1000), 0);
    assert_eq!(sync_progress(1000, 1010, 1005), 25);
    assert_eq!(sync_progress(1000, 1010, 1009), 45);
    assert_eq!(sync_progress(0, 100, 99), 49);
}

#[test]
fn sync_progress_wide_window_no_overflow() {
    let end = u32::MAX;
    assert_eq!(sync_progress(0, end, end - 1), 49);
    assert_eq!(sync_progress(0, end, 0), 0);
}

#[test]
fn sync_progress_monotone_and_below_50() {
    let mut last = 0u32;
    for h in 3000u32..3100u32 {
        let p = sync_progress(3000, 3100, h);
        assert!(p < 50);
        assert!(p >= last);
        last = p;
    }
}

#[test]
fn progress_sequence_checker_accepts_valid_runs() {
    assert!(check_progress_sequence(&vec![0, 10, 49, 75, 100]));
    assert!(check_progress_sequence(&vec![0, 0, 25, 25, 75, 100]));
    assert!(check_progress_sequence(&vec![75, 100]));
}

#[test]
fn progress_sequence_checker_rejects_invalid_runs() {
    assert!(!check_progress_sequence(&vec![]));
    assert!(!check_progress_sequence(&vec![100]));
    assert!(!check_progress_sequence(&vec![0, 75]));
    assert!(!check_progress_sequence(&vec![50, 75, 100]));
    assert!(!check_progress_sequence(&vec![10, 5, 75, 100]));
    assert!(!check_progress_sequence(&vec![0, 100, 75]));
    assert!(!check_progress_sequence(&vec![0, 75, 101]));
}
