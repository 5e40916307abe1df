use powerline_claude::progress::{osc_sequence, progress, ProgressState};

#[test]
fn progress_low_usage_is_normal_state() {
    assert_eq!(progress(0), (ProgressState::Normal, 0));
    assert_eq!(progress(39), (ProgressState::Normal, 48)); // 39*100/80
}

#[test]
fn progress_warning_from_forty_percent() {
    assert_eq!(progress(40).0, ProgressState::Warning);
    assert_eq!(progress(59).0, ProgressState::Warning);
}

#[test]
fn progress_error_from_sixty_percent() {
    assert_eq!(progress(60).0, ProgressState::Error);
    assert_eq!(progress(95).0, ProgressState::Error);
}

#[test]
fn progress_bar_scales_to_compact_threshold_and_caps_at_full() {
    // the host compacts at 80% context, so 80% usage = a full bar
    assert_eq!(progress(40).1, 50);
    assert_eq!(progress(80).1, 100);
    assert_eq!(progress(99).1, 100);
}

#[test]
fn progress_sequence_is_conemu_osc_9_4() {
    assert_eq!(osc_sequence(30), "\x1b]9;4;1;37\x07");
    assert_eq!(osc_sequence(50), "\x1b]9;4;4;62\x07");
    assert_eq!(osc_sequence(70), "\x1b]9;4;2;87\x07");
}

#[test]
fn fill_never_shrinks_as_usage_grows() {
    let mut last = 0;
    for used in 0..200u64 {
        let (_, fill) = progress(used);
        assert!(fill >= last, "fill shrank at {used}");
        last = fill;
    }
}

#[test]
fn bar_is_full_exactly_from_eighty_percent() {
    assert_eq!(progress(79).1, 98);
    assert_eq!(progress(80).1, 100);
    assert_eq!(progress(1000).1, 100);
}

#[test]
fn osc_codes_match_conemu_states() {
    assert_eq!(ProgressState::Normal.osc_code(), 1);
    assert_eq!(ProgressState::Warning.osc_code(), 4);
    assert_eq!(ProgressState::Error.osc_code(), 2);
}

#[test]
fn zero_usage_sequence_is_empty_normal_bar() {
    assert_eq!(osc_sequence(0), "\x1b]9;4;1;0\x07");
}

#[test]
fn low_usage_is_normal_state() {
    assert_eq!(progress(0), (ProgressState::Normal, 0));
    assert_eq!(progress(39), (ProgressState::Normal, 48)); // 39*100/80
}

#[test]
fn warning_from_forty_percent() {
    assert_eq!(progress(40).0, ProgressState::Warning);
    assert_eq!(progress(59).0, ProgressState::Warning);
}

#[test]
fn error_from_sixty_percent() {
    assert_eq!(progress(60).0, ProgressState::Error);
    assert_eq!(progress(95).0, ProgressState::Error);
}

#[test]
fn bar_scales_to_compact_threshold_and_caps_at_full() {
    // the host compacts at 80% context, so 80% usage = a full bar
    assert_eq!(progress(40).1, 50);
    assert_eq!(progress(80).1, 100);
    assert_eq!(progress(99).1, 100);
}

#[test]
fn sequence_is_conemu_osc_9_4() {
    assert_eq!(osc_sequence(30), "\x1b]9;4;1;37\x07");
    assert_eq!(osc_sequence(50), "\x1b]9;4;4;62\x07");
    assert_eq!(osc_sequence(70), "\x1b]9;4;2;87\x07");
}
