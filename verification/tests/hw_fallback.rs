use webcodecs::hw_fallback::{
    is_hw_encoding_disabled, is_hw_encoding_disabled_after, record_hw_encoding_failure,
    record_hw_encoding_success, reset_hardware_fallback_state, HwFallbackState,
    FORGIVENESS_INTERVAL_SECS, GLOBAL_FAILURE_THRESHOLD,
};

#[test]
fn test_encoding_failure_threshold() {
    let mut state = HwFallbackState::new();
    reset_hardware_fallback_state(&mut state);

    assert!(!is_hw_encoding_disabled(&mut state));

    for _ in 0..GLOBAL_FAILURE_THRESHOLD {
        record_hw_encoding_failure(&mut state);
    }

    assert!(is_hw_encoding_disabled(&mut state));
}

#[test]
fn test_encoding_success_resets_count() {
    let mut state = HwFallbackState::new();
    reset_hardware_fallback_state(&mut state);

    record_hw_encoding_failure(&mut state);
    record_hw_encoding_failure(&mut state);

    record_hw_encoding_success(&mut state);

    record_hw_encoding_failure(&mut state);
    record_hw_encoding_failure(&mut state);

    assert!(!is_hw_encoding_disabled(&mut state));
}

#[test]
fn test_reset_clears_state() {
    let mut state = HwFallbackState::new();
    reset_hardware_fallback_state(&mut state);

    for _ in 0..GLOBAL_FAILURE_THRESHOLD {
        record_hw_encoding_failure(&mut state);
    }

    assert!(is_hw_encoding_disabled(&mut state));

    reset_hardware_fallback_state(&mut state);

    assert!(!is_hw_encoding_disabled(&mut state));
}

#[test]
fn test_additional_failures_dont_restart_timer() {
    let mut state = HwFallbackState::new();
    reset_hardware_fallback_state(&mut state);

    for _ in 0..GLOBAL_FAILURE_THRESHOLD {
        record_hw_encoding_failure(&mut state);
    }

    assert!(is_hw_encoding_disabled(&mut state));

    let disabled_at = state.encoding_disabled_at();
    assert!(disabled_at.is_some());

    record_hw_encoding_failure(&mut state);
    record_hw_encoding_failure(&mut state);

    let disabled_at_after = state.encoding_disabled_at();
    assert_eq!(disabled_at, disabled_at_after);
}

#[test]
fn forgiveness_interval_reenables_hardware() {
    let mut state = HwFallbackState::new();
    for _ in 0..GLOBAL_FAILURE_THRESHOLD {
        record_hw_encoding_failure(&mut state);
    }
    assert!(is_hw_encoding_disabled_after(&mut state, Some(FORGIVENESS_INTERVAL_SECS - 1)));
    assert!(!is_hw_encoding_disabled_after(&mut state, Some(FORGIVENESS_INTERVAL_SECS)));
    assert_eq!(state.encoding_failure_count(), 0);
    assert!(state.encoding_disabled_at().is_none());
}

#[test]
fn failure_count_grows_below_threshold() {
    let mut state = HwFallbackState::new();
    record_hw_encoding_failure(&mut state);
    assert_eq!(state.encoding_failure_count(), 1);
    assert!(state.encoding_disabled_at().is_none());
}
