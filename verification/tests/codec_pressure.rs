use webcodecs::codec_pressure::{
    CodecPressureGauge, DEFAULT_MAX_HW_ENCODERS, MACOS_MAX_HW_ENCODERS,
};
use webcodecs::hardware::TargetOs;

#[test]
fn test_acquire_release() {
    for os in [TargetOs::MacOs, TargetOs::Linux, TargetOs::Windows, TargetOs::Other] {
        acquire_release_on(os);
    }
}

fn acquire_release_on(os: TargetOs) {
    let mut gauge = CodecPressureGauge::new(os);
    assert_eq!(gauge.active_hw_encoders(), 0);

    // Acquire slots up to max
    for i in 0..gauge.max_hw_encoders() {
        assert!(gauge.try_acquire_hw_encoder());
        assert_eq!(gauge.active_hw_encoders(), i + 1);
    }

    // Should fail at capacity
    assert!(!gauge.try_acquire_hw_encoder());
    assert_eq!(gauge.active_hw_encoders(), gauge.max_hw_encoders());

    // Release one
    gauge.release_hw_encoder();
    assert_eq!(gauge.active_hw_encoders(), gauge.max_hw_encoders() - 1);

    // Can acquire again
    assert!(gauge.try_acquire_hw_encoder());
    assert_eq!(gauge.active_hw_encoders(), gauge.max_hw_encoders());

    // Release all
    for _ in 0..gauge.max_hw_encoders() {
        gauge.release_hw_encoder();
    }
    assert_eq!(gauge.active_hw_encoders(), 0);
}

#[test]
fn gauge_limit_is_two_on_macos_and_four_elsewhere() {
    assert_eq!(CodecPressureGauge::new(TargetOs::MacOs).max_hw_encoders(), 2);
    assert_eq!(CodecPressureGauge::new(TargetOs::Linux).max_hw_encoders(), 4);
    assert_eq!(CodecPressureGauge::new(TargetOs::Windows).max_hw_encoders(), 4);
    assert_eq!(CodecPressureGauge::new(TargetOs::Other).max_hw_encoders(), 4);
    assert_eq!(MACOS_MAX_HW_ENCODERS, 2);
    assert_eq!(DEFAULT_MAX_HW_ENCODERS, 4);
}

#[test]
fn gauge_with_custom_limit_refuses_beyond_it() {
    let mut gauge = CodecPressureGauge::with_limit(1);
    assert!(gauge.try_acquire_hw_encoder());
    assert!(!gauge.try_acquire_hw_encoder());
    assert_eq!(gauge.active_hw_encoders(), 1);
}

#[test]
fn gauge_release_without_acquire_wraps_like_an_atomic() {
    let mut gauge = CodecPressureGauge::new(TargetOs::Linux);
    gauge.release_hw_encoder();
    assert_eq!(gauge.active_hw_encoders(), u32::MAX);
    assert!(!gauge.try_acquire_hw_encoder());
}

#[test]
fn gauge_never_exceeds_its_limit_when_releases_follow_acquires() {
    let mut gauge = CodecPressureGauge::new(TargetOs::MacOs);
    let mut held = 0u32;
    for round in 0..20u32 {
        if round % 3 == 2 && held > 0 {
            gauge.release_hw_encoder();
            held -= 1;
        } else if gauge.try_acquire_hw_encoder() {
            held += 1;
        }
        assert!(gauge.active_hw_encoders() <= gauge.max_hw_encoders());
        assert_eq!(gauge.active_hw_encoders(), held);
    }
}
