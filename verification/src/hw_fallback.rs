//! Hardware encoding fallback: after repeated hardware encoder failures,
//! hardware encoding is disabled; it is re-enabled after a forgiveness
//! interval, and a success clears the failure count.

use vstd::prelude::*;
use std::time::{Duration, Instant};

verus! {

/// Failures after which hardware encoding is disabled.
pub const GLOBAL_FAILURE_THRESHOLD: u32 = 3;

/// Seconds after disabling at which hardware encoding is re-enabled.
pub const FORGIVENESS_INTERVAL_SECS: u64 = 60;

#[verifier::external_type_specification]
#[verifier::external_body]
pub struct ExInstant(Instant);

/// `Instant::now()`: the current instant. Nothing is stated of it.
#[verifier::external_body]
fn instant_now() -> Instant {
    Instant::now()
}

/// `Instant::elapsed()`: the time since `since`, read from the clock.
/// Nothing is stated of it.
#[verifier::external_body]
fn elapsed_since(since: &Instant) -> Duration {
    since.elapsed()
}

/// `Duration::as_secs()`: the whole seconds of a duration. Nothing is stated
/// of it here, since a duration is opaque to the proofs.
#[verifier::external_body]
fn whole_secs(d: &Duration) -> u64 {
    d.as_secs()
}

/// The abstract state: whether hardware encoding is disabled, the count of
/// consecutive failures, and the instant at which it was disabled.
pub struct HwFallbackView {
    pub disabled: bool,
    pub failure_count: u32,
    pub disabled_at: Option<Instant>,
}

/// Failure tracking for hardware encoding.
pub struct HwFallbackState {
    encoding_disabled: bool,
    encoding_failure_count: u32,
    encoding_disabled_at: Option<Instant>,
}

/// The state after a reset: enabled, no failures, no instant.
pub open spec fn cleared() -> HwFallbackView {
    HwFallbackView { disabled: false, failure_count: 0, disabled_at: None }
}

/// One failure: the count rises by one (saturating); reaching the threshold
/// while enabled disables hardware encoding and records a fresh instant;
/// otherwise the instant is kept.
pub open spec fn failure_step(pre: HwFallbackView, post: HwFallbackView) -> bool {
    let count = if pre.failure_count == u32::MAX {
        u32::MAX
    } else {
        (pre.failure_count + 1) as u32
    };
    &&& post.failure_count == count
    &&& post.disabled == (pre.disabled || count >= GLOBAL_FAILURE_THRESHOLD)
    &&& if !pre.disabled && count >= GLOBAL_FAILURE_THRESHOLD {
        post.disabled_at is Some
    } else {
        post.disabled_at == pre.disabled_at
    }
}

/// One success: the failure count returns to zero; nothing else changes.
pub open spec fn success_step(pre: HwFallbackView) -> HwFallbackView {
    HwFallbackView { failure_count: 0, ..pre }
}

/// The answer to "is hardware encoding disabled?" given the whole seconds
/// elapsed since it was disabled (`None` when no instant is recorded).
pub open spec fn disabled_answer(pre: HwFallbackView, elapsed_secs: Option<u64>) -> bool {
    pre.disabled && !(elapsed_secs matches Some(e) && e >= FORGIVENESS_INTERVAL_SECS)
}

/// The state after that question: forgiven states are cleared.
pub open spec fn after_check(pre: HwFallbackView, elapsed_secs: Option<u64>) -> HwFallbackView {
    if pre.disabled && !disabled_answer(pre, elapsed_secs) {
        cleared()
    } else {
        pre
    }
}

impl HwFallbackState {
    pub closed spec fn view(&self) -> HwFallbackView {
        HwFallbackView {
            disabled: self.encoding_disabled,
            failure_count: self.encoding_failure_count,
            disabled_at: self.encoding_disabled_at,
        }
    }

    /// A state with hardware encoding enabled and no failures.
    pub fn new() -> (s: Self)
        ensures
            s.view() == cleared(),
    {
        HwFallbackState {
            encoding_disabled: false,
            encoding_failure_count: 0,
            encoding_disabled_at: None,
        }
    }

    /// The instant at which hardware encoding was disabled, if recorded.
    pub fn encoding_disabled_at(&self) -> (r: Option<Instant>)
        ensures
            r == self.view().disabled_at,
    {
        self.encoding_disabled_at
    }

    /// The number of consecutive failures.
    pub fn encoding_failure_count(&self) -> (r: u32)
        ensures
            r == self.view().failure_count,
    {
        self.encoding_failure_count
    }
}

/// Clear all failure tracking and re-enable hardware encoding.
pub fn reset_hardware_fallback_state(state: &mut HwFallbackState)
    ensures
        final(state).view() == cleared(),
{
    state.encoding_disabled = false;
    state.encoding_failure_count = 0;
    state.encoding_disabled_at = None;
}

/// Decide whether hardware encoding is disabled, given the whole seconds
/// elapsed since it was disabled. Once the forgiveness interval has passed,
/// the state is cleared and hardware encoding is allowed again.
pub fn is_hw_encoding_disabled_after(state: &mut HwFallbackState, elapsed_secs: Option<u64>) -> (r:
    bool)
    ensures
        r == disabled_answer(old(state).view(), elapsed_secs),
        final(state).view() == after_check(old(state).view(), elapsed_secs),
{
    if !state.encoding_disabled {
        return false;
    }
    if let Some(e) = elapsed_secs {
        if e >= FORGIVENESS_INTERVAL_SECS {
            state.encoding_disabled = false;
            state.encoding_failure_count = 0;
            state.encoding_disabled_at = None;
            return false;
        }
    }
    true
}

/// Whether hardware encoding is currently disabled, measuring the time since
/// it was disabled on the clock. An enabled state answers `false` and is left
/// alone; a disabled state answers `true` unchanged, or is cleared and answers
/// `false` once its recorded instant is at least the forgiveness interval old.
pub fn is_hw_encoding_disabled(state: &mut HwFallbackState) -> (r: bool)
    ensures
        !old(state).view().disabled ==> !r && final(state).view() == old(state).view(),
        old(state).view().disabled && old(state).view().disabled_at is None ==> r
            && final(state).view() == old(state).view(),
        r ==> final(state).view() == old(state).view(),
        old(state).view().disabled && !r ==> final(state).view() == cleared(),
        exists|e: Option<u64>|
            (e is Some) == (old(state).view().disabled_at is Some) && r == disabled_answer(
                old(state).view(),
                e,
            ) && final(state).view() == after_check(old(state).view(), e),
{
    let elapsed = match &state.encoding_disabled_at {
        Some(since) => Some(whole_secs(&elapsed_since(since))),
        None => None,
    };
    is_hw_encoding_disabled_after(state, elapsed)
}

/// Record a hardware encoding failure. Reaching the threshold disables
/// hardware encoding; the instant is only recorded when first disabled.
pub fn record_hw_encoding_failure(state: &mut HwFallbackState)
    ensures
        failure_step(old(state).view(), final(state).view()),
{
    state.encoding_failure_count = state.encoding_failure_count.saturating_add(1);
    if state.encoding_failure_count >= GLOBAL_FAILURE_THRESHOLD && !state.encoding_disabled {
        state.encoding_disabled = true;
        state.encoding_disabled_at = Some(instant_now());
    }
}

/// Record a successful hardware encoding operation: the failure count
/// returns to zero.
pub fn record_hw_encoding_success(state: &mut HwFallbackState)
    ensures
        final(state).view() == success_step(old(state).view()),
{
    state.encoding_failure_count = 0;
}

/// Law: from a cleared state, reaching the threshold of consecutive failures
/// disables hardware encoding, records when, and the question then answers
/// `true` until the forgiveness interval has elapsed.
pub proof fn lemma_threshold_failures_disable(
    s0: HwFallbackView,
    s1: HwFallbackView,
    s2: HwFallbackView,
    s3: HwFallbackView,
    elapsed_secs: u64,
)
    requires
        s0 == cleared(),
        failure_step(s0, s1),
        failure_step(s1, s2),
        failure_step(s2, s3),
        elapsed_secs < FORGIVENESS_INTERVAL_SECS,
    ensures
        !s1.disabled,
        !s2.disabled,
        s3.disabled,
        s3.disabled_at is Some,
        disabled_answer(s3, Some(elapsed_secs)),
{
}

/// Law: a success clears the failure count, so fewer than threshold failures
/// after it leave an enabled state enabled.
pub proof fn lemma_success_resets_count(
    s0: HwFallbackView,
    s1: HwFallbackView,
    s2: HwFallbackView,
    e: Option<u64>,
)
    requires
        !s0.disabled,
        failure_step(success_step(s0), s1),
        failure_step(s1, s2),
    ensures
        !s2.disabled,
        !disabled_answer(s2, e),
        s2.failure_count == 2,
{
}

/// Law: further failures while disabled do not move the recorded instant.
pub proof fn lemma_failures_keep_disabled_instant(pre: HwFallbackView, post: HwFallbackView)
    requires
        pre.disabled,
        failure_step(pre, post),
    ensures
        post.disabled,
        post.disabled_at == pre.disabled_at,
{
}

/// Law: after a reset, hardware encoding is allowed whatever the clock says.
pub proof fn lemma_reset_enables(e: Option<u64>)
    ensures
        !disabled_answer(cleared(), e),
        after_check(cleared(), e) == cleared(),
{
}

/// Law: the forgiveness interval re-enables hardware encoding and clears the
/// failure count.
pub proof fn lemma_forgiveness(pre: HwFallbackView, e: u64)
    requires
        pre.disabled,
        e >= FORGIVENESS_INTERVAL_SECS,
    ensures
        !disabled_answer(pre, Some(e)),
        after_check(pre, Some(e)).failure_count == 0,
        !after_check(pre, Some(e)).disabled,
{
}

/// Law: once disabled with a recorded instant, hardware encoding stays
/// disabled for exactly the first minute after it.
pub proof fn lemma_disabled_for_one_minute(pre: HwFallbackView, e: u64)
    requires
        pre.disabled,
    ensures
        disabled_answer(pre, Some(e)) == (e < 60),
        !disabled_answer(pre, Some(e)) ==> after_check(pre, Some(e)) == cleared(),
{
}

} // verus!
