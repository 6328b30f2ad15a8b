//! Tracks the number of active hardware encoder sessions so that callers can
//! degrade to software encoding once the platform limit is reached.

use crate::hardware::TargetOs;
use vstd::prelude::*;

verus! {

/// Number of concurrent hardware encoder sessions allowed where the platform
/// sets no stricter limit (NVENC, VAAPI, QSV are generally permissive).
pub const DEFAULT_MAX_HW_ENCODERS: u32 = 4;

/// Number of concurrent hardware encoder sessions allowed on macOS, where
/// VideoToolbox is particularly restrictive.
pub const MACOS_MAX_HW_ENCODERS: u32 = 2;

/// The hardware encoder session limit of a platform.
pub open spec fn platform_max_hw_encoders(os: TargetOs) -> u32 {
    match os {
        TargetOs::MacOs => MACOS_MAX_HW_ENCODERS,
        _ => DEFAULT_MAX_HW_ENCODERS,
    }
}

/// A step taken on a gauge.
#[derive(Debug, Clone, Copy, PartialEq, Eq, Structural)]
pub enum GaugeStep {
    /// `try_acquire_hw_encoder`.
    Acquire,
    /// `release_hw_encoder`.
    Release,
}

/// The active count after one step: an acquire counts one more when below
/// the limit; a release counts one fewer, wrapping around at zero.
pub open spec fn active_after(active: u32, limit: u32, step: GaugeStep) -> u32 {
    match step {
        GaugeStep::Acquire => if active < limit {
            (active + 1) as u32
        } else {
            active
        },
        GaugeStep::Release => if active > 0 {
            (active - 1) as u32
        } else {
            u32::MAX
        },
    }
}

/// The active count after a run of steps.
pub open spec fn active_after_steps(active: u32, limit: u32, steps: Seq<GaugeStep>) -> u32
    decreases steps.len(),
{
    if steps.len() == 0 {
        active
    } else {
        active_after_steps(active_after(active, limit, steps[0]), limit, steps.drop_first())
    }
}

/// Every release in the run gives back a session held at that point: it
/// comes when the active count is above zero.
pub open spec fn releases_follow_acquires(active: u32, limit: u32, steps: Seq<GaugeStep>) -> bool
    decreases steps.len(),
{
    if steps.len() == 0 {
        true
    } else {
        (steps[0] == GaugeStep::Release ==> active > 0) && releases_follow_acquires(
            active_after(active, limit, steps[0]),
            limit,
            steps.drop_first(),
        )
    }
}

/// A gauge never holds more sessions than its limit: from a count within the
/// limit, every prefix of a run of acquires and releases in which each
/// release gives back a held session leaves the count within the limit. (The
/// process-wide gauge is used under a lock, so concurrent calls take effect
/// one after another as such a run.)
pub proof fn lemma_gauge_stays_within_limit(active: u32, limit: u32, steps: Seq<GaugeStep>)
    requires
        active <= limit,
        releases_follow_acquires(active, limit, steps),
    ensures
        forall|k: int|
            0 <= k <= steps.len() ==> #[trigger] active_after_steps(active, limit, steps.take(k))
                <= limit,
    decreases steps.len(),
{
    if steps.len() > 0 {
        let next = active_after(active, limit, steps[0]);
        lemma_gauge_stays_within_limit(next, limit, steps.drop_first());
        assert forall|k: int| 0 <= k <= steps.len() implies #[trigger] active_after_steps(
            active,
            limit,
            steps.take(k),
        ) <= limit by {
            if k > 0 {
                assert(steps.take(k)[0] == steps[0]);
                assert(steps.take(k).drop_first() =~= steps.drop_first().take(k - 1));
                assert(active_after_steps(next, limit, steps.drop_first().take(k - 1)) <= limit);
            } else {
                assert(steps.take(k) =~= Seq::<GaugeStep>::empty());
            }
        }
    } else {
        assert forall|k: int| 0 <= k <= steps.len() implies #[trigger] active_after_steps(
            active,
            limit,
            steps.take(k),
        ) <= limit by {
            assert(steps.take(k) =~= Seq::<GaugeStep>::empty());
        }
    }
}

/// Counts active hardware video encoder sessions against a fixed limit.
///
/// The gauge is plain data; a process-wide instance is shared behind a lock so
/// that check-and-increment happens atomically.
pub struct CodecPressureGauge {
    hw_video_encoders: u32,
    max_hw_encoders: u32,
}

impl CodecPressureGauge {
    /// Number of sessions currently held.
    pub closed spec fn active(&self) -> u32 {
        self.hw_video_encoders
    }

    /// Maximum number of sessions.
    pub closed spec fn limit(&self) -> u32 {
        self.max_hw_encoders
    }

    /// A gauge with no active sessions and the session limit of the platform
    /// it runs on: 2 on macOS, 4 elsewhere.
    pub fn new(os: TargetOs) -> (g: Self)
        ensures
            g.active() == 0,
            g.limit() == platform_max_hw_encoders(os),
            os == TargetOs::MacOs ==> g.limit() == 2,
            os != TargetOs::MacOs ==> g.limit() == 4,
    {
        let limit: u32 = match os {
            TargetOs::MacOs => MACOS_MAX_HW_ENCODERS,
            _ => DEFAULT_MAX_HW_ENCODERS,
        };
        Self::with_limit(limit)
    }

    /// A gauge with no active sessions and the given limit.
    pub fn with_limit(max_hw_encoders: u32) -> (g: Self)
        ensures
            g.active() == 0,
            g.limit() == max_hw_encoders,
    {
        CodecPressureGauge { hw_video_encoders: 0, max_hw_encoders }
    }

    /// Try to acquire a hardware encoder slot: succeeds exactly when fewer
    /// sessions than the limit are active, and then counts one more.
    pub fn try_acquire_hw_encoder(&mut self) -> (acquired: bool)
        ensures
            acquired == (old(self).active() < old(self).limit()),
            final(self).limit() == old(self).limit(),
            final(self).active() == active_after(old(self).active(), old(self).limit(), GaugeStep::Acquire),
            acquired ==> final(self).active() == old(self).active() + 1,
            !acquired ==> final(self).active() == old(self).active(),
    {
        let current = self.hw_video_encoders;
        if current >= self.max_hw_encoders {
            return false;
        }
        self.hw_video_encoders = current + 1;
        true
    }

    /// Release a hardware encoder slot. The counter wraps around as an atomic
    /// subtraction does when nothing was held.
    pub fn release_hw_encoder(&mut self)
        ensures
            final(self).limit() == old(self).limit(),
            final(self).active() == active_after(old(self).active(), old(self).limit(), GaugeStep::Release),
            old(self).active() > 0 ==> final(self).active() == old(self).active() - 1,
            old(self).active() == 0 ==> final(self).active() == u32::MAX,
    {
        self.hw_video_encoders = self.hw_video_encoders.wrapping_sub(1);
    }

    /// Number of sessions currently held.
    pub fn active_hw_encoders(&self) -> (n: u32)
        ensures
            n == self.active(),
    {
        self.hw_video_encoders
    }

    /// Maximum number of sessions allowed.
    pub fn max_hw_encoders(&self) -> (n: u32)
        ensures
            n == self.limit(),
    {
        self.max_hw_encoders
    }
}

} // verus!
