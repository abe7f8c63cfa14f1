//! Rekey trigger policy: a pure predicate over session age and frame count.

use vstd::prelude::*;

verus! {

/// Default maximum age of a key epoch, in seconds (24 hours).
pub const REKEY_MAX_AGE_SECS: u64 = 86400;

/// Default maximum number of frames sealed or opened under one key epoch.
pub const REKEY_MAX_FRAMES: u64 = 1000000;

/// True when a session has lived long enough or carried enough frames that
/// its keys should be rotated: at or past 24 hours of age, or at or past
/// one million frames.
pub fn should_rekey(age_secs: u64, frame_count: u64) -> (r: bool)
    ensures
        r == (age_secs >= REKEY_MAX_AGE_SECS || frame_count >= REKEY_MAX_FRAMES),
{
    age_secs >= REKEY_MAX_AGE_SECS || frame_count >= REKEY_MAX_FRAMES
}

/// Rekey thresholds as configuration, for callers that need other limits
/// than the documented defaults.
#[derive(Debug, Clone, Copy, PartialEq, Eq, Structural)]
pub struct RekeyPolicy {
    /// Rekey at or past this session age in seconds.
    pub max_age_secs: u64,
    /// Rekey at or past this many frames under one key.
    pub max_frames: u64,
}

impl RekeyPolicy {
    /// True when a session of this age or traffic volume should rotate its
    /// keys under this policy.
    pub fn applies(&self, age_secs: u64, frame_count: u64) -> (r: bool)
        ensures
            r == (age_secs >= self.max_age_secs || frame_count >= self.max_frames),
    {
        age_secs >= self.max_age_secs || frame_count >= self.max_frames
    }
}

impl Default for RekeyPolicy {
    /// The documented defaults: 24 hours or one million frames.
    fn default() -> (p: Self)
        ensures
            p == (RekeyPolicy { max_age_secs: REKEY_MAX_AGE_SECS, max_frames: REKEY_MAX_FRAMES }),
    {
        RekeyPolicy { max_age_secs: REKEY_MAX_AGE_SECS, max_frames: REKEY_MAX_FRAMES }
    }
}

} // verus!
