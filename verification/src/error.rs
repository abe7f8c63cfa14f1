//! Error taxonomy for the tunneling core.

use vstd::prelude::*;

verus! {

/// Everything that can go wrong while sealing or opening a frame.
///
/// `AuthenticationFailed` is deliberately opaque: a bad tag and a garbage
/// frame are reported identically so the error can never become a
/// verification oracle for an attacker.
#[derive(Debug, Clone, Copy, PartialEq, Eq, Structural)]
pub enum LadlsError {
    /// The frame or header is malformed (too short, unknown version,
    /// inconsistent lengths).
    Parse,
    /// The authentication tag did not verify.
    AuthenticationFailed,
    /// The sequence number is a duplicate or too old for the anti-replay
    /// window.
    ReplayRejected,
    /// Advisory: the rekey policy threshold has been crossed; traffic may
    /// continue under the current key until the rekey completes.
    RekeyRequired,
}

impl LadlsError {
    /// A short, stable description of this error.
    pub fn describe(&self) -> (r: &'static str)
        ensures
            r@ == match *self {
                LadlsError::Parse => "parse error"@,
                LadlsError::AuthenticationFailed => "authentication failed"@,
                LadlsError::ReplayRejected => "replay rejected"@,
                LadlsError::RekeyRequired => "rekey required"@,
            },
    {
        match self {
            LadlsError::Parse => "parse error",
            LadlsError::AuthenticationFailed => "authentication failed",
            LadlsError::ReplayRejected => "replay rejected",
            LadlsError::RekeyRequired => "rekey required",
        }
    }
}

} // verus!
