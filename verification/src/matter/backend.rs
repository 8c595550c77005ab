//! Pairing-window timeouts shared by the Matter backends.
use vstd::prelude::*;

verus! {

/// Timeout of a pairing window where the request names none.
pub const PAIRING_TIMEOUT_DEFAULT_SECS: u16 = 300;

/// Shortest pairing window.
pub const PAIRING_TIMEOUT_MIN_SECS: u16 = 180;

/// Longest pairing window.
pub const PAIRING_TIMEOUT_MAX_SECS: u16 = 900;

/// Pairing window at startup, while no controller is commissioned.
pub const STARTUP_PAIRING_TIMEOUT_SECS: u16 = 900;

/// A timeout held to the range of 180 to 900 seconds.
pub open spec fn clamped_timeout(timeout_secs: u16) -> u16 {
    if timeout_secs < PAIRING_TIMEOUT_MIN_SECS {
        PAIRING_TIMEOUT_MIN_SECS
    } else if timeout_secs > PAIRING_TIMEOUT_MAX_SECS {
        PAIRING_TIMEOUT_MAX_SECS
    } else {
        timeout_secs
    }
}

/// Holds a timeout to the range of 180 to 900 seconds.
pub fn clamp_pairing_timeout(timeout_secs: u16) -> (r: u16)
    ensures
        r == clamped_timeout(timeout_secs),
{
    if timeout_secs < PAIRING_TIMEOUT_MIN_SECS {
        PAIRING_TIMEOUT_MIN_SECS
    } else if timeout_secs > PAIRING_TIMEOUT_MAX_SECS {
        PAIRING_TIMEOUT_MAX_SECS
    } else {
        timeout_secs
    }
}

/// A clamped timeout is in range, clamping it again changes nothing, and a timeout in
/// range is kept.
pub proof fn law_clamped_timeout(timeout_secs: u16)
    ensures
        180 <= clamped_timeout(timeout_secs) <= 900,
        clamped_timeout(clamped_timeout(timeout_secs)) == clamped_timeout(timeout_secs),
        180 <= timeout_secs <= 900 ==> clamped_timeout(timeout_secs) == timeout_secs,
{
}

/// The second at which a window ends that is opened now.
pub open spec fn deadline_after(now: u64, secs: u16) -> u64 {
    if now + secs > u64::MAX {
        u64::MAX
    } else {
        (now + secs) as u64
    }
}

/// Whether a window with this deadline is open; a deadline of 0 means closed.
pub open spec fn open_at(deadline: u64, now: u64) -> bool {
    deadline != 0 && now < deadline
}

/// A timeout that is too short becomes the shortest, and one that is too long the longest.
pub proof fn law_timeout_limits(timeout_secs: u16)
    ensures
        timeout_secs < 180 ==> clamped_timeout(timeout_secs) == 180,
        timeout_secs > 900 ==> clamped_timeout(timeout_secs) == 900,
        clamped_timeout(PAIRING_TIMEOUT_DEFAULT_SECS) == 300,
        clamped_timeout(STARTUP_PAIRING_TIMEOUT_SECS) == 900,
        PAIRING_TIMEOUT_DEFAULT_SECS == 300,
        STARTUP_PAIRING_TIMEOUT_SECS == 900,
{
}

/// A window ends its number of seconds from now, or at the end of time; it is open exactly
/// before its deadline, so that a deadline of 0 is never open.
pub proof fn law_deadline(now: u64, secs: u16, deadline: u64)
    ensures
        now + secs <= 0xffff_ffff_ffff_ffff ==> deadline_after(now, secs) == now + secs,
        now + secs > 0xffff_ffff_ffff_ffff ==> deadline_after(now, secs) == 0xffff_ffff_ffff_ffff,
        open_at(deadline, now) <==> now < deadline,
        !open_at(0, now),
{
}

} // verus!
