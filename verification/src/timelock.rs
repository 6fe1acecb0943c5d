use vstd::prelude::*;

verus! {

/// Length of the incubation window, in seconds (12 hours). While a wallet is
/// younger than this, guardian approval is allowed immediately: the owner is
/// expected to be setting the wallet up and the onboarding delay would only
/// slow that down.
pub const INCUBATION_WINDOW_SECS: i64 = 12 * 60 * 60;

/// Mandatory onboarding delay once the incubation window has passed, in
/// seconds (36 hours). A guardian added to an established wallet must wait
/// this long before its approval can take effect, so the owner has time to
/// notice and remove a guardian added by a compromised key.
pub const WAIT_WINDOW_SECS: i64 = 36 * 60 * 60;

/// Upper bound on the timestamps the policy accepts. Any real clock reading
/// is far below it, and it keeps every timestamp sum inside the `i64` range.
pub const MAX_TIMESTAMP: i64 = 0x4000_0000_0000_0000;

/// The earliest moment at which a guardian added at `now` to a wallet created
/// at `created_at` may be approved: immediately during the incubation window,
/// and after the full wait window once the wallet is older than that.
pub open spec fn unlock_time_spec(created_at: i64, now: i64) -> int {
    if now < created_at + INCUBATION_WINDOW_SECS {
        now as int
    } else {
        now + WAIT_WINDOW_SECS
    }
}

/// Computes the earliest timestamp at which a pending guardian added at `now`
/// may be approved, given the wallet's creation time.
pub fn compute_unlock_time(created_at: i64, now: i64) -> (unlock: i64)
    requires
        0 <= created_at <= MAX_TIMESTAMP,
        0 <= now <= MAX_TIMESTAMP,
    ensures
        unlock == unlock_time_spec(created_at, now),
{
    if now < created_at + INCUBATION_WINDOW_SECS {
        now
    } else {
        now + WAIT_WINDOW_SECS
    }
}

} // verus!
