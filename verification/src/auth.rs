//! When a cached device auth token is refreshed.

use vstd::prelude::*;

verus! {

/// How long before its deadline a token is refreshed, in nanoseconds
/// (thirty seconds).
pub const TOKEN_REFRESH_MARGIN_NANOS: u128 = 30_000_000_000;

/// The refresh delay of a token with the given remaining lifetime: the
/// lifetime less the refresh margin, and none when less is left.
pub open spec fn spec_refresh_delay(lifetime_nanos: nat) -> nat {
    if lifetime_nanos > TOKEN_REFRESH_MARGIN_NANOS {
        (lifetime_nanos - TOKEN_REFRESH_MARGIN_NANOS) as nat
    } else {
        0
    }
}

/// How long after it is received a token with the given remaining lifetime
/// is refreshed, in nanoseconds.
pub fn refresh_delay_nanos(lifetime_nanos: u128) -> (r: u128)
    ensures
        r == spec_refresh_delay(lifetime_nanos as nat),
        r <= lifetime_nanos,
        lifetime_nanos > TOKEN_REFRESH_MARGIN_NANOS ==> r + TOKEN_REFRESH_MARGIN_NANOS
            == lifetime_nanos,
        lifetime_nanos <= TOKEN_REFRESH_MARGIN_NANOS ==> r == 0,
{
    if lifetime_nanos > TOKEN_REFRESH_MARGIN_NANOS {
        lifetime_nanos - TOKEN_REFRESH_MARGIN_NANOS
    } else {
        0
    }
}

/// A token is refreshed exactly the refresh margin before its deadline when
/// it lives longer than the margin, and at once otherwise: the delay never
/// falls short of the lifetime by more than the margin, never exceeds the
/// lifetime, and a longer lifetime never gives an earlier refresh.
pub proof fn lemma_refresh_delay_law(lifetime: nat, longer: nat)
    requires
        lifetime <= longer,
    ensures
        spec_refresh_delay(lifetime) <= lifetime,
        spec_refresh_delay(lifetime) + TOKEN_REFRESH_MARGIN_NANOS >= lifetime,
        lifetime > TOKEN_REFRESH_MARGIN_NANOS ==> spec_refresh_delay(lifetime)
            + TOKEN_REFRESH_MARGIN_NANOS == lifetime,
        lifetime <= TOKEN_REFRESH_MARGIN_NANOS ==> spec_refresh_delay(lifetime) == 0,
        spec_refresh_delay(lifetime) <= spec_refresh_delay(longer),
        spec_refresh_delay(longer) - spec_refresh_delay(lifetime) <= longer - lifetime,
{
}

/// Whether a cached token must be refreshed: the time elapsed since it was
/// received has reached its refresh delay.
pub fn should_refresh(elapsed_nanos: u128, refresh_delay: u128) -> (r: bool)
    ensures
        r == (elapsed_nanos >= refresh_delay),
{
    elapsed_nanos >= refresh_delay
}

} // verus!
