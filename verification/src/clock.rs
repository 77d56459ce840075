use vstd::prelude::*;

use crate::state::{Plan, Subscriber};

verus! {

/// The billing clock: a pure function of wall-clock time and a
/// subscription's schedule. A charge is due exactly when the subscription
/// is active and the current time has reached its next due time.
pub open spec fn spec_is_due(sub: Subscriber, now: i64) -> bool {
    sub.is_active && now >= sub.next_charge_at
}

/// Decides whether a charge of `sub` is currently due.
pub fn is_due(sub: &Subscriber, now: i64) -> (r: bool)
    ensures
        r == spec_is_due(*sub, now),
{
    sub.is_active && now >= sub.next_charge_at
}

/// The schedule a successful charge at `now` leaves behind: the last
/// charge time becomes the actual charge time, and the next due time is
/// one interval after it. Late charges therefore shift the whole future
/// schedule forward; there is no catch-up of missed periods.
pub open spec fn spec_advance(sub: Subscriber, plan: Plan, now: i64) -> Subscriber {
    Subscriber { last_charged_at: now, next_charge_at: (now + plan.interval) as i64, ..sub }
}

/// Moves `sub`'s schedule past a charge that executed at `now`.
pub fn advance(sub: &mut Subscriber, plan: &Plan, now: i64)
    requires
        i64::MIN <= now + plan.interval <= i64::MAX,
    ensures
        *final(sub) == spec_advance(*old(sub), *plan, now),
{
    sub.last_charged_at = now;
    sub.next_charge_at = now + plan.interval;
}

} // verus!
