use vstd::prelude::*;

verus! {

/// Why an operation was refused.
///
/// Every failure is terminal and synchronous: the first violated
/// precondition aborts the whole operation before any state changes.
#[derive(Clone, Copy, Debug, PartialEq, Eq, Structural)]
pub enum ErrorCode {
    /// The caller is not the identity the operation requires (the plan's
    /// creator for plan mutation; the subscriber for cancellation; the
    /// balance owner or its delegate for a transfer).
    Unauthorized,
    /// The operation needs an active plan, but the plan is paused.
    PlanInactive,
    /// The operation needs an active subscription, but it is inactive.
    SubscriptionInactive,
    /// `charge` was invoked before the subscription's next due time.
    NotTimeYet,
    /// The operation needs a subscription that is currently active.
    SubscriptionNotActive,
    /// A plan record already occupies the address derived from this creator.
    DuplicatePlan,
    /// A subscription record already occupies the address derived from this
    /// (subscriber, plan) pair.
    DuplicateSubscription,
    /// No plan record exists at the derived address.
    PlanNotFound,
    /// No subscription record exists at the derived address.
    SubscriptionNotFound,
    /// A balance record needed by a transfer does not exist.
    AccountNotFound,
    /// A balance record already occupies the (owner, mint) address.
    DuplicateAccount,
    /// The paying balance does not cover the transfer amount.
    InsufficientFunds,
    /// The receiving balance cannot hold the transferred amount.
    BalanceOverflow,
}

} // verus!
