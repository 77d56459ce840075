use vstd::prelude::*;

verus! {

/// A plan came into existence.
#[derive(Clone, Copy, Debug, PartialEq, Eq, Structural)]
pub struct PlanCreated {
    pub creator: u64,
    pub plan: u64,
    pub price: u64,
    pub interval: i64,
    pub created_at: i64,
}

/// A subscriber enrolled in a plan and paid the first charge.
#[derive(Clone, Copy, Debug, PartialEq, Eq, Structural)]
pub struct SubscriptionCreated {
    pub user: u64,
    pub plan: u64,
    pub timestamp: i64,
}

/// A recurring charge of a subscription succeeded.
#[derive(Clone, Copy, Debug, PartialEq, Eq, Structural)]
pub struct SubscriptionCharged {
    pub user: u64,
    pub plan: u64,
    pub timestamp: i64,
}

/// A subscriber left a plan; the subscription record was destroyed.
#[derive(Clone, Copy, Debug, PartialEq, Eq, Structural)]
pub struct SubscriptionCancelled {
    pub user: u64,
    pub plan: u64,
    pub timestamp: i64,
}

/// A creator changed one or more fields of their plan.
#[derive(Clone, Copy, Debug, PartialEq, Eq, Structural)]
pub struct PlanUpdated {
    pub creator: u64,
    pub plan: u64,
    pub timestamp: i64,
}

/// A creator paused their plan.
#[derive(Clone, Copy, Debug, PartialEq, Eq, Structural)]
pub struct PlanPaused {
    pub creator: u64,
    pub plan: u64,
    pub timestamp: i64,
}

/// A creator resumed their paused plan.
#[derive(Clone, Copy, Debug, PartialEq, Eq, Structural)]
pub struct PlanResumed {
    pub creator: u64,
    pub plan: u64,
    pub timestamp: i64,
}

/// One entry of the append-only audit log: every successful operation
/// appends exactly one tagged record. The log is observability only; no
/// operation reads it back.
#[derive(Clone, Copy, Debug, PartialEq, Eq, Structural)]
pub enum Event {
    PlanCreated(PlanCreated),
    SubscriptionCreated(SubscriptionCreated),
    SubscriptionCharged(SubscriptionCharged),
    SubscriptionCancelled(SubscriptionCancelled),
    PlanUpdated(PlanUpdated),
    PlanPaused(PlanPaused),
    PlanResumed(PlanResumed),
}

} // verus!
