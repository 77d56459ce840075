use vstd::prelude::*;

verus! {

/// Identities (creator keys, subscriber keys, token denominations, delegate
/// authorities) are opaque ledger keys, modeled as 64-bit values.
///
/// The ledger derives record addresses deterministically and
/// collision-freely from such keys, so this model identifies a plan's
/// address with its creator's key (one plan slot per creator) and a
/// subscription's address with its (subscriber, plan) key pair.

/// A creator-published recurring-charge offer.
pub struct Plan {
    /// The creator's key; also determines the plan's derived address.
    pub creator: u64,
    /// Human-readable label, at most [`MAX_NAME_LEN`] characters.
    pub name: String,
    /// The denomination every charge of this plan is paid in.
    pub token_mint: u64,
    /// Quantity transferred per charge.
    pub price: u64,
    /// Seconds between charges.
    pub interval: i64,
    /// How many subscriptions are currently enrolled.
    pub subscriber_count: u32,
    /// Disambiguation byte the address derivation reported for this record.
    pub bump: u8,
    /// When the plan was created.
    pub created_at: i64,
    /// Paused plans refuse `subscribe` and `charge` but not cancellation.
    pub is_active: bool,
}

/// The longest plan name a record may carry.
pub const MAX_NAME_LEN: usize = 50;

/// One subscriber's enrollment in one plan.
pub struct Subscriber {
    /// The enrolled subscriber's key.
    pub subscriber: u64,
    /// The plan's address: its creator's key under this model's derivation.
    pub plan: u64,
    /// Disambiguation byte the address derivation reported for this record.
    pub bump: u8,
    /// Cancellation clears this; only active subscriptions may be charged.
    pub is_active: bool,
    /// When the last successful charge (or the enrollment) happened.
    pub last_charged_at: i64,
    /// The earliest time the next charge may execute.
    pub next_charge_at: i64,
    /// When the enrollment happened.
    pub created_at: i64,
}

/// A fungible-value balance: `owner` holds `amount` units of `mint`.
///
/// `delegate` is a granted capability: the named authority may move value
/// out of this balance without the owner's live signature. It is what lets
/// a crank operator drive recurring charges.
pub struct TokenAccount {
    /// The balance holder's key; with `mint`, determines the address.
    pub owner: u64,
    /// The denomination this balance is held in.
    pub mint: u64,
    /// How many units the balance currently holds.
    pub amount: u64,
    /// An authority the owner granted leave to transfer out of this balance.
    pub delegate: Option<u64>,
}

impl Plan {
    /// A well-formed plan record: the name fits the record's layout.
    pub open spec fn wf(self) -> bool {
        self.name@.len() <= MAX_NAME_LEN
    }
}

} // verus!
