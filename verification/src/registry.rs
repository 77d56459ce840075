use vstd::prelude::*;

use crate::clock::{spec_advance, spec_is_due};
use crate::errors::ErrorCode;
use crate::events::{
    Event, PlanCreated, PlanPaused, PlanResumed, PlanUpdated, SubscriptionCancelled,
    SubscriptionCharged, SubscriptionCreated,
};
use crate::state::{Plan, Subscriber, TokenAccount, MAX_NAME_LEN};

verus! {

/// There is a plan record whose derived address is `creator`'s plan slot.
pub open spec fn has_plan(plans: Seq<Plan>, creator: u64) -> bool {
    exists|i: int| 0 <= i < plans.len() && plans[i].creator == creator
}

/// The index of the plan record at `creator`'s plan slot.
pub open spec fn plan_index(plans: Seq<Plan>, creator: u64) -> int {
    choose|i: int| 0 <= i < plans.len() && plans[i].creator == creator
}

/// The plan record at `creator`'s plan slot.
pub open spec fn plan_at(plans: Seq<Plan>, creator: u64) -> Plan {
    plans[plan_index(plans, creator)]
}

/// No two plan records share a derived address.
pub open spec fn plans_unique(plans: Seq<Plan>) -> bool {
    forall|i: int, j: int|
        0 <= i < plans.len() && 0 <= j < plans.len() && i != j
            ==> plans[i].creator != plans[j].creator
}

/// There is a subscription record for the (subscriber, plan) pair.
pub open spec fn has_sub(subs: Seq<Subscriber>, subscriber: u64, plan: u64) -> bool {
    exists|i: int| 0 <= i < subs.len() && subs[i].subscriber == subscriber && subs[i].plan == plan
}

/// The index of the subscription record for the (subscriber, plan) pair.
pub open spec fn sub_index(subs: Seq<Subscriber>, subscriber: u64, plan: u64) -> int {
    choose|i: int| 0 <= i < subs.len() && subs[i].subscriber == subscriber && subs[i].plan == plan
}

/// The subscription record for the (subscriber, plan) pair.
pub open spec fn sub_at(subs: Seq<Subscriber>, subscriber: u64, plan: u64) -> Subscriber {
    subs[sub_index(subs, subscriber, plan)]
}

/// No two subscription records share a derived address.
pub open spec fn subs_unique(subs: Seq<Subscriber>) -> bool {
    forall|i: int, j: int|
        0 <= i < subs.len() && 0 <= j < subs.len() && i != j
            ==> !(subs[i].subscriber == subs[j].subscriber && subs[i].plan == subs[j].plan)
}

/// There is a balance record for `owner` in denomination `mint`.
pub open spec fn has_acct(accts: Seq<TokenAccount>, owner: u64, mint: u64) -> bool {
    exists|i: int| 0 <= i < accts.len() && accts[i].owner == owner && accts[i].mint == mint
}

/// The index of the balance record for (`owner`, `mint`).
pub open spec fn acct_index(accts: Seq<TokenAccount>, owner: u64, mint: u64) -> int {
    choose|i: int| 0 <= i < accts.len() && accts[i].owner == owner && accts[i].mint == mint
}

/// The balance record for (`owner`, `mint`).
pub open spec fn acct_at(accts: Seq<TokenAccount>, owner: u64, mint: u64) -> TokenAccount {
    accts[acct_index(accts, owner, mint)]
}

/// No two balance records share an (owner, mint) address.
pub open spec fn accts_unique(accts: Seq<TokenAccount>) -> bool {
    forall|i: int, j: int|
        0 <= i < accts.len() && 0 <= j < accts.len() && i != j
            ==> !(accts[i].owner == accts[j].owner && accts[i].mint == accts[j].mint)
}

/// The transfer primitive's authorization rule: value moves out of a
/// balance only for its owner, or for the authority its owner granted.
pub open spec fn authorized(acct: TokenAccount, authority: u64) -> bool {
    authority == acct.owner || acct.delegate == Some(authority)
}

/// When a transfer of `amount` units of `mint` from `from` to `to`,
/// presented by `authority`, succeeds: both balance records exist, the
/// authority may move the source balance, the source covers the amount,
/// and the destination can hold it.
pub open spec fn transfer_ok(
    accts: Seq<TokenAccount>,
    from: u64,
    to: u64,
    authority: u64,
    mint: u64,
    amount: u64,
) -> bool {
    &&& has_acct(accts, from, mint)
    &&& has_acct(accts, to, mint)
    &&& authorized(acct_at(accts, from, mint), authority)
    &&& amount <= acct_at(accts, from, mint).amount
    &&& (from == to || acct_at(accts, to, mint).amount + amount <= u64::MAX)
}

/// The error a refused transfer reports: the first violated condition, in
/// the order the primitive checks them.
pub open spec fn transfer_err(
    accts: Seq<TokenAccount>,
    from: u64,
    to: u64,
    authority: u64,
    mint: u64,
    amount: u64,
) -> ErrorCode {
    if !has_acct(accts, from, mint) || !has_acct(accts, to, mint) {
        ErrorCode::AccountNotFound
    } else if !authorized(acct_at(accts, from, mint), authority) {
        ErrorCode::Unauthorized
    } else if amount > acct_at(accts, from, mint).amount {
        ErrorCode::InsufficientFunds
    } else {
        ErrorCode::BalanceOverflow
    }
}

/// The balances a successful transfer leaves behind: `amount` moved from
/// the source record to the destination record, every other record
/// untouched. A self-transfer leaves all balances as they were.
pub open spec fn transfer_result(
    accts: Seq<TokenAccount>,
    from: u64,
    to: u64,
    mint: u64,
    amount: u64,
) -> Seq<TokenAccount> {
    if from == to {
        accts
    } else {
        let fi = acct_index(accts, from, mint);
        let ti = acct_index(accts, to, mint);
        accts.update(
            fi,
            TokenAccount { amount: (accts[fi].amount - amount) as u64, ..accts[fi] },
        ).update(ti, TokenAccount { amount: (accts[ti].amount + amount) as u64, ..accts[ti] })
    }
}

/// When `subscribe` succeeds: the plan exists and is active, no
/// subscription occupies the (subscriber, plan) slot yet, and the first
/// charge — the plan's price, paid by the subscriber's own authority —
/// goes through.
pub open spec fn can_subscribe(s: Registry, subscriber: u64, plan_creator: u64) -> bool {
    &&& has_plan(s.plans@, plan_creator)
    &&& plan_at(s.plans@, plan_creator).is_active
    &&& !has_sub(s.subs@, subscriber, plan_creator)
    &&& transfer_ok(
        s.accts@,
        subscriber,
        plan_creator,
        subscriber,
        plan_at(s.plans@, plan_creator).token_mint,
        plan_at(s.plans@, plan_creator).price,
    )
}

/// The error a refused `subscribe` reports: the first violated
/// precondition, in the order the operation checks them.
pub open spec fn subscribe_err(s: Registry, subscriber: u64, plan_creator: u64) -> ErrorCode {
    if !has_plan(s.plans@, plan_creator) {
        ErrorCode::PlanNotFound
    } else if !plan_at(s.plans@, plan_creator).is_active {
        ErrorCode::PlanInactive
    } else if has_sub(s.subs@, subscriber, plan_creator) {
        ErrorCode::DuplicateSubscription
    } else {
        transfer_err(
            s.accts@,
            subscriber,
            plan_creator,
            subscriber,
            plan_at(s.plans@, plan_creator).token_mint,
            plan_at(s.plans@, plan_creator).price,
        )
    }
}

/// The record a successful enrollment at `now` commits: active, first
/// charge just paid, next charge one interval ahead.
pub open spec fn new_subscription(
    subscriber: u64,
    plan_creator: u64,
    bump: u8,
    interval: i64,
    now: i64,
) -> Subscriber {
    Subscriber {
        subscriber,
        plan: plan_creator,
        bump,
        is_active: true,
        last_charged_at: now,
        next_charge_at: (now + interval) as i64,
        created_at: now,
    }
}

/// When `charge` succeeds: plan and subscription exist and are active, the
/// charge is due, and the transfer of the plan's price, presented by
/// `authority`, goes through.
pub open spec fn can_charge(
    s: Registry,
    authority: u64,
    subscriber: u64,
    plan_creator: u64,
    now: i64,
) -> bool {
    &&& has_plan(s.plans@, plan_creator)
    &&& plan_at(s.plans@, plan_creator).is_active
    &&& has_sub(s.subs@, subscriber, plan_creator)
    &&& spec_is_due(sub_at(s.subs@, subscriber, plan_creator), now)
    &&& transfer_ok(
        s.accts@,
        subscriber,
        plan_creator,
        authority,
        plan_at(s.plans@, plan_creator).token_mint,
        plan_at(s.plans@, plan_creator).price,
    )
}

/// The error a refused `charge` reports: the first violated precondition,
/// in the order the operation checks them.
pub open spec fn charge_err(
    s: Registry,
    authority: u64,
    subscriber: u64,
    plan_creator: u64,
    now: i64,
) -> ErrorCode {
    if !has_plan(s.plans@, plan_creator) {
        ErrorCode::PlanNotFound
    } else if !plan_at(s.plans@, plan_creator).is_active {
        ErrorCode::PlanInactive
    } else if !has_sub(s.subs@, subscriber, plan_creator) {
        ErrorCode::SubscriptionNotFound
    } else if !sub_at(s.subs@, subscriber, plan_creator).is_active {
        ErrorCode::SubscriptionInactive
    } else if now < sub_at(s.subs@, subscriber, plan_creator).next_charge_at {
        ErrorCode::NotTimeYet
    } else {
        transfer_err(
            s.accts@,
            subscriber,
            plan_creator,
            authority,
            plan_at(s.plans@, plan_creator).token_mint,
            plan_at(s.plans@, plan_creator).price,
        )
    }
}

/// When `cancel_subscription` succeeds: the records exist and the caller
/// is the enrolled subscriber. Nothing requires the plan to be active:
/// cancellation is the subscriber's exit hatch and works on paused plans.
pub open spec fn can_cancel(s: Registry, caller: u64, subscriber: u64, plan_creator: u64) -> bool {
    &&& has_sub(s.subs@, subscriber, plan_creator)
    &&& has_plan(s.plans@, plan_creator)
    &&& caller == sub_at(s.subs@, subscriber, plan_creator).subscriber
}

/// The error a refused `cancel_subscription` reports.
pub open spec fn cancel_err(s: Registry, caller: u64, subscriber: u64, plan_creator: u64) -> ErrorCode {
    if !has_sub(s.subs@, subscriber, plan_creator) {
        ErrorCode::SubscriptionNotFound
    } else if !has_plan(s.plans@, plan_creator) {
        ErrorCode::PlanNotFound
    } else {
        ErrorCode::Unauthorized
    }
}

/// A subscriber count one lower, floored at zero: cancellation never
/// drives the count negative.
pub open spec fn dec_count(c: u32) -> u32 {
    if c > 0 {
        (c - 1) as u32
    } else {
        0
    }
}

/// When `update_plan`, `pause_plan` or `resume_plan` may touch the plan at
/// all: the record exists and the caller is its creator.
pub open spec fn can_mutate_plan(s: Registry, caller: u64, plan_creator: u64) -> bool {
    &&& has_plan(s.plans@, plan_creator)
    &&& caller == plan_at(s.plans@, plan_creator).creator
}

/// The error a refused `pause_plan` or `resume_plan` reports.
pub open spec fn mutate_plan_err(s: Registry, caller: u64, plan_creator: u64) -> ErrorCode {
    if !has_plan(s.plans@, plan_creator) {
        ErrorCode::PlanNotFound
    } else {
        ErrorCode::Unauthorized
    }
}

/// When `update_plan` succeeds: the caller owns the plan and it is active.
pub open spec fn can_update_plan(s: Registry, caller: u64, plan_creator: u64) -> bool {
    &&& can_mutate_plan(s, caller, plan_creator)
    &&& plan_at(s.plans@, plan_creator).is_active
}

/// The error a refused `update_plan` reports.
pub open spec fn update_plan_err(s: Registry, caller: u64, plan_creator: u64) -> ErrorCode {
    if !has_plan(s.plans@, plan_creator) {
        ErrorCode::PlanNotFound
    } else if caller != plan_at(s.plans@, plan_creator).creator {
        ErrorCode::Unauthorized
    } else {
        ErrorCode::PlanInactive
    }
}

/// The plan record `update_plan` leaves behind: each provided field
/// replaced, each absent field untouched.
pub open spec fn spec_apply_update(
    p: Plan,
    new_name: Option<String>,
    new_token_mint: Option<u64>,
    new_price: Option<u64>,
    new_interval: Option<i64>,
) -> Plan {
    Plan {
        name: match new_name {
            Some(n) => n,
            None => p.name,
        },
        token_mint: match new_token_mint {
            Some(m) => m,
            None => p.token_mint,
        },
        price: match new_price {
            Some(x) => x,
            None => p.price,
        },
        interval: match new_interval {
            Some(x) => x,
            None => p.interval,
        },
        ..p
    }
}

/// The modeled ledger: every plan, subscription and balance record, each at
/// a deterministically derived address, plus the append-only event log.
///
/// Addresses never collide, so record lookup is a pure function of
/// identity: a plan lives at its creator's slot, a subscription at its
/// (subscriber, plan) slot, a balance at its (owner, mint) slot. The
/// well-formedness invariant [`Registry::wf`] captures exactly that
/// uniqueness, and every operation preserves it.
pub struct Registry {
    /// All plan records, at most one per creator.
    pub plans: Vec<Plan>,
    /// All live subscription records, at most one per (subscriber, plan).
    pub subs: Vec<Subscriber>,
    /// All balance records, at most one per (owner, mint).
    pub accts: Vec<TokenAccount>,
    /// The audit log, in emission order.
    pub events: Vec<Event>,
}

impl Registry {
    /// Record addressing is collision-free: no two records of the same
    /// kind occupy one derived address. Every stored plan record fits its
    /// layout.
    pub open spec fn wf(self) -> bool {
        &&& plans_unique(self.plans@)
        &&& subs_unique(self.subs@)
        &&& accts_unique(self.accts@)
        &&& forall|i: int| 0 <= i < self.plans@.len() ==> (#[trigger] self.plans@[i]).wf()
    }

    /// An empty ledger: no records, no history.
    pub fn new() -> (r: Registry)
        ensures
            r.wf(),
            r.plans@ == Seq::<Plan>::empty(),
            r.subs@ == Seq::<Subscriber>::empty(),
            r.accts@ == Seq::<TokenAccount>::empty(),
            r.events@ == Seq::<Event>::empty(),
    {
        Registry { plans: Vec::new(), subs: Vec::new(), accts: Vec::new(), events: Vec::new() }
    }

    /// Locates the plan record at `creator`'s slot, if any.
    fn find_plan_idx(&self, creator: u64) -> (r: Option<usize>)
        ensures
            match r {
                Some(i) => i < self.plans@.len() && self.plans@[i as int].creator == creator,
                None => !has_plan(self.plans@, creator),
            },
    {
        let mut i: usize = 0;
        while i < self.plans.len()
            invariant
                i <= self.plans@.len(),
                forall|j: int| 0 <= j < i ==> self.plans@[j].creator != creator,
            decreases self.plans@.len() - i,
        {
            if self.plans[i].creator == creator {
                return Some(i);
            }
            i += 1;
        }
        None
    }

    /// Locates the subscription record at the (subscriber, plan) slot.
    fn find_sub_idx(&self, subscriber: u64, plan: u64) -> (r: Option<usize>)
        ensures
            match r {
                Some(i) => i < self.subs@.len() && self.subs@[i as int].subscriber == subscriber
                    && self.subs@[i as int].plan == plan,
                None => !has_sub(self.subs@, subscriber, plan),
            },
    {
        let mut i: usize = 0;
        while i < self.subs.len()
            invariant
                i <= self.subs@.len(),
                forall|j: int|
                    0 <= j < i ==> !(self.subs@[j].subscriber == subscriber && self.subs@[j].plan
                        == plan),
            decreases self.subs@.len() - i,
        {
            if self.subs[i].subscriber == subscriber && self.subs[i].plan == plan {
                return Some(i);
            }
            i += 1;
        }
        None
    }

    /// Locates the balance record at the (owner, mint) slot.
    fn find_acct_idx(&self, owner: u64, mint: u64) -> (r: Option<usize>)
        ensures
            match r {
                Some(i) => i < self.accts@.len() && self.accts@[i as int].owner == owner
                    && self.accts@[i as int].mint == mint,
                None => !has_acct(self.accts@, owner, mint),
            },
    {
        let mut i: usize = 0;
        while i < self.accts.len()
            invariant
                i <= self.accts@.len(),
                forall|j: int|
                    0 <= j < i ==> !(self.accts@[j].owner == owner && self.accts@[j].mint == mint),
            decreases self.accts@.len() - i,
        {
            if self.accts[i].owner == owner && self.accts[i].mint == mint {
                return Some(i);
            }
            i += 1;
        }
        None
    }

    /// Reads the plan record at `creator`'s slot, if any.
    pub fn get_plan(&self, creator: u64) -> (r: Option<&Plan>)
        requires
            self.wf(),
        ensures
            r is Some == has_plan(self.plans@, creator),
            match r {
                Some(p) => *p == plan_at(self.plans@, creator),
                None => true,
            },
    {
        match self.find_plan_idx(creator) {
            Some(i) => {
                proof {
                    lemma_plan_found(self.plans@, creator, i as int);
                }
                Some(&self.plans[i])
            },
            None => None,
        }
    }

    /// Reads the subscription record at the (subscriber, plan) slot, if any.
    pub fn get_subscription(&self, subscriber: u64, plan: u64) -> (r: Option<&Subscriber>)
        requires
            self.wf(),
        ensures
            r is Some == has_sub(self.subs@, subscriber, plan),
            match r {
                Some(s) => *s == sub_at(self.subs@, subscriber, plan),
                None => true,
            },
    {
        match self.find_sub_idx(subscriber, plan) {
            Some(i) => {
                proof {
                    lemma_sub_found(self.subs@, subscriber, plan, i as int);
                }
                Some(&self.subs[i])
            },
            None => None,
        }
    }

    /// Reads the balance record at the (owner, mint) slot, if any.
    pub fn get_account(&self, owner: u64, mint: u64) -> (r: Option<&TokenAccount>)
        requires
            self.wf(),
        ensures
            r is Some == has_acct(self.accts@, owner, mint),
            match r {
                Some(a) => *a == acct_at(self.accts@, owner, mint),
                None => true,
            },
    {
        match self.find_acct_idx(owner, mint) {
            Some(i) => {
                proof {
                    lemma_acct_found(self.accts@, owner, mint, i as int);
                }
                Some(&self.accts[i])
            },
            None => None,
        }
    }

    /// Opens the balance record for (`owner`, `mint`) holding `amount`
    /// units and no delegation; refuses a second record at that address.
    pub fn open_account(&mut self, owner: u64, mint: u64, amount: u64) -> (r: Result<
        (),
        ErrorCode,
    >)
        requires
            old(self).wf(),
        ensures
            final(self).wf(),
            final(self).plans@ == old(self).plans@,
            final(self).subs@ == old(self).subs@,
            final(self).events@ == old(self).events@,
            r is Ok == !has_acct(old(self).accts@, owner, mint),
            match r {
                Ok(()) => final(self).accts@ == old(self).accts@.push(
                    (TokenAccount { owner, mint, amount, delegate: None }),
                ),
                Err(e) => final(self).accts@ == old(self).accts@ && e
                    == ErrorCode::DuplicateAccount,
            },
    {
        match self.find_acct_idx(owner, mint) {
            Some(_) => Err(ErrorCode::DuplicateAccount),
            None => {
                self.accts.push(TokenAccount { owner, mint, amount, delegate: None });
                Ok(())
            },
        }
    }

    /// Grants `delegate` leave to move value out of the owner's balance.
    /// The ledger admits this operation only under the owner's own
    /// signature, so no further authorization check is needed here.
    pub fn approve_delegate(&mut self, owner: u64, mint: u64, delegate: u64) -> (r: Result<
        (),
        ErrorCode,
    >)
        requires
            old(self).wf(),
        ensures
            final(self).wf(),
            final(self).plans@ == old(self).plans@,
            final(self).subs@ == old(self).subs@,
            final(self).events@ == old(self).events@,
            r is Ok == has_acct(old(self).accts@, owner, mint),
            match r {
                Ok(()) => final(self).accts@ == old(self).accts@.update(
                    acct_index(old(self).accts@, owner, mint),
                    (TokenAccount {
                        delegate: Some(delegate),
                        ..acct_at(old(self).accts@, owner, mint)
                    }),
                ),
                Err(e) => final(self).accts@ == old(self).accts@ && e
                    == ErrorCode::AccountNotFound,
            },
    {
        match self.find_acct_idx(owner, mint) {
            Some(i) => {
                proof {
                    lemma_acct_found(self.accts@, owner, mint, i as int);
                }
                self.accts[i].delegate = Some(delegate);
                proof {
                    lemma_accts_same_keys_unique(old(self).accts@, self.accts@);
                }
                Ok(())
            },
            None => Err(ErrorCode::AccountNotFound),
        }
    }

    /// Withdraws any delegation on the owner's balance. Like
    /// [`Registry::approve_delegate`], admitted only under the owner's own
    /// signature.
    pub fn revoke_delegate(&mut self, owner: u64, mint: u64) -> (r: Result<(), ErrorCode>)
        requires
            old(self).wf(),
        ensures
            final(self).wf(),
            final(self).plans@ == old(self).plans@,
            final(self).subs@ == old(self).subs@,
            final(self).events@ == old(self).events@,
            r is Ok == has_acct(old(self).accts@, owner, mint),
            match r {
                Ok(()) => final(self).accts@ == old(self).accts@.update(
                    acct_index(old(self).accts@, owner, mint),
                    (TokenAccount { delegate: None, ..acct_at(old(self).accts@, owner, mint) }),
                ),
                Err(e) => final(self).accts@ == old(self).accts@ && e
                    == ErrorCode::AccountNotFound,
            },
    {
        match self.find_acct_idx(owner, mint) {
            Some(i) => {
                proof {
                    lemma_acct_found(self.accts@, owner, mint, i as int);
                }
                self.accts[i].delegate = None;
                proof {
                    lemma_accts_same_keys_unique(old(self).accts@, self.accts@);
                }
                Ok(())
            },
            None => Err(ErrorCode::AccountNotFound),
        }
    }

    /// The value-transfer primitive over the modeled balances: atomically
    /// moves `amount` units of `mint` from `from`'s balance to `to`'s,
    /// if `authority` may move the source and the balances allow it;
    /// otherwise changes nothing and reports the first violated condition.
    pub fn transfer(&mut self, from: u64, to: u64, authority: u64, mint: u64, amount: u64) -> (r:
        Result<(), ErrorCode>)
        requires
            old(self).wf(),
        ensures
            final(self).wf(),
            final(self).plans@ == old(self).plans@,
            final(self).subs@ == old(self).subs@,
            final(self).events@ == old(self).events@,
            r is Ok == transfer_ok(old(self).accts@, from, to, authority, mint, amount),
            match r {
                Ok(()) => final(self).accts@ == transfer_result(
                    old(self).accts@,
                    from,
                    to,
                    mint,
                    amount,
                ),
                Err(e) => final(self).accts@ == old(self).accts@ && e == transfer_err(
                    old(self).accts@,
                    from,
                    to,
                    authority,
                    mint,
                    amount,
                ),
            },
    {
        let fi = match self.find_acct_idx(from, mint) {
            Some(i) => i,
            None => {
                return Err(ErrorCode::AccountNotFound);
            },
        };
        let ti = match self.find_acct_idx(to, mint) {
            Some(i) => i,
            None => {
                return Err(ErrorCode::AccountNotFound);
            },
        };
        proof {
            lemma_acct_found(self.accts@, from, mint, fi as int);
            lemma_acct_found(self.accts@, to, mint, ti as int);
        }
        let auth_ok = authority == self.accts[fi].owner || (match self.accts[fi].delegate {
            Some(d) => d == authority,
            None => false,
        });
        if !auth_ok {
            return Err(ErrorCode::Unauthorized);
        }
        let from_amount = self.accts[fi].amount;
        if amount > from_amount {
            return Err(ErrorCode::InsufficientFunds);
        }
        if fi == ti {
            return Ok(());
        }
        let to_amount = self.accts[ti].amount;
        if to_amount > u64::MAX - amount {
            return Err(ErrorCode::BalanceOverflow);
        }
        self.accts[fi].amount = from_amount - amount;
        self.accts[ti].amount = to_amount + amount;
        proof {
            lemma_accts_same_keys_unique(old(self).accts@, self.accts@);
        }
        Ok(())
    }

    /// Publishes a plan at the address derived from `creator`: price per
    /// charge, seconds between charges, active from the start, no
    /// subscribers yet. Refuses to overwrite an existing plan record.
    pub fn create_plan(
        &mut self,
        creator: u64,
        name: String,
        token_mint: u64,
        price: u64,
        interval: i64,
        bump: u8,
        now: i64,
    ) -> (r: Result<(), ErrorCode>)
        requires
            old(self).wf(),
            name@.len() <= MAX_NAME_LEN,
        ensures
            final(self).wf(),
            final(self).subs@ == old(self).subs@,
            final(self).accts@ == old(self).accts@,
            r is Ok == !has_plan(old(self).plans@, creator),
            match r {
                Ok(()) => {
                    &&& final(self).plans@ == old(self).plans@.push(
                        (Plan {
                            creator,
                            name,
                            token_mint,
                            price,
                            interval,
                            subscriber_count: 0,
                            bump,
                            created_at: now,
                            is_active: true,
                        }),
                    )
                    &&& final(self).events@ == old(self).events@.push(
                        Event::PlanCreated(
                            PlanCreated { creator, plan: creator, price, interval, created_at: now },
                        ),
                    )
                },
                Err(e) => {
                    &&& final(self).plans@ == old(self).plans@
                    &&& final(self).events@ == old(self).events@
                    &&& e == ErrorCode::DuplicatePlan
                },
            },
    {
        match self.find_plan_idx(creator) {
            Some(i) => {
                proof {
                    lemma_plan_found(self.plans@, creator, i as int);
                }
                Err(ErrorCode::DuplicatePlan)
            },
            None => {
                let p = Plan {
                    creator,
                    name,
                    token_mint,
                    price,
                    interval,
                    subscriber_count: 0,
                    bump,
                    created_at: now,
                    is_active: true,
                };
                proof {
                    lemma_plans_unique_push(self.plans@, p);
                }
                self.plans.push(p);
                self.events.push(
                    Event::PlanCreated(
                        PlanCreated { creator, plan: creator, price, interval, created_at: now },
                    ),
                );
                Ok(())
            },
        }
    }

    /// Pauses the caller's plan: while paused it refuses `subscribe` and
    /// `charge` but still admits cancellation. Only the creator may pause.
    pub fn pause_plan(&mut self, caller: u64, plan_creator: u64, now: i64) -> (r: Result<
        (),
        ErrorCode,
    >)
        requires
            old(self).wf(),
        ensures
            final(self).wf(),
            final(self).subs@ == old(self).subs@,
            final(self).accts@ == old(self).accts@,
            r is Ok == can_mutate_plan(*old(self), caller, plan_creator),
            match r {
                Ok(()) => {
                    &&& final(self).plans@ == old(self).plans@.update(
                        plan_index(old(self).plans@, plan_creator),
                        (Plan { is_active: false, ..plan_at(old(self).plans@, plan_creator) }),
                    )
                    &&& final(self).events@ == old(self).events@.push(
                        Event::PlanPaused(
                            PlanPaused { creator: plan_creator, plan: plan_creator, timestamp: now },
                        ),
                    )
                },
                Err(e) => {
                    &&& final(self).plans@ == old(self).plans@
                    &&& final(self).events@ == old(self).events@
                    &&& e == mutate_plan_err(*old(self), caller, plan_creator)
                },
            },
    {
        let pi = match self.find_plan_idx(plan_creator) {
            Some(i) => i,
            None => {
                return Err(ErrorCode::PlanNotFound);
            },
        };
        proof {
            lemma_plan_found(self.plans@, plan_creator, pi as int);
        }
        if self.plans[pi].creator != caller {
            return Err(ErrorCode::Unauthorized);
        }
        self.plans[pi].is_active = false;
        proof {
            lemma_plans_update_wf(old(self).plans@, pi as int, self.plans@[pi as int]);
        }
        self.events.push(
            Event::PlanPaused(
                PlanPaused { creator: plan_creator, plan: plan_creator, timestamp: now },
            ),
        );
        Ok(())
    }

    /// Resumes the caller's paused plan. Only the creator may resume.
    pub fn resume_plan(&mut self, caller: u64, plan_creator: u64, now: i64) -> (r: Result<
        (),
        ErrorCode,
    >)
        requires
            old(self).wf(),
        ensures
            final(self).wf(),
            final(self).subs@ == old(self).subs@,
            final(self).accts@ == old(self).accts@,
            r is Ok == can_mutate_plan(*old(self), caller, plan_creator),
            match r {
                Ok(()) => {
                    &&& final(self).plans@ == old(self).plans@.update(
                        plan_index(old(self).plans@, plan_creator),
                        (Plan { is_active: true, ..plan_at(old(self).plans@, plan_creator) }),
                    )
                    &&& final(self).events@ == old(self).events@.push(
                        Event::PlanResumed(
                            PlanResumed { creator: plan_creator, plan: plan_creator, timestamp: now },
                        ),
                    )
                },
                Err(e) => {
                    &&& final(self).plans@ == old(self).plans@
                    &&& final(self).events@ == old(self).events@
                    &&& e == mutate_plan_err(*old(self), caller, plan_creator)
                },
            },
    {
        let pi = match self.find_plan_idx(plan_creator) {
            Some(i) => i,
            None => {
                return Err(ErrorCode::PlanNotFound);
            },
        };
        proof {
            lemma_plan_found(self.plans@, plan_creator, pi as int);
        }
        if self.plans[pi].creator != caller {
            return Err(ErrorCode::Unauthorized);
        }
        self.plans[pi].is_active = true;
        proof {
            lemma_plans_update_wf(old(self).plans@, pi as int, self.plans@[pi as int]);
        }
        self.events.push(
            Event::PlanResumed(
                PlanResumed { creator: plan_creator, plan: plan_creator, timestamp: now },
            ),
        );
        Ok(())
    }

    /// Changes the provided fields of the caller's active plan, leaving
    /// absent fields untouched. Changed price or interval do not touch
    /// enrolled subscriptions' schedules: `charge` reads the live plan
    /// record, so a change takes effect from each subscription's next
    /// charge onward.
    pub fn update_plan(
        &mut self,
        caller: u64,
        plan_creator: u64,
        new_name: Option<String>,
        new_token_mint: Option<u64>,
        new_price: Option<u64>,
        new_interval: Option<i64>,
        now: i64,
    ) -> (r: Result<(), ErrorCode>)
        requires
            old(self).wf(),
            (match new_name {
                Some(n) => n@.len() <= MAX_NAME_LEN,
                None => true,
            }),
        ensures
            final(self).wf(),
            final(self).subs@ == old(self).subs@,
            final(self).accts@ == old(self).accts@,
            r is Ok == can_update_plan(*old(self), caller, plan_creator),
            match r {
                Ok(()) => {
                    &&& final(self).plans@ == old(self).plans@.update(
                        plan_index(old(self).plans@, plan_creator),
                        spec_apply_update(
                            plan_at(old(self).plans@, plan_creator),
                            new_name,
                            new_token_mint,
                            new_price,
                            new_interval,
                        ),
                    )
                    &&& final(self).events@ == old(self).events@.push(
                        Event::PlanUpdated(
                            PlanUpdated { creator: plan_creator, plan: plan_creator, timestamp: now },
                        ),
                    )
                },
                Err(e) => {
                    &&& final(self).plans@ == old(self).plans@
                    &&& final(self).events@ == old(self).events@
                    &&& e == update_plan_err(*old(self), caller, plan_creator)
                },
            },
    {
        let pi = match self.find_plan_idx(plan_creator) {
            Some(i) => i,
            None => {
                return Err(ErrorCode::PlanNotFound);
            },
        };
        proof {
            lemma_plan_found(self.plans@, plan_creator, pi as int);
        }
        if self.plans[pi].creator != caller {
            return Err(ErrorCode::Unauthorized);
        }
        if !self.plans[pi].is_active {
            return Err(ErrorCode::PlanInactive);
        }
        if let Some(n) = new_name {
            self.plans[pi].name = n;
        }
        if let Some(m) = new_token_mint {
            self.plans[pi].token_mint = m;
        }
        if let Some(x) = new_price {
            self.plans[pi].price = x;
        }
        if let Some(x) = new_interval {
            self.plans[pi].interval = x;
        }
        proof {
            assert(self.plans@ =~= old(self).plans@.update(
                pi as int,
                spec_apply_update(
                    plan_at(old(self).plans@, plan_creator),
                    new_name,
                    new_token_mint,
                    new_price,
                    new_interval,
                ),
            ));
            lemma_plans_update_wf(old(self).plans@, pi as int, self.plans@[pi as int]);
        }
        self.events.push(
            Event::PlanUpdated(
                PlanUpdated { creator: plan_creator, plan: plan_creator, timestamp: now },
            ),
        );
        Ok(())
    }

    /// Enrolls `subscriber` in the plan at `plan_creator`'s slot and pays
    /// the first charge immediately, under the subscriber's own authority.
    /// Allocation and first charge are atomic: if the transfer fails, no
    /// subscription record and no subscriber-count increment survive.
    pub fn subscribe(&mut self, subscriber: u64, plan_creator: u64, bump: u8, now: i64) -> (r:
        Result<(), ErrorCode>)
        requires
            old(self).wf(),
            can_subscribe(*old(self), subscriber, plan_creator) ==> i64::MIN <= now + plan_at(
                old(self).plans@,
                plan_creator,
            ).interval <= i64::MAX,
            can_subscribe(*old(self), subscriber, plan_creator) ==> plan_at(
                old(self).plans@,
                plan_creator,
            ).subscriber_count < u32::MAX,
        ensures
            final(self).wf(),
            r is Ok == can_subscribe(*old(self), subscriber, plan_creator),
            match r {
                Ok(()) => {
                    &&& final(self).subs@ == old(self).subs@.push(
                        new_subscription(
                            subscriber,
                            plan_creator,
                            bump,
                            plan_at(old(self).plans@, plan_creator).interval,
                            now,
                        ),
                    )
                    &&& final(self).plans@ == old(self).plans@.update(
                        plan_index(old(self).plans@, plan_creator),
                        (Plan {
                            subscriber_count: (plan_at(
                                old(self).plans@,
                                plan_creator,
                            ).subscriber_count + 1) as u32,
                            ..plan_at(old(self).plans@, plan_creator)
                        }),
                    )
                    &&& final(self).accts@ == transfer_result(
                        old(self).accts@,
                        subscriber,
                        plan_creator,
                        plan_at(old(self).plans@, plan_creator).token_mint,
                        plan_at(old(self).plans@, plan_creator).price,
                    )
                    &&& final(self).events@ == old(self).events@.push(
                        Event::SubscriptionCreated(
                            SubscriptionCreated {
                                user: subscriber,
                                plan: plan_creator,
                                timestamp: now,
                            },
                        ),
                    )
                },
                Err(e) => {
                    &&& final(self).plans@ == old(self).plans@
                    &&& final(self).subs@ == old(self).subs@
                    &&& final(self).accts@ == old(self).accts@
                    &&& final(self).events@ == old(self).events@
                    &&& e == subscribe_err(*old(self), subscriber, plan_creator)
                },
            },
    {
        let pi = match self.find_plan_idx(plan_creator) {
            Some(i) => i,
            None => {
                return Err(ErrorCode::PlanNotFound);
            },
        };
        proof {
            lemma_plan_found(self.plans@, plan_creator, pi as int);
        }
        if !self.plans[pi].is_active {
            return Err(ErrorCode::PlanInactive);
        }
        match self.find_sub_idx(subscriber, plan_creator) {
            Some(si) => {
                proof {
                    lemma_sub_found(self.subs@, subscriber, plan_creator, si as int);
                }
                return Err(ErrorCode::DuplicateSubscription);
            },
            None => {},
        }
        let price = self.plans[pi].price;
        let mint = self.plans[pi].token_mint;
        let interval = self.plans[pi].interval;
        let count = self.plans[pi].subscriber_count;
        match self.transfer(subscriber, plan_creator, subscriber, mint, price) {
            Ok(()) => {},
            Err(e) => {
                return Err(e);
            },
        }
        proof {
            assert(can_subscribe(*old(self), subscriber, plan_creator));
        }
        let s = Subscriber {
            subscriber,
            plan: plan_creator,
            bump,
            is_active: true,
            last_charged_at: now,
            next_charge_at: now + interval,
            created_at: now,
        };
        proof {
            lemma_subs_unique_push(self.subs@, s);
        }
        self.subs.push(s);
        self.plans[pi].subscriber_count = count + 1;
        proof {
            lemma_plans_update_wf(old(self).plans@, pi as int, self.plans@[pi as int]);
        }
        self.events.push(
            Event::SubscriptionCreated(
                SubscriptionCreated { user: subscriber, plan: plan_creator, timestamp: now },
            ),
        );
        Ok(())
    }

    /// Executes one due charge of an enrolled subscription. Any caller may
    /// request it; the value moves only if `authority` — the subscriber
    /// themselves, or the authority their balance delegates — may move the
    /// subscriber's balance, so a crank operator never needs the
    /// subscriber's funds or keys. On success the schedule advances by one
    /// interval from the actual charge time.
    pub fn charge(&mut self, authority: u64, subscriber: u64, plan_creator: u64, now: i64) -> (r:
        Result<(), ErrorCode>)
        requires
            old(self).wf(),
            can_charge(*old(self), authority, subscriber, plan_creator, now) ==> i64::MIN <= now
                + plan_at(old(self).plans@, plan_creator).interval <= i64::MAX,
        ensures
            final(self).wf(),
            r is Ok == can_charge(*old(self), authority, subscriber, plan_creator, now),
            r is Ok ==> now >= sub_at(old(self).subs@, subscriber, plan_creator).next_charge_at,
            match r {
                Ok(()) => {
                    &&& final(self).subs@ == old(self).subs@.update(
                        sub_index(old(self).subs@, subscriber, plan_creator),
                        spec_advance(
                            sub_at(old(self).subs@, subscriber, plan_creator),
                            plan_at(old(self).plans@, plan_creator),
                            now,
                        ),
                    )
                    &&& final(self).plans@ == old(self).plans@
                    &&& final(self).accts@ == transfer_result(
                        old(self).accts@,
                        subscriber,
                        plan_creator,
                        plan_at(old(self).plans@, plan_creator).token_mint,
                        plan_at(old(self).plans@, plan_creator).price,
                    )
                    &&& final(self).events@ == old(self).events@.push(
                        Event::SubscriptionCharged(
                            SubscriptionCharged {
                                user: subscriber,
                                plan: plan_creator,
                                timestamp: now,
                            },
                        ),
                    )
                },
                Err(e) => {
                    &&& final(self).plans@ == old(self).plans@
                    &&& final(self).subs@ == old(self).subs@
                    &&& final(self).accts@ == old(self).accts@
                    &&& final(self).events@ == old(self).events@
                    &&& e == charge_err(*old(self), authority, subscriber, plan_creator, now)
                },
            },
    {
        let pi = match self.find_plan_idx(plan_creator) {
            Some(i) => i,
            None => {
                return Err(ErrorCode::PlanNotFound);
            },
        };
        proof {
            lemma_plan_found(self.plans@, plan_creator, pi as int);
        }
        if !self.plans[pi].is_active {
            return Err(ErrorCode::PlanInactive);
        }
        let si = match self.find_sub_idx(subscriber, plan_creator) {
            Some(i) => i,
            None => {
                return Err(ErrorCode::SubscriptionNotFound);
            },
        };
        proof {
            lemma_sub_found(self.subs@, subscriber, plan_creator, si as int);
        }
        if !self.subs[si].is_active {
            return Err(ErrorCode::SubscriptionInactive);
        }
        if now < self.subs[si].next_charge_at {
            return Err(ErrorCode::NotTimeYet);
        }
        let price = self.plans[pi].price;
        let mint = self.plans[pi].token_mint;
        let interval = self.plans[pi].interval;
        match self.transfer(subscriber, plan_creator, authority, mint, price) {
            Ok(()) => {},
            Err(e) => {
                return Err(e);
            },
        }
        proof {
            assert(can_charge(*old(self), authority, subscriber, plan_creator, now));
        }
        self.subs[si].last_charged_at = now;
        self.subs[si].next_charge_at = now + interval;
        proof {
            assert(self.subs@ =~= old(self).subs@.update(
                si as int,
                spec_advance(
                    sub_at(old(self).subs@, subscriber, plan_creator),
                    plan_at(old(self).plans@, plan_creator),
                    now,
                ),
            ));
            lemma_subs_unique_update(old(self).subs@, si as int, self.subs@[si as int]);
        }
        self.events.push(
            Event::SubscriptionCharged(
                SubscriptionCharged { user: subscriber, plan: plan_creator, timestamp: now },
            ),
        );
        Ok(())
    }

    /// Withdraws `subscriber`'s enrollment: deactivates and destroys the
    /// subscription record and lowers the plan's subscriber count, floored
    /// at zero. Only the enrolled subscriber may cancel, but cancellation
    /// needs no active plan: it is the subscriber's exit hatch and works
    /// on paused plans. No value moves.
    pub fn cancel_subscription(
        &mut self,
        caller: u64,
        subscriber: u64,
        plan_creator: u64,
        now: i64,
    ) -> (r: Result<(), ErrorCode>)
        requires
            old(self).wf(),
        ensures
            final(self).wf(),
            final(self).accts@ == old(self).accts@,
            r is Ok == can_cancel(*old(self), caller, subscriber, plan_creator),
            match r {
                Ok(()) => {
                    &&& final(self).subs@ == old(self).subs@.remove(
                        sub_index(old(self).subs@, subscriber, plan_creator),
                    )
                    &&& final(self).plans@ == old(self).plans@.update(
                        plan_index(old(self).plans@, plan_creator),
                        (Plan {
                            subscriber_count: dec_count(
                                plan_at(old(self).plans@, plan_creator).subscriber_count,
                            ),
                            ..plan_at(old(self).plans@, plan_creator)
                        }),
                    )
                    &&& final(self).events@ == old(self).events@.push(
                        Event::SubscriptionCancelled(
                            SubscriptionCancelled {
                                user: subscriber,
                                plan: plan_creator,
                                timestamp: now,
                            },
                        ),
                    )
                },
                Err(e) => {
                    &&& final(self).plans@ == old(self).plans@
                    &&& final(self).subs@ == old(self).subs@
                    &&& final(self).events@ == old(self).events@
                    &&& e == cancel_err(*old(self), caller, subscriber, plan_creator)
                },
            },
    {
        let si = match self.find_sub_idx(subscriber, plan_creator) {
            Some(i) => i,
            None => {
                return Err(ErrorCode::SubscriptionNotFound);
            },
        };
        proof {
            lemma_sub_found(self.subs@, subscriber, plan_creator, si as int);
        }
        let pi = match self.find_plan_idx(plan_creator) {
            Some(i) => i,
            None => {
                return Err(ErrorCode::PlanNotFound);
            },
        };
        proof {
            lemma_plan_found(self.plans@, plan_creator, pi as int);
        }
        if self.subs[si].subscriber != caller {
            return Err(ErrorCode::Unauthorized);
        }
        let count = self.plans[pi].subscriber_count;
        self.subs.remove(si);
        self.plans[pi].subscriber_count = if count > 0 {
            count - 1
        } else {
            0
        };
        proof {
            lemma_subs_unique_remove(old(self).subs@, si as int);
            lemma_plans_update_wf(old(self).plans@, pi as int, self.plans@[pi as int]);
        }
        self.events.push(
            Event::SubscriptionCancelled(
                SubscriptionCancelled { user: subscriber, plan: plan_creator, timestamp: now },
            ),
        );
        Ok(())
    }
}

/// Pause gating: while a plan is paused, enrollment and charging are
/// refused with `PlanInactive`, whoever asks and whatever the schedule
/// says; cancellation by the enrolled subscriber remains possible, since
/// it never consults the plan's active flag.
pub proof fn lemma_pause_gating(
    s: Registry,
    authority: u64,
    subscriber: u64,
    plan_creator: u64,
    now: i64,
)
    requires
        s.wf(),
        has_plan(s.plans@, plan_creator),
        !plan_at(s.plans@, plan_creator).is_active,
    ensures
        !can_subscribe(s, subscriber, plan_creator),
        subscribe_err(s, subscriber, plan_creator) == ErrorCode::PlanInactive,
        !can_charge(s, authority, subscriber, plan_creator, now),
        charge_err(s, authority, subscriber, plan_creator, now) == ErrorCode::PlanInactive,
        can_cancel(s, subscriber, subscriber, plan_creator) == has_sub(
            s.subs@,
            subscriber,
            plan_creator,
        ),
{
    if has_sub(s.subs@, subscriber, plan_creator) {
        assert(sub_at(s.subs@, subscriber, plan_creator).subscriber == subscriber);
    }
}

/// Plan addressing is injective: any index holding `creator`'s plan is
/// *the* index of that plan. With [`Registry::wf`] this is the uniqueness
/// law: at most one plan record exists at each derived address.
pub proof fn lemma_plan_found(plans: Seq<Plan>, creator: u64, i: int)
    requires
        plans_unique(plans),
        0 <= i < plans.len(),
        plans[i].creator == creator,
    ensures
        has_plan(plans, creator),
        plan_index(plans, creator) == i,
        plan_at(plans, creator) == plans[i],
{
    assert(has_plan(plans, creator));
    let j = plan_index(plans, creator);
    assert(0 <= j < plans.len() && plans[j].creator == creator);
    if i != j {
        assert(plans[i].creator != plans[j].creator);
    }
}

/// Subscription addressing is injective: any index holding the
/// (subscriber, plan) record is *the* index of that record, so at most one
/// subscription record exists at each derived address.
pub proof fn lemma_sub_found(subs: Seq<Subscriber>, subscriber: u64, plan: u64, i: int)
    requires
        subs_unique(subs),
        0 <= i < subs.len(),
        subs[i].subscriber == subscriber,
        subs[i].plan == plan,
    ensures
        has_sub(subs, subscriber, plan),
        sub_index(subs, subscriber, plan) == i,
        sub_at(subs, subscriber, plan) == subs[i],
{
    assert(has_sub(subs, subscriber, plan));
    let j = sub_index(subs, subscriber, plan);
    assert(0 <= j < subs.len() && subs[j].subscriber == subscriber && subs[j].plan == plan);
    if i != j {
        assert(!(subs[i].subscriber == subs[j].subscriber && subs[i].plan == subs[j].plan));
    }
}

/// A plan pushed at a free address keeps plan addressing collision-free.
proof fn lemma_plans_unique_push(plans: Seq<Plan>, p: Plan)
    requires
        plans_unique(plans),
        !has_plan(plans, p.creator),
    ensures
        plans_unique(plans.push(p)),
{
    let r = plans.push(p);
    assert forall|i: int, j: int|
        0 <= i < r.len() && 0 <= j < r.len() && i != j implies r[i].creator
        != r[j].creator by {
        if i < plans.len() && j < plans.len() {
        } else if i < plans.len() {
            assert(r[j] == p);
            if plans[i].creator == p.creator {
                assert(has_plan(plans, p.creator));
            }
        } else {
            assert(r[i] == p);
            if plans[j].creator == p.creator {
                assert(has_plan(plans, p.creator));
            }
        }
    }
}

/// Rewriting one plan record without changing its creator keeps plan
/// addressing collision-free and every record well-formed.
proof fn lemma_plans_update_wf(plans: Seq<Plan>, i: int, p: Plan)
    requires
        plans_unique(plans),
        forall|j: int| 0 <= j < plans.len() ==> (#[trigger] plans[j]).wf(),
        0 <= i < plans.len(),
        p.creator == plans[i].creator,
        p.wf(),
    ensures
        plans_unique(plans.update(i, p)),
        forall|j: int|
            0 <= j < plans.update(i, p).len() ==> (#[trigger] plans.update(i, p)[j]).wf(),
{
}

/// A subscription pushed at a free address keeps subscription addressing
/// collision-free.
proof fn lemma_subs_unique_push(subs: Seq<Subscriber>, s: Subscriber)
    requires
        subs_unique(subs),
        !has_sub(subs, s.subscriber, s.plan),
    ensures
        subs_unique(subs.push(s)),
{
    let r = subs.push(s);
    assert forall|i: int, j: int|
        0 <= i < r.len() && 0 <= j < r.len() && i != j implies !(r[i].subscriber
        == r[j].subscriber && r[i].plan == r[j].plan) by {
        if i < subs.len() && j < subs.len() {
        } else if i < subs.len() {
            assert(r[j] == s);
            if subs[i].subscriber == s.subscriber && subs[i].plan == s.plan {
                assert(has_sub(subs, s.subscriber, s.plan));
            }
        } else {
            assert(r[i] == s);
            if subs[j].subscriber == s.subscriber && subs[j].plan == s.plan {
                assert(has_sub(subs, s.subscriber, s.plan));
            }
        }
    }
}

/// Rewriting one subscription record without changing its (subscriber,
/// plan) key keeps subscription addressing collision-free.
proof fn lemma_subs_unique_update(subs: Seq<Subscriber>, i: int, s: Subscriber)
    requires
        subs_unique(subs),
        0 <= i < subs.len(),
        s.subscriber == subs[i].subscriber,
        s.plan == subs[i].plan,
    ensures
        subs_unique(subs.update(i, s)),
{
}

/// Destroying one subscription record keeps subscription addressing
/// collision-free.
proof fn lemma_subs_unique_remove(subs: Seq<Subscriber>, i: int)
    requires
        subs_unique(subs),
        0 <= i < subs.len(),
    ensures
        subs_unique(subs.remove(i)),
{
    let r = subs.remove(i);
    assert forall|a: int, b: int|
        0 <= a < r.len() && 0 <= b < r.len() && a != b implies !(r[a].subscriber
        == r[b].subscriber && r[a].plan == r[b].plan) by {
        let a0: int = if a < i {
            a
        } else {
            a + 1
        };
        let b0: int = if b < i {
            b
        } else {
            b + 1
        };
        assert(r[a] == subs[a0]);
        assert(r[b] == subs[b0]);
    }
}

/// Rewriting balance records in place, without touching their (owner,
/// mint) keys, cannot make two records collide.
proof fn lemma_accts_same_keys_unique(a: Seq<TokenAccount>, b: Seq<TokenAccount>)
    requires
        accts_unique(a),
        b.len() == a.len(),
        forall|i: int|
            0 <= i < a.len() ==> (#[trigger] b[i]).owner == a[i].owner && b[i].mint == a[i].mint,
    ensures
        accts_unique(b),
{
}

/// Balance addressing is injective: any index holding the (owner, mint)
/// record is *the* index of that record.
pub proof fn lemma_acct_found(accts: Seq<TokenAccount>, owner: u64, mint: u64, i: int)
    requires
        accts_unique(accts),
        0 <= i < accts.len(),
        accts[i].owner == owner,
        accts[i].mint == mint,
    ensures
        has_acct(accts, owner, mint),
        acct_index(accts, owner, mint) == i,
        acct_at(accts, owner, mint) == accts[i],
{
    assert(has_acct(accts, owner, mint));
    let j = acct_index(accts, owner, mint);
    assert(0 <= j < accts.len() && accts[j].owner == owner && accts[j].mint == mint);
    if i != j {
        assert(!(accts[i].owner == accts[j].owner && accts[i].mint == accts[j].mint));
    }
}

} // verus!
