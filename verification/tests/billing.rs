use subscription_manager::clock::{advance, is_due};
use subscription_manager::errors::ErrorCode;
use subscription_manager::events::Event;
use subscription_manager::registry::Registry;
use subscription_manager::state::{Plan, Subscriber, TokenAccount};

const CREATOR: u64 = 11;
const SUBSCRIBER: u64 = 22;
const CRANK: u64 = 33;
const STRANGER: u64 = 44;
const MINT: u64 = 7;
const PRICE: u64 = 1000;
const INTERVAL: i64 = 2_592_000;

/// A ledger with one active plan and funded balances for creator and
/// subscriber.
fn setup(subscriber_funds: u64, creator_funds: u64) -> Registry {
    let mut reg = Registry::new();
    reg.open_account(CREATOR, MINT, creator_funds).unwrap();
    reg.open_account(SUBSCRIBER, MINT, subscriber_funds).unwrap();
    reg.create_plan(CREATOR, "Gold".to_string(), MINT, PRICE, INTERVAL, 250, 0)
        .unwrap();
    reg
}

fn balance(reg: &Registry, owner: u64) -> u64 {
    reg.get_account(owner, MINT).unwrap().amount
}

#[test]
fn scenario_full_lifecycle() {
    let mut reg = setup(10 * PRICE, 0);

    // Subscribe at t=0: charges the price immediately.
    reg.subscribe(SUBSCRIBER, CREATOR, 255, 0).unwrap();
    assert_eq!(balance(&reg, SUBSCRIBER), 9 * PRICE);
    assert_eq!(balance(&reg, CREATOR), PRICE);
    let sub = reg.get_subscription(SUBSCRIBER, CREATOR).unwrap();
    assert!(sub.is_active);
    assert_eq!(sub.last_charged_at, 0);
    assert_eq!(sub.next_charge_at, 2_592_000);
    assert_eq!(reg.get_plan(CREATOR).unwrap().subscriber_count, 1);

    // Charge exactly at the boundary succeeds.
    reg.charge(SUBSCRIBER, SUBSCRIBER, CREATOR, 2_592_000).unwrap();
    let sub = reg.get_subscription(SUBSCRIBER, CREATOR).unwrap();
    assert_eq!(sub.last_charged_at, 2_592_000);
    assert_eq!(sub.next_charge_at, 5_184_000);
    assert_eq!(balance(&reg, CREATOR), 2 * PRICE);

    // One second later the next charge is not due yet.
    let r = reg.charge(SUBSCRIBER, SUBSCRIBER, CREATOR, 2_592_001);
    assert_eq!(r, Err(ErrorCode::NotTimeYet));

    // Cancellation always works; the record is destroyed.
    reg.cancel_subscription(SUBSCRIBER, SUBSCRIBER, CREATOR, 2_592_002).unwrap();
    assert_eq!(reg.get_plan(CREATOR).unwrap().subscriber_count, 0);
    assert!(reg.get_subscription(SUBSCRIBER, CREATOR).is_none());
}

#[test]
fn create_plan_sets_all_fields() {
    let reg = setup(0, 0);
    let plan = reg.get_plan(CREATOR).unwrap();
    assert_eq!(plan.creator, CREATOR);
    assert_eq!(plan.name, "Gold");
    assert_eq!(plan.token_mint, MINT);
    assert_eq!(plan.price, PRICE);
    assert_eq!(plan.interval, INTERVAL);
    assert_eq!(plan.subscriber_count, 0);
    assert_eq!(plan.bump, 250);
    assert_eq!(plan.created_at, 0);
    assert!(plan.is_active);
}

#[test]
fn second_plan_for_same_creator_is_refused() {
    let mut reg = setup(0, 0);
    let r = reg.create_plan(CREATOR, "Silver".to_string(), MINT, 5, 60, 250, 9);
    assert_eq!(r, Err(ErrorCode::DuplicatePlan));
    // The first record survives untouched.
    assert_eq!(reg.get_plan(CREATOR).unwrap().name, "Gold");
    assert_eq!(reg.get_plan(CREATOR).unwrap().price, PRICE);
}

#[test]
fn second_subscription_for_same_pair_is_refused() {
    let mut reg = setup(10 * PRICE, 0);
    reg.subscribe(SUBSCRIBER, CREATOR, 255, 0).unwrap();
    let r = reg.subscribe(SUBSCRIBER, CREATOR, 255, 5);
    assert_eq!(r, Err(ErrorCode::DuplicateSubscription));
    // No second charge was taken.
    assert_eq!(balance(&reg, SUBSCRIBER), 9 * PRICE);
    assert_eq!(reg.get_plan(CREATOR).unwrap().subscriber_count, 1);
}

#[test]
fn premature_charge_changes_nothing() {
    let mut reg = setup(10 * PRICE, 0);
    reg.subscribe(SUBSCRIBER, CREATOR, 255, 0).unwrap();
    let r = reg.charge(SUBSCRIBER, SUBSCRIBER, CREATOR, INTERVAL - 1);
    assert_eq!(r, Err(ErrorCode::NotTimeYet));
    assert_eq!(balance(&reg, SUBSCRIBER), 9 * PRICE);
    assert_eq!(balance(&reg, CREATOR), PRICE);
    let sub = reg.get_subscription(SUBSCRIBER, CREATOR).unwrap();
    assert_eq!(sub.last_charged_at, 0);
    assert_eq!(sub.next_charge_at, INTERVAL);
}

#[test]
fn failed_enrollment_commits_nothing() {
    // The subscriber cannot cover the first charge.
    let mut reg = setup(PRICE - 1, 0);
    let r = reg.subscribe(SUBSCRIBER, CREATOR, 255, 0);
    assert_eq!(r, Err(ErrorCode::InsufficientFunds));
    assert!(reg.get_subscription(SUBSCRIBER, CREATOR).is_none());
    assert_eq!(reg.get_plan(CREATOR).unwrap().subscriber_count, 0);
    assert_eq!(balance(&reg, SUBSCRIBER), PRICE - 1);
    assert_eq!(balance(&reg, CREATOR), 0);
    assert_eq!(reg.events.len(), 1); // only the plan creation
}

#[test]
fn subscriber_count_tracks_enrollments() {
    let mut reg = setup(10 * PRICE, 0);
    let other: u64 = 55;
    reg.open_account(other, MINT, 10 * PRICE).unwrap();
    reg.subscribe(SUBSCRIBER, CREATOR, 255, 0).unwrap();
    assert_eq!(reg.get_plan(CREATOR).unwrap().subscriber_count, 1);
    reg.subscribe(other, CREATOR, 254, 0).unwrap();
    assert_eq!(reg.get_plan(CREATOR).unwrap().subscriber_count, 2);
    reg.cancel_subscription(SUBSCRIBER, SUBSCRIBER, CREATOR, 5).unwrap();
    assert_eq!(reg.get_plan(CREATOR).unwrap().subscriber_count, 1);
    reg.cancel_subscription(other, other, CREATOR, 6).unwrap();
    assert_eq!(reg.get_plan(CREATOR).unwrap().subscriber_count, 0);
}

#[test]
fn paused_plan_refuses_subscribe_and_charge_but_not_cancel() {
    let mut reg = setup(10 * PRICE, 0);
    let other: u64 = 55;
    reg.open_account(other, MINT, 10 * PRICE).unwrap();
    reg.subscribe(SUBSCRIBER, CREATOR, 255, 0).unwrap();

    reg.pause_plan(CREATOR, CREATOR, 1).unwrap();
    assert!(!reg.get_plan(CREATOR).unwrap().is_active);

    let r = reg.subscribe(other, CREATOR, 254, 2);
    assert_eq!(r, Err(ErrorCode::PlanInactive));
    let r = reg.charge(SUBSCRIBER, SUBSCRIBER, CREATOR, INTERVAL);
    assert_eq!(r, Err(ErrorCode::PlanInactive));

    // The exit hatch still works on a paused plan.
    reg.cancel_subscription(SUBSCRIBER, SUBSCRIBER, CREATOR, 3).unwrap();
    assert_eq!(reg.get_plan(CREATOR).unwrap().subscriber_count, 0);
}

#[test]
fn resume_reopens_enrollment() {
    let mut reg = setup(10 * PRICE, 0);
    reg.pause_plan(CREATOR, CREATOR, 1).unwrap();
    assert_eq!(reg.subscribe(SUBSCRIBER, CREATOR, 255, 2), Err(ErrorCode::PlanInactive));
    reg.resume_plan(CREATOR, CREATOR, 3).unwrap();
    assert!(reg.get_plan(CREATOR).unwrap().is_active);
    reg.subscribe(SUBSCRIBER, CREATOR, 255, 4).unwrap();
    assert_eq!(reg.get_plan(CREATOR).unwrap().subscriber_count, 1);
}

#[test]
fn only_the_creator_may_mutate_the_plan() {
    let mut reg = setup(0, 0);
    assert_eq!(reg.pause_plan(STRANGER, CREATOR, 1), Err(ErrorCode::Unauthorized));
    assert_eq!(reg.resume_plan(STRANGER, CREATOR, 1), Err(ErrorCode::Unauthorized));
    let r = reg.update_plan(STRANGER, CREATOR, None, None, Some(1), None, 1);
    assert_eq!(r, Err(ErrorCode::Unauthorized));
    assert_eq!(reg.get_plan(CREATOR).unwrap().price, PRICE);
}

#[test]
fn update_plan_applies_only_provided_fields() {
    let mut reg = setup(0, 0);
    reg.update_plan(CREATOR, CREATOR, Some("Plus".to_string()), None, Some(2000), None, 9)
        .unwrap();
    let plan = reg.get_plan(CREATOR).unwrap();
    assert_eq!(plan.name, "Plus");
    assert_eq!(plan.price, 2000);
    assert_eq!(plan.token_mint, MINT);
    assert_eq!(plan.interval, INTERVAL);
    assert!(plan.is_active);
}

#[test]
fn update_plan_refuses_a_paused_plan() {
    let mut reg = setup(0, 0);
    reg.pause_plan(CREATOR, CREATOR, 1).unwrap();
    let r = reg.update_plan(CREATOR, CREATOR, None, None, Some(1), None, 2);
    assert_eq!(r, Err(ErrorCode::PlanInactive));
    assert_eq!(reg.get_plan(CREATOR).unwrap().price, PRICE);
}

#[test]
fn updated_interval_governs_later_charges() {
    let mut reg = setup(10 * PRICE, 0);
    reg.subscribe(SUBSCRIBER, CREATOR, 255, 0).unwrap();
    reg.update_plan(CREATOR, CREATOR, None, None, None, Some(100), 1).unwrap();
    // The existing schedule is untouched by the update...
    assert_eq!(reg.get_subscription(SUBSCRIBER, CREATOR).unwrap().next_charge_at, INTERVAL);
    // ...but the next successful charge advances by the new interval.
    reg.charge(SUBSCRIBER, SUBSCRIBER, CREATOR, INTERVAL).unwrap();
    assert_eq!(
        reg.get_subscription(SUBSCRIBER, CREATOR).unwrap().next_charge_at,
        INTERVAL + 100
    );
}

#[test]
fn crank_charges_through_a_delegate() {
    let mut reg = setup(10 * PRICE, 0);
    reg.subscribe(SUBSCRIBER, CREATOR, 255, 0).unwrap();
    // The subscriber grants the crank's authority; the crank never holds
    // the subscriber's funds or keys.
    reg.approve_delegate(SUBSCRIBER, MINT, CRANK).unwrap();
    reg.charge(CRANK, SUBSCRIBER, CREATOR, INTERVAL).unwrap();
    assert_eq!(balance(&reg, SUBSCRIBER), 8 * PRICE);
    assert_eq!(balance(&reg, CREATOR), 2 * PRICE);
}

#[test]
fn charge_without_authority_moves_nothing() {
    let mut reg = setup(10 * PRICE, 0);
    reg.subscribe(SUBSCRIBER, CREATOR, 255, 0).unwrap();
    let r = reg.charge(CRANK, SUBSCRIBER, CREATOR, INTERVAL);
    assert_eq!(r, Err(ErrorCode::Unauthorized));
    assert_eq!(balance(&reg, SUBSCRIBER), 9 * PRICE);
    let sub = reg.get_subscription(SUBSCRIBER, CREATOR).unwrap();
    assert_eq!(sub.next_charge_at, INTERVAL);
}

#[test]
fn revoked_delegate_may_no_longer_charge() {
    let mut reg = setup(10 * PRICE, 0);
    reg.subscribe(SUBSCRIBER, CREATOR, 255, 0).unwrap();
    reg.approve_delegate(SUBSCRIBER, MINT, CRANK).unwrap();
    reg.revoke_delegate(SUBSCRIBER, MINT).unwrap();
    let r = reg.charge(CRANK, SUBSCRIBER, CREATOR, INTERVAL);
    assert_eq!(r, Err(ErrorCode::Unauthorized));
}

#[test]
fn only_the_subscriber_may_cancel() {
    let mut reg = setup(10 * PRICE, 0);
    reg.subscribe(SUBSCRIBER, CREATOR, 255, 0).unwrap();
    let r = reg.cancel_subscription(STRANGER, SUBSCRIBER, CREATOR, 1);
    assert_eq!(r, Err(ErrorCode::Unauthorized));
    assert!(reg.get_subscription(SUBSCRIBER, CREATOR).is_some());
}

#[test]
fn missing_records_are_reported() {
    let mut reg = Registry::new();
    assert_eq!(reg.subscribe(SUBSCRIBER, CREATOR, 255, 0), Err(ErrorCode::PlanNotFound));
    assert_eq!(
        reg.charge(SUBSCRIBER, SUBSCRIBER, CREATOR, 0),
        Err(ErrorCode::PlanNotFound)
    );
    assert_eq!(
        reg.cancel_subscription(SUBSCRIBER, SUBSCRIBER, CREATOR, 0),
        Err(ErrorCode::SubscriptionNotFound)
    );
    assert_eq!(reg.pause_plan(CREATOR, CREATOR, 0), Err(ErrorCode::PlanNotFound));
    reg.create_plan(CREATOR, "Gold".to_string(), MINT, PRICE, INTERVAL, 250, 0)
        .unwrap();
    assert_eq!(
        reg.charge(SUBSCRIBER, SUBSCRIBER, CREATOR, 0),
        Err(ErrorCode::SubscriptionNotFound)
    );
    // The plan exists but neither balance record does.
    assert_eq!(reg.subscribe(SUBSCRIBER, CREATOR, 255, 0), Err(ErrorCode::AccountNotFound));
}

#[test]
fn opening_a_balance_twice_is_refused() {
    let mut reg = Registry::new();
    reg.open_account(SUBSCRIBER, MINT, 5).unwrap();
    assert_eq!(reg.open_account(SUBSCRIBER, MINT, 9), Err(ErrorCode::DuplicateAccount));
    assert_eq!(reg.get_account(SUBSCRIBER, MINT).unwrap().amount, 5);
}

#[test]
fn overfull_destination_aborts_the_charge() {
    let mut reg = setup(10 * PRICE, u64::MAX);
    let r = reg.subscribe(SUBSCRIBER, CREATOR, 255, 0);
    assert_eq!(r, Err(ErrorCode::BalanceOverflow));
    assert!(reg.get_subscription(SUBSCRIBER, CREATOR).is_none());
    assert_eq!(balance(&reg, SUBSCRIBER), 10 * PRICE);
}

#[test]
fn inactive_subscription_cannot_be_charged() {
    // An inactive record cannot arise through the operations (cancellation
    // destroys the record), so build the ledger state directly.
    let mut reg = setup(10 * PRICE, 0);
    reg.subs.push(Subscriber {
        subscriber: SUBSCRIBER,
        plan: CREATOR,
        bump: 255,
        is_active: false,
        last_charged_at: 0,
        next_charge_at: 0,
        created_at: 0,
    });
    let r = reg.charge(SUBSCRIBER, SUBSCRIBER, CREATOR, INTERVAL);
    assert_eq!(r, Err(ErrorCode::SubscriptionInactive));
    assert_eq!(balance(&reg, SUBSCRIBER), 10 * PRICE);
}

#[test]
fn self_subscription_moves_no_value() {
    // A creator enrolling in their own plan pays themselves.
    let mut reg = Registry::new();
    reg.open_account(CREATOR, MINT, 5 * PRICE).unwrap();
    reg.create_plan(CREATOR, "Gold".to_string(), MINT, PRICE, INTERVAL, 250, 0)
        .unwrap();
    reg.subscribe(CREATOR, CREATOR, 255, 0).unwrap();
    assert_eq!(balance(&reg, CREATOR), 5 * PRICE);
    assert_eq!(reg.get_plan(CREATOR).unwrap().subscriber_count, 1);
}

#[test]
fn event_log_records_the_lifecycle_in_order() {
    let mut reg = setup(10 * PRICE, 0);
    reg.subscribe(SUBSCRIBER, CREATOR, 255, 0).unwrap();
    reg.charge(SUBSCRIBER, SUBSCRIBER, CREATOR, INTERVAL).unwrap();
    reg.pause_plan(CREATOR, CREATOR, INTERVAL + 1).unwrap();
    reg.cancel_subscription(SUBSCRIBER, SUBSCRIBER, CREATOR, INTERVAL + 2).unwrap();
    assert_eq!(reg.events.len(), 5);
    match &reg.events[0] {
        Event::PlanCreated(e) => {
            assert_eq!(e.creator, CREATOR);
            assert_eq!(e.plan, CREATOR);
            assert_eq!(e.price, PRICE);
            assert_eq!(e.interval, INTERVAL);
            assert_eq!(e.created_at, 0);
        },
        other => panic!("unexpected event {:?}", other),
    }
    match &reg.events[1] {
        Event::SubscriptionCreated(e) => {
            assert_eq!(e.user, SUBSCRIBER);
            assert_eq!(e.plan, CREATOR);
            assert_eq!(e.timestamp, 0);
        },
        other => panic!("unexpected event {:?}", other),
    }
    match &reg.events[2] {
        Event::SubscriptionCharged(e) => {
            assert_eq!(e.user, SUBSCRIBER);
            assert_eq!(e.timestamp, INTERVAL);
        },
        other => panic!("unexpected event {:?}", other),
    }
    match &reg.events[3] {
        Event::PlanPaused(e) => assert_eq!(e.timestamp, INTERVAL + 1),
        other => panic!("unexpected event {:?}", other),
    }
    match &reg.events[4] {
        Event::SubscriptionCancelled(e) => {
            assert_eq!(e.user, SUBSCRIBER);
            assert_eq!(e.timestamp, INTERVAL + 2);
        },
        other => panic!("unexpected event {:?}", other),
    }
}

#[test]
fn billing_clock_decides_dueness() {
    let sub = Subscriber {
        subscriber: SUBSCRIBER,
        plan: CREATOR,
        bump: 255,
        is_active: true,
        last_charged_at: 0,
        next_charge_at: 100,
        created_at: 0,
    };
    assert!(!is_due(&sub, 99));
    assert!(is_due(&sub, 100));
    assert!(is_due(&sub, 101));
    let inactive = Subscriber { is_active: false, ..sub };
    assert!(!is_due(&inactive, 101));
}

#[test]
fn billing_clock_advances_from_actual_charge_time() {
    let plan = Plan {
        creator: CREATOR,
        name: "Gold".to_string(),
        token_mint: MINT,
        price: PRICE,
        interval: 100,
        subscriber_count: 1,
        bump: 250,
        created_at: 0,
        is_active: true,
    };
    let mut sub = Subscriber {
        subscriber: SUBSCRIBER,
        plan: CREATOR,
        bump: 255,
        is_active: true,
        last_charged_at: 0,
        next_charge_at: 100,
        created_at: 0,
    };
    // A late charge shifts the whole future schedule; nothing catches up.
    advance(&mut sub, &plan, 130);
    assert_eq!(sub.last_charged_at, 130);
    assert_eq!(sub.next_charge_at, 230);
}

#[test]
fn negative_interval_regresses_the_schedule() {
    // Nothing validates interval > 0: a non-positive interval makes the
    // next due time non-advancing, permitting immediate re-charging.
    let mut reg = Registry::new();
    reg.open_account(CREATOR, MINT, 0).unwrap();
    reg.open_account(SUBSCRIBER, MINT, 10 * PRICE).unwrap();
    reg.create_plan(CREATOR, "Odd".to_string(), MINT, PRICE, -5, 250, 0)
        .unwrap();
    reg.subscribe(SUBSCRIBER, CREATOR, 255, 100).unwrap();
    assert_eq!(reg.get_subscription(SUBSCRIBER, CREATOR).unwrap().next_charge_at, 95);
    reg.charge(SUBSCRIBER, SUBSCRIBER, CREATOR, 100).unwrap();
    assert_eq!(reg.get_subscription(SUBSCRIBER, CREATOR).unwrap().next_charge_at, 95);
}

#[test]
fn delegation_survives_unrelated_transfers() {
    let mut reg = setup(10 * PRICE, 0);
    reg.approve_delegate(SUBSCRIBER, MINT, CRANK).unwrap();
    reg.subscribe(SUBSCRIBER, CREATOR, 255, 0).unwrap();
    let acct = reg.get_account(SUBSCRIBER, MINT).unwrap();
    assert_eq!(acct.delegate, Some(CRANK));
    assert_eq!(acct.amount, 9 * PRICE);
}

#[test]
fn transfer_reports_each_refusal() {
    let mut reg = Registry::new();
    reg.open_account(CREATOR, MINT, 10).unwrap();
    reg.open_account(SUBSCRIBER, MINT, 10).unwrap();
    assert_eq!(
        reg.transfer(STRANGER, CREATOR, STRANGER, MINT, 1),
        Err(ErrorCode::AccountNotFound)
    );
    assert_eq!(
        reg.transfer(SUBSCRIBER, CREATOR, STRANGER, MINT, 1),
        Err(ErrorCode::Unauthorized)
    );
    assert_eq!(
        reg.transfer(SUBSCRIBER, CREATOR, SUBSCRIBER, MINT, 11),
        Err(ErrorCode::InsufficientFunds)
    );
    reg.transfer(SUBSCRIBER, CREATOR, SUBSCRIBER, MINT, 4).unwrap();
    assert_eq!(reg.get_account(SUBSCRIBER, MINT).unwrap().amount, 6);
    assert_eq!(reg.get_account(CREATOR, MINT).unwrap().amount, 14);
}

#[test]
fn separate_plans_do_not_interfere() {
    let other_creator: u64 = 66;
    let mut reg = setup(10 * PRICE, 0);
    reg.open_account(other_creator, MINT, 0).unwrap();
    reg.create_plan(other_creator, "Other".to_string(), MINT, 300, 60, 249, 0)
        .unwrap();
    reg.subscribe(SUBSCRIBER, CREATOR, 255, 0).unwrap();
    reg.subscribe(SUBSCRIBER, other_creator, 254, 0).unwrap();
    assert_eq!(balance(&reg, SUBSCRIBER), 10 * PRICE - PRICE - 300);
    assert_eq!(reg.get_plan(CREATOR).unwrap().subscriber_count, 1);
    assert_eq!(reg.get_plan(other_creator).unwrap().subscriber_count, 1);
    reg.cancel_subscription(SUBSCRIBER, SUBSCRIBER, other_creator, 1).unwrap();
    assert_eq!(reg.get_plan(CREATOR).unwrap().subscriber_count, 1);
    assert_eq!(reg.get_plan(other_creator).unwrap().subscriber_count, 0);
    assert!(reg.get_subscription(SUBSCRIBER, CREATOR).is_some());
}

#[test]
fn token_account_records_hold_plain_balances() {
    let mut reg = Registry::new();
    reg.accts.push(TokenAccount { owner: CREATOR, mint: MINT, amount: 3, delegate: None });
    assert_eq!(reg.get_account(CREATOR, MINT).unwrap().amount, 3);
    assert!(reg.get_account(CREATOR, MINT + 1).is_none());
}
