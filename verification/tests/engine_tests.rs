//! Scenario tests for the reconciliation engine: the purchase /
//! cancellation / refund lifecycle, idempotent redelivery, grant
//! deduplication, staleness, grace periods and restarts.

use subscription_core::apply_event;
use subscription_core::catalog::Catalog;
use subscription_core::engine::ApplyOutcome;
use subscription_core::engine::EngineError;
use subscription_core::ledger::LedgerState;
use subscription_core::records::EntitlementDef;
use subscription_core::records::ProductRec;
use subscription_core::types::EventKind;
use subscription_core::types::ProductType;
use subscription_core::types::Store;
use subscription_core::types::SubscriptionStatus;
use subscription_core::StoreEvent;

const T0: i64 = 1_700_000_000_000;
const DAY: i64 = 86_400_000;

fn catalog_with_premium() -> Catalog {
    Catalog {
        products: vec![ProductRec {
            id: 100,
            name: "Monthly".to_string(),
            description: None,
            apple_product_id: Some("com.example.monthly".to_string()),
            google_product_id: Some("monthly_sub".to_string()),
            product_type: ProductType::Subscription,
            price_micros: Some(4_990_000),
            duration_days: Some(30),
            entitlement_ids: vec![7, 8],
        }],
        entitlements: vec![
            EntitlementDef { id: 7, name: "premium".to_string(), description: None },
            EntitlementDef { id: 8, name: "no_ads".to_string(), description: None },
        ],
    }
}

fn purchase(at: i64, expiry: Option<i64>) -> StoreEvent {
    StoreEvent {
        store: Store::Apple,
        kind: EventKind::Purchased,
        store_product_id: "com.example.monthly".to_string(),
        original_transaction_id: "A1".to_string(),
        transaction_id: "tx-1".to_string(),
        occurred_at: at,
        new_expires_at: expiry,
        new_auto_renew: Some(true),
        grace_period_expires_at: None,
        user_token: Some("user-token-1".to_string()),
    }
}

fn event(kind: EventKind, at: i64, expiry: Option<i64>) -> StoreEvent {
    StoreEvent {
        store: Store::Apple,
        kind,
        store_product_id: "com.example.monthly".to_string(),
        original_transaction_id: "A1".to_string(),
        transaction_id: "tx-2".to_string(),
        occurred_at: at,
        new_expires_at: expiry,
        new_auto_renew: if kind == EventKind::AutoRenewChanged { Some(false) } else { None },
        grace_period_expires_at: if kind == EventKind::EnteredGrace {
            Some(at + 16 * DAY)
        } else {
            None
        },
        user_token: None,
    }
}

#[test]
fn purchase_creates_subscription_user_and_grants() {
    let cat = catalog_with_premium();
    let (s1, oc) = apply_event(LedgerState::empty(), &cat, &purchase(T0, Some(T0 + 30 * DAY)))
        .expect("purchase should apply");
    assert_eq!(oc, ApplyOutcome::Applied);
    assert_eq!(s1.users.len(), 1);
    assert_eq!(s1.users[0].app_user_id, "user-token-1");
    assert_eq!(s1.subscriptions.len(), 1);
    let sub = &s1.subscriptions[0];
    assert_eq!(sub.status, SubscriptionStatus::Active);
    assert_eq!(sub.original_transaction_id, "A1");
    assert_eq!(sub.store_transaction_id, "tx-1");
    assert_eq!(sub.expires_date, Some(T0 + 30 * DAY));
    assert_eq!(sub.purchase_date, T0);
    assert_eq!(sub.auto_renew_status, Some(true));
    assert_eq!(sub.user_id, s1.users[0].id);
    assert_eq!(sub.product_id, 100);
    // one grant per mapped entitlement
    assert_eq!(s1.entitlements.len(), 2);
    for g in &s1.entitlements {
        assert_eq!(g.subscription_id, Some(sub.id));
        assert_eq!(g.starts_at, T0);
        assert_eq!(g.expires_at, Some(T0 + 30 * DAY));
    }
    let mut ent_ids: Vec<u64> = s1.entitlements.iter().map(|g| g.entitlement_id).collect();
    ent_ids.sort();
    assert_eq!(ent_ids, vec![7, 8]);
}

#[test]
fn duplicate_purchase_grants_nothing_new() {
    let cat = catalog_with_premium();
    let ev = purchase(T0, Some(T0 + 30 * DAY));
    let (s1, _) = apply_event(LedgerState::empty(), &cat, &ev).unwrap();
    let subs1 = s1.subscriptions.len();
    let ents1 = s1.entitlements.len();
    let users1 = s1.users.len();
    let next1 = s1.next_id;
    let (s2, oc) = apply_event(s1, &cat, &ev).expect("redelivery should apply");
    assert_eq!(oc, ApplyOutcome::Applied);
    assert_eq!(s2.subscriptions.len(), subs1);
    assert_eq!(s2.entitlements.len(), ents1);
    assert_eq!(s2.users.len(), users1);
    assert_eq!(s2.next_id, next1);
}

#[test]
fn idempotent_redelivery_for_each_absolute_kind() {
    let cat = catalog_with_premium();
    let kinds = [
        EventKind::Renewed,
        EventKind::Expired,
        EventKind::Cancelled,
        EventKind::Refunded,
        EventKind::Paused,
        EventKind::AutoRenewChanged,
        EventKind::ExtendedExpiry,
    ];
    for kind in kinds {
        let (s1, _) = apply_event(LedgerState::empty(), &cat, &purchase(T0, Some(T0 + 30 * DAY)))
            .unwrap();
        let ev = event(kind, T0 + 5 * DAY, Some(T0 + 35 * DAY));
        let (s2, _) = apply_event(s1, &cat, &ev).expect("first delivery");
        let snapshot_subs: Vec<_> = s2
            .subscriptions
            .iter()
            .map(|s| (s.id, s.status, s.expires_date, s.cancellation_date, s.updated_at))
            .collect();
        let snapshot_ents: Vec<_> = s2
            .entitlements
            .iter()
            .map(|g| (g.id, g.expires_at, g.updated_at))
            .collect();
        let next2 = s2.next_id;
        let (s3, _) = apply_event(s2, &cat, &ev).expect("second delivery");
        let snapshot_subs3: Vec<_> = s3
            .subscriptions
            .iter()
            .map(|s| (s.id, s.status, s.expires_date, s.cancellation_date, s.updated_at))
            .collect();
        let snapshot_ents3: Vec<_> = s3
            .entitlements
            .iter()
            .map(|g| (g.id, g.expires_at, g.updated_at))
            .collect();
        assert_eq!(snapshot_subs, snapshot_subs3, "subs changed on redelivery of {kind:?}");
        assert_eq!(snapshot_ents, snapshot_ents3, "grants changed on redelivery of {kind:?}");
        assert_eq!(next2, s3.next_id);
    }
}

#[test]
fn cancel_is_soft_refund_is_hard() {
    let cat = catalog_with_premium();
    let expiry = T0 + 30 * DAY;
    let (s1, _) = apply_event(LedgerState::empty(), &cat, &purchase(T0, Some(expiry))).unwrap();

    // Cancelled at T0: no entitlement expiry changes
    let (s2, _) = apply_event(s1, &cat, &event(EventKind::Cancelled, T0, None)).unwrap();
    assert_eq!(s2.subscriptions[0].status, SubscriptionStatus::Cancelled);
    assert_eq!(s2.subscriptions[0].cancellation_date, Some(T0));
    assert_eq!(s2.subscriptions[0].auto_renew_status, Some(false));
    for g in &s2.entitlements {
        assert_eq!(g.expires_at, Some(expiry), "cancel must not touch grants");
    }

    // Refunded at T0: every linked grant expires at or before now
    let (s3, _) = apply_event(s2, &cat, &event(EventKind::Refunded, T0, None)).unwrap();
    assert_eq!(s3.subscriptions[0].status, SubscriptionStatus::Refunded);
    for g in &s3.entitlements {
        let e = g.expires_at.expect("refund sets an expiry");
        assert!(e <= T0, "refund must pull access immediately");
    }
}

#[test]
fn stale_renewal_does_not_regress_refund() {
    let cat = catalog_with_premium();
    let (s1, _) = apply_event(LedgerState::empty(), &cat, &purchase(T0, Some(T0 + 30 * DAY)))
        .unwrap();
    let t2 = T0 + 6 * DAY;
    let (s2, _) = apply_event(s1, &cat, &event(EventKind::Refunded, t2, None)).unwrap();
    // a renewal reported before the refund arrives late
    let t1 = T0 + 5 * DAY;
    let (s3, oc) = apply_event(s2, &cat, &event(EventKind::Renewed, t1, Some(T0 + 35 * DAY)))
        .expect("stale events are accepted and discarded");
    assert_eq!(oc, ApplyOutcome::Stale);
    assert_eq!(s3.subscriptions[0].status, SubscriptionStatus::Refunded);
    for g in &s3.entitlements {
        assert!(g.expires_at.unwrap() <= t2);
    }
}

#[test]
fn grace_period_preserves_access() {
    let cat = catalog_with_premium();
    let expiry = T0 + 30 * DAY;
    let (s1, _) = apply_event(LedgerState::empty(), &cat, &purchase(T0, Some(expiry))).unwrap();
    let (s2, _) = apply_event(s1, &cat, &event(EventKind::EnteredGrace, T0 + 30 * DAY, None))
        .unwrap();
    assert_eq!(s2.subscriptions[0].status, SubscriptionStatus::GracePeriod);
    assert_eq!(
        s2.subscriptions[0].renewal_grace_period_expires_date,
        Some(T0 + 30 * DAY + 16 * DAY)
    );
    for g in &s2.entitlements {
        assert_eq!(g.expires_at, Some(expiry), "grace must not reduce any grant expiry");
    }
}

#[test]
fn renewal_extends_subscription_and_grants() {
    let cat = catalog_with_premium();
    let (s1, _) = apply_event(LedgerState::empty(), &cat, &purchase(T0, Some(T0 + 30 * DAY)))
        .unwrap();
    let new_expiry = T0 + 60 * DAY;
    let (s2, _) = apply_event(s1, &cat, &event(EventKind::Renewed, T0 + 29 * DAY, Some(new_expiry)))
        .unwrap();
    assert_eq!(s2.subscriptions[0].status, SubscriptionStatus::Active);
    assert_eq!(s2.subscriptions[0].expires_date, Some(new_expiry));
    assert_eq!(s2.subscriptions[0].store_transaction_id, "tx-2");
    assert_eq!(s2.entitlements.len(), 2, "a plain renewal must not create grants");
    for g in &s2.entitlements {
        assert_eq!(g.expires_at, Some(new_expiry));
    }
}

#[test]
fn restart_regrants_without_resurrecting_old_rows() {
    let cat = catalog_with_premium();
    let expiry = T0 + 30 * DAY;
    let (s1, _) = apply_event(LedgerState::empty(), &cat, &purchase(T0, Some(expiry))).unwrap();
    let (s2, _) = apply_event(s1, &cat, &event(EventKind::Expired, expiry, None)).unwrap();
    assert_eq!(s2.subscriptions[0].status, SubscriptionStatus::Expired);
    for g in &s2.entitlements {
        assert_eq!(g.expires_at, Some(expiry), "expiry clamps grants to the event time");
    }
    // the user resubscribes later: a renewal arrives for the expired row
    let t_restart = expiry + 10 * DAY;
    let new_expiry = t_restart + 30 * DAY;
    let (s3, _) = apply_event(s2, &cat, &event(EventKind::Renewed, t_restart, Some(new_expiry)))
        .unwrap();
    assert_eq!(s3.subscriptions[0].status, SubscriptionStatus::Active);
    assert_eq!(s3.subscriptions[0].expires_date, Some(new_expiry));
    assert_eq!(s3.entitlements.len(), 4, "a restart creates fresh grant rows");
    // old rows stay force-expired
    for g in &s3.entitlements[..2] {
        assert_eq!(g.expires_at, Some(expiry), "old rows must not be resurrected");
    }
    // fresh rows are dated from the restart
    for g in &s3.entitlements[2..] {
        assert_eq!(g.starts_at, t_restart);
        assert_eq!(g.expires_at, Some(new_expiry));
        assert_eq!(g.subscription_id, Some(s3.subscriptions[0].id));
    }
}

#[test]
fn end_to_end_purchase_cancel_refund() {
    let cat = catalog_with_premium();
    let expiry = T0 + 30 * DAY;

    let (s1, _) = apply_event(LedgerState::empty(), &cat, &purchase(T0, Some(expiry))).unwrap();
    assert_eq!(s1.subscriptions.len(), 1);
    assert_eq!(s1.subscriptions[0].status, SubscriptionStatus::Active);
    assert_eq!(s1.subscriptions[0].expires_date, Some(expiry));
    assert_eq!(s1.entitlements.len(), 2);
    for g in &s1.entitlements {
        assert_eq!(g.expires_at, Some(expiry));
    }

    let t_cancel = T0 + 5 * DAY;
    let (s2, _) = apply_event(s1, &cat, &event(EventKind::Cancelled, t_cancel, None)).unwrap();
    assert_eq!(s2.subscriptions[0].status, SubscriptionStatus::Cancelled);
    assert_eq!(s2.subscriptions[0].cancellation_date, Some(t_cancel));
    for g in &s2.entitlements {
        assert_eq!(g.expires_at, Some(expiry), "access persists after cancellation");
    }

    let t_refund = T0 + 6 * DAY;
    let (s3, _) = apply_event(s2, &cat, &event(EventKind::Refunded, t_refund, None)).unwrap();
    assert_eq!(s3.subscriptions[0].status, SubscriptionStatus::Refunded);
    for g in &s3.entitlements {
        assert_eq!(g.expires_at, Some(t_refund), "refund force-expires to the event time");
    }
}

#[test]
fn auto_renew_change_touches_only_the_flag() {
    let cat = catalog_with_premium();
    let (s1, _) = apply_event(LedgerState::empty(), &cat, &purchase(T0, Some(T0 + 30 * DAY)))
        .unwrap();
    let (s2, _) = apply_event(s1, &cat, &event(EventKind::AutoRenewChanged, T0 + DAY, None))
        .unwrap();
    assert_eq!(s2.subscriptions[0].auto_renew_status, Some(false));
    assert_eq!(s2.subscriptions[0].status, SubscriptionStatus::Active);
    assert_eq!(s2.subscriptions[0].expires_date, Some(T0 + 30 * DAY));
    for g in &s2.entitlements {
        assert_eq!(g.expires_at, Some(T0 + 30 * DAY));
    }
}

#[test]
fn extended_expiry_reactivates_an_expired_subscription() {
    let cat = catalog_with_premium();
    let expiry = T0 + 30 * DAY;
    let (s1, _) = apply_event(LedgerState::empty(), &cat, &purchase(T0, Some(expiry))).unwrap();
    let (s2, _) = apply_event(s1, &cat, &event(EventKind::Expired, expiry, None)).unwrap();
    let extended = expiry + 15 * DAY;
    let (s3, _) = apply_event(s2, &cat, &event(EventKind::ExtendedExpiry, expiry + DAY, Some(extended)))
        .unwrap();
    assert_eq!(s3.subscriptions[0].status, SubscriptionStatus::Active);
    assert_eq!(s3.subscriptions[0].expires_date, Some(extended));
}

#[test]
fn pause_pulls_access_immediately() {
    let cat = catalog_with_premium();
    let (s1, _) = apply_event(LedgerState::empty(), &cat, &purchase(T0, Some(T0 + 30 * DAY)))
        .unwrap();
    let t_hold = T0 + 3 * DAY;
    let (s2, _) = apply_event(s1, &cat, &event(EventKind::Paused, t_hold, None)).unwrap();
    assert_eq!(s2.subscriptions[0].status, SubscriptionStatus::Paused);
    for g in &s2.entitlements {
        assert_eq!(g.expires_at, Some(t_hold));
    }
}

#[test]
fn unknown_product_is_rejected() {
    let cat = catalog_with_premium();
    let mut ev = purchase(T0, None);
    ev.store_product_id = "com.example.unknown".to_string();
    let err = apply_event(LedgerState::empty(), &cat, &ev).unwrap_err();
    assert_eq!(err, EngineError::UnknownProduct);
}

#[test]
fn missing_token_on_first_purchase_is_rejected() {
    let cat = catalog_with_premium();
    let mut ev = purchase(T0, None);
    ev.user_token = None;
    let err = apply_event(LedgerState::empty(), &cat, &ev).unwrap_err();
    assert_eq!(err, EngineError::MissingUserToken);
}

#[test]
fn cancel_for_unknown_subscription_is_out_of_order() {
    let cat = catalog_with_premium();
    let err = apply_event(LedgerState::empty(), &cat, &event(EventKind::Cancelled, T0, None))
        .unwrap_err();
    assert_eq!(err, EngineError::SubscriptionNotFound);
}

#[test]
fn first_sight_renewal_creates_the_subscription() {
    let cat = catalog_with_premium();
    let mut ev = event(EventKind::Renewed, T0, Some(T0 + 30 * DAY));
    ev.user_token = Some("late-user".to_string());
    let (s1, _) = apply_event(LedgerState::empty(), &cat, &ev).expect("tolerant of missing state");
    assert_eq!(s1.subscriptions.len(), 1);
    assert_eq!(s1.subscriptions[0].status, SubscriptionStatus::Active);
    assert_eq!(s1.entitlements.len(), 2, "a first-sight renewal materializes the grants");
    for g in &s1.entitlements {
        assert_eq!(g.starts_at, T0);
        assert_eq!(g.expires_at, Some(T0 + 30 * DAY));
    }
    // the same renewal delivered again changes nothing
    let subs = s1.subscriptions.len();
    let ents = s1.entitlements.len();
    let next = s1.next_id;
    let (s2, _) = apply_event(s1, &cat, &ev).unwrap();
    assert_eq!((s2.subscriptions.len(), s2.entitlements.len(), s2.next_id), (subs, ents, next));
}

#[test]
fn recovery_after_grace_restores_access_with_fresh_rows() {
    let cat = catalog_with_premium();
    let expiry = T0 + 30 * DAY;
    let (s1, _) = apply_event(LedgerState::empty(), &cat, &purchase(T0, Some(expiry))).unwrap();
    // billing fails shortly before expiry: grace period entered
    let (s2, _) = apply_event(s1, &cat, &event(EventKind::EnteredGrace, expiry - DAY, None))
        .unwrap();
    assert_eq!(s2.subscriptions[0].status, SubscriptionStatus::GracePeriod);
    // billing recovers after the grants lapsed naturally
    let t_recover = expiry + 2 * DAY;
    let new_expiry = expiry + 30 * DAY;
    let (s3, _) = apply_event(s2, &cat, &event(EventKind::Renewed, t_recover, Some(new_expiry)))
        .unwrap();
    assert_eq!(s3.subscriptions[0].status, SubscriptionStatus::Active);
    assert_eq!(s3.subscriptions[0].expires_date, Some(new_expiry));
    // the lapsed rows keep their history; fresh rows restore access
    assert_eq!(s3.entitlements.len(), 4);
    for g in &s3.entitlements[..2] {
        assert_eq!(g.expires_at, Some(expiry), "lapsed rows are never reopened");
    }
    for g in &s3.entitlements[2..] {
        assert_eq!(g.starts_at, t_recover);
        assert_eq!(g.expires_at, Some(new_expiry), "fresh rows carry the new term");
    }
}

#[test]
fn renewal_after_pause_restores_access_with_fresh_rows() {
    let cat = catalog_with_premium();
    let (s1, _) = apply_event(LedgerState::empty(), &cat, &purchase(T0, Some(T0 + 30 * DAY)))
        .unwrap();
    let t_hold = T0 + 3 * DAY;
    let (s2, _) = apply_event(s1, &cat, &event(EventKind::Paused, t_hold, None)).unwrap();
    for g in &s2.entitlements {
        assert_eq!(g.expires_at, Some(t_hold));
    }
    let t_resume = T0 + 10 * DAY;
    let new_expiry = t_resume + 30 * DAY;
    let (s3, _) = apply_event(s2, &cat, &event(EventKind::Renewed, t_resume, Some(new_expiry)))
        .unwrap();
    assert_eq!(s3.subscriptions[0].status, SubscriptionStatus::Active);
    assert_eq!(s3.entitlements.len(), 4, "resuming from a pause re-grants");
    for g in &s3.entitlements[..2] {
        assert_eq!(g.expires_at, Some(t_hold), "rows expired by the hold stay expired");
    }
    for g in &s3.entitlements[2..] {
        assert_eq!(g.starts_at, t_resume);
        assert_eq!(g.expires_at, Some(new_expiry));
    }
}

#[test]
fn extended_expiry_extends_every_matching_grant() {
    let cat = catalog_with_premium();
    let expiry = T0 + 30 * DAY;
    let (s1, _) = apply_event(LedgerState::empty(), &cat, &purchase(T0, Some(expiry))).unwrap();
    // the extension arrives after the grants lapsed naturally
    let t_extend = expiry + DAY;
    let extended = expiry + 15 * DAY;
    let (s2, _) = apply_event(s1, &cat, &event(EventKind::ExtendedExpiry, t_extend, Some(extended)))
        .unwrap();
    assert_eq!(s2.subscriptions[0].expires_date, Some(extended));
    assert_eq!(s2.entitlements.len(), 2, "an extension creates no rows");
    for g in &s2.entitlements {
        assert_eq!(
            g.expires_at,
            Some(extended),
            "every matching grant follows the extended expiry"
        );
    }
}

#[test]
fn one_time_purchase_grants_lifetime_access() {
    let cat = catalog_with_premium();
    let (s1, _) = apply_event(LedgerState::empty(), &cat, &purchase(T0, None)).unwrap();
    assert_eq!(s1.subscriptions[0].expires_date, None);
    for g in &s1.entitlements {
        assert_eq!(g.expires_at, None, "absent expiry means lifetime access");
    }
}
