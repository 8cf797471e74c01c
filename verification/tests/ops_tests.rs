//! Tests for ledger queries and administrative operations: entitlement
//! checks, listings, manual grants and revocations, cancellation, refund
//! and user creation.

use subscription_core::catalog::Catalog;
use subscription_core::ledger::LedgerState;
use subscription_core::ops::AdminError;
use subscription_core::records::EntitlementDef;
use subscription_core::records::EntitlementGrant;
use subscription_core::records::ProductRec;
use subscription_core::records::SubscriptionRec;
use subscription_core::records::UserRec;
use subscription_core::types::ProductType;
use subscription_core::types::Store;
use subscription_core::types::SubscriptionStatus;

const T0: i64 = 1_700_000_000_000;
const DAY: i64 = 86_400_000;

fn sample_catalog() -> Catalog {
    Catalog {
        products: vec![ProductRec {
            id: 100,
            name: "Monthly".to_string(),
            description: None,
            apple_product_id: Some("com.example.monthly".to_string()),
            google_product_id: None,
            product_type: ProductType::Subscription,
            price_micros: None,
            duration_days: Some(30),
            entitlement_ids: vec![7],
        }],
        entitlements: vec![EntitlementDef {
            id: 7,
            name: "premium".to_string(),
            description: Some("all features".to_string()),
        }],
    }
}

fn sub(id: u64, user_id: u64, status: SubscriptionStatus, expires: Option<i64>) -> SubscriptionRec {
    SubscriptionRec {
        id,
        user_id,
        product_id: 100,
        original_transaction_id: format!("otid-{id}"),
        store_transaction_id: format!("tx-{id}"),
        store: Store::Apple,
        purchase_date: T0,
        expires_date: expires,
        cancellation_date: None,
        renewal_grace_period_expires_date: None,
        status,
        auto_renew_status: Some(true),
        price_micros: None,
        currency: None,
        is_trial: false,
        is_intro_offer: false,
        created_at: T0,
        updated_at: T0,
    }
}

fn grant(id: u64, user_id: u64, ent: u64, sub_id: Option<u64>, expires: Option<i64>) -> EntitlementGrant {
    EntitlementGrant {
        id,
        user_id,
        entitlement_id: ent,
        subscription_id: sub_id,
        starts_at: T0,
        expires_at: expires,
        created_at: T0,
        updated_at: T0,
    }
}

fn sample_state() -> LedgerState {
    LedgerState {
        users: vec![UserRec {
            id: 1,
            app_user_id: "alice".to_string(),
            email: Some("alice@example.com".to_string()),
            created_at: T0,
            updated_at: T0,
        }],
        subscriptions: vec![
            sub(2, 1, SubscriptionStatus::Active, Some(T0 + 30 * DAY)),
            sub(3, 1, SubscriptionStatus::Expired, Some(T0 - DAY)),
        ],
        entitlements: vec![
            grant(4, 1, 7, Some(2), Some(T0 + 30 * DAY)),
            grant(5, 1, 7, Some(3), Some(T0 - DAY)),
            grant(6, 1, 9, None, None),
        ],
        next_id: 10,
    }
}

#[test]
fn access_check_finds_the_first_active_grant() {
    let s = sample_state();
    let (has, until) = s.check_entitlement_access(1, 7, T0 + DAY);
    assert!(has);
    assert_eq!(until, Some(T0 + 30 * DAY));
    // lifetime manual grant
    let (has9, until9) = s.check_entitlement_access(1, 9, T0 + DAY);
    assert!(has9);
    assert_eq!(until9, None);
    // nothing after everything lapsed
    let (has_late, until_late) = s.check_entitlement_access(1, 7, T0 + 31 * DAY);
    assert!(!has_late);
    assert_eq!(until_late, None);
    // unknown user
    let (other, _) = s.check_entitlement_access(2, 7, T0 + DAY);
    assert!(!other);
}

#[test]
fn active_listing_skips_lapsed_grants() {
    let s = sample_state();
    let act = s.list_active_for_user(1, T0 + DAY);
    let ids: Vec<u64> = act.iter().map(|g| g.id).collect();
    assert_eq!(ids, vec![4, 6], "the lapsed grant must not be listed");
}

#[test]
fn listing_by_subscription_is_complete() {
    let s = sample_state();
    let rows = s.list_by_subscription(3);
    assert_eq!(rows.len(), 1);
    assert_eq!(rows[0].id, 5);
}

#[test]
fn subscription_listings_by_user() {
    let s = sample_state();
    let all = s.list_by_user(1);
    assert_eq!(all.len(), 2);
    let active = s.list_active_by_user(1);
    assert_eq!(active.len(), 1);
    assert_eq!(active[0].id, 2);
}

#[test]
fn best_active_subscription_has_the_furthest_expiry() {
    let mut s = sample_state();
    s.subscriptions.push(sub(7, 1, SubscriptionStatus::Active, Some(T0 + 60 * DAY)));
    s.subscriptions.push(sub(8, 1, SubscriptionStatus::Active, None));
    let best = s.find_active_by_user_and_product(1, 100).expect("one is active");
    assert_eq!(s.subscriptions[best].id, 8, "a lifetime term beats every dated one");
    assert!(s.find_active_by_user_and_product(99, 100).is_none());
}

#[test]
fn manual_grant_requires_a_catalog_entitlement() {
    let cat = sample_catalog();
    let s = sample_state();
    let err = s.grant_entitlement(&cat, 1, 42, None, T0).unwrap_err();
    assert_eq!(err, AdminError::EntitlementNotFound);
    let s2 = sample_state().grant_entitlement(&cat, 1, 7, Some(T0 + DAY), T0).unwrap();
    assert_eq!(s2.entitlements.len(), 4);
    let g = s2.entitlements.last().unwrap();
    assert_eq!(g.id, 10);
    assert_eq!(g.subscription_id, None);
    assert_eq!(g.starts_at, T0);
    assert_eq!(g.expires_at, Some(T0 + DAY));
    assert_eq!(s2.next_id, 11);
}

#[test]
fn revoking_force_expires_the_active_grant() {
    let s = sample_state();
    let s2 = s.revoke_entitlement(1, 7, T0 + DAY).unwrap();
    assert_eq!(s2.entitlements[0].expires_at, Some(T0 + DAY));
    assert_eq!(s2.entitlements[1].expires_at, Some(T0 - DAY), "other rows untouched");
    let err = sample_state().revoke_entitlement(1, 42, T0).unwrap_err();
    assert_eq!(err, AdminError::ActiveGrantNotFound);
}

#[test]
fn only_active_subscriptions_can_be_cancelled() {
    let s = sample_state();
    let s2 = s.cancel_subscription(2, T0 + 2 * DAY).unwrap();
    assert_eq!(s2.subscriptions[0].status, SubscriptionStatus::Cancelled);
    assert_eq!(s2.subscriptions[0].cancellation_date, Some(T0 + 2 * DAY));
    assert_eq!(s2.subscriptions[0].auto_renew_status, Some(false));
    assert_eq!(s2.entitlements[0].expires_at, Some(T0 + 30 * DAY), "cancel is soft");

    let err = sample_state().cancel_subscription(3, T0).unwrap_err();
    assert_eq!(err, AdminError::SubscriptionNotActive);
    let err2 = sample_state().cancel_subscription(99, T0).unwrap_err();
    assert_eq!(err2, AdminError::SubscriptionNotFound);
}

#[test]
fn refund_force_expires_linked_grants() {
    let s = sample_state();
    let s2 = s.refund_subscription(2, T0 + 3 * DAY).unwrap();
    assert_eq!(s2.subscriptions[0].status, SubscriptionStatus::Refunded);
    assert_eq!(s2.entitlements[0].expires_at, Some(T0 + 3 * DAY));
    assert_eq!(s2.entitlements[1].expires_at, Some(T0 - DAY), "already lapsed: untouched");
    assert_eq!(s2.entitlements[2].expires_at, None, "manual grant untouched");
    let err = sample_state().refund_subscription(99, T0).unwrap_err();
    assert_eq!(err, AdminError::SubscriptionNotFound);
}

#[test]
fn user_creation_rejects_duplicate_tokens() {
    let s = sample_state();
    let (s2, uid) = s.create_user("bob".to_string(), None, T0).unwrap();
    assert_eq!(uid, 10);
    assert_eq!(s2.users.len(), 2);
    assert_eq!(s2.users[1].app_user_id, "bob");
    let err = s2.create_user("alice".to_string(), None, T0).unwrap_err();
    assert_eq!(err, AdminError::DuplicateAppUserId);
}

#[test]
fn finders_locate_rows_by_their_keys() {
    let s = sample_state();
    assert_eq!(s.find_subscription(Store::Apple, "otid-3"), Some(1));
    assert_eq!(s.find_subscription(Store::Google, "otid-3"), None);
    assert_eq!(s.find_subscription_by_id(2), Some(0));
    assert_eq!(s.find_subscription_by_id(42), None);
    assert_eq!(s.find_user_by_app_user_id("alice"), Some(0));
    assert_eq!(s.find_user_by_app_user_id("carol"), None);
}

#[test]
fn product_entitlement_mapping_is_deduplicated() {
    let mut p = sample_catalog().products.remove(0);
    assert_eq!(p.get_entitlements(), vec![7]);
    p.add_entitlement(9);
    assert_eq!(p.get_entitlements(), vec![7, 9]);
    p.add_entitlement(7);
    assert_eq!(p.get_entitlements(), vec![7, 9], "mapping twice adds nothing");
    p.remove_entitlement(7);
    assert_eq!(p.get_entitlements(), vec![9]);
    p.remove_entitlement(42);
    assert_eq!(p.get_entitlements(), vec![9], "removing an unmapped id changes nothing");
}

#[test]
fn entitlement_definitions_have_unique_ids() {
    let mut cat = sample_catalog();
    let dup = EntitlementDef { id: 7, name: "again".to_string(), description: None };
    assert_eq!(cat.create_entitlement(dup), Err(AdminError::DuplicateEntitlementId));
    let fresh = EntitlementDef { id: 8, name: "extra".to_string(), description: None };
    assert_eq!(cat.create_entitlement(fresh), Ok(()));
    assert_eq!(cat.entitlements.len(), 2);
}

#[test]
fn user_email_updates_in_place() {
    let s = sample_state();
    assert_eq!(s.find_user_by_id(1), Some(0));
    assert_eq!(s.find_user_by_id(9), None);
    let s2 = sample_state()
        .update_user(1, Some("new@example.com".to_string()), T0 + DAY)
        .unwrap();
    assert_eq!(s2.users[0].email, Some("new@example.com".to_string()));
    assert_eq!(s2.users[0].updated_at, T0 + DAY);
    assert_eq!(s2.users[0].app_user_id, "alice");
    let err = sample_state().update_user(9, None, T0).unwrap_err();
    assert_eq!(err, AdminError::UserNotFound);
}

#[test]
fn listings_respect_their_limit() {
    let s = sample_state();
    assert_eq!(s.list_subscriptions(1).len(), 1);
    assert_eq!(s.list_subscriptions(100).len(), 2);
    assert_eq!(s.list_subscriptions(100)[0].id, 2);
    assert_eq!(s.list_users(100).len(), 1);
    assert_eq!(s.list_users(0).len(), 0);
}

#[test]
fn ledger_duplicate_is_field_for_field_equal() {
    let s = sample_state();
    let d = s.duplicate();
    assert_eq!(d.next_id, s.next_id);
    assert_eq!(d.users.len(), s.users.len());
    assert_eq!(d.users[0].app_user_id, s.users[0].app_user_id);
    assert_eq!(d.subscriptions.len(), s.subscriptions.len());
    assert_eq!(d.subscriptions[1].original_transaction_id, "otid-3");
    assert_eq!(d.entitlements.len(), s.entitlements.len());
}

#[test]
fn store_transaction_lookup_matches_either_key() {
    let s = sample_state();
    assert_eq!(s.find_by_store_transaction(Store::Apple, "otid-2"), Some(0));
    assert_eq!(s.find_by_store_transaction(Store::Apple, "tx-3"), Some(1));
    assert_eq!(s.find_by_store_transaction(Store::Google, "tx-3"), None);
    assert_eq!(s.find_by_store_transaction(Store::Apple, "nope"), None);
}
