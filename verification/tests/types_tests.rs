//! Tests for the basic vocabulary: status and product-type labels, store
//! names, environment configuration, catalog lookups and the response
//! builders of the management surface.

use subscription_core::api_types::get_user_entitlements;
use subscription_core::api_types::EntitlementResponse;
use subscription_core::api_types::SubscriptionResponse;
use subscription_core::api_types::UserResponse;
use subscription_core::catalog::Catalog;
use subscription_core::ledger::LedgerState;
use subscription_core::ops::AdminError;
use subscription_core::records::EntitlementDef;
use subscription_core::records::EntitlementGrant;
use subscription_core::records::SubscriptionRec;
use subscription_core::records::UserRec;
use subscription_core::types::ProductType;
use subscription_core::types::Store;
use subscription_core::types::SubscriptionStatus;
use subscription_core::Config;
use subscription_core::Environment;
use subscription_core::WebhookResponse;

const T0: i64 = 1_700_000_000_000;
const DAY: i64 = 86_400_000;

#[test]
fn status_labels_round_trip() {
    let all = [
        (SubscriptionStatus::Active, "active"),
        (SubscriptionStatus::Expired, "expired"),
        (SubscriptionStatus::Cancelled, "cancelled"),
        (SubscriptionStatus::GracePeriod, "grace_period"),
        (SubscriptionStatus::Refunded, "refunded"),
        (SubscriptionStatus::Paused, "paused"),
    ];
    for (status, label) in all {
        assert_eq!(status.to_string(), label);
        assert_eq!(SubscriptionStatus::parse(label), Some(status));
    }
    assert_eq!(SubscriptionStatus::parse("frozen"), None);
}

#[test]
fn product_type_and_store_labels() {
    assert_eq!(ProductType::Subscription.to_string(), "subscription");
    assert_eq!(ProductType::OneTime.to_string(), "one_time");
    assert_eq!(Store::Apple.to_string(), "apple");
    assert_eq!(Store::Google.to_string(), "google");
}

fn config(env: Environment) -> Config {
    Config {
        database_url: "sqlite:./data/subscription.db".to_string(),
        host: "127.0.0.1".to_string(),
        port: 3000,
        jwt_secret: "SECRET-REDACTED".to_string(),
        jwt_expiration: 86_400,
        log_level: "info".to_string(),
        environment: env,
        apple_shared_secret: None,
        google_service_account_json: None,
        webhook_signature_secret: "SECRET-REDACTED".to_string(),
    }
}

#[test]
fn environment_predicates() {
    let prod = config(Environment::Production);
    assert!(prod.is_production() && !prod.is_development() && !prod.is_test());
    let dev = config(Environment::Development);
    assert!(dev.is_development() && !dev.is_production() && !dev.is_test());
    let test = config(Environment::Test);
    assert!(test.is_test() && !test.is_production() && !test.is_development());
}

#[test]
fn environment_labels_fall_back_to_development() {
    assert_eq!(Environment::from_label("production"), Environment::Production);
    assert_eq!(Environment::from_label("test"), Environment::Test);
    assert_eq!(Environment::from_label("development"), Environment::Development);
    assert_eq!(Environment::from_label("staging"), Environment::Development);
}

#[test]
fn webhook_acknowledgements() {
    assert_eq!(WebhookResponse::processed().message, "Webhook processed successfully");
    assert_eq!(WebhookResponse::test_received().message, "Test notification received");
}

#[test]
fn response_builders_copy_the_record_fields() {
    let d = EntitlementDef { id: 7, name: "premium".to_string(), description: None };
    let er = EntitlementResponse::from_def(&d);
    assert_eq!((er.id, er.name.as_str(), er.description), (7, "premium", None));

    let u = UserRec {
        id: 1,
        app_user_id: "alice".to_string(),
        email: Some("alice@example.com".to_string()),
        created_at: T0,
        updated_at: T0,
    };
    let ur = UserResponse::from_user(&u);
    assert_eq!(ur.id, 1);
    assert_eq!(ur.app_user_id, "alice");
    assert_eq!(ur.email, Some("alice@example.com".to_string()));

    let s = SubscriptionRec {
        id: 2,
        user_id: 1,
        product_id: 100,
        original_transaction_id: "A1".to_string(),
        store_transaction_id: "tx-1".to_string(),
        store: Store::Google,
        purchase_date: T0,
        expires_date: Some(T0 + 30 * DAY),
        cancellation_date: None,
        renewal_grace_period_expires_date: None,
        status: SubscriptionStatus::Active,
        auto_renew_status: Some(true),
        price_micros: Some(4_990_000),
        currency: Some("USD".to_string()),
        is_trial: false,
        is_intro_offer: false,
        created_at: T0,
        updated_at: T0,
    };
    let sr = SubscriptionResponse::from_subscription(&s);
    assert_eq!(sr.id, 2);
    assert_eq!(sr.store, Store::Google);
    assert_eq!(sr.status, SubscriptionStatus::Active);
    assert_eq!(sr.expires_date, Some(T0 + 30 * DAY));
}

#[test]
fn user_entitlement_listing_joins_the_catalog() {
    let cat = Catalog {
        products: vec![],
        entitlements: vec![EntitlementDef {
            id: 7,
            name: "premium".to_string(),
            description: None,
        }],
    };
    let state = LedgerState {
        users: vec![],
        subscriptions: vec![],
        entitlements: vec![EntitlementGrant {
            id: 4,
            user_id: 1,
            entitlement_id: 7,
            subscription_id: Some(2),
            starts_at: T0,
            expires_at: Some(T0 + 30 * DAY),
            created_at: T0,
            updated_at: T0,
        }],
        next_id: 10,
    };
    let resp = get_user_entitlements(&state, &cat, 1, T0 + DAY).unwrap();
    assert_eq!(resp.entitlements.len(), 1);
    let entry = &resp.entitlements[0];
    assert_eq!(entry.id, 4);
    assert_eq!(entry.entitlement.name, "premium");
    assert_eq!(entry.expires_at, Some(T0 + 30 * DAY));
    assert!(entry.active);
}

#[test]
fn user_entitlement_listing_rejects_a_missing_definition() {
    let cat = Catalog { products: vec![], entitlements: vec![] };
    let state = LedgerState {
        users: vec![],
        subscriptions: vec![],
        entitlements: vec![EntitlementGrant {
            id: 4,
            user_id: 1,
            entitlement_id: 7,
            subscription_id: None,
            starts_at: T0,
            expires_at: None,
            created_at: T0,
            updated_at: T0,
        }],
        next_id: 10,
    };
    let err = get_user_entitlements(&state, &cat, 1, T0).unwrap_err();
    assert_eq!(err, AdminError::EntitlementNotFound);
}

#[test]
fn catalog_lookups_by_store_facing_ids() {
    let cat = Catalog {
        products: vec![
            subscription_core::records::ProductRec {
                id: 100,
                name: "Monthly".to_string(),
                description: None,
                apple_product_id: Some("com.example.monthly".to_string()),
                google_product_id: Some("monthly_sub".to_string()),
                product_type: ProductType::Subscription,
                price_micros: None,
                duration_days: Some(30),
                entitlement_ids: vec![7],
            },
        ],
        entitlements: vec![],
    };
    assert_eq!(cat.find_product_by_store_id(Store::Apple, "com.example.monthly"), Some(0));
    assert_eq!(cat.find_product_by_store_id(Store::Google, "monthly_sub"), Some(0));
    assert_eq!(cat.find_product_by_store_id(Store::Apple, "monthly_sub"), None);
    assert_eq!(cat.find_product_by_id(100), Some(0));
    assert_eq!(cat.find_product_by_id(101), None);
    assert_eq!(cat.find_entitlement(7), None, "no entitlements defined");
}

#[test]
fn list_responses_mirror_their_records() {
    let users = vec![UserRec {
        id: 1,
        app_user_id: "alice".to_string(),
        email: None,
        created_at: T0,
        updated_at: T0,
    }];
    let ur = subscription_core::api_types::UsersResponse::from_users(&users);
    assert_eq!(ur.users.len(), 1);
    assert_eq!(ur.users[0].app_user_id, "alice");

    let subs = vec![SubscriptionRec {
        id: 2,
        user_id: 1,
        product_id: 100,
        original_transaction_id: "A1".to_string(),
        store_transaction_id: "tx-1".to_string(),
        store: Store::Apple,
        purchase_date: T0,
        expires_date: Some(T0 + DAY),
        cancellation_date: None,
        renewal_grace_period_expires_date: None,
        status: SubscriptionStatus::Active,
        auto_renew_status: None,
        price_micros: None,
        currency: None,
        is_trial: false,
        is_intro_offer: false,
        created_at: T0,
        updated_at: T0,
    }];
    let sr = subscription_core::api_types::UserSubscriptionsResponse::from_subscriptions(&subs);
    assert_eq!(sr.subscriptions.len(), 1);
    assert_eq!(sr.subscriptions[0].expires_date, Some(T0 + DAY));
    let dr = subscription_core::api_types::SubscriptionsResponse::from_subscriptions(&subs);
    assert_eq!(dr.subscriptions[0].original_transaction_id, "A1");

    let access = subscription_core::api_types::EntitlementAccessResponse::from_check(
        true,
        Some(T0 + DAY),
    );
    assert!(access.has_access);
    assert_eq!(access.expires_at, Some(T0 + DAY));
}
