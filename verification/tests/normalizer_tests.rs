//! Tests for the event normalizers: the Apple and Google mapping tables,
//! advisory drops, unsupported rejections and malformed envelopes.

use subscription_core::apple::normalize_apple;
use subscription_core::apple::AppleNotificationData;
use subscription_core::apple::AppleNotificationPayload;
use subscription_core::apple::AppleRenewalInfo;
use subscription_core::apple::AppleTransactionInfo;
use subscription_core::google::normalize_google;
use subscription_core::google::GoogleNotificationPayload;
use subscription_core::google::GoogleOneTimeProductNotification;
use subscription_core::google::GoogleSubscriptionNotification;
use subscription_core::google::GoogleSubscriptionPurchase;
use subscription_core::google::GoogleTestNotification;
use subscription_core::types::EventKind;
use subscription_core::types::Store;
use subscription_core::NormalizeError;
use subscription_core::Normalized;
use subscription_core::StoreEvent;

const T0: i64 = 1_700_000_000_000;
const DAY: i64 = 86_400_000;

fn apple_payload(ty: &str) -> AppleNotificationPayload {
    AppleNotificationPayload {
        notification_type: ty.to_string(),
        sub_type: None,
        notification_uuid: "uuid-1".to_string(),
        version: "2.0".to_string(),
        data: AppleNotificationData {
            app_apple_id: None,
            bundle_id: Some("com.example.app".to_string()),
            bundle_version: None,
            environment: Some("Production".to_string()),
            signed_renewal_info: None,
            signed_transaction_info: None,
        },
        signed_date: T0,
    }
}

fn apple_tx() -> AppleTransactionInfo {
    AppleTransactionInfo {
        transaction_id: "tx-9".to_string(),
        original_transaction_id: "A1".to_string(),
        web_order_line_item_id: None,
        bundle_id: "com.example.app".to_string(),
        product_id: "com.example.monthly".to_string(),
        subscription_group_identifier: None,
        purchase_date: T0 - DAY,
        original_purchase_date: T0 - 31 * DAY,
        expires_date: Some(T0 + 29 * DAY),
        quantity: 1,
        transaction_type: "Auto-Renewable Subscription".to_string(),
        in_app_ownership_type: "PURCHASED".to_string(),
        signed_date: T0,
        app_account_token: Some("user-token-1".to_string()),
        revocation_date: None,
        revocation_reason: None,
        offer_type: None,
        offer_identifier: None,
    }
}

fn apple_renewal(status: i32) -> AppleRenewalInfo {
    AppleRenewalInfo {
        auto_renew_product_id: Some("com.example.monthly".to_string()),
        auto_renew_status: status,
        expiration_intent: None,
        grace_period_expires_date: Some(T0 + 16 * DAY),
        is_in_billing_retry_period: Some(1),
        offer_identifier: None,
        offer_type: None,
        original_transaction_id: "A1".to_string(),
        price_increase_status: None,
        product_id: "com.example.monthly".to_string(),
        signed_date: T0,
    }
}

fn expect_event(r: Result<Normalized, NormalizeError>) -> StoreEvent {
    match r.expect("normalization should succeed") {
        Normalized::Event(ev) => ev,
        Normalized::Ignored => panic!("expected an event, got an advisory drop"),
    }
}

#[test]
fn apple_subscribed_maps_to_purchased() {
    let tx = apple_tx();
    let ev = expect_event(normalize_apple(&apple_payload("SUBSCRIBED"), Some(&tx), None));
    assert_eq!(ev.store, Store::Apple);
    assert_eq!(ev.kind, EventKind::Purchased);
    assert_eq!(ev.store_product_id, "com.example.monthly");
    assert_eq!(ev.original_transaction_id, "A1");
    assert_eq!(ev.transaction_id, "tx-9");
    assert_eq!(ev.occurred_at, T0 - DAY);
    assert_eq!(ev.new_expires_at, Some(T0 + 29 * DAY));
    assert_eq!(ev.new_auto_renew, Some(true));
    assert_eq!(ev.user_token, Some("user-token-1".to_string()));
}

#[test]
fn apple_offer_redeemed_is_a_purchase_too() {
    let tx = apple_tx();
    let ev = expect_event(normalize_apple(&apple_payload("OFFER_REDEEMED"), Some(&tx), None));
    assert_eq!(ev.kind, EventKind::Purchased);
}

#[test]
fn apple_did_renew_maps_to_renewed() {
    let tx = apple_tx();
    let rn = apple_renewal(1);
    let ev = expect_event(normalize_apple(&apple_payload("DID_RENEW"), Some(&tx), Some(&rn)));
    assert_eq!(ev.kind, EventKind::Renewed);
    assert_eq!(ev.new_auto_renew, Some(true));
    assert_eq!(ev.new_expires_at, Some(T0 + 29 * DAY));
}

#[test]
fn apple_expired_and_grace_expired_map_to_expired() {
    let tx = apple_tx();
    for ty in ["EXPIRED", "GRACE_PERIOD_EXPIRED"] {
        let ev = expect_event(normalize_apple(&apple_payload(ty), Some(&tx), None));
        assert_eq!(ev.kind, EventKind::Expired);
        assert_eq!(ev.occurred_at, T0, "expiry is dated from the envelope");
    }
}

#[test]
fn apple_fail_to_renew_maps_to_grace_with_its_end() {
    let rn = apple_renewal(1);
    let ev = expect_event(normalize_apple(&apple_payload("DID_FAIL_TO_RENEW"), None, Some(&rn)));
    assert_eq!(ev.kind, EventKind::EnteredGrace);
    assert_eq!(ev.grace_period_expires_at, Some(T0 + 16 * DAY));
    assert_eq!(ev.original_transaction_id, "A1");
}

#[test]
fn apple_fail_to_renew_without_grace_end_is_malformed() {
    let mut rn = apple_renewal(1);
    rn.grace_period_expires_date = None;
    let err = normalize_apple(&apple_payload("DID_FAIL_TO_RENEW"), None, Some(&rn)).unwrap_err();
    assert_eq!(err, NormalizeError::Malformed);
}

#[test]
fn apple_renewal_status_change_carries_the_flag() {
    let rn = apple_renewal(0);
    let ev = expect_event(
        normalize_apple(&apple_payload("DID_CHANGE_RENEWAL_STATUS"), None, Some(&rn)),
    );
    assert_eq!(ev.kind, EventKind::AutoRenewChanged);
    assert_eq!(ev.new_auto_renew, Some(false));
}

#[test]
fn apple_refund_is_dated_from_revocation() {
    let mut tx = apple_tx();
    tx.revocation_date = Some(T0 - 2 * DAY);
    let ev = expect_event(normalize_apple(&apple_payload("REFUND"), Some(&tx), None));
    assert_eq!(ev.kind, EventKind::Refunded);
    assert_eq!(ev.occurred_at, T0 - 2 * DAY);
}

#[test]
fn apple_revoke_maps_to_cancelled() {
    let tx = apple_tx();
    let ev = expect_event(normalize_apple(&apple_payload("REVOKE"), Some(&tx), None));
    assert_eq!(ev.kind, EventKind::Cancelled);
    assert_eq!(ev.occurred_at, T0, "no revocation date: dated from the envelope");
}

#[test]
fn apple_renewal_extended_carries_the_new_expiry() {
    let tx = apple_tx();
    let ev = expect_event(normalize_apple(&apple_payload("RENEWAL_EXTENDED"), Some(&tx), None));
    assert_eq!(ev.kind, EventKind::ExtendedExpiry);
    assert_eq!(ev.new_expires_at, Some(T0 + 29 * DAY));
}

#[test]
fn apple_advisory_types_are_dropped() {
    for ty in [
        "CONSUMPTION_REQUEST",
        "PRICE_INCREASE",
        "REFUND_DECLINED",
        "DID_CHANGE_RENEWAL_PREF",
    ] {
        match normalize_apple(&apple_payload(ty), None, None).unwrap() {
            Normalized::Ignored => {},
            Normalized::Event(_) => panic!("{ty} must be dropped"),
        }
    }
}

#[test]
fn apple_unknown_type_is_unsupported() {
    let err = normalize_apple(&apple_payload("SOMETHING_ELSE"), None, None).unwrap_err();
    assert_eq!(err, NormalizeError::Unsupported);
}

#[test]
fn apple_purchase_without_transaction_info_is_malformed() {
    let err = normalize_apple(&apple_payload("SUBSCRIBED"), None, None).unwrap_err();
    assert_eq!(err, NormalizeError::Malformed);
}

fn google_payload(
    sub: Option<GoogleSubscriptionNotification>,
    one_time: Option<GoogleOneTimeProductNotification>,
    test: Option<GoogleTestNotification>,
) -> GoogleNotificationPayload {
    GoogleNotificationPayload {
        version: "1.0".to_string(),
        package_name: "com.example.app".to_string(),
        event_time_millis: T0,
        subscription_notification: sub,
        one_time_product_notification: one_time,
        test_notification: test,
    }
}

fn google_sub(nt: i32) -> GoogleSubscriptionNotification {
    GoogleSubscriptionNotification {
        version: "1.0".to_string(),
        notification_type: nt,
        purchase_token: "token-g1".to_string(),
        subscription_id: "monthly_sub".to_string(),
    }
}

fn google_details() -> GoogleSubscriptionPurchase {
    GoogleSubscriptionPurchase {
        kind: "androidpublisher#subscriptionPurchase".to_string(),
        start_time_millis: T0 - DAY,
        expiry_time_millis: T0 + 29 * DAY,
        auto_renewing: true,
        price_currency_code: Some("USD".to_string()),
        price_amount_micros: Some(4_990_000),
        country_code: Some("US".to_string()),
        developer_payload: None,
        payment_state: Some(1),
        cancel_reason: None,
        user_cancellation_time_millis: None,
        order_id: Some("GPA.1234-5678-9012-34567".to_string()),
        purchase_type: None,
        acknowledgement_state: Some(1),
        obfuscated_external_account_id: Some("g-user-1".to_string()),
        linked_purchase_token: None,
    }
}

#[test]
fn google_purchase_folds_in_the_api_details() {
    let d = google_details();
    let ev = expect_event(normalize_google(&google_payload(Some(google_sub(4)), None, None), Some(&d)));
    assert_eq!(ev.store, Store::Google);
    assert_eq!(ev.kind, EventKind::Purchased);
    assert_eq!(ev.store_product_id, "monthly_sub");
    assert_eq!(ev.original_transaction_id, "token-g1");
    assert_eq!(ev.transaction_id, "GPA.1234-5678-9012-34567");
    assert_eq!(ev.occurred_at, T0);
    assert_eq!(ev.new_expires_at, Some(T0 + 29 * DAY));
    assert_eq!(ev.new_auto_renew, Some(true));
    assert_eq!(ev.user_token, Some("g-user-1".to_string()));
}

#[test]
fn google_purchase_without_details_is_malformed() {
    let err = normalize_google(&google_payload(Some(google_sub(4)), None, None), None)
        .unwrap_err();
    assert_eq!(err, NormalizeError::Malformed);
}

#[test]
fn google_renewal_family_maps_to_renewed() {
    let d = google_details();
    for nt in [1, 2, 7] {
        let ev = expect_event(
            normalize_google(&google_payload(Some(google_sub(nt)), None, None), Some(&d)),
        );
        assert_eq!(ev.kind, EventKind::Renewed, "type {nt} renews");
    }
}

#[test]
fn google_cancel_hold_grace_revoke_expire() {
    let d = google_details();
    let cases = [
        (3, EventKind::Cancelled),
        (5, EventKind::Paused),
        (10, EventKind::Paused),
        (6, EventKind::EnteredGrace),
        (12, EventKind::Refunded),
        (13, EventKind::Expired),
    ];
    for (nt, kind) in cases {
        let ev = expect_event(
            normalize_google(&google_payload(Some(google_sub(nt)), None, None), Some(&d)),
        );
        assert_eq!(ev.kind, kind, "type {nt}");
    }
}

#[test]
fn google_grace_period_end_is_the_reported_expiry() {
    let d = google_details();
    let ev = expect_event(
        normalize_google(&google_payload(Some(google_sub(6)), None, None), Some(&d)),
    );
    assert_eq!(ev.grace_period_expires_at, Some(T0 + 29 * DAY));
}

#[test]
fn google_advisory_types_are_dropped() {
    for nt in [8, 9, 11] {
        match normalize_google(&google_payload(Some(google_sub(nt)), None, None), None).unwrap() {
            Normalized::Ignored => {},
            Normalized::Event(_) => panic!("type {nt} must be dropped"),
        }
    }
}

#[test]
fn google_unknown_type_is_unsupported() {
    let err = normalize_google(&google_payload(Some(google_sub(42)), None, None), None)
        .unwrap_err();
    assert_eq!(err, NormalizeError::Unsupported);
}

#[test]
fn google_test_notification_is_acknowledged_and_dropped() {
    let payload = google_payload(
        None,
        None,
        Some(GoogleTestNotification { version: "1.0".to_string() }),
    );
    match normalize_google(&payload, None).unwrap() {
        Normalized::Ignored => {},
        Normalized::Event(_) => panic!("test notifications carry no event"),
    }
}

#[test]
fn google_empty_envelope_is_malformed() {
    let err = normalize_google(&google_payload(None, None, None), None).unwrap_err();
    assert_eq!(err, NormalizeError::Malformed);
}

#[test]
fn google_one_time_purchase_is_lifetime() {
    let n = GoogleOneTimeProductNotification {
        version: "1.0".to_string(),
        notification_type: 1,
        purchase_token: "token-ot".to_string(),
        sku: "lifetime_unlock".to_string(),
    };
    let ev = expect_event(normalize_google(&google_payload(None, Some(n), None), None));
    assert_eq!(ev.kind, EventKind::Purchased);
    assert_eq!(ev.store_product_id, "lifetime_unlock");
    assert_eq!(ev.new_expires_at, None);
    assert_eq!(ev.new_auto_renew, Some(false));
    assert_eq!(ev.user_token, Some("token-ot".to_string()));
}

#[test]
fn google_one_time_cancel_is_a_refund() {
    let n = GoogleOneTimeProductNotification {
        version: "1.0".to_string(),
        notification_type: 2,
        purchase_token: "token-ot".to_string(),
        sku: "lifetime_unlock".to_string(),
    };
    let ev = expect_event(normalize_google(&google_payload(None, Some(n), None), None));
    assert_eq!(ev.kind, EventKind::Refunded);
}

#[test]
fn google_one_time_unknown_type_is_unsupported() {
    let n = GoogleOneTimeProductNotification {
        version: "1.0".to_string(),
        notification_type: 9,
        purchase_token: "token-ot".to_string(),
        sku: "lifetime_unlock".to_string(),
    };
    let err = normalize_google(&google_payload(None, Some(n), None), None).unwrap_err();
    assert_eq!(err, NormalizeError::Unsupported);
}

#[test]
fn apple_grace_end_in_the_past_is_malformed() {
    let mut rn = apple_renewal(1);
    rn.grace_period_expires_date = Some(rn.signed_date - DAY);
    let err = normalize_apple(&apple_payload("DID_FAIL_TO_RENEW"), None, Some(&rn)).unwrap_err();
    assert_eq!(err, NormalizeError::Malformed);
    rn.grace_period_expires_date = Some(rn.signed_date);
    let err2 = normalize_apple(&apple_payload("DID_FAIL_TO_RENEW"), None, Some(&rn)).unwrap_err();
    assert_eq!(err2, NormalizeError::Malformed, "a grace end at the event time is rejected too");
}

#[test]
fn google_grace_end_in_the_past_is_malformed() {
    let mut d = google_details();
    d.expiry_time_millis = T0 - DAY;
    let err = normalize_google(&google_payload(Some(google_sub(6)), None, None), Some(&d))
        .unwrap_err();
    assert_eq!(err, NormalizeError::Malformed);
    d.expiry_time_millis = T0;
    let err2 = normalize_google(&google_payload(Some(google_sub(6)), None, None), Some(&d))
        .unwrap_err();
    assert_eq!(err2, NormalizeError::Malformed, "a grace end at the event time is rejected too");
}
