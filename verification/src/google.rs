//! The Google half of the event normalizer: Play real-time developer
//! notifications, together with the purchase details the Play API reports
//! for the purchase token, mapped into the canonical `StoreEvent`
//! vocabulary.
//!
//! Timestamps are Unix epoch milliseconds, as Google reports them.

use vstd::prelude::*;

use crate::event::NormalizeError;
use crate::event::Normalized;
use crate::event::StoreEvent;
use crate::types::EventKind;
use crate::types::Store;

verus! {

/// The envelope of a Play real-time developer notification.
#[derive(Debug)]
pub struct GoogleNotificationPayload {
    pub version: String,
    pub package_name: String,
    pub event_time_millis: i64,
    pub subscription_notification: Option<GoogleSubscriptionNotification>,
    pub one_time_product_notification: Option<GoogleOneTimeProductNotification>,
    pub test_notification: Option<GoogleTestNotification>,
}

/// A subscription lifecycle notification.
#[derive(Debug)]
pub struct GoogleSubscriptionNotification {
    pub version: String,
    pub notification_type: i32,
    pub purchase_token: String,
    pub subscription_id: String,
}

/// A one-time product notification.
#[derive(Debug)]
pub struct GoogleOneTimeProductNotification {
    pub version: String,
    pub notification_type: i32,
    pub purchase_token: String,
    pub sku: String,
}

/// A test notification; acknowledged and dropped.
#[derive(Debug)]
pub struct GoogleTestNotification {
    pub version: String,
}

/// The purchase state the Play API reports for a purchase token; folded
/// into the normalized event where the notification alone carries no
/// expiry or renewal data.
#[derive(Debug)]
pub struct GoogleSubscriptionPurchase {
    pub kind: String,
    pub start_time_millis: i64,
    pub expiry_time_millis: i64,
    pub auto_renewing: bool,
    pub price_currency_code: Option<String>,
    pub price_amount_micros: Option<i64>,
    pub country_code: Option<String>,
    pub developer_payload: Option<String>,
    pub payment_state: Option<i32>,
    pub cancel_reason: Option<i32>,
    pub user_cancellation_time_millis: Option<i64>,
    pub order_id: Option<String>,
    pub purchase_type: Option<i32>,
    pub acknowledgement_state: Option<i32>,
    pub obfuscated_external_account_id: Option<String>,
    pub linked_purchase_token: Option<String>,
}

/// The account token a Google notification identifies the purchaser by:
/// the obfuscated external account id when the Play API reports one, and
/// the purchase token otherwise.
pub open spec fn spec_google_user_token(
    n: GoogleSubscriptionNotification,
    d: Option<GoogleSubscriptionPurchase>,
) -> String {
    match d {
        Some(dd) => match dd.obfuscated_external_account_id {
            Some(o) => o,
            None => n.purchase_token,
        },
        None => n.purchase_token,
    }
}

/// The transaction id of the specific event: the Play order id when the
/// API reports one, and the purchase token otherwise.
pub open spec fn spec_google_transaction_id(
    n: GoogleSubscriptionNotification,
    d: Option<GoogleSubscriptionPurchase>,
) -> String {
    match d {
        Some(dd) => match dd.order_id {
            Some(o) => o,
            None => n.purchase_token,
        },
        None => n.purchase_token,
    }
}

/// The canonical event a subscription notification denotes, given the
/// purchase details, or why none does.
pub open spec fn spec_normalize_google_subscription(
    p: GoogleNotificationPayload,
    n: GoogleSubscriptionNotification,
    d: Option<GoogleSubscriptionPurchase>,
) -> Result<Normalized, NormalizeError> {
    let nt = n.notification_type;
    let base = StoreEvent {
        store: Store::Google,
        kind: EventKind::Purchased,
        store_product_id: n.subscription_id,
        original_transaction_id: n.purchase_token,
        transaction_id: spec_google_transaction_id(n, d),
        occurred_at: p.event_time_millis,
        new_expires_at: match d {
            Some(dd) => Some(dd.expiry_time_millis),
            None => None,
        },
        new_auto_renew: match d {
            Some(dd) => Some(dd.auto_renewing),
            None => None,
        },
        grace_period_expires_at: None,
        user_token: Some(spec_google_user_token(n, d)),
    };
    if nt == 4 {
        // PURCHASED
        if d is None {
            Err(NormalizeError::Malformed)
        } else {
            Ok(Normalized::Event(base))
        }
    } else if nt == 1 || nt == 2 || nt == 7 {
        // RECOVERED, RENEWED, RESTARTED: all renewals; a restart re-grants
        // through the engine's restart rule
        if d is None {
            Err(NormalizeError::Malformed)
        } else {
            Ok(Normalized::Event(StoreEvent { kind: EventKind::Renewed, ..base }))
        }
    } else if nt == 3 {
        // CANCELED
        Ok(Normalized::Event(StoreEvent { kind: EventKind::Cancelled, ..base }))
    } else if nt == 5 || nt == 10 {
        // ON_HOLD and PAUSED: access is administratively suspended
        Ok(Normalized::Event(StoreEvent { kind: EventKind::Paused, ..base }))
    } else if nt == 6 {
        // IN_GRACE_PERIOD: the reported expiry is the grace period end,
        // which must lie in the future at transition time
        match d {
            None => Err(NormalizeError::Malformed),
            Some(dd) => if dd.expiry_time_millis <= p.event_time_millis {
                Err(NormalizeError::Malformed)
            } else {
                Ok(
                    Normalized::Event(
                        StoreEvent {
                            kind: EventKind::EnteredGrace,
                            grace_period_expires_at: Some(dd.expiry_time_millis),
                            ..base
                        },
                    ),
                )
            },
        }
    } else if nt == 12 {
        // REVOKED: refund-equivalent, access pulled immediately
        Ok(Normalized::Event(StoreEvent { kind: EventKind::Refunded, ..base }))
    } else if nt == 13 {
        // EXPIRED
        Ok(Normalized::Event(StoreEvent { kind: EventKind::Expired, ..base }))
    } else if nt == 8 || nt == 9 || nt == 11 {
        // price change confirmed, deferred, pause schedule changed:
        // advisory, no entitlement change is modeled
        Ok(Normalized::Ignored)
    } else {
        Err(NormalizeError::Unsupported)
    }
}

/// The canonical event a one-time product notification denotes, or why
/// none does.
pub open spec fn spec_normalize_google_one_time(
    p: GoogleNotificationPayload,
    n: GoogleOneTimeProductNotification,
) -> Result<Normalized, NormalizeError> {
    let nt = n.notification_type;
    if nt == 1 {
        // PURCHASED: a non-expiring purchase granting lifetime access
        Ok(
            Normalized::Event(
                StoreEvent {
                    store: Store::Google,
                    kind: EventKind::Purchased,
                    store_product_id: n.sku,
                    original_transaction_id: n.purchase_token,
                    transaction_id: n.purchase_token,
                    occurred_at: p.event_time_millis,
                    new_expires_at: None,
                    new_auto_renew: Some(false),
                    grace_period_expires_at: None,
                    user_token: Some(n.purchase_token),
                },
            ),
        )
    } else if nt == 2 {
        // CANCELED: treated as a refund of the one-time purchase
        Ok(
            Normalized::Event(
                StoreEvent {
                    store: Store::Google,
                    kind: EventKind::Refunded,
                    store_product_id: n.sku,
                    original_transaction_id: n.purchase_token,
                    transaction_id: n.purchase_token,
                    occurred_at: p.event_time_millis,
                    new_expires_at: None,
                    new_auto_renew: None,
                    grace_period_expires_at: None,
                    user_token: Some(n.purchase_token),
                },
            ),
        )
    } else {
        Err(NormalizeError::Unsupported)
    }
}

/// The canonical event a whole Play notification denotes: test
/// notifications are dropped, and an envelope with no notification in it
/// is malformed.
pub open spec fn spec_normalize_google(
    p: GoogleNotificationPayload,
    d: Option<GoogleSubscriptionPurchase>,
) -> Result<Normalized, NormalizeError> {
    if p.test_notification is Some {
        Ok(Normalized::Ignored)
    } else if p.subscription_notification is Some {
        spec_normalize_google_subscription(p, p.subscription_notification->0, d)
    } else if p.one_time_product_notification is Some {
        spec_normalize_google_one_time(p, p.one_time_product_notification->0)
    } else {
        Err(NormalizeError::Malformed)
    }
}

/// Map one Play notification into the canonical event vocabulary, exactly
/// as `spec_normalize_google` describes: the subscription and one-time
/// mapping tables, with test and advisory notifications dropped, unknown
/// types rejected as unsupported, and notifications that need purchase
/// details rejected as malformed when none are given.
pub fn normalize_google(
    payload: &GoogleNotificationPayload,
    details: Option<&GoogleSubscriptionPurchase>,
) -> (r: Result<Normalized, NormalizeError>)
    ensures
        r == spec_normalize_google(
            *payload,
            match details {
                Some(d) => Some(*d),
                None => None,
            },
        ),
        r matches Ok(Normalized::Event(ev)) ==> ev.wf(),
{
    if payload.test_notification.is_some() {
        return Ok(Normalized::Ignored);
    }
    match &payload.subscription_notification {
        Option::Some(n) => {
            let nt = n.notification_type;
            if nt == 4 || nt == 1 || nt == 2 || nt == 7 || nt == 3 || nt == 5 || nt == 10 || nt == 6
                || nt == 12 || nt == 13 {
                let token: Option<String> = match details {
                    Option::Some(dd) => match &dd.obfuscated_external_account_id {
                        Option::Some(o) => Option::Some(o.clone()),
                        Option::None => Option::Some(n.purchase_token.clone()),
                    },
                    Option::None => Option::Some(n.purchase_token.clone()),
                };
                let txid: String = match details {
                    Option::Some(dd) => match &dd.order_id {
                        Option::Some(o) => o.clone(),
                        Option::None => n.purchase_token.clone(),
                    },
                    Option::None => n.purchase_token.clone(),
                };
                let new_expires: Option<i64> = match details {
                    Option::Some(dd) => Option::Some(dd.expiry_time_millis),
                    Option::None => Option::None,
                };
                let new_auto: Option<bool> = match details {
                    Option::Some(dd) => Option::Some(dd.auto_renewing),
                    Option::None => Option::None,
                };
                let base = StoreEvent {
                    store: Store::Google,
                    kind: EventKind::Purchased,
                    store_product_id: n.subscription_id.clone(),
                    original_transaction_id: n.purchase_token.clone(),
                    transaction_id: txid,
                    occurred_at: payload.event_time_millis,
                    new_expires_at: new_expires,
                    new_auto_renew: new_auto,
                    grace_period_expires_at: Option::None,
                    user_token: token,
                };
                if nt == 4 {
                    if details.is_none() {
                        Err(NormalizeError::Malformed)
                    } else {
                        Ok(Normalized::Event(base))
                    }
                } else if nt == 1 || nt == 2 || nt == 7 {
                    if details.is_none() {
                        Err(NormalizeError::Malformed)
                    } else {
                        Ok(Normalized::Event(StoreEvent { kind: EventKind::Renewed, ..base }))
                    }
                } else if nt == 3 {
                    Ok(Normalized::Event(StoreEvent { kind: EventKind::Cancelled, ..base }))
                } else if nt == 5 || nt == 10 {
                    Ok(Normalized::Event(StoreEvent { kind: EventKind::Paused, ..base }))
                } else if nt == 6 {
                    match details {
                        Option::None => Err(NormalizeError::Malformed),
                        Option::Some(dd) => {
                            if dd.expiry_time_millis <= payload.event_time_millis {
                                Err(NormalizeError::Malformed)
                            } else {
                                Ok(
                                    Normalized::Event(
                                        StoreEvent {
                                            kind: EventKind::EnteredGrace,
                                            grace_period_expires_at: Option::Some(
                                                dd.expiry_time_millis,
                                            ),
                                            ..base
                                        },
                                    ),
                                )
                            }
                        },
                    }
                } else if nt == 12 {
                    Ok(Normalized::Event(StoreEvent { kind: EventKind::Refunded, ..base }))
                } else {
                    Ok(Normalized::Event(StoreEvent { kind: EventKind::Expired, ..base }))
                }
            } else if nt == 8 || nt == 9 || nt == 11 {
                Ok(Normalized::Ignored)
            } else {
                Err(NormalizeError::Unsupported)
            }
        },
        Option::None => {
            match &payload.one_time_product_notification {
                Option::Some(n) => {
                    let nt = n.notification_type;
                    if nt == 1 {
                        Ok(
                            Normalized::Event(
                                StoreEvent {
                                    store: Store::Google,
                                    kind: EventKind::Purchased,
                                    store_product_id: n.sku.clone(),
                                    original_transaction_id: n.purchase_token.clone(),
                                    transaction_id: n.purchase_token.clone(),
                                    occurred_at: payload.event_time_millis,
                                    new_expires_at: Option::None,
                                    new_auto_renew: Option::Some(false),
                                    grace_period_expires_at: Option::None,
                                    user_token: Option::Some(n.purchase_token.clone()),
                                },
                            ),
                        )
                    } else if nt == 2 {
                        Ok(
                            Normalized::Event(
                                StoreEvent {
                                    store: Store::Google,
                                    kind: EventKind::Refunded,
                                    store_product_id: n.sku.clone(),
                                    original_transaction_id: n.purchase_token.clone(),
                                    transaction_id: n.purchase_token.clone(),
                                    occurred_at: payload.event_time_millis,
                                    new_expires_at: Option::None,
                                    new_auto_renew: Option::None,
                                    grace_period_expires_at: Option::None,
                                    user_token: Option::Some(n.purchase_token.clone()),
                                },
                            ),
                        )
                    } else {
                        Err(NormalizeError::Unsupported)
                    }
                },
                Option::None => Err(NormalizeError::Malformed),
            }
        },
    }
}

} // verus!
