//! The Apple half of the event normalizer: App Store server notification
//! payloads (with their transaction and renewal details already decoded
//! and signature-checked by an external collaborator) mapped into the
//! canonical `StoreEvent` vocabulary.
//!
//! Timestamps are Unix epoch milliseconds, as Apple reports them.

use vstd::prelude::*;

use crate::event::NormalizeError;
use crate::event::Normalized;
use crate::event::StoreEvent;
use crate::types::EventKind;
use crate::types::Store;
use crate::types::str_eq;

verus! {

/// The envelope of an App Store server notification.
#[derive(Debug)]
pub struct AppleNotificationPayload {
    pub notification_type: String,
    pub sub_type: Option<String>,
    pub notification_uuid: String,
    pub version: String,
    pub data: AppleNotificationData,
    pub signed_date: i64,
}

/// The data block of the envelope; the signed fields are opaque tokens
/// that an external decoder turns into the structs below.
#[derive(Debug)]
pub struct AppleNotificationData {
    pub app_apple_id: Option<String>,
    pub bundle_id: Option<String>,
    pub bundle_version: Option<String>,
    pub environment: Option<String>,
    pub signed_renewal_info: Option<String>,
    pub signed_transaction_info: Option<String>,
}

/// Decoded transaction information, produced by the external decoder.
#[derive(Debug)]
pub struct AppleTransactionInfo {
    pub transaction_id: String,
    pub original_transaction_id: String,
    pub web_order_line_item_id: Option<String>,
    pub bundle_id: String,
    pub product_id: String,
    pub subscription_group_identifier: Option<String>,
    pub purchase_date: i64,
    pub original_purchase_date: i64,
    pub expires_date: Option<i64>,
    pub quantity: i64,
    pub transaction_type: String,
    pub in_app_ownership_type: String,
    pub signed_date: i64,
    pub app_account_token: Option<String>,
    pub revocation_date: Option<i64>,
    pub revocation_reason: Option<i64>,
    pub offer_type: Option<i64>,
    pub offer_identifier: Option<String>,
}

/// Decoded renewal information, produced by the external decoder.
#[derive(Debug)]
pub struct AppleRenewalInfo {
    pub auto_renew_product_id: Option<String>,
    pub auto_renew_status: i32,
    pub expiration_intent: Option<i32>,
    pub grace_period_expires_date: Option<i64>,
    pub is_in_billing_retry_period: Option<i32>,
    pub offer_identifier: Option<String>,
    pub offer_type: Option<i32>,
    pub original_transaction_id: String,
    pub price_increase_status: Option<i32>,
    pub product_id: String,
    pub signed_date: i64,
}

/// The canonical event an Apple notification denotes, or why none does.
pub open spec fn spec_normalize_apple(
    p: AppleNotificationPayload,
    tx: Option<AppleTransactionInfo>,
    rn: Option<AppleRenewalInfo>,
) -> Result<Normalized, NormalizeError> {
    let ty = p.notification_type@;
    if ty == "SUBSCRIBED"@ || ty == "OFFER_REDEEMED"@ {
        match tx {
            None => Err(NormalizeError::Malformed),
            Some(t) => Ok(
                Normalized::Event(
                    StoreEvent {
                        store: Store::Apple,
                        kind: EventKind::Purchased,
                        store_product_id: t.product_id,
                        original_transaction_id: t.original_transaction_id,
                        transaction_id: t.transaction_id,
                        occurred_at: t.purchase_date,
                        new_expires_at: t.expires_date,
                        new_auto_renew: match rn {
                            Some(r) => Some(r.auto_renew_status == 1),
                            None => Some(true),
                        },
                        grace_period_expires_at: None,
                        user_token: t.app_account_token,
                    },
                ),
            ),
        }
    } else if ty == "DID_RENEW"@ {
        match tx {
            None => Err(NormalizeError::Malformed),
            Some(t) => Ok(
                Normalized::Event(
                    StoreEvent {
                        store: Store::Apple,
                        kind: EventKind::Renewed,
                        store_product_id: t.product_id,
                        original_transaction_id: t.original_transaction_id,
                        transaction_id: t.transaction_id,
                        occurred_at: t.purchase_date,
                        new_expires_at: t.expires_date,
                        new_auto_renew: match rn {
                            Some(r) => Some(r.auto_renew_status == 1),
                            None => None,
                        },
                        grace_period_expires_at: None,
                        user_token: t.app_account_token,
                    },
                ),
            ),
        }
    } else if ty == "EXPIRED"@ || ty == "GRACE_PERIOD_EXPIRED"@ {
        match tx {
            None => Err(NormalizeError::Malformed),
            Some(t) => Ok(
                Normalized::Event(
                    StoreEvent {
                        store: Store::Apple,
                        kind: EventKind::Expired,
                        store_product_id: t.product_id,
                        original_transaction_id: t.original_transaction_id,
                        transaction_id: t.transaction_id,
                        occurred_at: p.signed_date,
                        new_expires_at: None,
                        new_auto_renew: None,
                        grace_period_expires_at: None,
                        user_token: t.app_account_token,
                    },
                ),
            ),
        }
    } else if ty == "DID_FAIL_TO_RENEW"@ {
        match rn {
            None => Err(NormalizeError::Malformed),
            Some(r) => match r.grace_period_expires_date {
                None => Err(NormalizeError::Malformed),
                Some(g) => if g <= r.signed_date {
                    // a grace period must end in the future at transition
                    // time
                    Err(NormalizeError::Malformed)
                } else {
                    Ok(
                        Normalized::Event(
                            StoreEvent {
                                store: Store::Apple,
                                kind: EventKind::EnteredGrace,
                                store_product_id: r.product_id,
                                original_transaction_id: r.original_transaction_id,
                                transaction_id: r.original_transaction_id,
                                occurred_at: r.signed_date,
                                new_expires_at: None,
                                new_auto_renew: Some(r.auto_renew_status == 1),
                                grace_period_expires_at: Some(g),
                                user_token: None,
                            },
                        ),
                    )
                },
            },
        }
    } else if ty == "DID_CHANGE_RENEWAL_STATUS"@ {
        match rn {
            None => Err(NormalizeError::Malformed),
            Some(r) => Ok(
                Normalized::Event(
                    StoreEvent {
                        store: Store::Apple,
                        kind: EventKind::AutoRenewChanged,
                        store_product_id: r.product_id,
                        original_transaction_id: r.original_transaction_id,
                        transaction_id: r.original_transaction_id,
                        occurred_at: r.signed_date,
                        new_expires_at: None,
                        new_auto_renew: Some(r.auto_renew_status == 1),
                        grace_period_expires_at: None,
                        user_token: None,
                    },
                ),
            ),
        }
    } else if ty == "REFUND"@ {
        match tx {
            None => Err(NormalizeError::Malformed),
            Some(t) => Ok(
                Normalized::Event(
                    StoreEvent {
                        store: Store::Apple,
                        kind: EventKind::Refunded,
                        store_product_id: t.product_id,
                        original_transaction_id: t.original_transaction_id,
                        transaction_id: t.transaction_id,
                        occurred_at: match t.revocation_date {
                            Some(d) => d,
                            None => p.signed_date,
                        },
                        new_expires_at: None,
                        new_auto_renew: None,
                        grace_period_expires_at: None,
                        user_token: t.app_account_token,
                    },
                ),
            ),
        }
    } else if ty == "REVOKE"@ {
        match tx {
            None => Err(NormalizeError::Malformed),
            Some(t) => Ok(
                Normalized::Event(
                    StoreEvent {
                        store: Store::Apple,
                        kind: EventKind::Cancelled,
                        store_product_id: t.product_id,
                        original_transaction_id: t.original_transaction_id,
                        transaction_id: t.transaction_id,
                        occurred_at: match t.revocation_date {
                            Some(d) => d,
                            None => p.signed_date,
                        },
                        new_expires_at: None,
                        new_auto_renew: None,
                        grace_period_expires_at: None,
                        user_token: t.app_account_token,
                    },
                ),
            ),
        }
    } else if ty == "RENEWAL_EXTENDED"@ {
        match tx {
            None => Err(NormalizeError::Malformed),
            Some(t) => Ok(
                Normalized::Event(
                    StoreEvent {
                        store: Store::Apple,
                        kind: EventKind::ExtendedExpiry,
                        store_product_id: t.product_id,
                        original_transaction_id: t.original_transaction_id,
                        transaction_id: t.transaction_id,
                        occurred_at: p.signed_date,
                        new_expires_at: t.expires_date,
                        new_auto_renew: None,
                        grace_period_expires_at: None,
                        user_token: t.app_account_token,
                    },
                ),
            ),
        }
    } else if ty == "CONSUMPTION_REQUEST"@ || ty == "PRICE_INCREASE"@ || ty == "REFUND_DECLINED"@
        || ty == "DID_CHANGE_RENEWAL_PREF"@ {
        // advisory notifications: no entitlement change is modeled
        Ok(Normalized::Ignored)
    } else {
        Err(NormalizeError::Unsupported)
    }
}

/// Copy an optional string by value.
fn dup_opt(s: &Option<String>) -> (r: Option<String>)
    ensures
        r == *s,
{
    match s {
        Option::Some(x) => Option::Some(x.clone()),
        Option::None => Option::None,
    }
}

/// Map one Apple notification into the canonical event vocabulary,
/// exactly as `spec_normalize_apple` describes: the mapping table of the
/// normalizer, with advisory notifications dropped, unknown types
/// rejected as unsupported, and notifications missing their decoded
/// details rejected as malformed.
pub fn normalize_apple(
    payload: &AppleNotificationPayload,
    tx: Option<&AppleTransactionInfo>,
    rn: Option<&AppleRenewalInfo>,
) -> (r: Result<Normalized, NormalizeError>)
    ensures
        r == spec_normalize_apple(
            *payload,
            match tx {
                Some(t) => Some(*t),
                None => None,
            },
            match rn {
                Some(x) => Some(*x),
                None => None,
            },
        ),
        r matches Ok(Normalized::Event(ev)) ==> ev.wf(),
{
    let ty = payload.notification_type.as_str();
    if str_eq(ty, "SUBSCRIBED") || str_eq(ty, "OFFER_REDEEMED") {
        match tx {
            Option::None => Err(NormalizeError::Malformed),
            Option::Some(t) => Ok(
                Normalized::Event(
                    StoreEvent {
                        store: Store::Apple,
                        kind: EventKind::Purchased,
                        store_product_id: t.product_id.clone(),
                        original_transaction_id: t.original_transaction_id.clone(),
                        transaction_id: t.transaction_id.clone(),
                        occurred_at: t.purchase_date,
                        new_expires_at: t.expires_date,
                        new_auto_renew: match rn {
                            Option::Some(x) => Option::Some(x.auto_renew_status == 1),
                            Option::None => Option::Some(true),
                        },
                        grace_period_expires_at: Option::None,
                        user_token: dup_opt(&t.app_account_token),
                    },
                ),
            ),
        }
    } else if str_eq(ty, "DID_RENEW") {
        match tx {
            Option::None => Err(NormalizeError::Malformed),
            Option::Some(t) => Ok(
                Normalized::Event(
                    StoreEvent {
                        store: Store::Apple,
                        kind: EventKind::Renewed,
                        store_product_id: t.product_id.clone(),
                        original_transaction_id: t.original_transaction_id.clone(),
                        transaction_id: t.transaction_id.clone(),
                        occurred_at: t.purchase_date,
                        new_expires_at: t.expires_date,
                        new_auto_renew: match rn {
                            Option::Some(x) => Option::Some(x.auto_renew_status == 1),
                            Option::None => Option::None,
                        },
                        grace_period_expires_at: Option::None,
                        user_token: dup_opt(&t.app_account_token),
                    },
                ),
            ),
        }
    } else if str_eq(ty, "EXPIRED") || str_eq(ty, "GRACE_PERIOD_EXPIRED") {
        match tx {
            Option::None => Err(NormalizeError::Malformed),
            Option::Some(t) => Ok(
                Normalized::Event(
                    StoreEvent {
                        store: Store::Apple,
                        kind: EventKind::Expired,
                        store_product_id: t.product_id.clone(),
                        original_transaction_id: t.original_transaction_id.clone(),
                        transaction_id: t.transaction_id.clone(),
                        occurred_at: payload.signed_date,
                        new_expires_at: Option::None,
                        new_auto_renew: Option::None,
                        grace_period_expires_at: Option::None,
                        user_token: dup_opt(&t.app_account_token),
                    },
                ),
            ),
        }
    } else if str_eq(ty, "DID_FAIL_TO_RENEW") {
        match rn {
            Option::None => Err(NormalizeError::Malformed),
            Option::Some(x) => match x.grace_period_expires_date {
                Option::None => Err(NormalizeError::Malformed),
                Option::Some(g) => {
                    if g <= x.signed_date {
                        Err(NormalizeError::Malformed)
                    } else {
                        Ok(
                            Normalized::Event(
                                StoreEvent {
                                    store: Store::Apple,
                                    kind: EventKind::EnteredGrace,
                                    store_product_id: x.product_id.clone(),
                                    original_transaction_id: x.original_transaction_id.clone(),
                                    transaction_id: x.original_transaction_id.clone(),
                                    occurred_at: x.signed_date,
                                    new_expires_at: Option::None,
                                    new_auto_renew: Option::Some(x.auto_renew_status == 1),
                                    grace_period_expires_at: Option::Some(g),
                                    user_token: Option::None,
                                },
                            ),
                        )
                    }
                },
            },
        }
    } else if str_eq(ty, "DID_CHANGE_RENEWAL_STATUS") {
        match rn {
            Option::None => Err(NormalizeError::Malformed),
            Option::Some(x) => Ok(
                Normalized::Event(
                    StoreEvent {
                        store: Store::Apple,
                        kind: EventKind::AutoRenewChanged,
                        store_product_id: x.product_id.clone(),
                        original_transaction_id: x.original_transaction_id.clone(),
                        transaction_id: x.original_transaction_id.clone(),
                        occurred_at: x.signed_date,
                        new_expires_at: Option::None,
                        new_auto_renew: Option::Some(x.auto_renew_status == 1),
                        grace_period_expires_at: Option::None,
                        user_token: Option::None,
                    },
                ),
            ),
        }
    } else if str_eq(ty, "REFUND") {
        match tx {
            Option::None => Err(NormalizeError::Malformed),
            Option::Some(t) => Ok(
                Normalized::Event(
                    StoreEvent {
                        store: Store::Apple,
                        kind: EventKind::Refunded,
                        store_product_id: t.product_id.clone(),
                        original_transaction_id: t.original_transaction_id.clone(),
                        transaction_id: t.transaction_id.clone(),
                        occurred_at: match t.revocation_date {
                            Option::Some(d) => d,
                            Option::None => payload.signed_date,
                        },
                        new_expires_at: Option::None,
                        new_auto_renew: Option::None,
                        grace_period_expires_at: Option::None,
                        user_token: dup_opt(&t.app_account_token),
                    },
                ),
            ),
        }
    } else if str_eq(ty, "REVOKE") {
        match tx {
            Option::None => Err(NormalizeError::Malformed),
            Option::Some(t) => Ok(
                Normalized::Event(
                    StoreEvent {
                        store: Store::Apple,
                        kind: EventKind::Cancelled,
                        store_product_id: t.product_id.clone(),
                        original_transaction_id: t.original_transaction_id.clone(),
                        transaction_id: t.transaction_id.clone(),
                        occurred_at: match t.revocation_date {
                            Option::Some(d) => d,
                            Option::None => payload.signed_date,
                        },
                        new_expires_at: Option::None,
                        new_auto_renew: Option::None,
                        grace_period_expires_at: Option::None,
                        user_token: dup_opt(&t.app_account_token),
                    },
                ),
            ),
        }
    } else if str_eq(ty, "RENEWAL_EXTENDED") {
        match tx {
            Option::None => Err(NormalizeError::Malformed),
            Option::Some(t) => Ok(
                Normalized::Event(
                    StoreEvent {
                        store: Store::Apple,
                        kind: EventKind::ExtendedExpiry,
                        store_product_id: t.product_id.clone(),
                        original_transaction_id: t.original_transaction_id.clone(),
                        transaction_id: t.transaction_id.clone(),
                        occurred_at: payload.signed_date,
                        new_expires_at: t.expires_date,
                        new_auto_renew: Option::None,
                        grace_period_expires_at: Option::None,
                        user_token: dup_opt(&t.app_account_token),
                    },
                ),
            ),
        }
    } else if str_eq(ty, "CONSUMPTION_REQUEST") || str_eq(ty, "PRICE_INCREASE") || str_eq(
        ty,
        "REFUND_DECLINED",
    ) || str_eq(ty, "DID_CHANGE_RENEWAL_PREF") {
        Ok(Normalized::Ignored)
    } else {
        Err(NormalizeError::Unsupported)
    }
}

} // verus!
