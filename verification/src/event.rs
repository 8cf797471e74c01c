//! The canonical event the reconciliation engine consumes, and the outcome
//! vocabulary of the event normalizer.

use vstd::prelude::*;

use crate::types::EventKind;
use crate::types::Store;

verus! {

/// A store notification after normalization: one canonical event, free of
/// vendor vocabulary.  `occurred_at` is the event-reported time in epoch
/// milliseconds, not the processing time.
#[derive(Debug)]
pub struct StoreEvent {
    pub store: Store,
    pub kind: EventKind,
    /// The storefront's identifier of the product bought.
    pub store_product_id: String,
    /// The stable key of the purchase lineage across renewals.
    pub original_transaction_id: String,
    /// The identifier of the specific transaction of this event.
    pub transaction_id: String,
    pub occurred_at: i64,
    /// The new expiry carried by the event, if any.  For a purchase, absence
    /// means a non-expiring (lifetime) purchase; for a renewal or extension,
    /// absence means the stored expiry is kept.
    pub new_expires_at: Option<i64>,
    /// The auto-renew flag carried by the event, if any.
    pub new_auto_renew: Option<bool>,
    /// The grace period end carried by the event, if any.
    pub grace_period_expires_at: Option<i64>,
    /// An external account token, used only on first sight of a purchase
    /// lineage to materialize a user.
    pub user_token: Option<String>,
}

impl StoreEvent {
    /// Events the normalizer emits always carry the fields their kind
    /// needs, and a grace period entered at the event time ends strictly
    /// after it.
    pub open spec fn wf(self) -> bool {
        &&& self.kind is EnteredGrace ==> self.grace_period_expires_at is Some
            && self.grace_period_expires_at->0 > self.occurred_at
        &&& self.kind is AutoRenewChanged ==> self.new_auto_renew is Some
    }
}

/// What the normalizer makes of one raw notification that is not an error:
/// either a canonical event for the engine, or an advisory notification that
/// is deliberately dropped without effect.
#[derive(Debug)]
pub enum Normalized {
    Event(StoreEvent),
    Ignored,
}

/// Why the normalizer rejected a notification.
#[derive(Clone, Copy, Debug, PartialEq, Eq, Structural)]
pub enum NormalizeError {
    /// The vendor notification type is not recognized and not advisory.
    Unsupported,
    /// A required field (identifier, timestamp, grace end) is missing.
    Malformed,
}

} // verus!
