//! Basic closed enumerations shared by the whole crate: the storefront, the
//! subscription status, the product type and the canonical event kind, with
//! their external string forms.

use vstd::prelude::*;

verus! {

/// The storefront a purchase lineage originated from.
#[derive(Clone, Copy, Debug, PartialEq, Eq, Structural)]
pub enum Store {
    Apple,
    Google,
}

/// The state a subscription record is in.  Status is kept as a closed enum
/// internally; the string form exists only for the storage boundary.
#[derive(Clone, Copy, Debug, PartialEq, Eq, Structural)]
pub enum SubscriptionStatus {
    Active,
    Expired,
    Cancelled,
    GracePeriod,
    Refunded,
    Paused,
}

/// Whether a catalog product is an auto-renewing subscription or a one-time
/// (lifetime) purchase.
#[derive(Clone, Copy, Debug, PartialEq, Eq, Structural)]
pub enum ProductType {
    Subscription,
    OneTime,
}

/// The canonical event kind produced by the event normalizer, hiding the
/// vendor vocabulary from the reconciliation engine.
#[derive(Clone, Copy, Debug, PartialEq, Eq, Structural)]
pub enum EventKind {
    Purchased,
    Renewed,
    Expired,
    EnteredGrace,
    Cancelled,
    AutoRenewChanged,
    Refunded,
    ExtendedExpiry,
    Paused,
}

/// Relies on str's PartialEq: two string slices are equal exactly when their
/// character sequences are equal.
#[verifier::external_body]
pub fn str_eq(a: &str, b: &str) -> (r: bool)
    ensures
        r == (a@ == b@),
{
    a == b
}

impl SubscriptionStatus {
    /// The persisted string form of this status.
    pub open spec fn label_view(self) -> Seq<char> {
        match self {
            SubscriptionStatus::Active => "active"@,
            SubscriptionStatus::Expired => "expired"@,
            SubscriptionStatus::Cancelled => "cancelled"@,
            SubscriptionStatus::GracePeriod => "grace_period"@,
            SubscriptionStatus::Refunded => "refunded"@,
            SubscriptionStatus::Paused => "paused"@,
        }
    }

    /// Render the status in its external string form.
    pub fn to_string(&self) -> (r: String)
        ensures
            r@ == self.label_view(),
    {
        match self {
            SubscriptionStatus::Active => "active".to_string(),
            SubscriptionStatus::Expired => "expired".to_string(),
            SubscriptionStatus::Cancelled => "cancelled".to_string(),
            SubscriptionStatus::GracePeriod => "grace_period".to_string(),
            SubscriptionStatus::Refunded => "refunded".to_string(),
            SubscriptionStatus::Paused => "paused".to_string(),
        }
    }

    /// Which status, if any, the external string form denotes.
    pub open spec fn spec_parse(s: Seq<char>) -> Option<SubscriptionStatus> {
        if s == "active"@ {
            Some(SubscriptionStatus::Active)
        } else if s == "expired"@ {
            Some(SubscriptionStatus::Expired)
        } else if s == "cancelled"@ {
            Some(SubscriptionStatus::Cancelled)
        } else if s == "grace_period"@ {
            Some(SubscriptionStatus::GracePeriod)
        } else if s == "refunded"@ {
            Some(SubscriptionStatus::Refunded)
        } else if s == "paused"@ {
            Some(SubscriptionStatus::Paused)
        } else {
            None
        }
    }

    /// Parse the external string form back into a status.
    pub fn parse(s: &str) -> (r: Option<SubscriptionStatus>)
        ensures
            r == Self::spec_parse(s@),
    {
        if str_eq(s, "active") {
            Some(SubscriptionStatus::Active)
        } else if str_eq(s, "expired") {
            Some(SubscriptionStatus::Expired)
        } else if str_eq(s, "cancelled") {
            Some(SubscriptionStatus::Cancelled)
        } else if str_eq(s, "grace_period") {
            Some(SubscriptionStatus::GracePeriod)
        } else if str_eq(s, "refunded") {
            Some(SubscriptionStatus::Refunded)
        } else if str_eq(s, "paused") {
            Some(SubscriptionStatus::Paused)
        } else {
            None
        }
    }
}

impl ProductType {
    /// The persisted string form of this product type.
    pub open spec fn label_view(self) -> Seq<char> {
        match self {
            ProductType::Subscription => "subscription"@,
            ProductType::OneTime => "one_time"@,
        }
    }

    /// Render the product type in its external string form.
    pub fn to_string(&self) -> (r: String)
        ensures
            r@ == self.label_view(),
    {
        match self {
            ProductType::Subscription => "subscription".to_string(),
            ProductType::OneTime => "one_time".to_string(),
        }
    }
}

impl Store {
    /// The string form used in store-facing identifiers.
    pub open spec fn label_view(self) -> Seq<char> {
        match self {
            Store::Apple => "apple"@,
            Store::Google => "google"@,
        }
    }

    /// Render the store name.
    pub fn to_string(&self) -> (r: String)
        ensures
            r@ == self.label_view(),
    {
        match self {
            Store::Apple => "apple".to_string(),
            Store::Google => "google".to_string(),
        }
    }
}

} // verus!
