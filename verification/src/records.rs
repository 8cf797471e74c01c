//! The persisted record types of the ledger and catalog.
//!
//! Timestamps are Unix epoch milliseconds, as reported by the storefronts.
//! Internal identifiers are integers allocated from the ledger's counter;
//! store-facing identifiers (transaction ids, store product ids, account
//! tokens) are the strings the storefronts use.  Prices are kept in micro
//! units of the currency.

use vstd::prelude::*;

use crate::types::ProductType;
use crate::types::Store;
use crate::types::SubscriptionStatus;

verus! {

/// An end user, materialized on first sight of a store account token.
#[derive(Debug)]
pub struct UserRec {
    pub id: u64,
    pub app_user_id: String,
    pub email: Option<String>,
    pub created_at: i64,
    pub updated_at: i64,
}

/// One subscription record per storefront purchase lineage: exactly one per
/// `(store, original_transaction_id)`.  Renewals mutate it in place.
#[derive(Debug)]
pub struct SubscriptionRec {
    pub id: u64,
    pub user_id: u64,
    pub product_id: u64,
    pub original_transaction_id: String,
    pub store_transaction_id: String,
    pub store: Store,
    pub purchase_date: i64,
    /// Absent means the purchase never expires (lifetime).
    pub expires_date: Option<i64>,
    pub cancellation_date: Option<i64>,
    pub renewal_grace_period_expires_date: Option<i64>,
    pub status: SubscriptionStatus,
    pub auto_renew_status: Option<bool>,
    pub price_micros: Option<i64>,
    pub currency: Option<String>,
    pub is_trial: bool,
    pub is_intro_offer: bool,
    pub created_at: i64,
    pub updated_at: i64,
}

/// A grant of one named capability to one user, optionally tied to the
/// subscription that created it.  Grants are never deleted by the engine;
/// they are only superseded by new expiry values.
#[derive(Clone, Copy, Debug, PartialEq, Eq, Structural)]
pub struct EntitlementGrant {
    pub id: u64,
    pub user_id: u64,
    pub entitlement_id: u64,
    /// Absent for manually granted entitlements.
    pub subscription_id: Option<u64>,
    pub starts_at: i64,
    /// Absent means lifetime access.
    pub expires_at: Option<i64>,
    pub created_at: i64,
    pub updated_at: i64,
}

/// A named capability in the catalog.
#[derive(Debug)]
pub struct EntitlementDef {
    pub id: u64,
    pub name: String,
    pub description: Option<String>,
}

/// A catalog product, with the entitlements it grants folded in.
#[derive(Debug)]
pub struct ProductRec {
    pub id: u64,
    pub name: String,
    pub description: Option<String>,
    pub apple_product_id: Option<String>,
    pub google_product_id: Option<String>,
    pub product_type: ProductType,
    pub price_micros: Option<i64>,
    pub duration_days: Option<i32>,
    /// The entitlement definitions this product grants.
    pub entitlement_ids: Vec<u64>,
}

impl EntitlementGrant {
    /// Whether this grant conveys access at instant `t`.
    pub open spec fn active_at(self, t: i64) -> bool {
        &&& self.starts_at <= t
        &&& match self.expires_at {
            Option::None => true,
            Option::Some(e) => e > t,
        }
    }
}

/// Copy an optional string by value.
pub fn dup_opt_string(s: &Option<String>) -> (r: Option<String>)
    ensures
        r == *s,
{
    match s {
        Option::Some(x) => Option::Some(x.clone()),
        Option::None => Option::None,
    }
}

impl UserRec {
    /// An equal copy of this record.
    pub fn duplicate(&self) -> (r: Self)
        ensures
            r == *self,
    {
        UserRec {
            id: self.id,
            app_user_id: self.app_user_id.clone(),
            email: dup_opt_string(&self.email),
            created_at: self.created_at,
            updated_at: self.updated_at,
        }
    }
}

impl SubscriptionRec {
    /// An equal copy of this record.
    pub fn duplicate(&self) -> (r: Self)
        ensures
            r == *self,
    {
        SubscriptionRec {
            id: self.id,
            user_id: self.user_id,
            product_id: self.product_id,
            original_transaction_id: self.original_transaction_id.clone(),
            store_transaction_id: self.store_transaction_id.clone(),
            store: self.store,
            purchase_date: self.purchase_date,
            expires_date: self.expires_date,
            cancellation_date: self.cancellation_date,
            renewal_grace_period_expires_date: self.renewal_grace_period_expires_date,
            status: self.status,
            auto_renew_status: self.auto_renew_status,
            price_micros: self.price_micros,
            currency: dup_opt_string(&self.currency),
            is_trial: self.is_trial,
            is_intro_offer: self.is_intro_offer,
            created_at: self.created_at,
            updated_at: self.updated_at,
        }
    }
}

/// The identifier sequence with every occurrence of one id removed,
/// keeping the order of the rest.
pub open spec fn ids_without(ids: Seq<u64>, id: u64) -> Seq<u64>
    decreases ids.len(),
{
    if ids.len() == 0 {
        Seq::empty()
    } else {
        let front = ids_without(ids.drop_last(), id);
        if ids.last() == id {
            front
        } else {
            front.push(ids.last())
        }
    }
}

impl ProductRec {
    /// The entitlements this product grants.
    pub fn get_entitlements(&self) -> (r: Vec<u64>)
        ensures
            r@ == self.entitlement_ids@,
    {
        let n = self.entitlement_ids.len();
        let mut out: Vec<u64> = Vec::new();
        let mut k: usize = 0;
        while k < n
            invariant
                n == self.entitlement_ids.len(),
                0 <= k <= n,
                out@ == self.entitlement_ids@.subrange(0, k as int),
            decreases n - k,
        {
            out.push(self.entitlement_ids[k]);
            k += 1;
            proof {
                assert(self.entitlement_ids@.subrange(0, k as int)
                    =~= self.entitlement_ids@.subrange(0, k - 1).push(
                    self.entitlement_ids@[k - 1],
                ));
            }
        }
        proof {
            assert(self.entitlement_ids@.subrange(0, n as int) =~= self.entitlement_ids@);
        }
        out
    }

    /// Map one more entitlement onto this product; mapping an already
    /// mapped entitlement changes nothing.
    pub fn add_entitlement(&mut self, entitlement_id: u64)
        ensures
            final(self).id == old(self).id,
            final(self).name == old(self).name,
            final(self).description == old(self).description,
            final(self).apple_product_id == old(self).apple_product_id,
            final(self).google_product_id == old(self).google_product_id,
            final(self).product_type == old(self).product_type,
            final(self).price_micros == old(self).price_micros,
            final(self).duration_days == old(self).duration_days,
            final(self).entitlement_ids@ == if old(self).entitlement_ids@.contains(entitlement_id) {
                old(self).entitlement_ids@
            } else {
                old(self).entitlement_ids@.push(entitlement_id)
            },
    {
        let n = self.entitlement_ids.len();
        let mut k: usize = 0;
        while k < n
            invariant
                n == self.entitlement_ids.len(),
                0 <= k <= n,
                self == old(self),
                forall|i: int| 0 <= i < k ==> self.entitlement_ids@[i] != entitlement_id,
            decreases n - k,
        {
            if self.entitlement_ids[k] == entitlement_id {
                proof {
                    assert(old(self).entitlement_ids@.contains(entitlement_id));
                }
                return ;
            }
            k += 1;
        }
        proof {
            if old(self).entitlement_ids@.contains(entitlement_id) {
                let w = choose|w: int|
                    0 <= w < old(self).entitlement_ids@.len() && old(self).entitlement_ids@[w]
                        == entitlement_id;
                assert(false);
            }
        }
        self.entitlement_ids.push(entitlement_id);
    }

    /// Remove one entitlement from this product's mapping; removing an
    /// unmapped entitlement changes nothing.
    pub fn remove_entitlement(&mut self, entitlement_id: u64)
        ensures
            final(self).id == old(self).id,
            final(self).name == old(self).name,
            final(self).description == old(self).description,
            final(self).apple_product_id == old(self).apple_product_id,
            final(self).google_product_id == old(self).google_product_id,
            final(self).product_type == old(self).product_type,
            final(self).price_micros == old(self).price_micros,
            final(self).duration_days == old(self).duration_days,
            final(self).entitlement_ids@ == ids_without(
                old(self).entitlement_ids@,
                entitlement_id,
            ),
    {
        let n = self.entitlement_ids.len();
        let mut out: Vec<u64> = Vec::new();
        let mut k: usize = 0;
        while k < n
            invariant
                n == self.entitlement_ids.len(),
                self == old(self),
                0 <= k <= n,
                out@ == ids_without(self.entitlement_ids@.subrange(0, k as int), entitlement_id),
            decreases n - k,
        {
            let v = self.entitlement_ids[k];
            if v != entitlement_id {
                out.push(v);
            }
            k += 1;
            proof {
                let pre = self.entitlement_ids@.subrange(0, k - 1);
                let cur = self.entitlement_ids@.subrange(0, k as int);
                assert(cur.drop_last() =~= pre);
                assert(cur.last() == self.entitlement_ids@[k - 1]);
            }
        }
        proof {
            assert(self.entitlement_ids@.subrange(0, n as int) =~= self.entitlement_ids@);
        }
        self.entitlement_ids = out;
    }
}

impl EntitlementDef {
    /// An equal copy of this record.
    pub fn duplicate(&self) -> (r: Self)
        ensures
            r == *self,
    {
        EntitlementDef {
            id: self.id,
            name: self.name.clone(),
            description: dup_opt_string(&self.description),
        }
    }
}

} // verus!
