//! The request and response shapes of the management surface, as plain
//! values, with verified builders from the ledger's records.  Serialization
//! lives outside the library.

use vstd::prelude::*;

use crate::catalog::Catalog;
use crate::catalog::entitlement_def_index;
use crate::ledger::LedgerState;
use crate::ops::AdminError;
use crate::ops::active_grants_for_user;
use crate::records::EntitlementDef;
use crate::records::EntitlementGrant;
use crate::records::ProductRec;
use crate::records::SubscriptionRec;
use crate::records::UserRec;
use crate::records::dup_opt_string;
use crate::types::ProductType;
use crate::types::Store;
use crate::types::SubscriptionStatus;

verus! {

/// One catalog entitlement, as shown to clients.
#[derive(Debug)]
pub struct EntitlementResponse {
    pub id: u64,
    pub name: String,
    pub description: Option<String>,
}

/// One grant a user holds, with its catalog entitlement.
#[derive(Debug)]
pub struct UserEntitlementResponse {
    pub id: u64,
    pub entitlement: EntitlementResponse,
    pub expires_at: Option<i64>,
    pub active: bool,
}

/// Every active grant a user holds.
#[derive(Debug)]
pub struct UserEntitlementsResponse {
    pub entitlements: Vec<UserEntitlementResponse>,
}

/// Whether a user holds one entitlement, and until when.
#[derive(Debug)]
pub struct EntitlementAccessResponse {
    pub has_access: bool,
    pub expires_at: Option<i64>,
}

/// A request to define a new catalog entitlement.
#[derive(Debug)]
pub struct CreateEntitlementRequest {
    pub name: String,
    pub description: Option<String>,
}

/// A request to manually grant an entitlement to a user.
#[derive(Debug)]
pub struct GrantEntitlementRequest {
    pub user_id: u64,
    pub entitlement_id: u64,
    pub expires_at: Option<i64>,
}

/// A request to map one entitlement onto a product.
#[derive(Debug)]
pub struct AddEntitlementRequest {
    pub entitlement_id: u64,
}

/// One user, as shown to clients.
#[derive(Debug)]
pub struct UserResponse {
    pub id: u64,
    pub app_user_id: String,
    pub email: Option<String>,
}

/// Every user.
#[derive(Debug)]
pub struct UsersResponse {
    pub users: Vec<UserResponse>,
}

/// A request to create a user.
#[derive(Debug)]
pub struct CreateUserRequest {
    pub app_user_id: String,
    pub email: Option<String>,
}

/// A request to update a user's mutable fields.
#[derive(Debug)]
pub struct UpdateUserRequest {
    pub email: Option<String>,
}

/// One subscription of a user, abridged.
#[derive(Debug)]
pub struct SubscriptionResponse {
    pub id: u64,
    pub product_id: u64,
    pub store: Store,
    pub purchase_date: i64,
    pub expires_date: Option<i64>,
    pub status: SubscriptionStatus,
    pub auto_renew_status: Option<bool>,
}

/// Every subscription of one user, abridged.
#[derive(Debug)]
pub struct UserSubscriptionsResponse {
    pub subscriptions: Vec<SubscriptionResponse>,
}

/// One subscription with every persisted field.
#[derive(Debug)]
pub struct SubscriptionDetailResponse {
    pub id: u64,
    pub user_id: u64,
    pub product_id: u64,
    pub original_transaction_id: String,
    pub store_transaction_id: String,
    pub store: Store,
    pub purchase_date: i64,
    pub expires_date: Option<i64>,
    pub cancellation_date: Option<i64>,
    pub renewal_grace_period_expires_date: Option<i64>,
    pub status: SubscriptionStatus,
    pub auto_renew_status: Option<bool>,
    pub price_micros: Option<i64>,
    pub currency: Option<String>,
    pub is_trial: bool,
    pub is_intro_offer: bool,
}

/// Several subscriptions with every persisted field.
#[derive(Debug)]
pub struct SubscriptionsResponse {
    pub subscriptions: Vec<SubscriptionDetailResponse>,
}

/// A request to cancel a subscription, with an optional explicit
/// cancellation date.
#[derive(Debug)]
pub struct CancelSubscriptionRequest {
    pub cancellation_date: Option<i64>,
}

/// One catalog product, as shown to clients.
#[derive(Debug)]
pub struct ProductResponse {
    pub id: u64,
    pub name: String,
    pub description: Option<String>,
    pub apple_product_id: Option<String>,
    pub google_product_id: Option<String>,
    pub product_type: ProductType,
    pub price_micros: Option<i64>,
    pub duration_days: Option<i32>,
}

/// Every catalog product.
#[derive(Debug)]
pub struct ProductsResponse {
    pub products: Vec<ProductResponse>,
}

/// The acknowledgement body a webhook endpoint returns.
#[derive(Debug)]
pub struct WebhookResponse {
    pub message: String,
}

/// The client view of one user, as a function of the record.
pub open spec fn spec_user_response(u: UserRec) -> UserResponse {
    UserResponse { id: u.id, app_user_id: u.app_user_id, email: u.email }
}

/// The abridged client view of one subscription, as a function of the
/// record.
pub open spec fn spec_subscription_response(s: SubscriptionRec) -> SubscriptionResponse {
    SubscriptionResponse {
        id: s.id,
        product_id: s.product_id,
        store: s.store,
        purchase_date: s.purchase_date,
        expires_date: s.expires_date,
        status: s.status,
        auto_renew_status: s.auto_renew_status,
    }
}

/// The full client view of one subscription, as a function of the record.
pub open spec fn spec_subscription_detail_response(s: SubscriptionRec) -> SubscriptionDetailResponse {
    SubscriptionDetailResponse {
        id: s.id,
        user_id: s.user_id,
        product_id: s.product_id,
        original_transaction_id: s.original_transaction_id,
        store_transaction_id: s.store_transaction_id,
        store: s.store,
        purchase_date: s.purchase_date,
        expires_date: s.expires_date,
        cancellation_date: s.cancellation_date,
        renewal_grace_period_expires_date: s.renewal_grace_period_expires_date,
        status: s.status,
        auto_renew_status: s.auto_renew_status,
        price_micros: s.price_micros,
        currency: s.currency,
        is_trial: s.is_trial,
        is_intro_offer: s.is_intro_offer,
    }
}

/// The client view of one catalog product, as a function of the record.
pub open spec fn spec_product_response(p: ProductRec) -> ProductResponse {
    ProductResponse {
        id: p.id,
        name: p.name,
        description: p.description,
        apple_product_id: p.apple_product_id,
        google_product_id: p.google_product_id,
        product_type: p.product_type,
        price_micros: p.price_micros,
        duration_days: p.duration_days,
    }
}

impl WebhookResponse {
    /// The acknowledgement for a processed notification.
    pub fn processed() -> (r: WebhookResponse)
        ensures
            r.message@ == "Webhook processed successfully"@,
    {
        WebhookResponse { message: "Webhook processed successfully".to_string() }
    }

    /// The acknowledgement for a test notification.
    pub fn test_received() -> (r: WebhookResponse)
        ensures
            r.message@ == "Test notification received"@,
    {
        WebhookResponse { message: "Test notification received".to_string() }
    }
}

impl EntitlementResponse {
    /// The client view of one catalog entitlement.
    pub fn from_def(d: &EntitlementDef) -> (r: EntitlementResponse)
        ensures
            r.id == d.id,
            r.name == d.name,
            r.description == d.description,
    {
        EntitlementResponse {
            id: d.id,
            name: d.name.clone(),
            description: dup_opt_string(&d.description),
        }
    }
}

impl UserResponse {
    /// The client view of one user.
    pub fn from_user(u: &UserRec) -> (r: UserResponse)
        ensures
            r == spec_user_response(*u),
    {
        UserResponse {
            id: u.id,
            app_user_id: u.app_user_id.clone(),
            email: dup_opt_string(&u.email),
        }
    }
}

impl SubscriptionResponse {
    /// The abridged client view of one subscription.
    pub fn from_subscription(s: &SubscriptionRec) -> (r: SubscriptionResponse)
        ensures
            r == spec_subscription_response(*s),
    {
        SubscriptionResponse {
            id: s.id,
            product_id: s.product_id,
            store: s.store,
            purchase_date: s.purchase_date,
            expires_date: s.expires_date,
            status: s.status,
            auto_renew_status: s.auto_renew_status,
        }
    }
}

impl SubscriptionDetailResponse {
    /// The full client view of one subscription.
    pub fn from_subscription(s: &SubscriptionRec) -> (r: SubscriptionDetailResponse)
        ensures
            r == spec_subscription_detail_response(*s),
    {
        SubscriptionDetailResponse {
            id: s.id,
            user_id: s.user_id,
            product_id: s.product_id,
            original_transaction_id: s.original_transaction_id.clone(),
            store_transaction_id: s.store_transaction_id.clone(),
            store: s.store,
            purchase_date: s.purchase_date,
            expires_date: s.expires_date,
            cancellation_date: s.cancellation_date,
            renewal_grace_period_expires_date: s.renewal_grace_period_expires_date,
            status: s.status,
            auto_renew_status: s.auto_renew_status,
            price_micros: s.price_micros,
            currency: dup_opt_string(&s.currency),
            is_trial: s.is_trial,
            is_intro_offer: s.is_intro_offer,
        }
    }
}

impl ProductResponse {
    /// The client view of one catalog product.
    pub fn from_product(p: &ProductRec) -> (r: ProductResponse)
        ensures
            r == spec_product_response(*p),
    {
        ProductResponse {
            id: p.id,
            name: p.name.clone(),
            description: dup_opt_string(&p.description),
            apple_product_id: dup_opt_string(&p.apple_product_id),
            google_product_id: dup_opt_string(&p.google_product_id),
            product_type: p.product_type,
            price_micros: p.price_micros,
            duration_days: p.duration_days,
        }
    }
}

impl EntitlementAccessResponse {
    /// Package an access check result.
    pub fn from_check(has_access: bool, expires_at: Option<i64>) -> (r: EntitlementAccessResponse)
        ensures
            r.has_access == has_access,
            r.expires_at == expires_at,
    {
        EntitlementAccessResponse { has_access, expires_at }
    }
}

impl UsersResponse {
    /// The client view of a user listing.
    pub fn from_users(users: &Vec<UserRec>) -> (r: UsersResponse)
        ensures
            r.users@.len() == users@.len(),
            forall|i: int|
                0 <= i < users@.len() ==> #[trigger] r.users@[i] == spec_user_response(
                    users@[i],
                ),
    {
        let n = users.len();
        let mut out: Vec<UserResponse> = Vec::new();
        let mut k: usize = 0;
        while k < n
            invariant
                n == users.len(),
                0 <= k <= n,
                out@.len() == k,
                forall|i: int|
                    0 <= i < k ==> #[trigger] out@[i] == spec_user_response(users@[i]),
            decreases n - k,
        {
            out.push(UserResponse::from_user(&users[k]));
            k += 1;
        }
        UsersResponse { users: out }
    }
}

impl UserSubscriptionsResponse {
    /// The abridged client view of a subscription listing.
    pub fn from_subscriptions(subs: &Vec<SubscriptionRec>) -> (r: UserSubscriptionsResponse)
        ensures
            r.subscriptions@.len() == subs@.len(),
            forall|i: int|
                0 <= i < subs@.len() ==> #[trigger] r.subscriptions@[i]
                    == spec_subscription_response(subs@[i]),
    {
        let n = subs.len();
        let mut out: Vec<SubscriptionResponse> = Vec::new();
        let mut k: usize = 0;
        while k < n
            invariant
                n == subs.len(),
                0 <= k <= n,
                out@.len() == k,
                forall|i: int|
                    0 <= i < k ==> #[trigger] out@[i] == spec_subscription_response(subs@[i]),
            decreases n - k,
        {
            out.push(SubscriptionResponse::from_subscription(&subs[k]));
            k += 1;
        }
        UserSubscriptionsResponse { subscriptions: out }
    }
}

impl SubscriptionsResponse {
    /// The full client view of a subscription listing.
    pub fn from_subscriptions(subs: &Vec<SubscriptionRec>) -> (r: SubscriptionsResponse)
        ensures
            r.subscriptions@.len() == subs@.len(),
            forall|i: int|
                0 <= i < subs@.len() ==> #[trigger] r.subscriptions@[i]
                    == spec_subscription_detail_response(subs@[i]),
    {
        let n = subs.len();
        let mut out: Vec<SubscriptionDetailResponse> = Vec::new();
        let mut k: usize = 0;
        while k < n
            invariant
                n == subs.len(),
                0 <= k <= n,
                out@.len() == k,
                forall|i: int|
                    0 <= i < k ==> #[trigger] out@[i] == spec_subscription_detail_response(
                        subs@[i],
                    ),
            decreases n - k,
        {
            out.push(SubscriptionDetailResponse::from_subscription(&subs[k]));
            k += 1;
        }
        SubscriptionsResponse { subscriptions: out }
    }
}

impl ProductsResponse {
    /// The client view of the product listing.
    pub fn from_products(products: &Vec<ProductRec>) -> (r: ProductsResponse)
        ensures
            r.products@.len() == products@.len(),
            forall|i: int|
                0 <= i < products@.len() ==> #[trigger] r.products@[i] == spec_product_response(
                    products@[i],
                ),
    {
        let n = products.len();
        let mut out: Vec<ProductResponse> = Vec::new();
        let mut k: usize = 0;
        while k < n
            invariant
                n == products.len(),
                0 <= k <= n,
                out@.len() == k,
                forall|i: int|
                    0 <= i < k ==> #[trigger] out@[i] == spec_product_response(products@[i]),
            decreases n - k,
        {
            out.push(ProductResponse::from_product(&products[k]));
            k += 1;
        }
        ProductsResponse { products: out }
    }
}

/// Whether one response entry faithfully renders one grant against the
/// catalog.
pub open spec fn entry_matches(
    resp: UserEntitlementResponse,
    g: EntitlementGrant,
    defs: Seq<EntitlementDef>,
    now: i64,
) -> bool {
    let di = entitlement_def_index(defs, g.entitlement_id);
    &&& resp.id == g.id
    &&& resp.expires_at == g.expires_at
    &&& resp.active == (g.expires_at is None || g.expires_at->0 > now)
    &&& di >= 0
    &&& resp.entitlement.id == g.entitlement_id
    &&& resp.entitlement.name == defs[di].name
    &&& resp.entitlement.description == defs[di].description
}

/// The entitlement listing for a user: every grant active at `now`,
/// joined with its catalog entitlement; rejected when a grant references
/// an entitlement missing from the catalog.
pub fn get_user_entitlements(
    state: &LedgerState,
    catalog: &Catalog,
    user_id: u64,
    now: i64,
) -> (r: Result<UserEntitlementsResponse, AdminError>)
    ensures
        ({
            let act = active_grants_for_user(state@.ents, user_id, now);
            match r {
                Ok(resp) => {
                    &&& resp.entitlements@.len() == act.len()
                    &&& forall|i: int|
                        0 <= i < act.len() ==> entry_matches(
                            #[trigger] resp.entitlements@[i],
                            act[i],
                            catalog@.entitlements,
                            now,
                        )
                },
                Err(er) => {
                    &&& er == AdminError::EntitlementNotFound
                    &&& exists|i: int|
                        0 <= i < act.len() && entitlement_def_index(
                            catalog@.entitlements,
                            (#[trigger] act[i]).entitlement_id,
                        ) == -1
                },
            }
        }),
{
    let act = state.list_active_for_user(user_id, now);
    let n = act.len();
    let mut out: Vec<UserEntitlementResponse> = Vec::new();
    let mut k: usize = 0;
    while k < n
        invariant
            n == act.len(),
            act@ == active_grants_for_user(state@.ents, user_id, now),
            0 <= k <= n,
            out@.len() == k,
            forall|i: int|
                0 <= i < k ==> entry_matches(
                    #[trigger] out@[i],
                    act@[i],
                    catalog@.entitlements,
                    now,
                ),
        decreases n - k,
    {
        let g = act[k];
        proof {
            crate::catalog::lemma_entitlement_def_index(catalog@.entitlements, g.entitlement_id);
        }
        match catalog.find_entitlement(g.entitlement_id) {
            Option::None => {
                proof {
                    assert(entitlement_def_index(
                        catalog@.entitlements,
                        act@[k as int].entitlement_id,
                    ) == -1);
                }
                return Err(AdminError::EntitlementNotFound);
            },
            Option::Some(di) => {
                let active = match g.expires_at {
                    Option::None => true,
                    Option::Some(x) => x > now,
                };
                out.push(
                    UserEntitlementResponse {
                        id: g.id,
                        entitlement: EntitlementResponse::from_def(&catalog.entitlements[di]),
                        expires_at: g.expires_at,
                        active,
                    },
                );
            },
        }
        k += 1;
    }
    Ok(UserEntitlementsResponse { entitlements: out })
}

} // verus!
