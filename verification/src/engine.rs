//! The reconciliation engine: a verified state machine that consumes one
//! canonical store event and produces the next ledger snapshot.
//!
//! Every effect is an absolute write computed from the event's carried
//! values, so redelivery of an event is harmless.  A purchase and a
//! renewal's re-grant deduplicate on the stable subscription key and on
//! existing grants with an overlapping validity window: a renewal extends
//! the grants still in force and re-grants fresh rows for any entitlement
//! whose grant has lapsed, so recovery from a grace period, a pause or an
//! expired term always restores access without reopening expired rows.
//! An event older than the subscription's last applied event is discarded
//! as stale.

use vstd::prelude::*;

use crate::catalog::Catalog;
use crate::catalog::CatalogModel;
use crate::catalog::product_id_index;
use crate::catalog::product_index;
use crate::event::StoreEvent;
use crate::ledger::LedgerModel;
use crate::ledger::LedgerState;
use crate::ledger::sub_index;
use crate::ledger::user_index;
use crate::records::EntitlementGrant;
use crate::records::ProductRec;
use crate::records::SubscriptionRec;
use crate::records::UserRec;
use crate::types::EventKind;
use crate::types::SubscriptionStatus;

verus! {

/// Why the engine rejected an event.
#[derive(Clone, Copy, Debug, PartialEq, Eq, Structural)]
pub enum EngineError {
    /// The event names a store product id outside the catalog.
    /// Non-retryable.
    UnknownProduct,
    /// The event kind needs an existing subscription and none was found:
    /// possibly an out-of-order delivery, eligible for retry.
    SubscriptionNotFound,
    /// A first-sight purchase carried no account token, so no user can be
    /// materialized.
    MissingUserToken,
}

/// Whether an accepted event changed the ledger or was discarded as stale.
#[derive(Clone, Copy, Debug, PartialEq, Eq, Structural)]
pub enum ApplyOutcome {
    Applied,
    Stale,
}

/// Two validity windows share at least one instant.
pub open spec fn windows_overlap(s1: i64, e1: Option<i64>, s2: i64, e2: Option<i64>) -> bool {
    &&& (e1 is None || e1->0 > s2)
    &&& (e2 is None || e2->0 > s1)
}

/// Whether an existing grant makes a new grant with the same
/// `(user, entitlement, subscription)` and window starting at `t`
/// redundant.
pub open spec fn blocks_grant(
    g: EntitlementGrant,
    user_id: u64,
    entitlement_id: u64,
    subscription_id: u64,
    t: i64,
    expires_at: Option<i64>,
) -> bool {
    &&& g.user_id == user_id
    &&& g.entitlement_id == entitlement_id
    &&& g.subscription_id == Some(subscription_id)
    &&& (g.starts_at == t || windows_overlap(g.starts_at, g.expires_at, t, expires_at))
}

/// No existing grant blocks the new one.
pub open spec fn needs_grant(
    ents: Seq<EntitlementGrant>,
    user_id: u64,
    entitlement_id: u64,
    subscription_id: u64,
    t: i64,
    expires_at: Option<i64>,
) -> bool {
    forall|i: int|
        0 <= i < ents.len() ==> !blocks_grant(
            ents[i],
            user_id,
            entitlement_id,
            subscription_id,
            t,
            expires_at,
        )
}

/// A freshly created grant row, dated from the event.
pub open spec fn fresh_grant(
    id: u64,
    user_id: u64,
    entitlement_id: u64,
    subscription_id: u64,
    t: i64,
    expires_at: Option<i64>,
) -> EntitlementGrant {
    EntitlementGrant {
        id,
        user_id,
        entitlement_id,
        subscription_id: Some(subscription_id),
        starts_at: t,
        expires_at,
        created_at: t,
        updated_at: t,
    }
}

/// Grant one entitlement row per listed entitlement, skipping any for which
/// an equivalent grant already exists, allocating ids from `next_id`.
pub open spec fn grant_rows(
    ents: Seq<EntitlementGrant>,
    ids: Seq<u64>,
    user_id: u64,
    subscription_id: u64,
    t: i64,
    expires_at: Option<i64>,
    next_id: int,
) -> (Seq<EntitlementGrant>, int)
    decreases ids.len(),
{
    if ids.len() == 0 {
        (ents, next_id)
    } else if needs_grant(ents, user_id, ids[0], subscription_id, t, expires_at) {
        grant_rows(
            ents.push(fresh_grant(next_id as u64, user_id, ids[0], subscription_id, t, expires_at)),
            ids.drop_first(),
            user_id,
            subscription_id,
            t,
            expires_at,
            next_id + 1,
        )
    } else {
        grant_rows(ents, ids.drop_first(), user_id, subscription_id, t, expires_at, next_id)
    }
}

/// Force-expire a grant of the subscription: clamp its expiry to `t` if it
/// would otherwise convey access past `t`.  Never extends a grant.
pub open spec fn clamp_grant(g: EntitlementGrant, subscription_id: u64, t: i64) -> EntitlementGrant {
    if g.subscription_id == Some(subscription_id) && (g.expires_at is None || g.expires_at->0
        > t) {
        EntitlementGrant { expires_at: Some(t), updated_at: t, ..g }
    } else {
        g
    }
}

/// Force-expire every grant of the subscription.
pub open spec fn force_expire(
    ents: Seq<EntitlementGrant>,
    subscription_id: u64,
    t: i64,
) -> Seq<EntitlementGrant> {
    ents.map_values(|g: EntitlementGrant| clamp_grant(g, subscription_id, t))
}

/// Extend a grant of the subscription to the new expiry `x`, but only if
/// the grant still conveys access at `t`: a lapsed row is never reopened.
/// Access lost to a lapse is restored by the renewal's re-grant of a
/// fresh row instead, so the audit history of expired rows stays intact.
pub open spec fn extend_grant(
    g: EntitlementGrant,
    subscription_id: u64,
    t: i64,
    x: i64,
) -> EntitlementGrant {
    if g.subscription_id == Some(subscription_id) && g.active_at(t) {
        EntitlementGrant { expires_at: Some(x), updated_at: t, ..g }
    } else {
        g
    }
}

/// Extend every still-active grant of the subscription to the new expiry.
pub open spec fn extend_matching(
    ents: Seq<EntitlementGrant>,
    subscription_id: u64,
    t: i64,
    x: i64,
) -> Seq<EntitlementGrant> {
    ents.map_values(|g: EntitlementGrant| extend_grant(g, subscription_id, t, x))
}

/// Extend a grant of the subscription to the new expiry `x` whether or
/// not it still conveys access: an expiry extension keeps every matching
/// grant's expiry synchronized with the subscription's.
pub open spec fn extend_any_grant(
    g: EntitlementGrant,
    subscription_id: u64,
    t: i64,
    x: i64,
) -> EntitlementGrant {
    if g.subscription_id == Some(subscription_id) {
        EntitlementGrant { expires_at: Some(x), updated_at: t, ..g }
    } else {
        g
    }
}

/// Extend every grant of the subscription to the new expiry.
pub open spec fn extend_all(
    ents: Seq<EntitlementGrant>,
    subscription_id: u64,
    t: i64,
    x: i64,
) -> Seq<EntitlementGrant> {
    ents.map_values(|g: EntitlementGrant| extend_any_grant(g, subscription_id, t, x))
}

/// The event kinds that may create the subscription when none exists yet.
pub open spec fn create_if_absent(kind: EventKind) -> bool {
    kind is Purchased || kind is Renewed || kind is Expired
}

/// The next ledger when the event's subscription key is not present:
/// materialize the user if needed, create the subscription, and grant
/// entitlements for a purchase or a first-sight renewal.
pub open spec fn spec_create(
    m: LedgerModel,
    p: ProductRec,
    e: StoreEvent,
    token: String,
) -> LedgerModel {
    let ui = user_index(m.users, token@);
    let known = ui >= 0;
    let uid = if known {
        m.users[ui].id
    } else {
        m.next_id as u64
    };
    let users1 = if known {
        m.users
    } else {
        m.users.push(
            UserRec {
                id: uid,
                app_user_id: token,
                email: None,
                created_at: e.occurred_at,
                updated_at: e.occurred_at,
            },
        )
    };
    let nid0 = if known {
        m.next_id
    } else {
        m.next_id + 1
    };
    let sid = nid0 as u64;
    let sub = SubscriptionRec {
        id: sid,
        user_id: uid,
        product_id: p.id,
        original_transaction_id: e.original_transaction_id,
        store_transaction_id: e.transaction_id,
        store: e.store,
        purchase_date: e.occurred_at,
        expires_date: e.new_expires_at,
        cancellation_date: None,
        renewal_grace_period_expires_date: None,
        status: if e.kind is Expired {
            SubscriptionStatus::Expired
        } else {
            SubscriptionStatus::Active
        },
        auto_renew_status: e.new_auto_renew,
        price_micros: None,
        currency: None,
        is_trial: false,
        is_intro_offer: false,
        created_at: e.occurred_at,
        updated_at: e.occurred_at,
    };
    let granted = if e.kind is Purchased || e.kind is Renewed {
        grant_rows(
            m.ents,
            p.entitlement_ids@,
            uid,
            sid,
            e.occurred_at,
            e.new_expires_at,
            nid0 + 1,
        )
    } else {
        (m.ents, nid0 + 1)
    };
    LedgerModel {
        users: users1,
        subs: m.subs.push(sub),
        ents: granted.0,
        next_id: granted.1,
    }
}

/// The next ledger when the event's subscription key is absent from the
/// ledger.
pub open spec fn spec_apply_absent(m: LedgerModel, c: CatalogModel, e: StoreEvent) -> Result<
    (LedgerModel, ApplyOutcome),
    EngineError,
> {
    if !create_if_absent(e.kind) {
        Err(EngineError::SubscriptionNotFound)
    } else {
        match e.user_token {
            None => if e.kind is Purchased {
                Err(EngineError::MissingUserToken)
            } else {
                Err(EngineError::SubscriptionNotFound)
            },
            Some(token) => {
                let pi = product_index(c.products, e.store, e.store_product_id@);
                if pi < 0 {
                    Err(EngineError::UnknownProduct)
                } else {
                    Ok((spec_create(m, c.products[pi], e, token), ApplyOutcome::Applied))
                }
            },
        }
    }
}

/// The next ledger when the event's subscription exists at index `i` and
/// the event is not stale.
pub open spec fn spec_apply_existing(
    m: LedgerModel,
    c: CatalogModel,
    e: StoreEvent,
    i: int,
) -> Result<(LedgerModel, ApplyOutcome), EngineError> {
    let sub = m.subs[i];
    let t = e.occurred_at;
    match e.kind {
        EventKind::Purchased => {
            let pi = product_index(c.products, e.store, e.store_product_id@);
            if pi < 0 {
                Err(EngineError::UnknownProduct)
            } else {
                let p = c.products[pi];
                let sub1 = SubscriptionRec {
                    product_id: p.id,
                    store_transaction_id: e.transaction_id,
                    purchase_date: t,
                    expires_date: e.new_expires_at,
                    cancellation_date: None,
                    renewal_grace_period_expires_date: None,
                    status: SubscriptionStatus::Active,
                    auto_renew_status: e.new_auto_renew,
                    updated_at: t,
                    ..sub
                };
                let granted = grant_rows(
                    m.ents,
                    p.entitlement_ids@,
                    sub.user_id,
                    sub.id,
                    t,
                    e.new_expires_at,
                    m.next_id,
                );
                Ok(
                    (
                        LedgerModel {
                            subs: m.subs.update(i, sub1),
                            ents: granted.0,
                            next_id: granted.1,
                            ..m
                        },
                        ApplyOutcome::Applied,
                    ),
                )
            }
        },
        EventKind::Renewed => {
            let new_exp = if e.new_expires_at is Some {
                e.new_expires_at
            } else {
                sub.expires_date
            };
            let sub1 = SubscriptionRec {
                store_transaction_id: e.transaction_id,
                expires_date: new_exp,
                renewal_grace_period_expires_date: None,
                status: SubscriptionStatus::Active,
                auto_renew_status: if e.new_auto_renew is Some {
                    e.new_auto_renew
                } else {
                    sub.auto_renew_status
                },
                updated_at: t,
                ..sub
            };
            // extend the still-active grants, then re-grant any lapsed or
            // missing entitlement with fresh rows dated from the event:
            // access never rests on reopening an expired row, and a
            // restart from an expired, cancelled or refunded term re-grants
            // through the same rule
            let ents1 = if e.new_expires_at is Some {
                extend_matching(m.ents, sub.id, t, e.new_expires_at->0)
            } else {
                m.ents
            };
            let pi = product_id_index(c.products, sub.product_id);
            if pi < 0 {
                Err(EngineError::UnknownProduct)
            } else {
                let granted = grant_rows(
                    ents1,
                    c.products[pi].entitlement_ids@,
                    sub.user_id,
                    sub.id,
                    t,
                    new_exp,
                    m.next_id,
                );
                Ok(
                    (
                        LedgerModel {
                            subs: m.subs.update(i, sub1),
                            ents: granted.0,
                            next_id: granted.1,
                            ..m
                        },
                        ApplyOutcome::Applied,
                    ),
                )
            }
        },
        EventKind::Expired => {
            let sub1 = SubscriptionRec {
                status: SubscriptionStatus::Expired,
                updated_at: t,
                ..sub
            };
            Ok(
                (
                    LedgerModel {
                        subs: m.subs.update(i, sub1),
                        ents: force_expire(m.ents, sub.id, t),
                        ..m
                    },
                    ApplyOutcome::Applied,
                ),
            )
        },
        EventKind::EnteredGrace => {
            let sub1 = SubscriptionRec {
                status: SubscriptionStatus::GracePeriod,
                renewal_grace_period_expires_date: e.grace_period_expires_at,
                updated_at: t,
                ..sub
            };
            Ok((LedgerModel { subs: m.subs.update(i, sub1), ..m }, ApplyOutcome::Applied))
        },
        EventKind::Cancelled => {
            let sub1 = SubscriptionRec {
                status: SubscriptionStatus::Cancelled,
                cancellation_date: Some(t),
                auto_renew_status: Some(false),
                updated_at: t,
                ..sub
            };
            Ok((LedgerModel { subs: m.subs.update(i, sub1), ..m }, ApplyOutcome::Applied))
        },
        EventKind::AutoRenewChanged => {
            let sub1 = SubscriptionRec { auto_renew_status: e.new_auto_renew, updated_at: t, ..sub };
            Ok((LedgerModel { subs: m.subs.update(i, sub1), ..m }, ApplyOutcome::Applied))
        },
        EventKind::Refunded => {
            let sub1 = SubscriptionRec {
                status: SubscriptionStatus::Refunded,
                updated_at: t,
                ..sub
            };
            Ok(
                (
                    LedgerModel {
                        subs: m.subs.update(i, sub1),
                        ents: force_expire(m.ents, sub.id, t),
                        ..m
                    },
                    ApplyOutcome::Applied,
                ),
            )
        },
        EventKind::ExtendedExpiry => {
            let sub1 = SubscriptionRec {
                expires_date: if e.new_expires_at is Some {
                    e.new_expires_at
                } else {
                    sub.expires_date
                },
                status: if sub.status is Expired {
                    SubscriptionStatus::Active
                } else {
                    sub.status
                },
                updated_at: t,
                ..sub
            };
            // an expiry extension keeps every matching grant's expiry in
            // step with the subscription's, lapsed or not
            let ents1 = if e.new_expires_at is Some {
                extend_all(m.ents, sub.id, t, e.new_expires_at->0)
            } else {
                m.ents
            };
            Ok(
                (
                    LedgerModel { subs: m.subs.update(i, sub1), ents: ents1, ..m },
                    ApplyOutcome::Applied,
                ),
            )
        },
        EventKind::Paused => {
            let sub1 = SubscriptionRec { status: SubscriptionStatus::Paused, updated_at: t, ..sub };
            Ok(
                (
                    LedgerModel {
                        subs: m.subs.update(i, sub1),
                        ents: force_expire(m.ents, sub.id, t),
                        ..m
                    },
                    ApplyOutcome::Applied,
                ),
            )
        },
    }
}

/// The whole state machine: one event in, the next ledger (or an error)
/// out.  An event older than the subscription's last applied event is
/// discarded as stale, leaving the ledger unchanged.
pub open spec fn spec_apply(m: LedgerModel, c: CatalogModel, e: StoreEvent) -> Result<
    (LedgerModel, ApplyOutcome),
    EngineError,
> {
    let i = sub_index(m.subs, e.store, e.original_transaction_id@);
    if i >= 0 {
        if e.occurred_at < m.subs[i].updated_at {
            Ok((m, ApplyOutcome::Stale))
        } else {
            spec_apply_existing(m, c, e, i)
        }
    } else {
        spec_apply_absent(m, c, e)
    }
}

/// The longest entitlement list of any product in the catalog: an upper
/// bound on the identifiers one event application can allocate.
pub open spec fn max_product_ents(products: Seq<ProductRec>) -> int
    decreases products.len(),
{
    if products.len() == 0 {
        0
    } else {
        let rest = max_product_ents(products.drop_first());
        let own = products[0].entitlement_ids@.len() as int;
        if own >= rest {
            own
        } else {
            rest
        }
    }
}

/// Enough identifier headroom for one event application: at most one user,
/// one subscription and one grant per listed entitlement are allocated.
pub open spec fn id_headroom_ok(m: LedgerModel, c: CatalogModel) -> bool {
    m.next_id + 2 + max_product_ents(c.products) <= u64::MAX as int
}

/// Whether the ledger has identifier headroom for one more event
/// application; the executable counterpart of `id_headroom_ok`, for
/// callers to test before `apply_event`.
pub fn has_id_headroom(state: &LedgerState, catalog: &Catalog) -> (r: bool)
    ensures
        r == id_headroom_ok(state@, catalog@),
{
    let n = catalog.products.len();
    let mut maxe: usize = 0;
    let mut k: usize = 0;
    proof {
        assert(catalog@.products.subrange(0, n as int) =~= catalog@.products);
    }
    while k < n
        invariant
            n == catalog.products.len(),
            0 <= k <= n,
            vstd::math::max(
                maxe as int,
                max_product_ents(catalog@.products.subrange(k as int, n as int)),
            ) == max_product_ents(catalog@.products),
            maxe as int <= max_product_ents(catalog@.products),
        decreases n - k,
    {
        proof {
            assert(catalog@.products.subrange(k as int, n as int).drop_first()
                =~= catalog@.products.subrange(k as int + 1, n as int));
            assert(catalog@.products.subrange(k as int, n as int)[0]
                == catalog@.products[k as int]);
            lemma_max_product_ents(catalog@.products.subrange(k as int + 1, n as int));
        }
        let len = catalog.products[k].entitlement_ids.len();
        if len > maxe {
            maxe = len;
        }
        k += 1;
    }
    proof {
        assert(catalog@.products.subrange(n as int, n as int)
            =~= Seq::<ProductRec>::empty());
    }
    if state.next_id > u64::MAX - 2 {
        false
    } else {
        let room = u64::MAX - 2 - state.next_id;
        maxe as u64 <= room
    }
}

/// `max_product_ents` is an upper bound on every product's entitlement
/// list, and never negative.
pub proof fn lemma_max_product_ents(products: Seq<ProductRec>)
    ensures
        max_product_ents(products) >= 0,
        forall|i: int|
            0 <= i < products.len() ==> products[i].entitlement_ids@.len()
                <= max_product_ents(products),
    decreases products.len(),
{
    if products.len() == 0 {
    } else {
        let tail = products.drop_first();
        lemma_max_product_ents(tail);
        assert forall|i: int|
            0 <= i < products.len() implies products[i].entitlement_ids@.len()
            <= max_product_ents(products) by {
            if i > 0 {
                assert(products[i] == tail[i - 1]);
            }
        }
    }
}

/// What `grant_rows` does to the row sequence: existing rows are kept
/// unchanged, and each appended row is a fresh grant dated from the event,
/// with identifiers allocated consecutively from `next_id`.
pub proof fn lemma_grant_rows_frame(
    ents: Seq<EntitlementGrant>,
    ids: Seq<u64>,
    user_id: u64,
    subscription_id: u64,
    t: i64,
    expires_at: Option<i64>,
    next_id: int,
)
    requires
        0 <= next_id,
        next_id + ids.len() <= u64::MAX as int,
    ensures
        ({
            let g = grant_rows(ents, ids, user_id, subscription_id, t, expires_at, next_id);
            &&& g.0.len() - ents.len() == g.1 - next_id
            &&& 0 <= g.1 - next_id <= ids.len()
            &&& forall|k: int| 0 <= k < ents.len() ==> g.0[k] == ents[k]
            &&& forall|k: int|
                ents.len() <= k < g.0.len() ==> {
                    &&& g.0[k].id as int == next_id + (k - ents.len())
                    &&& g.0[k].user_id == user_id
                    &&& g.0[k].subscription_id == Some(subscription_id)
                    &&& g.0[k].starts_at == t
                    &&& g.0[k].expires_at == expires_at
                    &&& g.0[k].created_at == t
                    &&& g.0[k].updated_at == t
                    &&& ids.contains(g.0[k].entitlement_id)
                }
        }),
    decreases ids.len(),
{
    if ids.len() == 0 {
    } else {
        let tail = ids.drop_first();
        assert(forall|j: int| 0 <= j < tail.len() ==> tail[j] == ids[j + 1]);
        assert forall|v: u64| tail.contains(v) implies ids.contains(v) by {
            let j = choose|j: int| 0 <= j < tail.len() && tail[j] == v;
            assert(ids[j + 1] == v);
        }
        let g = grant_rows(ents, ids, user_id, subscription_id, t, expires_at, next_id);
        if needs_grant(ents, user_id, ids[0], subscription_id, t, expires_at) {
            let fresh = fresh_grant(
                next_id as u64,
                user_id,
                ids[0],
                subscription_id,
                t,
                expires_at,
            );
            let ents1 = ents.push(fresh);
            assert(g == grant_rows(
                ents1,
                tail,
                user_id,
                subscription_id,
                t,
                expires_at,
                next_id + 1,
            ));
            lemma_grant_rows_frame(
                ents1,
                tail,
                user_id,
                subscription_id,
                t,
                expires_at,
                next_id + 1,
            );
            assert(ids.contains(ids[0])) by {
                assert(0 <= 0 < ids.len() && ids[0] == ids[0]);
            }
            assert(ents1[ents.len() as int] == fresh);
            assert(g.0[ents.len() as int] == fresh);
            assert forall|k: int| 0 <= k < ents.len() implies g.0[k] == ents[k] by {
                assert(g.0[k] == ents1[k]);
                assert(ents1[k] == ents[k]);
            }
            assert forall|k: int| ents.len() <= k < g.0.len() implies {
                &&& g.0[k].id as int == next_id + (k - ents.len())
                &&& g.0[k].user_id == user_id
                &&& g.0[k].subscription_id == Some(subscription_id)
                &&& g.0[k].starts_at == t
                &&& g.0[k].expires_at == expires_at
                &&& g.0[k].created_at == t
                &&& g.0[k].updated_at == t
                &&& ids.contains(g.0[k].entitlement_id)
            } by {
                if k == ents.len() {
                    assert(g.0[k] == fresh);
                } else {
                    assert(ents1.len() <= k < g.0.len());
                }
            }
        } else {
            assert(g == grant_rows(
                ents,
                tail,
                user_id,
                subscription_id,
                t,
                expires_at,
                next_id,
            ));
            lemma_grant_rows_frame(
                ents,
                tail,
                user_id,
                subscription_id,
                t,
                expires_at,
                next_id,
            );
        }
    }
}

/// After `grant_rows`, every listed entitlement has a grant in the result
/// that blocks a repeated grant with the same window: re-application adds
/// nothing.
pub proof fn lemma_grant_rows_saturates(
    ents: Seq<EntitlementGrant>,
    ids: Seq<u64>,
    user_id: u64,
    subscription_id: u64,
    t: i64,
    expires_at: Option<i64>,
    next_id: int,
)
    requires
        0 <= next_id,
        next_id + ids.len() <= u64::MAX as int,
    ensures
        ({
            let g = grant_rows(ents, ids, user_id, subscription_id, t, expires_at, next_id);
            forall|j: int|
                0 <= j < ids.len() ==> !needs_grant(
                    g.0,
                    user_id,
                    ids[j],
                    subscription_id,
                    t,
                    expires_at,
                )
        }),
    decreases ids.len(),
{
    if ids.len() == 0 {
    } else {
        let tail = ids.drop_first();
        assert(forall|j: int| 0 <= j < tail.len() ==> tail[j] == ids[j + 1]);
        let g = grant_rows(ents, ids, user_id, subscription_id, t, expires_at, next_id);
        if needs_grant(ents, user_id, ids[0], subscription_id, t, expires_at) {
            let fresh = fresh_grant(
                next_id as u64,
                user_id,
                ids[0],
                subscription_id,
                t,
                expires_at,
            );
            let ents1 = ents.push(fresh);
            assert(g == grant_rows(
                ents1,
                tail,
                user_id,
                subscription_id,
                t,
                expires_at,
                next_id + 1,
            ));
            lemma_grant_rows_saturates(
                ents1,
                tail,
                user_id,
                subscription_id,
                t,
                expires_at,
                next_id + 1,
            );
            lemma_grant_rows_frame(
                ents1,
                tail,
                user_id,
                subscription_id,
                t,
                expires_at,
                next_id + 1,
            );
            assert(ents1[ents.len() as int] == fresh);
            assert(g.0[ents.len() as int] == fresh);
            assert(blocks_grant(fresh, user_id, ids[0], subscription_id, t, expires_at));
            assert(!needs_grant(g.0, user_id, ids[0], subscription_id, t, expires_at));
            assert forall|j: int| 0 <= j < ids.len() implies !needs_grant(
                g.0,
                user_id,
                ids[j],
                subscription_id,
                t,
                expires_at,
            ) by {
                if j > 0 {
                    assert(tail[j - 1] == ids[j]);
                }
            }
        } else {
            assert(g == grant_rows(
                ents,
                tail,
                user_id,
                subscription_id,
                t,
                expires_at,
                next_id,
            ));
            lemma_grant_rows_saturates(
                ents,
                tail,
                user_id,
                subscription_id,
                t,
                expires_at,
                next_id,
            );
            lemma_grant_rows_frame(
                ents,
                tail,
                user_id,
                subscription_id,
                t,
                expires_at,
                next_id,
            );
            let b = choose|b: int|
                0 <= b < ents.len() && blocks_grant(
                    ents[b],
                    user_id,
                    ids[0],
                    subscription_id,
                    t,
                    expires_at,
                );
            assert(g.0[b] == ents[b]);
            assert(blocks_grant(g.0[b], user_id, ids[0], subscription_id, t, expires_at));
            assert(!needs_grant(g.0, user_id, ids[0], subscription_id, t, expires_at));
            assert forall|j: int| 0 <= j < ids.len() implies !needs_grant(
                g.0,
                user_id,
                ids[j],
                subscription_id,
                t,
                expires_at,
            ) by {
                if j > 0 {
                    assert(tail[j - 1] == ids[j]);
                }
            }
        }
    }
}

/// When every listed entitlement is already blocked, `grant_rows` is the
/// identity.
pub proof fn lemma_grant_rows_blocked(
    ents: Seq<EntitlementGrant>,
    ids: Seq<u64>,
    user_id: u64,
    subscription_id: u64,
    t: i64,
    expires_at: Option<i64>,
    next_id: int,
)
    requires
        forall|j: int|
            0 <= j < ids.len() ==> !needs_grant(
                ents,
                user_id,
                ids[j],
                subscription_id,
                t,
                expires_at,
            ),
    ensures
        grant_rows(ents, ids, user_id, subscription_id, t, expires_at, next_id).0 == ents,
        grant_rows(ents, ids, user_id, subscription_id, t, expires_at, next_id).1 == next_id,
    decreases ids.len(),
{
    if ids.len() == 0 {
    } else {
        let tail = ids.drop_first();
        assert(forall|j: int| 0 <= j < tail.len() ==> tail[j] == ids[j + 1]);
        assert(!needs_grant(ents, user_id, ids[0], subscription_id, t, expires_at));
        lemma_grant_rows_blocked(
            ents,
            tail,
            user_id,
            subscription_id,
            t,
            expires_at,
            next_id,
        );
    }
}

/// Force-expiring twice is the same as force-expiring once.
pub proof fn lemma_force_expire_idempotent(
    ents: Seq<EntitlementGrant>,
    subscription_id: u64,
    t: i64,
)
    ensures
        force_expire(force_expire(ents, subscription_id, t), subscription_id, t) == force_expire(
            ents,
            subscription_id,
            t,
        ),
{
    let f1 = force_expire(ents, subscription_id, t);
    assert forall|k: int| 0 <= k < f1.len() implies clamp_grant(f1[k], subscription_id, t)
        == f1[k] by {
        assert(f1[k] == clamp_grant(ents[k], subscription_id, t));
    }
    assert(force_expire(f1, subscription_id, t) =~= f1);
}

/// Extending every matching grant twice is the same as extending once.
pub proof fn lemma_extend_all_idempotent(
    ents: Seq<EntitlementGrant>,
    subscription_id: u64,
    t: i64,
    x: i64,
)
    ensures
        extend_all(extend_all(ents, subscription_id, t, x), subscription_id, t, x) == extend_all(
            ents,
            subscription_id,
            t,
            x,
        ),
{
    let f1 = extend_all(ents, subscription_id, t, x);
    assert forall|k: int| 0 <= k < f1.len() implies extend_any_grant(f1[k], subscription_id, t, x)
        == f1[k] by {
        assert(f1[k] == extend_any_grant(ents[k], subscription_id, t, x));
    }
    assert(extend_all(f1, subscription_id, t, x) =~= f1);
}

/// Extending one grant is idempotent.
pub proof fn lemma_extend_grant_idempotent(g: EntitlementGrant, subscription_id: u64, t: i64, x: i64)
    ensures
        extend_grant(extend_grant(g, subscription_id, t, x), subscription_id, t, x) == extend_grant(
            g,
            subscription_id,
            t,
            x,
        ),
{
}

/// Whether an existing grant blocks a new one; the executable counterpart
/// of `blocks_grant`.
fn blocks_grant_exec(
    g: &EntitlementGrant,
    user_id: u64,
    entitlement_id: u64,
    subscription_id: u64,
    t: i64,
    expires_at: Option<i64>,
) -> (r: bool)
    ensures
        r == blocks_grant(*g, user_id, entitlement_id, subscription_id, t, expires_at),
{
    let same_sub = match g.subscription_id {
        Option::Some(s) => s == subscription_id,
        Option::None => false,
    };
    if !(g.user_id == user_id && g.entitlement_id == entitlement_id && same_sub) {
        return false;
    }
    if g.starts_at == t {
        return true;
    }
    let live_past = match g.expires_at {
        Option::None => true,
        Option::Some(e1) => e1 > t,
    };
    let new_reaches = match expires_at {
        Option::None => true,
        Option::Some(e2) => e2 > g.starts_at,
    };
    live_past && new_reaches
}

/// Whether no existing grant blocks the new one; the executable
/// counterpart of `needs_grant`.
fn needs_grant_exec(
    ents: &Vec<EntitlementGrant>,
    user_id: u64,
    entitlement_id: u64,
    subscription_id: u64,
    t: i64,
    expires_at: Option<i64>,
) -> (r: bool)
    ensures
        r == needs_grant(ents@, user_id, entitlement_id, subscription_id, t, expires_at),
{
    let n = ents.len();
    let mut k: usize = 0;
    while k < n
        invariant
            n == ents.len(),
            0 <= k <= n,
            forall|i: int|
                0 <= i < k ==> !blocks_grant(
                    ents@[i],
                    user_id,
                    entitlement_id,
                    subscription_id,
                    t,
                    expires_at,
                ),
        decreases n - k,
    {
        if blocks_grant_exec(&ents[k], user_id, entitlement_id, subscription_id, t, expires_at) {
            return false;
        }
        k += 1;
    }
    true
}

/// Force-expire one grant; the executable counterpart of `clamp_grant`.
fn clamp_grant_exec(g: &EntitlementGrant, subscription_id: u64, t: i64) -> (r: EntitlementGrant)
    ensures
        r == clamp_grant(*g, subscription_id, t),
{
    let same_sub = match g.subscription_id {
        Option::Some(s) => s == subscription_id,
        Option::None => false,
    };
    let live_past = match g.expires_at {
        Option::None => true,
        Option::Some(e) => e > t,
    };
    if same_sub && live_past {
        let mut g2 = *g;
        g2.expires_at = Option::Some(t);
        g2.updated_at = t;
        g2
    } else {
        *g
    }
}

/// Force-expire every grant of the subscription; the executable
/// counterpart of `force_expire`.
fn force_expire_exec(ents: &Vec<EntitlementGrant>, subscription_id: u64, t: i64) -> (r: Vec<
    EntitlementGrant,
>)
    ensures
        r@ == force_expire(ents@, subscription_id, t),
{
    let n = ents.len();
    let mut out: Vec<EntitlementGrant> = Vec::new();
    let mut k: usize = 0;
    while k < n
        invariant
            n == ents.len(),
            0 <= k <= n,
            out@ == force_expire(ents@.subrange(0, k as int), subscription_id, t),
        decreases n - k,
    {
        out.push(clamp_grant_exec(&ents[k], subscription_id, t));
        k += 1;
        proof {
            assert(force_expire(ents@.subrange(0, k as int), subscription_id, t)
                =~= force_expire(ents@.subrange(0, k - 1), subscription_id, t).push(
                clamp_grant(ents@[k - 1], subscription_id, t),
            ));
        }
    }
    proof {
        assert(ents@.subrange(0, n as int) =~= ents@);
    }
    out
}

/// Extend one grant; the executable counterpart of `extend_grant`.
/// Extend one grant whether or not it still conveys access; the
/// executable counterpart of `extend_any_grant`.
fn extend_any_grant_exec(g: &EntitlementGrant, subscription_id: u64, t: i64, x: i64) -> (r:
    EntitlementGrant)
    ensures
        r == extend_any_grant(*g, subscription_id, t, x),
{
    let same_sub = match g.subscription_id {
        Option::Some(s) => s == subscription_id,
        Option::None => false,
    };
    if same_sub {
        let mut g2 = *g;
        g2.expires_at = Option::Some(x);
        g2.updated_at = t;
        g2
    } else {
        *g
    }
}

/// Extend every grant of the subscription; the executable counterpart of
/// `extend_all`.
fn extend_all_exec(ents: &Vec<EntitlementGrant>, subscription_id: u64, t: i64, x: i64) -> (r: Vec<
    EntitlementGrant,
>)
    ensures
        r@ == extend_all(ents@, subscription_id, t, x),
{
    let n = ents.len();
    let mut out: Vec<EntitlementGrant> = Vec::new();
    let mut k: usize = 0;
    while k < n
        invariant
            n == ents.len(),
            0 <= k <= n,
            out@ == extend_all(ents@.subrange(0, k as int), subscription_id, t, x),
        decreases n - k,
    {
        out.push(extend_any_grant_exec(&ents[k], subscription_id, t, x));
        k += 1;
        proof {
            assert(extend_all(ents@.subrange(0, k as int), subscription_id, t, x) =~= extend_all(
                ents@.subrange(0, k - 1),
                subscription_id,
                t,
                x,
            ).push(extend_any_grant(ents@[k - 1], subscription_id, t, x)));
        }
    }
    proof {
        assert(ents@.subrange(0, n as int) =~= ents@);
    }
    out
}

fn extend_grant_exec(g: &EntitlementGrant, subscription_id: u64, t: i64, x: i64) -> (r:
    EntitlementGrant)
    ensures
        r == extend_grant(*g, subscription_id, t, x),
{
    let same_sub = match g.subscription_id {
        Option::Some(s) => s == subscription_id,
        Option::None => false,
    };
    let live_past = match g.expires_at {
        Option::None => true,
        Option::Some(e) => e > t,
    };
    if same_sub && g.starts_at <= t && live_past {
        let mut g2 = *g;
        g2.expires_at = Option::Some(x);
        g2.updated_at = t;
        g2
    } else {
        *g
    }
}

/// Extend every still-active grant of the subscription; the executable
/// counterpart of `extend_matching`.
fn extend_matching_exec(ents: &Vec<EntitlementGrant>, subscription_id: u64, t: i64, x: i64) -> (r:
    Vec<EntitlementGrant>)
    ensures
        r@ == extend_matching(ents@, subscription_id, t, x),
{
    let n = ents.len();
    let mut out: Vec<EntitlementGrant> = Vec::new();
    let mut k: usize = 0;
    while k < n
        invariant
            n == ents.len(),
            0 <= k <= n,
            out@ == extend_matching(ents@.subrange(0, k as int), subscription_id, t, x),
        decreases n - k,
    {
        out.push(extend_grant_exec(&ents[k], subscription_id, t, x));
        k += 1;
        proof {
            assert(extend_matching(ents@.subrange(0, k as int), subscription_id, t, x)
                =~= extend_matching(ents@.subrange(0, k - 1), subscription_id, t, x).push(
                extend_grant(ents@[k - 1], subscription_id, t, x),
            ));
        }
    }
    proof {
        assert(ents@.subrange(0, n as int) =~= ents@);
    }
    out
}

/// Grant entitlement rows with deduplication; the executable counterpart
/// of `grant_rows`.
fn grant_rows_exec(
    ents: Vec<EntitlementGrant>,
    ids: &Vec<u64>,
    user_id: u64,
    subscription_id: u64,
    t: i64,
    expires_at: Option<i64>,
    next_id: u64,
) -> (r: (Vec<EntitlementGrant>, u64))
    requires
        next_id as int + ids@.len() <= u64::MAX as int,
    ensures
        ({
            let g = grant_rows(ents@, ids@, user_id, subscription_id, t, expires_at, next_id as int);
            r.0@ == g.0 && r.1 as int == g.1
        }),
{
    let ghost target = grant_rows(
        ents@,
        ids@,
        user_id,
        subscription_id,
        t,
        expires_at,
        next_id as int,
    );
    let n = ids.len();
    let mut acc = ents;
    let mut nid = next_id;
    let mut k: usize = 0;
    proof {
        assert(ids@.subrange(0, n as int) =~= ids@);
    }
    while k < n
        invariant
            n == ids.len(),
            0 <= k <= n,
            next_id as int + n as int <= u64::MAX as int,
            nid as int <= next_id as int + k as int,
            grant_rows(
                acc@,
                ids@.subrange(k as int, n as int),
                user_id,
                subscription_id,
                t,
                expires_at,
                nid as int,
            ) == target,
        decreases n - k,
    {
        proof {
            assert(ids@.subrange(k as int, n as int).drop_first() =~= ids@.subrange(
                k as int + 1,
                n as int,
            ));
            assert(ids@.subrange(k as int, n as int)[0] == ids@[k as int]);
        }
        if needs_grant_exec(&acc, user_id, ids[k], subscription_id, t, expires_at) {
            let row = EntitlementGrant {
                id: nid,
                user_id,
                entitlement_id: ids[k],
                subscription_id: Some(subscription_id),
                starts_at: t,
                expires_at,
                created_at: t,
                updated_at: t,
            };
            acc.push(row);
            nid = nid + 1;
        }
        k += 1;
    }
    proof {
        assert(ids@.subrange(n as int, n as int) =~= Seq::<u64>::empty());
    }
    (acc, nid)
}

/// Apply one canonical store event to a ledger snapshot, producing the
/// next snapshot, exactly as `spec_apply` describes: an absolute-write
/// state transition plus the entitlement cascade, with stale events
/// discarded and repeated deliveries deduplicated.
pub fn apply_event(state: LedgerState, catalog: &Catalog, event: &StoreEvent) -> (r: Result<
    (LedgerState, ApplyOutcome),
    EngineError,
>)
    requires
        id_headroom_ok(state@, catalog@),
    ensures
        ({
            let s = spec_apply(state@, catalog@, *event);
            match r {
                Ok((st2, oc)) => s matches Ok(p) && st2@ == p.0 && oc == p.1,
                Err(er) => s matches Err(es) && er == es,
            }
        }),
{
    proof {
        lemma_max_product_ents(catalog@.products);
    }
    let t = event.occurred_at;
    let found = state.find_subscription(event.store, event.original_transaction_id.as_str());
    match found {
        Option::Some(i) => {
            if t < state.subscriptions[i].updated_at {
                return Ok((state, ApplyOutcome::Stale));
            }
            apply_to_existing(state, catalog, event, i)
        },
        Option::None => {
            if !matches!(
                event.kind,
                EventKind::Purchased | EventKind::Renewed | EventKind::Expired
            ) {
                return Err(EngineError::SubscriptionNotFound);
            }
            match &event.user_token {
                Option::None => {
                    if matches!(event.kind, EventKind::Purchased) {
                        Err(EngineError::MissingUserToken)
                    } else {
                        Err(EngineError::SubscriptionNotFound)
                    }
                },
                Option::Some(token) => {
                    match catalog.find_product_by_store_id(
                        event.store,
                        event.store_product_id.as_str(),
                    ) {
                        Option::None => Err(EngineError::UnknownProduct),
                        Option::Some(pi) => {
                            let p = &catalog.products[pi];
                            let ui = state.find_user_by_app_user_id(token.as_str());
                            let occurred = event.occurred_at;
                            let LedgerState { users, subscriptions, entitlements, next_id } =
                                state;
                            let mut users1 = users;
                            let uid: u64;
                            let nid0: u64;
                            match ui {
                                Option::Some(k) => {
                                    uid = users1[k].id;
                                    nid0 = next_id;
                                },
                                Option::None => {
                                    uid = next_id;
                                    users1.push(
                                        UserRec {
                                            id: next_id,
                                            app_user_id: token.clone(),
                                            email: Option::None,
                                            created_at: occurred,
                                            updated_at: occurred,
                                        },
                                    );
                                    nid0 = next_id + 1;
                                },
                            }
                            let sid = nid0;
                            let sub = SubscriptionRec {
                                id: sid,
                                user_id: uid,
                                product_id: p.id,
                                original_transaction_id: event.original_transaction_id.clone(),
                                store_transaction_id: event.transaction_id.clone(),
                                store: event.store,
                                purchase_date: occurred,
                                expires_date: event.new_expires_at,
                                cancellation_date: Option::None,
                                renewal_grace_period_expires_date: Option::None,
                                status: if matches!(event.kind, EventKind::Expired) {
                                    SubscriptionStatus::Expired
                                } else {
                                    SubscriptionStatus::Active
                                },
                                auto_renew_status: event.new_auto_renew,
                                price_micros: Option::None,
                                currency: Option::None,
                                is_trial: false,
                                is_intro_offer: false,
                                created_at: occurred,
                                updated_at: occurred,
                            };
                            let mut subs1 = subscriptions;
                            subs1.push(sub);
                            let granted: (Vec<EntitlementGrant>, u64);
                            if matches!(event.kind, EventKind::Purchased | EventKind::Renewed) {
                                granted = grant_rows_exec(
                                    entitlements,
                                    &p.entitlement_ids,
                                    uid,
                                    sid,
                                    occurred,
                                    event.new_expires_at,
                                    nid0 + 1,
                                );
                            } else {
                                granted = (entitlements, nid0 + 1);
                            }
                            let next = LedgerState {
                                users: users1,
                                subscriptions: subs1,
                                entitlements: granted.0,
                                next_id: granted.1,
                            };
                            Ok((next, ApplyOutcome::Applied))
                        },
                    }
                },
            }
        },
    }
}

/// Apply a non-stale event to the subscription at index `i`.
fn apply_to_existing(state: LedgerState, catalog: &Catalog, event: &StoreEvent, i: usize) -> (r:
    Result<(LedgerState, ApplyOutcome), EngineError>)
    requires
        id_headroom_ok(state@, catalog@),
        i < state.subscriptions.len(),
        sub_index(state@.subs, event.store, event.original_transaction_id@) == i as int,
        event.occurred_at >= state@.subs[i as int].updated_at,
    ensures
        ({
            let s = spec_apply(state@, catalog@, *event);
            match r {
                Ok((st2, oc)) => s matches Ok(p) && st2@ == p.0 && oc == p.1,
                Err(er) => s matches Err(es) && er == es,
            }
        }),
{
    proof {
        lemma_max_product_ents(catalog@.products);
    }
    let t = event.occurred_at;
    let sid = state.subscriptions[i].id;
    let sub_user = state.subscriptions[i].user_id;
    match event.kind {
        EventKind::Purchased => {
            match catalog.find_product_by_store_id(event.store, event.store_product_id.as_str()) {
                Option::None => Err(EngineError::UnknownProduct),
                Option::Some(pi) => {
                    let p = &catalog.products[pi];
                    let mut sub1 = state.subscriptions[i].duplicate();
                    sub1.product_id = p.id;
                    sub1.store_transaction_id = event.transaction_id.clone();
                    sub1.purchase_date = t;
                    sub1.expires_date = event.new_expires_at;
                    sub1.cancellation_date = Option::None;
                    sub1.renewal_grace_period_expires_date = Option::None;
                    sub1.status = SubscriptionStatus::Active;
                    sub1.auto_renew_status = event.new_auto_renew;
                    sub1.updated_at = t;
                    let subs1 = crate::ledger::set_sub_at(&state.subscriptions, i, &sub1);
                    let LedgerState { users, subscriptions: _, entitlements, next_id } = state;
                    let granted = grant_rows_exec(
                        entitlements,
                        &p.entitlement_ids,
                        sub_user,
                        sid,
                        t,
                        event.new_expires_at,
                        next_id,
                    );
                    let next = LedgerState {
                        users,
                        subscriptions: subs1,
                        entitlements: granted.0,
                        next_id: granted.1,
                    };
                    Ok((next, ApplyOutcome::Applied))
                },
            }
        },
        EventKind::Renewed => {
            let new_exp = match event.new_expires_at {
                Option::Some(x) => Option::Some(x),
                Option::None => state.subscriptions[i].expires_date,
            };
            let mut sub1 = state.subscriptions[i].duplicate();
            sub1.store_transaction_id = event.transaction_id.clone();
            sub1.expires_date = new_exp;
            sub1.renewal_grace_period_expires_date = Option::None;
            sub1.status = SubscriptionStatus::Active;
            sub1.auto_renew_status = match event.new_auto_renew {
                Option::Some(b) => Option::Some(b),
                Option::None => state.subscriptions[i].auto_renew_status,
            };
            sub1.updated_at = t;
            let subs1 = crate::ledger::set_sub_at(&state.subscriptions, i, &sub1);
            match catalog.find_product_by_id(state.subscriptions[i].product_id) {
                Option::None => Err(EngineError::UnknownProduct),
                Option::Some(pi) => {
                    let p = &catalog.products[pi];
                    let ents1: Vec<EntitlementGrant>;
                    match event.new_expires_at {
                        Option::Some(x) => {
                            ents1 = extend_matching_exec(&state.entitlements, sid, t, x);
                        },
                        Option::None => {
                            ents1 = dup_grants(&state.entitlements);
                        },
                    }
                    let granted = grant_rows_exec(
                        ents1,
                        &p.entitlement_ids,
                        sub_user,
                        sid,
                        t,
                        new_exp,
                        state.next_id,
                    );
                    let LedgerState { users, subscriptions: _, entitlements: _, next_id: _ } =
                        state;
                    let next = LedgerState {
                        users,
                        subscriptions: subs1,
                        entitlements: granted.0,
                        next_id: granted.1,
                    };
                    Ok((next, ApplyOutcome::Applied))
                },
            }
        },
        EventKind::Expired => {
            let mut sub1 = state.subscriptions[i].duplicate();
            sub1.status = SubscriptionStatus::Expired;
            sub1.updated_at = t;
            let subs1 = crate::ledger::set_sub_at(&state.subscriptions, i, &sub1);
            let ents1 = force_expire_exec(&state.entitlements, sid, t);
            let LedgerState { users, subscriptions: _, entitlements: _, next_id } = state;
            Ok((
                LedgerState { users, subscriptions: subs1, entitlements: ents1, next_id },
                ApplyOutcome::Applied,
            ))
        },
        EventKind::EnteredGrace => {
            let mut sub1 = state.subscriptions[i].duplicate();
            sub1.status = SubscriptionStatus::GracePeriod;
            sub1.renewal_grace_period_expires_date = event.grace_period_expires_at;
            sub1.updated_at = t;
            let subs1 = crate::ledger::set_sub_at(&state.subscriptions, i, &sub1);
            let LedgerState { users, subscriptions: _, entitlements, next_id } = state;
            Ok((
                LedgerState { users, subscriptions: subs1, entitlements, next_id },
                ApplyOutcome::Applied,
            ))
        },
        EventKind::Cancelled => {
            let mut sub1 = state.subscriptions[i].duplicate();
            sub1.status = SubscriptionStatus::Cancelled;
            sub1.cancellation_date = Option::Some(t);
            sub1.auto_renew_status = Option::Some(false);
            sub1.updated_at = t;
            let subs1 = crate::ledger::set_sub_at(&state.subscriptions, i, &sub1);
            let LedgerState { users, subscriptions: _, entitlements, next_id } = state;
            Ok((
                LedgerState { users, subscriptions: subs1, entitlements, next_id },
                ApplyOutcome::Applied,
            ))
        },
        EventKind::AutoRenewChanged => {
            let mut sub1 = state.subscriptions[i].duplicate();
            sub1.auto_renew_status = event.new_auto_renew;
            sub1.updated_at = t;
            let subs1 = crate::ledger::set_sub_at(&state.subscriptions, i, &sub1);
            let LedgerState { users, subscriptions: _, entitlements, next_id } = state;
            Ok((
                LedgerState { users, subscriptions: subs1, entitlements, next_id },
                ApplyOutcome::Applied,
            ))
        },
        EventKind::Refunded => {
            let mut sub1 = state.subscriptions[i].duplicate();
            sub1.status = SubscriptionStatus::Refunded;
            sub1.updated_at = t;
            let subs1 = crate::ledger::set_sub_at(&state.subscriptions, i, &sub1);
            let ents1 = force_expire_exec(&state.entitlements, sid, t);
            let LedgerState { users, subscriptions: _, entitlements: _, next_id } = state;
            Ok((
                LedgerState { users, subscriptions: subs1, entitlements: ents1, next_id },
                ApplyOutcome::Applied,
            ))
        },
        EventKind::ExtendedExpiry => {
            let mut sub1 = state.subscriptions[i].duplicate();
            sub1.expires_date = match event.new_expires_at {
                Option::Some(x) => Option::Some(x),
                Option::None => state.subscriptions[i].expires_date,
            };
            sub1.status = if matches!(state.subscriptions[i].status, SubscriptionStatus::Expired) {
                SubscriptionStatus::Active
            } else {
                state.subscriptions[i].status
            };
            sub1.updated_at = t;
            let subs1 = crate::ledger::set_sub_at(&state.subscriptions, i, &sub1);
            let ents1: Vec<EntitlementGrant>;
            match event.new_expires_at {
                Option::Some(x) => {
                    ents1 = extend_all_exec(&state.entitlements, sid, t, x);
                },
                Option::None => {
                    ents1 = dup_grants(&state.entitlements);
                },
            }
            let LedgerState { users, subscriptions: _, entitlements: _, next_id } = state;
            Ok((
                LedgerState { users, subscriptions: subs1, entitlements: ents1, next_id },
                ApplyOutcome::Applied,
            ))
        },
        EventKind::Paused => {
            let mut sub1 = state.subscriptions[i].duplicate();
            sub1.status = SubscriptionStatus::Paused;
            sub1.updated_at = t;
            let subs1 = crate::ledger::set_sub_at(&state.subscriptions, i, &sub1);
            let ents1 = force_expire_exec(&state.entitlements, sid, t);
            let LedgerState { users, subscriptions: _, entitlements: _, next_id } = state;
            Ok((
                LedgerState { users, subscriptions: subs1, entitlements: ents1, next_id },
                ApplyOutcome::Applied,
            ))
        },
    }
}

/// Copy a vector of grant rows.
fn dup_grants(ents: &Vec<EntitlementGrant>) -> (r: Vec<EntitlementGrant>)
    ensures
        r@ == ents@,
{
    let n = ents.len();
    let mut out: Vec<EntitlementGrant> = Vec::new();
    let mut k: usize = 0;
    while k < n
        invariant
            n == ents.len(),
            0 <= k <= n,
            out@ == ents@.subrange(0, k as int),
        decreases n - k,
    {
        out.push(ents[k]);
        k += 1;
        proof {
            assert(ents@.subrange(0, k as int) =~= ents@.subrange(0, k - 1).push(ents@[k - 1]));
        }
    }
    proof {
        assert(ents@.subrange(0, n as int) =~= ents@);
    }
    out
}

} // verus!
