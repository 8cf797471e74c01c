//! The laws the reconciliation engine obeys, stated over its functional
//! model and proved once and for all: staleness, the soft/hard revocation
//! split, grace-period behaviour, idempotence of event delivery, the
//! restart re-grant, and that a renewal always restores access.

use vstd::prelude::*;

use crate::catalog::CatalogModel;
use crate::catalog::product_id_index;
use crate::catalog::product_index;
use crate::engine::ApplyOutcome;
use crate::engine::EngineError;
use crate::engine::extend_all;
use crate::engine::extend_any_grant;
use crate::engine::extend_grant;
use crate::engine::extend_matching;
use crate::engine::force_expire;
use crate::engine::grant_rows;
use crate::engine::id_headroom_ok;
use crate::engine::lemma_extend_all_idempotent;
use crate::engine::lemma_extend_grant_idempotent;
use crate::engine::lemma_force_expire_idempotent;
use crate::engine::lemma_grant_rows_blocked;
use crate::engine::lemma_grant_rows_frame;
use crate::engine::lemma_grant_rows_saturates;
use crate::engine::lemma_max_product_ents;
use crate::engine::needs_grant;
use crate::engine::spec_apply;
use crate::engine::spec_create;
use crate::event::StoreEvent;
use crate::ledger::LedgerModel;
use crate::ledger::lemma_sub_index;
use crate::ledger::lemma_sub_index_push_match;
use crate::ledger::lemma_sub_index_update_same_key;
use crate::ledger::sub_index;
use crate::ledger::user_index;
use crate::records::SubscriptionRec;
use crate::types::EventKind;
use crate::types::SubscriptionStatus;

verus! {

/// A late event never regresses state: an event whose reported time is
/// older than the subscription's last applied event is discarded, leaving
/// the whole ledger exactly as it was.
pub proof fn lemma_stale_event_discarded(
    m: LedgerModel,
    c: CatalogModel,
    e: StoreEvent,
    i: int,
)
    requires
        0 <= i < m.subs.len(),
        sub_index(m.subs, e.store, e.original_transaction_id@) == i,
        e.occurred_at < m.subs[i].updated_at,
    ensures
        spec_apply(m, c, e) == Ok::<(LedgerModel, ApplyOutcome), EngineError>(
            (m, ApplyOutcome::Stale),
        ),
{
}

/// Entering a grace period preserves access: an `EnteredGrace` event moves
/// the subscription to `GracePeriod` but leaves every entitlement grant,
/// and in particular every expiry, exactly as it was.  The stored grace
/// end lies strictly in the future at transition time (the event time,
/// which becomes the row's `updated_at`).
pub proof fn lemma_grace_preserves_entitlements(
    m: LedgerModel,
    c: CatalogModel,
    e: StoreEvent,
    i: int,
)
    requires
        e.kind is EnteredGrace,
        e.wf(),
        0 <= i < m.subs.len(),
        sub_index(m.subs, e.store, e.original_transaction_id@) == i,
        e.occurred_at >= m.subs[i].updated_at,
    ensures
        spec_apply(m, c, e) matches Ok(p) && {
            &&& p.0.ents == m.ents
            &&& p.0.subs[i].status is GracePeriod
            &&& p.0.subs[i].renewal_grace_period_expires_date == e.grace_period_expires_at
            &&& p.0.subs[i].renewal_grace_period_expires_date->0 > e.occurred_at
            &&& p.0.subs[i].updated_at == e.occurred_at
            &&& p.0.subs.len() == m.subs.len()
            &&& forall|k: int| 0 <= k < m.subs.len() && k != i ==> p.0.subs[k] == m.subs[k]
            &&& p.0.users == m.users
        },
{
}

/// Cancellation is soft: a `Cancelled` event records the cancellation and
/// turns auto-renew off, but changes no entitlement grant — the user keeps
/// access until the term truly lapses.
pub proof fn lemma_cancel_is_soft(m: LedgerModel, c: CatalogModel, e: StoreEvent, i: int)
    requires
        e.kind is Cancelled,
        0 <= i < m.subs.len(),
        sub_index(m.subs, e.store, e.original_transaction_id@) == i,
        e.occurred_at >= m.subs[i].updated_at,
    ensures
        spec_apply(m, c, e) matches Ok(p) && {
            &&& p.0.ents == m.ents
            &&& p.0.subs[i].status is Cancelled
            &&& p.0.subs[i].cancellation_date == Some(e.occurred_at)
            &&& p.0.subs[i].auto_renew_status == Some(false)
            &&& p.0.subs[i].expires_date == m.subs[i].expires_date
            &&& p.0.subs.len() == m.subs.len()
            &&& forall|k: int| 0 <= k < m.subs.len() && k != i ==> p.0.subs[k] == m.subs[k]
            &&& p.0.users == m.users
        },
{
}

/// Refund is hard: a `Refunded` event moves the subscription to `Refunded`
/// and pulls access immediately — afterwards every grant tied to the
/// subscription expires no later than the event time, no grant is ever
/// extended by it, and grants of other subscriptions are untouched.
pub proof fn lemma_refund_is_hard(m: LedgerModel, c: CatalogModel, e: StoreEvent, i: int)
    requires
        e.kind is Refunded,
        0 <= i < m.subs.len(),
        sub_index(m.subs, e.store, e.original_transaction_id@) == i,
        e.occurred_at >= m.subs[i].updated_at,
    ensures
        spec_apply(m, c, e) matches Ok(p) && {
            &&& p.0.subs[i].status is Refunded
            &&& p.0.ents.len() == m.ents.len()
            &&& forall|k: int|
                0 <= k < m.ents.len() ==> ((#[trigger] p.0.ents[k]).subscription_id == Some(
                    m.subs[i].id,
                ) ==> p.0.ents[k].expires_at is Some && p.0.ents[k].expires_at->0
                    <= e.occurred_at)
            &&& forall|k: int|
                0 <= k < m.ents.len() ==> ((#[trigger] p.0.ents[k]).expires_at is Some
                    && m.ents[k].expires_at is Some ==> p.0.ents[k].expires_at->0
                    <= m.ents[k].expires_at->0 || p.0.ents[k].expires_at->0 <= e.occurred_at)
            &&& forall|k: int|
                0 <= k < m.ents.len() && m.ents[k].subscription_id != Some(m.subs[i].id)
                    ==> p.0.ents[k] == m.ents[k]
        },
{
    let t = e.occurred_at;
    let sid = m.subs[i].id;
    let f = crate::engine::force_expire(m.ents, sid, t);
    assert forall|k: int| 0 <= k < m.ents.len() implies f[k] == crate::engine::clamp_grant(
        m.ents[k],
        sid,
        t,
    ) by {}
}

/// Re-applying an event to the existing subscription it already updated
/// changes nothing further.
proof fn lemma_idempotent_existing(m: LedgerModel, c: CatalogModel, e: StoreEvent, i: int)
    requires
        m.wf(),
        e.wf(),
        id_headroom_ok(m, c),
        0 <= i < m.subs.len(),
        sub_index(m.subs, e.store, e.original_transaction_id@) == i,
        e.occurred_at >= m.subs[i].updated_at,
    ensures
        spec_apply(m, c, e) matches Ok(p) ==> (spec_apply(p.0, c, e) matches Ok(q) && q.0 == p.0),
{
    let r1 = spec_apply(m, c, e);
    match r1 {
        Err(_) => {},
        Ok(pp) => {
            let s1 = pp.0;
            let t = e.occurred_at;
            let store = e.store;
            let otid = e.original_transaction_id@;
            let sub = m.subs[i];
            lemma_max_product_ents(c.products);
            match e.kind {
                EventKind::Purchased => {
                    let pi = product_index(c.products, store, e.store_product_id@);
                    crate::catalog::lemma_product_index(c.products, store, e.store_product_id@);
                    assert(pi >= 0);
                    let p = c.products[pi];
                    let ids = p.entitlement_ids@;
                    assert(c.products[pi].entitlement_ids@.len() <= crate::engine::max_product_ents(
                        c.products,
                    ));
                    let sub1 = SubscriptionRec {
                        product_id: p.id,
                        store_transaction_id: e.transaction_id,
                        purchase_date: t,
                        expires_date: e.new_expires_at,
                        cancellation_date: None,
                        renewal_grace_period_expires_date: None,
                        status: SubscriptionStatus::Active,
                        auto_renew_status: e.new_auto_renew,
                        updated_at: t,
                        ..sub
                    };
                    let granted = grant_rows(
                        m.ents,
                        ids,
                        sub.user_id,
                        sub.id,
                        t,
                        e.new_expires_at,
                        m.next_id,
                    );
                    assert(s1.subs == m.subs.update(i, sub1));
                    lemma_sub_index_update_same_key(m.subs, i, sub1, store, otid);
                    assert(s1.subs[i] == sub1);
                    lemma_grant_rows_saturates(
                        m.ents,
                        ids,
                        sub.user_id,
                        sub.id,
                        t,
                        e.new_expires_at,
                        m.next_id,
                    );
                    lemma_grant_rows_blocked(
                        granted.0,
                        ids,
                        sub.user_id,
                        sub.id,
                        t,
                        e.new_expires_at,
                        granted.1,
                    );
                    let sub2 = SubscriptionRec {
                        product_id: p.id,
                        store_transaction_id: e.transaction_id,
                        purchase_date: t,
                        expires_date: e.new_expires_at,
                        cancellation_date: None,
                        renewal_grace_period_expires_date: None,
                        status: SubscriptionStatus::Active,
                        auto_renew_status: e.new_auto_renew,
                        updated_at: t,
                        ..sub1
                    };
                    assert(sub2 == sub1);
                    assert(s1.subs.update(i, sub2) =~= s1.subs);
                    let r2 = spec_apply(s1, c, e);
                    match r2 {
                        Ok(qq) => {
                            assert(qq.0 =~= s1);
                        },
                        Err(_) => {
                            assert(false);
                        },
                    }
                },
                EventKind::Renewed => {
                    let new_exp = if e.new_expires_at is Some {
                        e.new_expires_at
                    } else {
                        sub.expires_date
                    };
                    let sub1 = SubscriptionRec {
                        store_transaction_id: e.transaction_id,
                        expires_date: new_exp,
                        renewal_grace_period_expires_date: None,
                        status: SubscriptionStatus::Active,
                        auto_renew_status: if e.new_auto_renew is Some {
                            e.new_auto_renew
                        } else {
                            sub.auto_renew_status
                        },
                        updated_at: t,
                        ..sub
                    };
                    let ents1 = if e.new_expires_at is Some {
                        extend_matching(m.ents, sub.id, t, e.new_expires_at->0)
                    } else {
                        m.ents
                    };
                    assert(s1.subs == m.subs.update(i, sub1));
                    lemma_sub_index_update_same_key(m.subs, i, sub1, store, otid);
                    assert(s1.subs[i] == sub1);
                    let pi = product_id_index(c.products, sub.product_id);
                    crate::catalog::lemma_product_id_index(c.products, sub.product_id);
                    assert(pi >= 0);
                    let ids = c.products[pi].entitlement_ids@;
                    assert(c.products[pi].entitlement_ids@.len()
                        <= crate::engine::max_product_ents(c.products));
                    let granted = grant_rows(
                        ents1,
                        ids,
                        sub.user_id,
                        sub.id,
                        t,
                        new_exp,
                        m.next_id,
                    );
                    assert(s1.ents == granted.0);
                    assert(s1.next_id == granted.1);
                    lemma_grant_rows_frame(ents1, ids, sub.user_id, sub.id, t, new_exp, m.next_id);
                    lemma_grant_rows_saturates(
                        ents1,
                        ids,
                        sub.user_id,
                        sub.id,
                        t,
                        new_exp,
                        m.next_id,
                    );
                    lemma_grant_rows_blocked(
                        granted.0,
                        ids,
                        sub.user_id,
                        sub.id,
                        t,
                        new_exp,
                        granted.1,
                    );
                    if e.new_expires_at is Some {
                        let x = e.new_expires_at->0;
                        assert forall|k: int| 0 <= k < s1.ents.len() implies extend_grant(
                            s1.ents[k],
                            sub.id,
                            t,
                            x,
                        ) == s1.ents[k] by {
                            if k < ents1.len() {
                                assert(s1.ents[k] == ents1[k]);
                                assert(ents1[k] == extend_grant(m.ents[k], sub.id, t, x));
                                lemma_extend_grant_idempotent(m.ents[k], sub.id, t, x);
                            } else {
                                assert(s1.ents[k].starts_at == t);
                                assert(s1.ents[k].expires_at == new_exp);
                                assert(s1.ents[k].updated_at == t);
                            }
                        }
                        assert(extend_matching(s1.ents, sub.id, t, x) =~= s1.ents);
                    }
                    // the second application looks the product up by the
                    // unchanged product id and grants nothing further
                    assert(sub1.product_id == sub.product_id);
                    let sub2 = SubscriptionRec {
                        store_transaction_id: e.transaction_id,
                        expires_date: if e.new_expires_at is Some {
                            e.new_expires_at
                        } else {
                            sub1.expires_date
                        },
                        renewal_grace_period_expires_date: None,
                        status: SubscriptionStatus::Active,
                        auto_renew_status: if e.new_auto_renew is Some {
                            e.new_auto_renew
                        } else {
                            sub1.auto_renew_status
                        },
                        updated_at: t,
                        ..sub1
                    };
                    assert(sub2 == sub1);
                    assert(s1.subs.update(i, sub2) =~= s1.subs);
                    let r2 = spec_apply(s1, c, e);
                    match r2 {
                        Ok(qq) => {
                            assert(qq.0 =~= s1);
                        },
                        Err(_) => {
                            assert(false);
                        },
                    }
                },
                EventKind::Expired => {
                    let sub1 = SubscriptionRec {
                        status: SubscriptionStatus::Expired,
                        updated_at: t,
                        ..sub
                    };
                    assert(s1.subs == m.subs.update(i, sub1));
                    lemma_sub_index_update_same_key(m.subs, i, sub1, store, otid);
                    lemma_force_expire_idempotent(m.ents, sub.id, t);
                    let sub2 = SubscriptionRec {
                        status: SubscriptionStatus::Expired,
                        updated_at: t,
                        ..sub1
                    };
                    assert(sub2 == sub1);
                    assert(s1.subs.update(i, sub2) =~= s1.subs);
                    let r2 = spec_apply(s1, c, e);
                    match r2 {
                        Ok(qq) => {
                            assert(qq.0 =~= s1);
                        },
                        Err(_) => {
                            assert(false);
                        },
                    }
                },
                EventKind::EnteredGrace => {
                    let sub1 = SubscriptionRec {
                        status: SubscriptionStatus::GracePeriod,
                        renewal_grace_period_expires_date: e.grace_period_expires_at,
                        updated_at: t,
                        ..sub
                    };
                    assert(s1.subs == m.subs.update(i, sub1));
                    lemma_sub_index_update_same_key(m.subs, i, sub1, store, otid);
                    let sub2 = SubscriptionRec {
                        status: SubscriptionStatus::GracePeriod,
                        renewal_grace_period_expires_date: e.grace_period_expires_at,
                        updated_at: t,
                        ..sub1
                    };
                    assert(sub2 == sub1);
                    assert(s1.subs.update(i, sub2) =~= s1.subs);
                    let r2 = spec_apply(s1, c, e);
                    match r2 {
                        Ok(qq) => {
                            assert(qq.0 =~= s1);
                        },
                        Err(_) => {
                            assert(false);
                        },
                    }
                },
                EventKind::Cancelled => {
                    let sub1 = SubscriptionRec {
                        status: SubscriptionStatus::Cancelled,
                        cancellation_date: Some(t),
                        auto_renew_status: Some(false),
                        updated_at: t,
                        ..sub
                    };
                    assert(s1.subs == m.subs.update(i, sub1));
                    lemma_sub_index_update_same_key(m.subs, i, sub1, store, otid);
                    let sub2 = SubscriptionRec {
                        status: SubscriptionStatus::Cancelled,
                        cancellation_date: Some(t),
                        auto_renew_status: Some(false),
                        updated_at: t,
                        ..sub1
                    };
                    assert(sub2 == sub1);
                    assert(s1.subs.update(i, sub2) =~= s1.subs);
                    let r2 = spec_apply(s1, c, e);
                    match r2 {
                        Ok(qq) => {
                            assert(qq.0 =~= s1);
                        },
                        Err(_) => {
                            assert(false);
                        },
                    }
                },
                EventKind::AutoRenewChanged => {
                    let sub1 = SubscriptionRec {
                        auto_renew_status: e.new_auto_renew,
                        updated_at: t,
                        ..sub
                    };
                    assert(s1.subs == m.subs.update(i, sub1));
                    lemma_sub_index_update_same_key(m.subs, i, sub1, store, otid);
                    let sub2 = SubscriptionRec {
                        auto_renew_status: e.new_auto_renew,
                        updated_at: t,
                        ..sub1
                    };
                    assert(sub2 == sub1);
                    assert(s1.subs.update(i, sub2) =~= s1.subs);
                    let r2 = spec_apply(s1, c, e);
                    match r2 {
                        Ok(qq) => {
                            assert(qq.0 =~= s1);
                        },
                        Err(_) => {
                            assert(false);
                        },
                    }
                },
                EventKind::Refunded => {
                    let sub1 = SubscriptionRec {
                        status: SubscriptionStatus::Refunded,
                        updated_at: t,
                        ..sub
                    };
                    assert(s1.subs == m.subs.update(i, sub1));
                    lemma_sub_index_update_same_key(m.subs, i, sub1, store, otid);
                    lemma_force_expire_idempotent(m.ents, sub.id, t);
                    let sub2 = SubscriptionRec {
                        status: SubscriptionStatus::Refunded,
                        updated_at: t,
                        ..sub1
                    };
                    assert(sub2 == sub1);
                    assert(s1.subs.update(i, sub2) =~= s1.subs);
                    let r2 = spec_apply(s1, c, e);
                    match r2 {
                        Ok(qq) => {
                            assert(qq.0 =~= s1);
                        },
                        Err(_) => {
                            assert(false);
                        },
                    }
                },
                EventKind::ExtendedExpiry => {
                    let sub1 = SubscriptionRec {
                        expires_date: if e.new_expires_at is Some {
                            e.new_expires_at
                        } else {
                            sub.expires_date
                        },
                        status: if sub.status is Expired {
                            SubscriptionStatus::Active
                        } else {
                            sub.status
                        },
                        updated_at: t,
                        ..sub
                    };
                    assert(s1.subs == m.subs.update(i, sub1));
                    lemma_sub_index_update_same_key(m.subs, i, sub1, store, otid);
                    if e.new_expires_at is Some {
                        lemma_extend_all_idempotent(m.ents, sub.id, t, e.new_expires_at->0);
                    }
                    let sub2 = SubscriptionRec {
                        expires_date: if e.new_expires_at is Some {
                            e.new_expires_at
                        } else {
                            sub1.expires_date
                        },
                        status: if sub1.status is Expired {
                            SubscriptionStatus::Active
                        } else {
                            sub1.status
                        },
                        updated_at: t,
                        ..sub1
                    };
                    assert(sub2 == sub1);
                    assert(s1.subs.update(i, sub2) =~= s1.subs);
                    let r2 = spec_apply(s1, c, e);
                    match r2 {
                        Ok(qq) => {
                            assert(qq.0 =~= s1);
                        },
                        Err(_) => {
                            assert(false);
                        },
                    }
                },
                EventKind::Paused => {
                    let sub1 = SubscriptionRec {
                        status: SubscriptionStatus::Paused,
                        updated_at: t,
                        ..sub
                    };
                    assert(s1.subs == m.subs.update(i, sub1));
                    lemma_sub_index_update_same_key(m.subs, i, sub1, store, otid);
                    lemma_force_expire_idempotent(m.ents, sub.id, t);
                    let sub2 = SubscriptionRec {
                        status: SubscriptionStatus::Paused,
                        updated_at: t,
                        ..sub1
                    };
                    assert(sub2 == sub1);
                    assert(s1.subs.update(i, sub2) =~= s1.subs);
                    let r2 = spec_apply(s1, c, e);
                    match r2 {
                        Ok(qq) => {
                            assert(qq.0 =~= s1);
                        },
                        Err(_) => {
                            assert(false);
                        },
                    }
                },
            }
        },
    }
}

/// Re-applying an event whose first application created the subscription
/// updates that subscription in place and changes nothing further.
proof fn lemma_idempotent_create(m: LedgerModel, c: CatalogModel, e: StoreEvent)
    requires
        m.wf(),
        c.wf(),
        e.wf(),
        id_headroom_ok(m, c),
        sub_index(m.subs, e.store, e.original_transaction_id@) == -1,
    ensures
        spec_apply(m, c, e) matches Ok(p) ==> (spec_apply(p.0, c, e) matches Ok(q) && q.0 == p.0),
{
    let r1 = spec_apply(m, c, e);
    match r1 {
        Err(_) => {},
        Ok(pp) => {
            let s1 = pp.0;
            let t = e.occurred_at;
            let store = e.store;
            let otid = e.original_transaction_id@;
            let token = e.user_token->0;
            let pi = product_index(c.products, store, e.store_product_id@);
            crate::catalog::lemma_product_index(c.products, store, e.store_product_id@);
            assert(pi >= 0);
            let p = c.products[pi];
            assert(s1 == spec_create(m, p, e, token));
            lemma_max_product_ents(c.products);
            assert(c.products[pi].entitlement_ids@.len() <= crate::engine::max_product_ents(
                c.products,
            ));
            let ui = user_index(m.users, token@);
            crate::ledger::lemma_user_index(m.users, token@);
            let known = ui >= 0;
            let uid = if known {
                m.users[ui].id
            } else {
                m.next_id as u64
            };
            let nid0 = if known {
                m.next_id
            } else {
                m.next_id + 1
            };
            let sid = nid0 as u64;
            let newsub = SubscriptionRec {
                id: sid,
                user_id: uid,
                product_id: p.id,
                original_transaction_id: e.original_transaction_id,
                store_transaction_id: e.transaction_id,
                store: e.store,
                purchase_date: t,
                expires_date: e.new_expires_at,
                cancellation_date: None,
                renewal_grace_period_expires_date: None,
                status: if e.kind is Expired {
                    SubscriptionStatus::Expired
                } else {
                    SubscriptionStatus::Active
                },
                auto_renew_status: e.new_auto_renew,
                price_micros: None,
                currency: None,
                is_trial: false,
                is_intro_offer: false,
                created_at: t,
                updated_at: t,
            };
            assert(s1.subs == m.subs.push(newsub));
            lemma_sub_index_push_match(m.subs, newsub, store, otid);
            let j = m.subs.len() as int;
            assert(s1.subs[j] == newsub);
            // the fresh subscription id is above every grant reference in
            // the ledger, so cascades over old grants change nothing
            assert(sid as int == nid0);
            assert forall|k: int|
                0 <= k < m.ents.len() implies m.ents[k].subscription_id != Some(sid) by {
                if m.ents[k].subscription_id is Some {
                    assert(m.ents[k].subscription_id->0 < m.next_id);
                }
            }
            match e.kind {
                EventKind::Purchased => {
                    let ids = p.entitlement_ids@;
                    let granted = grant_rows(m.ents, ids, uid, sid, t, e.new_expires_at, nid0 + 1);
                    assert(s1.ents == granted.0);
                    assert(s1.next_id == granted.1);
                    lemma_grant_rows_saturates(
                        m.ents,
                        ids,
                        uid,
                        sid,
                        t,
                        e.new_expires_at,
                        nid0 + 1,
                    );
                    lemma_grant_rows_blocked(
                        granted.0,
                        ids,
                        uid,
                        sid,
                        t,
                        e.new_expires_at,
                        granted.1,
                    );
                    let sub2 = SubscriptionRec {
                        product_id: p.id,
                        store_transaction_id: e.transaction_id,
                        purchase_date: t,
                        expires_date: e.new_expires_at,
                        cancellation_date: None,
                        renewal_grace_period_expires_date: None,
                        status: SubscriptionStatus::Active,
                        auto_renew_status: e.new_auto_renew,
                        updated_at: t,
                        ..newsub
                    };
                    assert(sub2 == newsub);
                    assert(s1.subs.update(j, sub2) =~= s1.subs);
                    let r2 = spec_apply(s1, c, e);
                    match r2 {
                        Ok(qq) => {
                            assert(qq.0 =~= s1);
                        },
                        Err(_) => {
                            assert(false);
                        },
                    }
                },
                EventKind::Renewed => {
                    let ids = p.entitlement_ids@;
                    let granted = grant_rows(m.ents, ids, uid, sid, t, e.new_expires_at, nid0 + 1);
                    assert(s1.ents == granted.0);
                    assert(s1.next_id == granted.1);
                    lemma_grant_rows_frame(m.ents, ids, uid, sid, t, e.new_expires_at, nid0 + 1);
                    lemma_grant_rows_saturates(
                        m.ents,
                        ids,
                        uid,
                        sid,
                        t,
                        e.new_expires_at,
                        nid0 + 1,
                    );
                    lemma_grant_rows_blocked(
                        granted.0,
                        ids,
                        uid,
                        sid,
                        t,
                        e.new_expires_at,
                        granted.1,
                    );
                    // the second application looks the product up by its
                    // unchanged id; catalog ids are unique, so it finds
                    // the same product
                    let pi2 = product_id_index(c.products, newsub.product_id);
                    crate::catalog::lemma_product_id_index(c.products, newsub.product_id);
                    assert(newsub.product_id == p.id);
                    assert(c.products[pi].id == p.id);
                    assert(pi2 >= 0);
                    if pi2 < pi {
                        assert(c.products[pi2].id != c.products[pi].id);
                        assert(false);
                    }
                    if pi2 > pi {
                        assert(c.products[pi].id != c.products[pi2].id);
                        assert(false);
                    }
                    assert(c.products[pi2] == p);
                    // extension touches nothing: old grants do not
                    // reference the fresh subscription, and fresh grants
                    // already carry the event's expiry
                    if e.new_expires_at is Some {
                        let x = e.new_expires_at->0;
                        assert forall|k: int| 0 <= k < s1.ents.len() implies extend_grant(
                            s1.ents[k],
                            sid,
                            t,
                            x,
                        ) == s1.ents[k] by {
                            if k < m.ents.len() {
                                assert(s1.ents[k] == m.ents[k]);
                                assert(m.ents[k].subscription_id != Some(sid));
                            } else {
                                assert(s1.ents[k].starts_at == t);
                                assert(s1.ents[k].expires_at == e.new_expires_at);
                                assert(s1.ents[k].updated_at == t);
                            }
                        }
                        assert(extend_matching(s1.ents, sid, t, x) =~= s1.ents);
                    }
                    let sub2 = SubscriptionRec {
                        store_transaction_id: e.transaction_id,
                        expires_date: if e.new_expires_at is Some {
                            e.new_expires_at
                        } else {
                            newsub.expires_date
                        },
                        renewal_grace_period_expires_date: None,
                        status: SubscriptionStatus::Active,
                        auto_renew_status: if e.new_auto_renew is Some {
                            e.new_auto_renew
                        } else {
                            newsub.auto_renew_status
                        },
                        updated_at: t,
                        ..newsub
                    };
                    assert(sub2 == newsub);
                    assert(s1.subs.update(j, sub2) =~= s1.subs);
                    let r2 = spec_apply(s1, c, e);
                    match r2 {
                        Ok(qq) => {
                            assert(qq.0 =~= s1);
                        },
                        Err(_) => {
                            assert(false);
                        },
                    }
                },
                EventKind::Expired => {
                    assert(s1.ents == m.ents);
                    assert forall|k: int| 0 <= k < m.ents.len() implies crate::engine::clamp_grant(
                        m.ents[k],
                        sid,
                        t,
                    ) == m.ents[k] by {}
                    assert(force_expire(m.ents, sid, t) =~= m.ents);
                    let sub2 = SubscriptionRec {
                        status: SubscriptionStatus::Expired,
                        updated_at: t,
                        ..newsub
                    };
                    assert(sub2 == newsub);
                    assert(s1.subs.update(j, sub2) =~= s1.subs);
                    let r2 = spec_apply(s1, c, e);
                    match r2 {
                        Ok(qq) => {
                            assert(qq.0 =~= s1);
                        },
                        Err(_) => {
                            assert(false);
                        },
                    }
                },
                _ => {
                    assert(false);
                },
            }
        },
    }
}

/// Whether a grant row belongs to the given entitlement and subscription.
pub open spec fn grant_matches(g: crate::records::EntitlementGrant, eid: u64, sid: u64) -> bool {
    g.entitlement_id == eid && g.subscription_id == Some(sid)
}

/// How many grant rows belong to the given entitlement and subscription.
pub open spec fn count_grants(
    ents: Seq<crate::records::EntitlementGrant>,
    eid: u64,
    sid: u64,
) -> int
    decreases ents.len(),
{
    if ents.len() == 0 {
        0
    } else {
        (if grant_matches(ents.last(), eid, sid) {
            1int
        } else {
            0int
        }) + count_grants(ents.drop_last(), eid, sid)
    }
}

/// How many subscription rows carry the given external key.
pub open spec fn count_subs(
    subs: Seq<SubscriptionRec>,
    store: crate::types::Store,
    otid: Seq<char>,
) -> int
    decreases subs.len(),
{
    if subs.len() == 0 {
        0
    } else {
        (if crate::ledger::sub_matches(subs.last(), store, otid) {
            1int
        } else {
            0int
        }) + count_subs(subs.drop_last(), store, otid)
    }
}

/// The grant count is non-negative, and zero exactly when no row matches.
pub proof fn lemma_count_grants_bounds(
    ents: Seq<crate::records::EntitlementGrant>,
    eid: u64,
    sid: u64,
)
    ensures
        count_grants(ents, eid, sid) >= 0,
        (count_grants(ents, eid, sid) == 0) <==> (forall|k: int|
            0 <= k < ents.len() ==> !grant_matches(ents[k], eid, sid)),
    decreases ents.len(),
{
    if ents.len() == 0 {
    } else {
        let front = ents.drop_last();
        lemma_count_grants_bounds(front, eid, sid);
        assert(forall|k: int| 0 <= k < front.len() ==> front[k] == ents[k]);
        assert(ents.last() == ents[ents.len() - 1]);
        if count_grants(ents, eid, sid) == 0 {
            assert forall|k: int| 0 <= k < ents.len() implies !grant_matches(
                ents[k],
                eid,
                sid,
            ) by {
                if k < ents.len() - 1 {
                    assert(ents[k] == front[k]);
                }
            }
        }
    }
}

/// The subscription count is non-negative, and zero exactly when no row
/// matches.
pub proof fn lemma_count_subs_bounds(
    subs: Seq<SubscriptionRec>,
    store: crate::types::Store,
    otid: Seq<char>,
)
    ensures
        count_subs(subs, store, otid) >= 0,
        (count_subs(subs, store, otid) == 0) <==> (forall|k: int|
            0 <= k < subs.len() ==> !crate::ledger::sub_matches(subs[k], store, otid)),
    decreases subs.len(),
{
    if subs.len() == 0 {
    } else {
        let front = subs.drop_last();
        lemma_count_subs_bounds(front, store, otid);
        assert(forall|k: int| 0 <= k < front.len() ==> front[k] == subs[k]);
        assert(subs.last() == subs[subs.len() - 1]);
        if count_subs(subs, store, otid) == 0 {
            assert forall|k: int| 0 <= k < subs.len() implies !crate::ledger::sub_matches(
                subs[k],
                store,
                otid,
            ) by {
                if k < subs.len() - 1 {
                    assert(subs[k] == front[k]);
                }
            }
        }
    }
}

/// Appending one row changes a count by exactly its own contribution.
pub proof fn lemma_count_grants_push(
    ents: Seq<crate::records::EntitlementGrant>,
    row: crate::records::EntitlementGrant,
    eid: u64,
    sid: u64,
)
    ensures
        count_grants(ents.push(row), eid, sid) == count_grants(ents, eid, sid) + (
        if grant_matches(row, eid, sid) {
            1int
        } else {
            0int
        }),
{
    assert(ents.push(row).drop_last() =~= ents);
    assert(ents.push(row).last() == row);
}

/// In a ledger whose grants for the subscription all start at `t` with the
/// same user and window, `grant_rows` leaves every entitlement with at
/// most one grant row for the subscription, exactly one for each listed
/// entitlement.
proof fn lemma_grant_rows_fresh_counts(
    ents: Seq<crate::records::EntitlementGrant>,
    ids: Seq<u64>,
    user_id: u64,
    sid: u64,
    t: i64,
    exp: Option<i64>,
    nid: int,
)
    requires
        0 <= nid,
        nid + ids.len() <= u64::MAX as int,
        forall|k: int|
            0 <= k < ents.len() ==> ((#[trigger] ents[k]).subscription_id == Some(sid)
                ==> ents[k].user_id == user_id && ents[k].starts_at == t && ents[k].expires_at
                == exp),
        forall|eid: u64| #[trigger] count_grants(ents, eid, sid) <= 1,
    ensures
        ({
            let g = grant_rows(ents, ids, user_id, sid, t, exp, nid);
            &&& forall|eid: u64| #[trigger] count_grants(g.0, eid, sid) <= 1
            &&& forall|eid: u64|
                ids.contains(eid) ==> #[trigger] count_grants(g.0, eid, sid) == 1
            &&& forall|eid: u64|
                !ids.contains(eid) ==> #[trigger] count_grants(g.0, eid, sid) == count_grants(
                    ents,
                    eid,
                    sid,
                )
        }),
    decreases ids.len(),
{
    if ids.len() == 0 {
    } else {
        let tail = ids.drop_first();
        assert(forall|j: int| 0 <= j < tail.len() ==> tail[j] == ids[j + 1]);
        assert forall|v: u64| #[trigger] ids.contains(v) implies v == ids[0] || tail.contains(
            v,
        ) by {
            let j = choose|j: int| 0 <= j < ids.len() && ids[j] == v;
            if j > 0 {
                assert(tail[j - 1] == v);
            }
        }
        assert forall|v: u64| #[trigger] tail.contains(v) implies ids.contains(v) by {
            let j = choose|j: int| 0 <= j < tail.len() && tail[j] == v;
            assert(ids[j + 1] == v);
        }
        let g = grant_rows(ents, ids, user_id, sid, t, exp, nid);
        let eid0 = ids[0];
        lemma_count_grants_bounds(ents, eid0, sid);
        if needs_grant(ents, user_id, eid0, sid, t, exp) {
            // no grant for eid0 yet: a matching row would block it
            assert(count_grants(ents, eid0, sid) == 0) by {
                if count_grants(ents, eid0, sid) != 0 {
                    let k = choose|k: int|
                        0 <= k < ents.len() && grant_matches(ents[k], eid0, sid);
                    assert(crate::engine::blocks_grant(ents[k], user_id, eid0, sid, t, exp));
                }
            }
            let fresh = crate::engine::fresh_grant(nid as u64, user_id, eid0, sid, t, exp);
            let ents1 = ents.push(fresh);
            assert(g == grant_rows(ents1, tail, user_id, sid, t, exp, nid + 1));
            assert forall|eid: u64| #[trigger] count_grants(ents1, eid, sid) <= 1 by {
                lemma_count_grants_push(ents, fresh, eid, sid);
            }
            assert forall|k: int|
                0 <= k < ents1.len() implies ((#[trigger] ents1[k]).subscription_id == Some(sid)
                ==> ents1[k].user_id == user_id && ents1[k].starts_at == t && ents1[k].expires_at
                == exp) by {
                if k < ents.len() {
                    assert(ents1[k] == ents[k]);
                } else {
                    assert(ents1[k] == fresh);
                }
            }
            lemma_grant_rows_fresh_counts(ents1, tail, user_id, sid, t, exp, nid + 1);
            lemma_count_grants_push(ents, fresh, eid0, sid);
            assert(count_grants(ents1, eid0, sid) == 1);
            assert forall|eid: u64| ids.contains(eid) implies #[trigger] count_grants(
                g.0,
                eid,
                sid,
            ) == 1 by {
                if tail.contains(eid) {
                } else {
                    assert(eid == eid0);
                    assert(count_grants(g.0, eid, sid) == count_grants(ents1, eid, sid));
                }
            }
            assert forall|eid: u64| !ids.contains(eid) implies #[trigger] count_grants(
                g.0,
                eid,
                sid,
            ) == count_grants(ents, eid, sid) by {
                assert(!tail.contains(eid) && eid != eid0);
                assert(count_grants(g.0, eid, sid) == count_grants(ents1, eid, sid));
                lemma_count_grants_push(ents, fresh, eid, sid);
            }
        } else {
            // eid0 already granted: its count is exactly one
            let b = choose|b: int|
                0 <= b < ents.len() && crate::engine::blocks_grant(
                    ents[b],
                    user_id,
                    eid0,
                    sid,
                    t,
                    exp,
                );
            assert(grant_matches(ents[b], eid0, sid));
            assert(count_grants(ents, eid0, sid) != 0);
            assert(count_grants(ents, eid0, sid) == 1);
            assert(g == grant_rows(ents, tail, user_id, sid, t, exp, nid));
            lemma_grant_rows_fresh_counts(ents, tail, user_id, sid, t, exp, nid);
            assert forall|eid: u64| ids.contains(eid) implies #[trigger] count_grants(
                g.0,
                eid,
                sid,
            ) == 1 by {
                if tail.contains(eid) {
                } else {
                    assert(eid == eid0);
                    assert(count_grants(g.0, eid, sid) == count_grants(ents, eid, sid));
                }
            }
        }
    }
}

/// No duplicate grants: a first-sight purchase creates exactly one
/// subscription row for its key and exactly one grant row per catalog
/// entitlement of the product, and delivering the same purchase again
/// changes nothing — the ledger afterwards still holds exactly one row of
/// each.
pub proof fn lemma_no_duplicate_grants(m: LedgerModel, c: CatalogModel, e: StoreEvent)
    requires
        m.wf(),
        c.wf(),
        e.wf(),
        id_headroom_ok(m, c),
        e.kind is Purchased,
        sub_index(m.subs, e.store, e.original_transaction_id@) == -1,
        e.user_token is Some,
        product_index(c.products, e.store, e.store_product_id@) >= 0,
    ensures
        ({
            let pi = product_index(c.products, e.store, e.store_product_id@);
            let ids = c.products[pi].entitlement_ids@;
            spec_apply(m, c, e) matches Ok(p) && {
                let s1 = p.0;
                let sid = s1.subs[m.subs.len() as int].id;
                &&& s1.subs.len() == m.subs.len() + 1
                &&& count_subs(s1.subs, e.store, e.original_transaction_id@) == 1
                &&& forall|eid: u64|
                    ids.contains(eid) ==> #[trigger] count_grants(s1.ents, eid, sid) == 1
                &&& forall|eid: u64|
                    !ids.contains(eid) ==> #[trigger] count_grants(s1.ents, eid, sid) == 0
                &&& (spec_apply(s1, c, e) matches Ok(q) && q.0 == s1)
            }
        }),
{
    let t = e.occurred_at;
    let store = e.store;
    let otid = e.original_transaction_id@;
    let token = e.user_token->0;
    let pi = product_index(c.products, store, e.store_product_id@);
    crate::catalog::lemma_product_index(c.products, store, e.store_product_id@);
    let p = c.products[pi];
    let ids = p.entitlement_ids@;
    lemma_max_product_ents(c.products);
    assert(c.products[pi].entitlement_ids@.len() <= crate::engine::max_product_ents(c.products));
    let s1 = spec_create(m, p, e, token);
    lemma_sub_index(m.subs, store, otid);
    let ui = user_index(m.users, token@);
    crate::ledger::lemma_user_index(m.users, token@);
    let uid = if ui >= 0 {
        m.users[ui].id
    } else {
        m.next_id as u64
    };
    let nid0 = if ui >= 0 {
        m.next_id
    } else {
        m.next_id + 1
    };
    let sid = nid0 as u64;
    // one subscription row for the key
    lemma_count_subs_bounds(m.subs, store, otid);
    assert(count_subs(m.subs, store, otid) == 0);
    assert(s1.subs.drop_last() =~= m.subs);
    assert(s1.subs.last() == s1.subs[m.subs.len() as int]);
    assert(count_subs(s1.subs, store, otid) == 1);
    // no grant in the old ledger references the fresh subscription
    assert(sid as int == nid0);
    assert forall|k: int|
        0 <= k < m.ents.len() implies (#[trigger] m.ents[k]).subscription_id != Some(sid) by {
        if m.ents[k].subscription_id is Some {
            assert(m.ents[k].subscription_id->0 < m.next_id);
        }
    }
    assert forall|eid: u64| #[trigger] count_grants(m.ents, eid, sid) == 0 by {
        lemma_count_grants_bounds(m.ents, eid, sid);
    }
    lemma_grant_rows_fresh_counts(m.ents, ids, uid, sid, t, e.new_expires_at, nid0 + 1);
    // re-delivery changes nothing
    lemma_apply_idempotent(m, c, e);
}

/// Restart re-grant: a `Renewed` event arriving for an `Expired`
/// subscription whose grants were previously force-expired reactivates the
/// subscription, leaves every old grant row untouched (none is
/// resurrected), and creates one fresh grant row per catalog entitlement,
/// dated from the restart event.
pub proof fn lemma_restart_regrants(m: LedgerModel, c: CatalogModel, e: StoreEvent, i: int)
    requires
        m.wf(),
        e.wf(),
        id_headroom_ok(m, c),
        0 <= i < m.subs.len(),
        sub_index(m.subs, e.store, e.original_transaction_id@) == i,
        e.occurred_at >= m.subs[i].updated_at,
        e.kind is Renewed,
        m.subs[i].status is Expired,
        e.new_expires_at is Some,
        product_id_index(c.products, m.subs[i].product_id) >= 0,
        forall|k: int|
            0 <= k < m.ents.len() ==> ((#[trigger] m.ents[k]).subscription_id == Some(
                m.subs[i].id,
            ) ==> m.ents[k].expires_at is Some && m.ents[k].expires_at->0 <= e.occurred_at
                && m.ents[k].starts_at < e.occurred_at),
    ensures
        ({
            let pi = product_id_index(c.products, m.subs[i].product_id);
            let ids = c.products[pi].entitlement_ids@;
            spec_apply(m, c, e) matches Ok(p) && {
                let s1 = p.0;
                let sid = m.subs[i].id;
                &&& s1.subs[i].status is Active
                &&& s1.subs[i].expires_date == e.new_expires_at
                &&& s1.ents.len() >= m.ents.len()
                &&& forall|k: int| 0 <= k < m.ents.len() ==> s1.ents[k] == m.ents[k]
                &&& forall|eid: u64|
                    ids.contains(eid) ==> exists|k: int|
                        m.ents.len() <= k < s1.ents.len() && grant_matches(
                            #[trigger] s1.ents[k],
                            eid,
                            sid,
                        ) && s1.ents[k].starts_at == e.occurred_at && s1.ents[k].expires_at
                            == e.new_expires_at
            }
        }),
{
    let t = e.occurred_at;
    let sub = m.subs[i];
    let sid = sub.id;
    let x = e.new_expires_at->0;
    let pi = product_id_index(c.products, sub.product_id);
    crate::catalog::lemma_product_id_index(c.products, sub.product_id);
    let ids = c.products[pi].entitlement_ids@;
    lemma_max_product_ents(c.products);
    assert(c.products[pi].entitlement_ids@.len() <= crate::engine::max_product_ents(c.products));
    // extension touches nothing: every grant of this subscription is
    // already inactive, and other grants do not match
    let ents1 = extend_matching(m.ents, sid, t, x);
    assert forall|k: int| 0 <= k < m.ents.len() implies ents1[k] == m.ents[k] by {
        assert(ents1[k] == extend_grant(m.ents[k], sid, t, x));
    }
    assert(ents1 =~= m.ents);
    let granted = grant_rows(ents1, ids, sub.user_id, sid, t, e.new_expires_at, m.next_id);
    lemma_grant_rows_frame(ents1, ids, sub.user_id, sid, t, e.new_expires_at, m.next_id);
    lemma_grant_rows_saturates(ents1, ids, sub.user_id, sid, t, e.new_expires_at, m.next_id);
    let r1 = spec_apply(m, c, e);
    match r1 {
        Err(_) => {
            assert(false);
        },
        Ok(pp) => {
            let s1 = pp.0;
            assert(s1.ents == granted.0);
            assert forall|k: int| 0 <= k < m.ents.len() implies s1.ents[k] == m.ents[k] by {
                assert(granted.0[k] == ents1[k]);
            }
            assert forall|eid: u64| ids.contains(eid) implies exists|k: int|
                m.ents.len() <= k < s1.ents.len() && grant_matches(#[trigger] s1.ents[k], eid, sid)
                    && s1.ents[k].starts_at == t && s1.ents[k].expires_at
                    == e.new_expires_at by {
                assert(ids.contains(eid));
                let j = choose|j: int| 0 <= j < ids.len() && ids[j] == eid;
                assert(!needs_grant(granted.0, sub.user_id, eid, sid, t, e.new_expires_at));
                let b = choose|b: int|
                    0 <= b < granted.0.len() && crate::engine::blocks_grant(
                        granted.0[b],
                        sub.user_id,
                        eid,
                        sid,
                        t,
                        e.new_expires_at,
                    );
                if b < m.ents.len() {
                    assert(granted.0[b] == ents1[b]);
                    assert(ents1[b] == m.ents[b]);
                    assert(m.ents[b].subscription_id == Some(sid));
                    assert(m.ents[b].starts_at < t);
                    assert(!crate::engine::windows_overlap(
                        m.ents[b].starts_at,
                        m.ents[b].expires_at,
                        t,
                        e.new_expires_at,
                    ));
                    assert(false);
                }
                assert(m.ents.len() <= b < s1.ents.len());
                assert(grant_matches(s1.ents[b], eid, sid));
                assert(s1.ents[b].starts_at == t);
                assert(s1.ents[b].expires_at == e.new_expires_at);
            }
        },
    }
}

/// A ledger built from one updated subscription row, a grant sequence
/// whose old rows keep their identifiers and references and whose new
/// rows take consecutive identifiers from the old counter, and a counter
/// that moved far enough, is well formed again.
proof fn lemma_wf_after_update(
    m: LedgerModel,
    i: int,
    sub1: SubscriptionRec,
    ents1: Seq<crate::records::EntitlementGrant>,
    next1: int,
)
    requires
        m.wf(),
        0 <= i < m.subs.len(),
        sub1.id == m.subs[i].id,
        sub1.store == m.subs[i].store,
        sub1.original_transaction_id@ == m.subs[i].original_transaction_id@,
        sub1.status is GracePeriod ==> sub1.renewal_grace_period_expires_date is Some,
        sub1.status is Cancelled ==> sub1.cancellation_date is Some,
        next1 >= m.next_id,
        ents1.len() >= m.ents.len(),
        next1 - m.next_id >= ents1.len() - m.ents.len(),
        forall|k: int|
            0 <= k < m.ents.len() ==> (#[trigger] ents1[k]).id == m.ents[k].id && ents1[k].subscription_id
                == m.ents[k].subscription_id,
        forall|k: int|
            m.ents.len() <= k < ents1.len() ==> (#[trigger] ents1[k]).id as int == m.next_id + (k
                - m.ents.len()) && (ents1[k].subscription_id is Some
                ==> ents1[k].subscription_id->0 < next1),
    ensures
        (LedgerModel { users: m.users, subs: m.subs.update(i, sub1), ents: ents1, next_id: next1 }).wf(),
{
    let upd = m.subs.update(i, sub1);
    assert forall|a: int, b: int| 0 <= a < b < upd.len() implies upd[a].id != upd[b].id by {
        if a != i {
            assert(upd[a] == m.subs[a]);
        }
        if b != i {
            assert(upd[b] == m.subs[b]);
        }
    }
    assert forall|a: int, b: int| 0 <= a < b < upd.len() implies !(upd[a].store == upd[b].store
        && upd[a].original_transaction_id@ == upd[b].original_transaction_id@) by {
        if a != i {
            assert(upd[a] == m.subs[a]);
        }
        if b != i {
            assert(upd[b] == m.subs[b]);
        }
    }
    assert forall|a: int, b: int| 0 <= a < b < ents1.len() implies ents1[a].id != ents1[b].id by {
        if b < m.ents.len() {
            assert(ents1[a].id == m.ents[a].id && ents1[b].id == m.ents[b].id);
        } else if a < m.ents.len() {
            assert(ents1[a].id == m.ents[a].id);
            assert(m.ents[a].id < m.next_id);
        }
    }
}

/// Applying any event preserves the ledger invariant: identifiers stay
/// unique and below the counter, at most one subscription exists per
/// external key and one user per account token, and status fields stay
/// consistent with their date fields.
pub proof fn lemma_apply_preserves_wf(m: LedgerModel, c: CatalogModel, e: StoreEvent)
    requires
        m.wf(),
        e.wf(),
        id_headroom_ok(m, c),
    ensures
        spec_apply(m, c, e) matches Ok(p) ==> p.0.wf(),
{
    let r1 = spec_apply(m, c, e);
    lemma_sub_index(m.subs, e.store, e.original_transaction_id@);
    lemma_max_product_ents(c.products);
    let i = sub_index(m.subs, e.store, e.original_transaction_id@);
    match r1 {
        Err(_) => {},
        Ok(pp) => {
            let s1 = pp.0;
            let t = e.occurred_at;
            if i >= 0 {
                if t < m.subs[i].updated_at {
                } else {
                    let sub = m.subs[i];
                    match e.kind {
                        EventKind::Purchased => {
                            let pi = product_index(c.products, e.store, e.store_product_id@);
                            crate::catalog::lemma_product_index(
                                c.products,
                                e.store,
                                e.store_product_id@,
                            );
                            let ids = c.products[pi].entitlement_ids@;
                            assert(ids.len() <= crate::engine::max_product_ents(c.products));
                            lemma_grant_rows_frame(
                                m.ents,
                                ids,
                                sub.user_id,
                                sub.id,
                                t,
                                e.new_expires_at,
                                m.next_id,
                            );
                            let granted = grant_rows(
                                m.ents,
                                ids,
                                sub.user_id,
                                sub.id,
                                t,
                                e.new_expires_at,
                                m.next_id,
                            );
                            assert forall|k: int|
                                m.ents.len() <= k < granted.0.len() implies (#[trigger] granted.0[k]).id
                                as int == m.next_id + (k - m.ents.len()) && (
                            granted.0[k].subscription_id is Some ==> granted.0[k].subscription_id->0
                                < granted.1) by {
                                assert(granted.0[k].subscription_id == Some(sub.id));
                                assert(sub.id < m.next_id);
                            }
                            lemma_wf_after_update(
                                m,
                                i,
                                s1.subs[i],
                                granted.0,
                                granted.1,
                            );
                        },
                        EventKind::Renewed => {
                            let new_exp = if e.new_expires_at is Some {
                                e.new_expires_at
                            } else {
                                sub.expires_date
                            };
                            let ents1 = if e.new_expires_at is Some {
                                extend_matching(m.ents, sub.id, t, e.new_expires_at->0)
                            } else {
                                m.ents
                            };
                            assert forall|k: int|
                                0 <= k < m.ents.len() implies (#[trigger] ents1[k]).id
                                == m.ents[k].id && ents1[k].subscription_id
                                == m.ents[k].subscription_id by {
                                if e.new_expires_at is Some {
                                    assert(ents1[k] == extend_grant(
                                        m.ents[k],
                                        sub.id,
                                        t,
                                        e.new_expires_at->0,
                                    ));
                                }
                            }
                            let pi = product_id_index(c.products, sub.product_id);
                            crate::catalog::lemma_product_id_index(c.products, sub.product_id);
                            if pi >= 0 {
                                let ids = c.products[pi].entitlement_ids@;
                                assert(ids.len() <= crate::engine::max_product_ents(c.products));
                                lemma_grant_rows_frame(
                                    ents1,
                                    ids,
                                    sub.user_id,
                                    sub.id,
                                    t,
                                    new_exp,
                                    m.next_id,
                                );
                                let granted = grant_rows(
                                    ents1,
                                    ids,
                                    sub.user_id,
                                    sub.id,
                                    t,
                                    new_exp,
                                    m.next_id,
                                );
                                assert forall|k: int|
                                    m.ents.len() <= k < granted.0.len() implies (#[trigger] granted.0[k]).id
                                    as int == m.next_id + (k - m.ents.len()) && (
                                granted.0[k].subscription_id is Some
                                    ==> granted.0[k].subscription_id->0 < granted.1) by {
                                    assert(granted.0[k].subscription_id == Some(sub.id));
                                    assert(sub.id < m.next_id);
                                }
                                assert forall|k: int|
                                    0 <= k < m.ents.len() implies (#[trigger] granted.0[k]).id
                                    == m.ents[k].id && granted.0[k].subscription_id
                                    == m.ents[k].subscription_id by {
                                    assert(granted.0[k] == ents1[k]);
                                }
                                lemma_wf_after_update(
                                    m,
                                    i,
                                    s1.subs[i],
                                    granted.0,
                                    granted.1,
                                );
                            }
                        },
                        EventKind::Expired | EventKind::Refunded | EventKind::Paused => {
                            let f = force_expire(m.ents, sub.id, t);
                            assert forall|k: int|
                                0 <= k < m.ents.len() implies (#[trigger] f[k]).id == m.ents[k].id
                                && f[k].subscription_id == m.ents[k].subscription_id by {
                                assert(f[k] == crate::engine::clamp_grant(m.ents[k], sub.id, t));
                            }
                            lemma_wf_after_update(m, i, s1.subs[i], f, m.next_id);
                        },
                        EventKind::ExtendedExpiry => {
                            let ents1 = if e.new_expires_at is Some {
                                extend_all(m.ents, sub.id, t, e.new_expires_at->0)
                            } else {
                                m.ents
                            };
                            assert forall|k: int|
                                0 <= k < m.ents.len() implies (#[trigger] ents1[k]).id
                                == m.ents[k].id && ents1[k].subscription_id
                                == m.ents[k].subscription_id by {
                                if e.new_expires_at is Some {
                                    assert(ents1[k] == extend_any_grant(
                                        m.ents[k],
                                        sub.id,
                                        t,
                                        e.new_expires_at->0,
                                    ));
                                }
                            }
                            lemma_wf_after_update(m, i, s1.subs[i], ents1, m.next_id);
                        },
                        _ => {
                            lemma_wf_after_update(m, i, s1.subs[i], m.ents, m.next_id);
                        },
                    }
                }
            } else {
                // create path
                let token = e.user_token->0;
                let pi = product_index(c.products, e.store, e.store_product_id@);
                crate::catalog::lemma_product_index(c.products, e.store, e.store_product_id@);
                let p = c.products[pi];
                assert(p.entitlement_ids@.len() <= crate::engine::max_product_ents(c.products));
                assert(s1 == spec_create(m, p, e, token));
                let ui = user_index(m.users, token@);
                crate::ledger::lemma_user_index(m.users, token@);
                let known = ui >= 0;
                let uid = if known {
                    m.users[ui].id
                } else {
                    m.next_id as u64
                };
                let nid0 = if known {
                    m.next_id
                } else {
                    m.next_id + 1
                };
                let sid = nid0 as u64;
                // users stay unique
                assert forall|a: int, b: int|
                    0 <= a < b < s1.users.len() implies s1.users[a].id != s1.users[b].id
                        && s1.users[a].app_user_id@ != s1.users[b].app_user_id@ by {
                    if b < m.users.len() {
                        assert(s1.users[a] == m.users[a] && s1.users[b] == m.users[b]);
                    } else {
                        assert(s1.users[a] == m.users[a]);
                        assert(m.users[a].id < m.next_id);
                    }
                }
                // the new subscription key was absent
                let newsub = s1.subs[m.subs.len() as int];
                assert(s1.subs == m.subs.push(newsub));
                assert forall|a: int, b: int|
                    0 <= a < b < s1.subs.len() implies s1.subs[a].id != s1.subs[b].id && !(
                s1.subs[a].store == s1.subs[b].store && s1.subs[a].original_transaction_id@
                    == s1.subs[b].original_transaction_id@) by {
                    if b < m.subs.len() {
                        assert(s1.subs[a] == m.subs[a] && s1.subs[b] == m.subs[b]);
                    } else {
                        assert(s1.subs[a] == m.subs[a]);
                        assert(m.subs[a].id < m.next_id);
                        assert(!crate::ledger::sub_matches(
                            m.subs[a],
                            e.store,
                            e.original_transaction_id@,
                        ));
                    }
                }
                if e.kind is Purchased || e.kind is Renewed {
                    let ids = p.entitlement_ids@;
                    lemma_grant_rows_frame(m.ents, ids, uid, sid, t, e.new_expires_at, nid0 + 1);
                    let granted = grant_rows(m.ents, ids, uid, sid, t, e.new_expires_at, nid0 + 1);
                    assert(s1.ents == granted.0);
                    assert forall|a: int, b: int|
                        0 <= a < b < s1.ents.len() implies s1.ents[a].id != s1.ents[b].id by {
                        if b < m.ents.len() {
                            assert(s1.ents[a] == m.ents[a] && s1.ents[b] == m.ents[b]);
                        } else if a < m.ents.len() {
                            assert(s1.ents[a] == m.ents[a]);
                            assert(m.ents[a].id < m.next_id);
                        }
                    }
                    assert forall|k: int|
                        0 <= k < s1.ents.len() implies s1.ents[k].id < s1.next_id && ((
                    #[trigger] s1.ents[k]).subscription_id is Some ==> s1.ents[k].subscription_id->0
                        < s1.next_id) by {
                        if k < m.ents.len() {
                            assert(s1.ents[k] == m.ents[k]);
                        } else {
                            assert(s1.ents[k].subscription_id == Some(sid));
                        }
                    }
                }
            }
        },
    }
}

/// A renewal never leaves a paying user without access: after a
/// successful `Renewed` event carrying a future expiry, every catalog
/// entitlement of the subscription's product is covered by a grant of
/// this subscription and user that starts no later than the event and
/// runs until the renewed term — whether by extending a grant still in
/// force or by a fresh re-grant after a grace period, a pause or a lapse.
pub proof fn lemma_renewal_restores_access(m: LedgerModel, c: CatalogModel, e: StoreEvent, i: int)
    requires
        m.wf(),
        e.wf(),
        id_headroom_ok(m, c),
        0 <= i < m.subs.len(),
        sub_index(m.subs, e.store, e.original_transaction_id@) == i,
        e.occurred_at >= m.subs[i].updated_at,
        e.kind is Renewed,
        e.new_expires_at is Some,
        e.new_expires_at->0 > e.occurred_at,
        product_id_index(c.products, m.subs[i].product_id) >= 0,
        // every existing grant of this subscription predates the renewal
        forall|k: int|
            0 <= k < m.ents.len() ==> ((#[trigger] m.ents[k]).subscription_id == Some(
                m.subs[i].id,
            ) ==> m.ents[k].starts_at < e.occurred_at),
    ensures
        ({
            let pi = product_id_index(c.products, m.subs[i].product_id);
            let ids = c.products[pi].entitlement_ids@;
            spec_apply(m, c, e) matches Ok(p) && {
                let s1 = p.0;
                let sid = m.subs[i].id;
                &&& s1.subs[i].status is Active
                &&& s1.subs[i].expires_date == e.new_expires_at
                &&& forall|eid: u64|
                    ids.contains(eid) ==> exists|k: int|
                        0 <= k < s1.ents.len() && grant_matches(#[trigger] s1.ents[k], eid, sid)
                            && s1.ents[k].user_id == m.subs[i].user_id && s1.ents[k].starts_at
                            <= e.occurred_at && s1.ents[k].expires_at == e.new_expires_at
            }
        }),
{
    let t = e.occurred_at;
    let sub = m.subs[i];
    let sid = sub.id;
    let x = e.new_expires_at->0;
    let pi = product_id_index(c.products, sub.product_id);
    crate::catalog::lemma_product_id_index(c.products, sub.product_id);
    let ids = c.products[pi].entitlement_ids@;
    lemma_max_product_ents(c.products);
    assert(c.products[pi].entitlement_ids@.len() <= crate::engine::max_product_ents(c.products));
    let ents1 = extend_matching(m.ents, sid, t, x);
    let granted = grant_rows(ents1, ids, sub.user_id, sid, t, e.new_expires_at, m.next_id);
    lemma_grant_rows_frame(ents1, ids, sub.user_id, sid, t, e.new_expires_at, m.next_id);
    lemma_grant_rows_saturates(ents1, ids, sub.user_id, sid, t, e.new_expires_at, m.next_id);
    let r1 = spec_apply(m, c, e);
    match r1 {
        Err(_) => {
            assert(false);
        },
        Ok(pp) => {
            let s1 = pp.0;
            assert(s1.ents == granted.0);
            assert forall|eid: u64| ids.contains(eid) implies exists|k: int|
                0 <= k < s1.ents.len() && grant_matches(#[trigger] s1.ents[k], eid, sid)
                    && s1.ents[k].user_id == sub.user_id && s1.ents[k].starts_at <= t
                    && s1.ents[k].expires_at == e.new_expires_at by {
                assert(ids.contains(eid));
                assert(!needs_grant(granted.0, sub.user_id, eid, sid, t, e.new_expires_at));
                let b = choose|b: int|
                    0 <= b < granted.0.len() && crate::engine::blocks_grant(
                        granted.0[b],
                        sub.user_id,
                        eid,
                        sid,
                        t,
                        e.new_expires_at,
                    );
                if b < m.ents.len() {
                    // the blocker is an old grant of this subscription: it
                    // predates the renewal, so it blocks only by reaching
                    // past the event, which means it was still in force
                    // and the extension carried it to the renewed term
                    assert(granted.0[b] == ents1[b]);
                    assert(ents1[b] == extend_grant(m.ents[b], sid, t, x));
                    assert(m.ents[b].subscription_id == Some(sid));
                    assert(m.ents[b].starts_at < t);
                    if !m.ents[b].active_at(t) {
                        assert(m.ents[b].expires_at is Some && m.ents[b].expires_at->0 <= t);
                        assert(!crate::engine::windows_overlap(
                            ents1[b].starts_at,
                            ents1[b].expires_at,
                            t,
                            e.new_expires_at,
                        ));
                        assert(false);
                    }
                    assert(ents1[b].expires_at == Some(x));
                    assert(s1.ents[b].starts_at < t);
                    assert(grant_matches(s1.ents[b], eid, sid));
                    assert(s1.ents[b].user_id == sub.user_id);
                } else {
                    // the blocker is a fresh re-granted row dated from the
                    // event and carrying the renewed term
                    assert(m.ents.len() <= b < granted.0.len());
                    assert(granted.0[b].starts_at == t);
                    assert(granted.0[b].expires_at == e.new_expires_at);
                    assert(grant_matches(s1.ents[b], eid, sid));
                    assert(s1.ents[b].user_id == sub.user_id);
                }
            }
        },
    }
}

/// Idempotence: delivering the same event twice leaves the ledger exactly
/// as delivering it once, for every event kind — absolute-value writes,
/// grant deduplication and the staleness rule together make redelivery
/// harmless.
pub proof fn lemma_apply_idempotent(m: LedgerModel, c: CatalogModel, e: StoreEvent)
    requires
        m.wf(),
        c.wf(),
        e.wf(),
        id_headroom_ok(m, c),
    ensures
        spec_apply(m, c, e) matches Ok(p) ==> (spec_apply(p.0, c, e) matches Ok(q) && q.0 == p.0),
{
    lemma_sub_index(m.subs, e.store, e.original_transaction_id@);
    let i = sub_index(m.subs, e.store, e.original_transaction_id@);
    if i >= 0 {
        if e.occurred_at < m.subs[i].updated_at {
        } else {
            lemma_idempotent_existing(m, c, e, i);
        }
    } else {
        lemma_idempotent_create(m, c, e);
    }
}

} // verus!

