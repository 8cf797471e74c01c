//! Read-side queries over the ledger (entitlement checks, listings) and
//! the administrative mutations the management surface exposes (manual
//! grant and revocation, cancellation, refund, user creation).

use vstd::prelude::*;

use crate::catalog::Catalog;
use crate::catalog::entitlement_def_index;
use crate::engine::force_expire;
use crate::ledger::LedgerState;
use crate::ledger::set_sub_at;
use crate::ledger::sub_id_index;
use crate::ledger::user_index;
use crate::records::EntitlementGrant;
use crate::records::SubscriptionRec;
use crate::records::UserRec;
use crate::types::SubscriptionStatus;

verus! {

/// Why an administrative operation was rejected.
#[derive(Clone, Copy, Debug, PartialEq, Eq, Structural)]
pub enum AdminError {
    /// The named entitlement is not in the catalog.
    EntitlementNotFound,
    /// The user holds no active grant of the named entitlement.
    ActiveGrantNotFound,
    /// No subscription has the given id.
    SubscriptionNotFound,
    /// Only an active subscription can be cancelled.
    SubscriptionNotActive,
    /// A user with this external account id already exists.
    DuplicateAppUserId,
    /// An entitlement with this id is already defined.
    DuplicateEntitlementId,
    /// No user has the given id.
    UserNotFound,
}

impl Catalog {
    /// Define a new catalog entitlement; rejected when the id is taken.
    pub fn create_entitlement(&mut self, def: crate::records::EntitlementDef) -> (r: Result<
        (),
        AdminError,
    >)
        ensures
            ({
                let idx = entitlement_def_index(old(self)@.entitlements, def.id);
                match r {
                    Err(er) => er == AdminError::DuplicateEntitlementId && idx >= 0 && final(self)@
                        == old(self)@,
                    Ok(_) => idx == -1 && final(self)@.entitlements == old(
                        self,
                    )@.entitlements.push(def) && final(self)@.products == old(self)@.products,
                }
            }),
    {
        match self.find_entitlement(def.id) {
            Option::Some(_) => Err(AdminError::DuplicateEntitlementId),
            Option::None => {
                self.entitlements.push(def);
                Ok(())
            },
        }
    }
}

/// Whether a grant belongs to the user and conveys access at `now`.
pub open spec fn grant_active_for(g: EntitlementGrant, user_id: u64, now: i64) -> bool {
    g.user_id == user_id && g.active_at(now)
}

/// Index of the first grant of the entitlement that is active for the
/// user at `now`, or -1.
pub open spec fn access_index(
    ents: Seq<EntitlementGrant>,
    user_id: u64,
    entitlement_id: u64,
    now: i64,
) -> int
    decreases ents.len(),
{
    if ents.len() == 0 {
        -1
    } else if grant_active_for(ents[0], user_id, now) && ents[0].entitlement_id
        == entitlement_id {
        0
    } else {
        let r = access_index(ents.drop_first(), user_id, entitlement_id, now);
        if r < 0 {
            -1
        } else {
            r + 1
        }
    }
}

/// `access_index` returns -1 exactly when no grant qualifies, and
/// otherwise the least qualifying index.
pub proof fn lemma_access_index(
    ents: Seq<EntitlementGrant>,
    user_id: u64,
    entitlement_id: u64,
    now: i64,
)
    ensures
        ({
            let r = access_index(ents, user_id, entitlement_id, now);
            &&& -1 <= r < ents.len()
            &&& r == -1 ==> forall|i: int|
                0 <= i < ents.len() ==> !(grant_active_for(ents[i], user_id, now)
                    && ents[i].entitlement_id == entitlement_id)
            &&& r >= 0 ==> grant_active_for(ents[r], user_id, now) && ents[r].entitlement_id
                == entitlement_id && (forall|i: int|
                0 <= i < r ==> !(grant_active_for(ents[i], user_id, now)
                    && ents[i].entitlement_id == entitlement_id))
        }),
    decreases ents.len(),
{
    if ents.len() == 0 {
    } else if grant_active_for(ents[0], user_id, now) && ents[0].entitlement_id
        == entitlement_id {
    } else {
        let tail = ents.drop_first();
        lemma_access_index(tail, user_id, entitlement_id, now);
        let rt = access_index(tail, user_id, entitlement_id, now);
        if rt == -1 {
            assert forall|i: int| 0 <= i < ents.len() implies !(grant_active_for(
                ents[i],
                user_id,
                now,
            ) && ents[i].entitlement_id == entitlement_id) by {
                if i > 0 {
                    assert(ents[i] == tail[i - 1]);
                }
            }
        } else {
            assert(ents[rt + 1] == tail[rt]);
            assert forall|i: int| 0 <= i < rt + 1 implies !(grant_active_for(
                ents[i],
                user_id,
                now,
            ) && ents[i].entitlement_id == entitlement_id) by {
                if i > 0 {
                    assert(ents[i] == tail[i - 1]);
                }
            }
        }
    }
}

/// The grants of the user that convey access at `now`, in ledger order.
pub open spec fn active_grants_for_user(
    ents: Seq<EntitlementGrant>,
    user_id: u64,
    now: i64,
) -> Seq<EntitlementGrant>
    decreases ents.len(),
{
    if ents.len() == 0 {
        Seq::empty()
    } else {
        let front = active_grants_for_user(ents.drop_last(), user_id, now);
        if grant_active_for(ents.last(), user_id, now) {
            front.push(ents.last())
        } else {
            front
        }
    }
}

/// The grants tied to the subscription, in ledger order.
pub open spec fn grants_of_subscription(
    ents: Seq<EntitlementGrant>,
    subscription_id: u64,
) -> Seq<EntitlementGrant>
    decreases ents.len(),
{
    if ents.len() == 0 {
        Seq::empty()
    } else {
        let front = grants_of_subscription(ents.drop_last(), subscription_id);
        if ents.last().subscription_id == Some(subscription_id) {
            front.push(ents.last())
        } else {
            front
        }
    }
}

/// The subscriptions of the user, in ledger order.
pub open spec fn subs_of_user(subs: Seq<SubscriptionRec>, user_id: u64) -> Seq<SubscriptionRec>
    decreases subs.len(),
{
    if subs.len() == 0 {
        Seq::empty()
    } else {
        let front = subs_of_user(subs.drop_last(), user_id);
        if subs.last().user_id == user_id {
            front.push(subs.last())
        } else {
            front
        }
    }
}

/// The active subscriptions of the user, in ledger order.
pub open spec fn active_subs_of_user(
    subs: Seq<SubscriptionRec>,
    user_id: u64,
) -> Seq<SubscriptionRec>
    decreases subs.len(),
{
    if subs.len() == 0 {
        Seq::empty()
    } else {
        let front = active_subs_of_user(subs.drop_last(), user_id);
        if subs.last().user_id == user_id && subs.last().status is Active {
            front.push(subs.last())
        } else {
            front
        }
    }
}

/// `a` reaches at least as far as `b`, where an absent expiry means a
/// non-expiring (lifetime) term.
pub open spec fn expiry_ge(a: Option<i64>, b: Option<i64>) -> bool {
    match a {
        None => true,
        Some(x) => match b {
            None => false,
            Some(y) => x >= y,
        },
    }
}

impl LedgerState {
    /// Whether the user holds the entitlement at `now`, and until when:
    /// the expiry of the first active grant found, where `None` means
    /// lifetime access.
    pub fn check_entitlement_access(&self, user_id: u64, entitlement_id: u64, now: i64) -> (r: (
        bool,
        Option<i64>,
    ))
        ensures
            ({
                let idx = access_index(self@.ents, user_id, entitlement_id, now);
                &&& r.0 == (idx >= 0)
                &&& idx >= 0 ==> r.1 == self@.ents[idx].expires_at
                &&& idx == -1 ==> r.1 is None
            }),
    {
        proof {
            lemma_access_index(self@.ents, user_id, entitlement_id, now);
        }
        let n = self.entitlements.len();
        let mut k: usize = 0;
        while k < n
            invariant
                n == self.entitlements.len(),
                0 <= k <= n,
                forall|i: int|
                    0 <= i < k ==> !(grant_active_for(self@.ents[i], user_id, now)
                        && self@.ents[i].entitlement_id == entitlement_id),
                ({
                    let idx = access_index(self@.ents, user_id, entitlement_id, now);
                    &&& -1 <= idx < n
                    &&& idx == -1 ==> forall|i: int|
                        0 <= i < n ==> !(grant_active_for(self@.ents[i], user_id, now)
                            && self@.ents[i].entitlement_id == entitlement_id)
                    &&& idx >= 0 ==> grant_active_for(self@.ents[idx], user_id, now)
                        && self@.ents[idx].entitlement_id == entitlement_id && (forall|i: int|
                        0 <= i < idx ==> !(grant_active_for(self@.ents[i], user_id, now)
                            && self@.ents[i].entitlement_id == entitlement_id))
                }),
            decreases n - k,
        {
            let g = self.entitlements[k];
            let live = match g.expires_at {
                Option::None => true,
                Option::Some(x) => x > now,
            };
            if g.user_id == user_id && g.entitlement_id == entitlement_id && g.starts_at <= now
                && live {
                return (true, g.expires_at);
            }
            k += 1;
        }
        (false, Option::None)
    }

    /// Every grant of the user that conveys access at `now`.
    pub fn list_active_for_user(&self, user_id: u64, now: i64) -> (r: Vec<EntitlementGrant>)
        ensures
            r@ == active_grants_for_user(self@.ents, user_id, now),
    {
        let n = self.entitlements.len();
        let mut out: Vec<EntitlementGrant> = Vec::new();
        let mut k: usize = 0;
        while k < n
            invariant
                n == self.entitlements.len(),
                0 <= k <= n,
                out@ == active_grants_for_user(self@.ents.subrange(0, k as int), user_id, now),
            decreases n - k,
        {
            let g = self.entitlements[k];
            let live = match g.expires_at {
                Option::None => true,
                Option::Some(x) => x > now,
            };
            if g.user_id == user_id && g.starts_at <= now && live {
                out.push(g);
            }
            k += 1;
            proof {
                let pre = self@.ents.subrange(0, k - 1);
                let cur = self@.ents.subrange(0, k as int);
                assert(cur.drop_last() =~= pre);
                assert(cur.last() == self@.ents[k - 1]);
            }
        }
        proof {
            assert(self@.ents.subrange(0, n as int) =~= self@.ents);
        }
        out
    }

    /// Every grant tied to the subscription, active or not.
    pub fn list_by_subscription(&self, subscription_id: u64) -> (r: Vec<EntitlementGrant>)
        ensures
            r@ == grants_of_subscription(self@.ents, subscription_id),
    {
        let n = self.entitlements.len();
        let mut out: Vec<EntitlementGrant> = Vec::new();
        let mut k: usize = 0;
        while k < n
            invariant
                n == self.entitlements.len(),
                0 <= k <= n,
                out@ == grants_of_subscription(self@.ents.subrange(0, k as int), subscription_id),
            decreases n - k,
        {
            let g = self.entitlements[k];
            let hit = match g.subscription_id {
                Option::Some(s) => s == subscription_id,
                Option::None => false,
            };
            if hit {
                out.push(g);
            }
            k += 1;
            proof {
                let pre = self@.ents.subrange(0, k - 1);
                let cur = self@.ents.subrange(0, k as int);
                assert(cur.drop_last() =~= pre);
                assert(cur.last() == self@.ents[k - 1]);
            }
        }
        proof {
            assert(self@.ents.subrange(0, n as int) =~= self@.ents);
        }
        out
    }

    /// Every subscription of the user, in ledger order.
    pub fn list_by_user(&self, user_id: u64) -> (r: Vec<SubscriptionRec>)
        ensures
            r@ == subs_of_user(self@.subs, user_id),
    {
        let n = self.subscriptions.len();
        let mut out: Vec<SubscriptionRec> = Vec::new();
        let mut k: usize = 0;
        while k < n
            invariant
                n == self.subscriptions.len(),
                0 <= k <= n,
                out@ == subs_of_user(self@.subs.subrange(0, k as int), user_id),
            decreases n - k,
        {
            if self.subscriptions[k].user_id == user_id {
                out.push(self.subscriptions[k].duplicate());
            }
            k += 1;
            proof {
                let pre = self@.subs.subrange(0, k - 1);
                let cur = self@.subs.subrange(0, k as int);
                assert(cur.drop_last() =~= pre);
                assert(cur.last() == self@.subs[k - 1]);
            }
        }
        proof {
            assert(self@.subs.subrange(0, n as int) =~= self@.subs);
        }
        out
    }

    /// Every active subscription of the user, in ledger order.
    pub fn list_active_by_user(&self, user_id: u64) -> (r: Vec<SubscriptionRec>)
        ensures
            r@ == active_subs_of_user(self@.subs, user_id),
    {
        let n = self.subscriptions.len();
        let mut out: Vec<SubscriptionRec> = Vec::new();
        let mut k: usize = 0;
        while k < n
            invariant
                n == self.subscriptions.len(),
                0 <= k <= n,
                out@ == active_subs_of_user(self@.subs.subrange(0, k as int), user_id),
            decreases n - k,
        {
            if self.subscriptions[k].user_id == user_id && matches!(
                self.subscriptions[k].status,
                SubscriptionStatus::Active
            ) {
                out.push(self.subscriptions[k].duplicate());
            }
            k += 1;
            proof {
                let pre = self@.subs.subrange(0, k - 1);
                let cur = self@.subs.subrange(0, k as int);
                assert(cur.drop_last() =~= pre);
                assert(cur.last() == self@.subs[k - 1]);
            }
        }
        proof {
            assert(self@.subs.subrange(0, n as int) =~= self@.subs);
        }
        out
    }

    /// The user's active subscription for the product whose term reaches
    /// furthest, if any.
    pub fn find_active_by_user_and_product(&self, user_id: u64, product_id: u64) -> (r: Option<
        usize,
    >)
        ensures
            ({
                let subs = self@.subs;
                match r {
                    Option::Some(b) => {
                        &&& b < subs.len()
                        &&& subs[b as int].user_id == user_id
                        &&& subs[b as int].product_id == product_id
                        &&& subs[b as int].status is Active
                        &&& forall|j: int|
                            0 <= j < subs.len() && (#[trigger] subs[j]).user_id == user_id
                                && subs[j].product_id == product_id && subs[j].status is Active
                                ==> expiry_ge(subs[b as int].expires_date, subs[j].expires_date)
                    },
                    Option::None => forall|j: int|
                        0 <= j < subs.len() ==> !((#[trigger] subs[j]).user_id == user_id
                            && subs[j].product_id == product_id && subs[j].status is Active),
                }
            }),
    {
        let n = self.subscriptions.len();
        let mut best: Option<usize> = Option::None;
        let mut k: usize = 0;
        while k < n
            invariant
                n == self.subscriptions.len(),
                0 <= k <= n,
                ({
                    let subs = self@.subs;
                    match best {
                        Option::Some(b) => {
                            &&& b < k
                            &&& subs[b as int].user_id == user_id
                            &&& subs[b as int].product_id == product_id
                            &&& subs[b as int].status is Active
                            &&& forall|j: int|
                                0 <= j < k && (#[trigger] subs[j]).user_id == user_id
                                    && subs[j].product_id == product_id && subs[j].status is Active
                                    ==> expiry_ge(
                                    subs[b as int].expires_date,
                                    subs[j].expires_date,
                                )
                        },
                        Option::None => forall|j: int|
                            0 <= j < k ==> !((#[trigger] subs[j]).user_id == user_id
                                && subs[j].product_id == product_id && subs[j].status is Active),
                    }
                }),
            decreases n - k,
        {
            let s = &self.subscriptions[k];
            if s.user_id == user_id && s.product_id == product_id && matches!(
                s.status,
                SubscriptionStatus::Active
            ) {
                match best {
                    Option::None => {
                        best = Option::Some(k);
                    },
                    Option::Some(b) => {
                        let better = match (s.expires_date, self.subscriptions[b].expires_date) {
                            (Option::None, Option::Some(_)) => true,
                            (Option::Some(x), Option::Some(y)) => x > y,
                            _ => false,
                        };
                        if better {
                            best = Option::Some(k);
                        }
                    },
                }
            }
            k += 1;
        }
        best
    }

    /// Manually grant an entitlement to a user, untied to any
    /// subscription; rejected when the entitlement is not in the catalog.
    pub fn grant_entitlement(
        self,
        catalog: &Catalog,
        user_id: u64,
        entitlement_id: u64,
        expires_at: Option<i64>,
        now: i64,
    ) -> (r: Result<LedgerState, AdminError>)
        requires
            self@.next_id + 1 <= u64::MAX as int,
        ensures
            ({
                let idx = entitlement_def_index(catalog@.entitlements, entitlement_id);
                match r {
                    Err(er) => idx == -1 && er == AdminError::EntitlementNotFound,
                    Ok(s2) => {
                        &&& idx >= 0
                        &&& s2@.users == self@.users
                        &&& s2@.subs == self@.subs
                        &&& s2@.next_id == self@.next_id + 1
                        &&& s2@.ents == self@.ents.push(
                            EntitlementGrant {
                                id: (self@.next_id) as u64,
                                user_id,
                                entitlement_id,
                                subscription_id: None,
                                starts_at: now,
                                expires_at,
                                created_at: now,
                                updated_at: now,
                            },
                        )
                    },
                }
            }),
    {
        match catalog.find_entitlement(entitlement_id) {
            Option::None => Err(AdminError::EntitlementNotFound),
            Option::Some(_) => {
                let LedgerState { users, subscriptions, entitlements, next_id } = self;
                let mut ents = entitlements;
                ents.push(
                    EntitlementGrant {
                        id: next_id,
                        user_id,
                        entitlement_id,
                        subscription_id: Option::None,
                        starts_at: now,
                        expires_at,
                        created_at: now,
                        updated_at: now,
                    },
                );
                Ok(
                    LedgerState {
                        users,
                        subscriptions,
                        entitlements: ents,
                        next_id: next_id + 1,
                    },
                )
            },
        }
    }

    /// Revoke the user's first active grant of the entitlement by
    /// force-expiring it at `now`; rejected when no active grant exists.
    pub fn revoke_entitlement(self, user_id: u64, entitlement_id: u64, now: i64) -> (r: Result<
        LedgerState,
        AdminError,
    >)
        ensures
            ({
                let idx = access_index(self@.ents, user_id, entitlement_id, now);
                match r {
                    Err(er) => idx == -1 && er == AdminError::ActiveGrantNotFound,
                    Ok(s2) => {
                        &&& idx >= 0
                        &&& s2@.users == self@.users
                        &&& s2@.subs == self@.subs
                        &&& s2@.next_id == self@.next_id
                        &&& s2@.ents == self@.ents.update(
                            idx,
                            EntitlementGrant {
                                expires_at: Some(now),
                                updated_at: now,
                                ..self@.ents[idx]
                            },
                        )
                    },
                }
            }),
    {
        let found = self.find_access_index(user_id, entitlement_id, now);
        match found {
            Option::None => Err(AdminError::ActiveGrantNotFound),
            Option::Some(i) => {
                let mut row = self.entitlements[i];
                row.expires_at = Option::Some(now);
                row.updated_at = now;
                let n = self.entitlements.len();
                let ghost target = self@.ents.update(i as int, row);
                let mut ents: Vec<EntitlementGrant> = Vec::new();
                let mut k: usize = 0;
                while k < n
                    invariant
                        n == self.entitlements.len(),
                        i < n,
                        0 <= k <= n,
                        target == self@.ents.update(i as int, row),
                        ents@ == target.subrange(0, k as int),
                    decreases n - k,
                {
                    if k == i {
                        ents.push(row);
                    } else {
                        ents.push(self.entitlements[k]);
                    }
                    k += 1;
                    proof {
                        assert(target.subrange(0, k as int) =~= target.subrange(0, k - 1).push(
                            target[k - 1],
                        ));
                    }
                }
                proof {
                    assert(target.subrange(0, n as int) =~= target);
                }
                let LedgerState { users, subscriptions, entitlements: _, next_id } = self;
                Ok(LedgerState { users, subscriptions, entitlements: ents, next_id })
            },
        }
    }

    /// Locate the first active grant of the entitlement for the user.
    fn find_access_index(&self, user_id: u64, entitlement_id: u64, now: i64) -> (r: Option<usize>)
        ensures
            ({
                let idx = access_index(self@.ents, user_id, entitlement_id, now);
                match r {
                    Option::Some(i) => idx == i as int && i < self.entitlements.len(),
                    Option::None => idx == -1,
                }
            }),
    {
        proof {
            lemma_access_index(self@.ents, user_id, entitlement_id, now);
        }
        let n = self.entitlements.len();
        let mut k: usize = 0;
        while k < n
            invariant
                n == self.entitlements.len(),
                0 <= k <= n,
                forall|i: int|
                    0 <= i < k ==> !(grant_active_for(self@.ents[i], user_id, now)
                        && self@.ents[i].entitlement_id == entitlement_id),
                ({
                    let idx = access_index(self@.ents, user_id, entitlement_id, now);
                    &&& -1 <= idx < n
                    &&& idx == -1 ==> forall|i: int|
                        0 <= i < n ==> !(grant_active_for(self@.ents[i], user_id, now)
                            && self@.ents[i].entitlement_id == entitlement_id)
                    &&& idx >= 0 ==> grant_active_for(self@.ents[idx], user_id, now)
                        && self@.ents[idx].entitlement_id == entitlement_id && (forall|i: int|
                        0 <= i < idx ==> !(grant_active_for(self@.ents[i], user_id, now)
                            && self@.ents[i].entitlement_id == entitlement_id))
                }),
            decreases n - k,
        {
            let g = self.entitlements[k];
            let live = match g.expires_at {
                Option::None => true,
                Option::Some(x) => x > now,
            };
            if g.user_id == user_id && g.entitlement_id == entitlement_id && g.starts_at <= now
                && live {
                return Option::Some(k);
            }
            k += 1;
        }
        Option::None
    }

    /// Cancel a subscription by its internal id: soft, recording the
    /// cancellation date and turning auto-renew off, leaving every grant
    /// untouched.  Only an active subscription can be cancelled.
    pub fn cancel_subscription(self, subscription_id: u64, cancellation_date: i64) -> (r: Result<
        LedgerState,
        AdminError,
    >)
        ensures
            ({
                let idx = sub_id_index(self@.subs, subscription_id);
                match r {
                    Err(er) => (idx == -1 && er == AdminError::SubscriptionNotFound) || (idx >= 0
                        && !(self@.subs[idx].status is Active) && er
                        == AdminError::SubscriptionNotActive),
                    Ok(s2) => {
                        &&& idx >= 0
                        &&& self@.subs[idx].status is Active
                        &&& s2@.users == self@.users
                        &&& s2@.ents == self@.ents
                        &&& s2@.next_id == self@.next_id
                        &&& s2@.subs == self@.subs.update(
                            idx,
                            SubscriptionRec {
                                status: SubscriptionStatus::Cancelled,
                                cancellation_date: Some(cancellation_date),
                                auto_renew_status: Some(false),
                                updated_at: cancellation_date,
                                ..self@.subs[idx]
                            },
                        )
                    },
                }
            }),
    {
        let found = self.find_subscription_by_id(subscription_id);
        match found {
            Option::None => Err(AdminError::SubscriptionNotFound),
            Option::Some(i) => {
                if !matches!(self.subscriptions[i].status, SubscriptionStatus::Active) {
                    return Err(AdminError::SubscriptionNotActive);
                }
                let mut sub1 = self.subscriptions[i].duplicate();
                sub1.status = SubscriptionStatus::Cancelled;
                sub1.cancellation_date = Option::Some(cancellation_date);
                sub1.auto_renew_status = Option::Some(false);
                sub1.updated_at = cancellation_date;
                let subs1 = set_sub_at(&self.subscriptions, i, &sub1);
                let LedgerState { users, subscriptions: _, entitlements, next_id } = self;
                Ok(LedgerState { users, subscriptions: subs1, entitlements, next_id })
            },
        }
    }

    /// Refund a subscription by its internal id: hard, moving it to
    /// `Refunded` and force-expiring every grant tied to it at `now`.
    pub fn refund_subscription(self, subscription_id: u64, now: i64) -> (r: Result<
        LedgerState,
        AdminError,
    >)
        ensures
            ({
                let idx = sub_id_index(self@.subs, subscription_id);
                match r {
                    Err(er) => idx == -1 && er == AdminError::SubscriptionNotFound,
                    Ok(s2) => {
                        &&& idx >= 0
                        &&& s2@.users == self@.users
                        &&& s2@.next_id == self@.next_id
                        &&& s2@.subs == self@.subs.update(
                            idx,
                            SubscriptionRec {
                                status: SubscriptionStatus::Refunded,
                                updated_at: now,
                                ..self@.subs[idx]
                            },
                        )
                        &&& s2@.ents == force_expire(self@.ents, self@.subs[idx].id, now)
                    },
                }
            }),
    {
        let found = self.find_subscription_by_id(subscription_id);
        match found {
            Option::None => Err(AdminError::SubscriptionNotFound),
            Option::Some(i) => {
                let sid = self.subscriptions[i].id;
                let mut sub1 = self.subscriptions[i].duplicate();
                sub1.status = SubscriptionStatus::Refunded;
                sub1.updated_at = now;
                let subs1 = set_sub_at(&self.subscriptions, i, &sub1);
                let n = self.entitlements.len();
                let mut ents: Vec<EntitlementGrant> = Vec::new();
                let mut k: usize = 0;
                while k < n
                    invariant
                        n == self.entitlements.len(),
                        0 <= k <= n,
                        ents@ == force_expire(self@.ents.subrange(0, k as int), sid, now),
                    decreases n - k,
                {
                    let g = self.entitlements[k];
                    let hit = match g.subscription_id {
                        Option::Some(s) => s == sid,
                        Option::None => false,
                    };
                    let live = match g.expires_at {
                        Option::None => true,
                        Option::Some(x) => x > now,
                    };
                    if hit && live {
                        let mut g2 = g;
                        g2.expires_at = Option::Some(now);
                        g2.updated_at = now;
                        ents.push(g2);
                    } else {
                        ents.push(g);
                    }
                    k += 1;
                    proof {
                        assert(force_expire(self@.ents.subrange(0, k as int), sid, now)
                            =~= force_expire(self@.ents.subrange(0, k - 1), sid, now).push(
                            crate::engine::clamp_grant(self@.ents[k - 1], sid, now),
                        ));
                    }
                }
                proof {
                    assert(self@.ents.subrange(0, n as int) =~= self@.ents);
                }
                let LedgerState { users, subscriptions: _, entitlements: _, next_id } = self;
                Ok(LedgerState { users, subscriptions: subs1, entitlements: ents, next_id })
            },
        }
    }

    /// The first `limit` subscription rows, in ledger order.
    pub fn list_subscriptions(&self, limit: usize) -> (r: Vec<SubscriptionRec>)
        ensures
            r@ == self@.subs.subrange(
                0,
                if limit as int <= self@.subs.len() {
                    limit as int
                } else {
                    self@.subs.len() as int
                },
            ),
    {
        let n = if limit <= self.subscriptions.len() {
            limit
        } else {
            self.subscriptions.len()
        };
        let mut out: Vec<SubscriptionRec> = Vec::new();
        let mut k: usize = 0;
        while k < n
            invariant
                n <= self.subscriptions.len(),
                0 <= k <= n,
                out@ == self@.subs.subrange(0, k as int),
            decreases n - k,
        {
            out.push(self.subscriptions[k].duplicate());
            k += 1;
            proof {
                assert(self@.subs.subrange(0, k as int) =~= self@.subs.subrange(0, k - 1).push(
                    self@.subs[k - 1],
                ));
            }
        }
        out
    }

    /// The first `limit` users, in ledger order.
    pub fn list_users(&self, limit: usize) -> (r: Vec<UserRec>)
        ensures
            r@ == self@.users.subrange(
                0,
                if limit as int <= self@.users.len() {
                    limit as int
                } else {
                    self@.users.len() as int
                },
            ),
    {
        let n = if limit <= self.users.len() {
            limit
        } else {
            self.users.len()
        };
        let mut out: Vec<UserRec> = Vec::new();
        let mut k: usize = 0;
        while k < n
            invariant
                n <= self.users.len(),
                0 <= k <= n,
                out@ == self@.users.subrange(0, k as int),
            decreases n - k,
        {
            out.push(self.users[k].duplicate());
            k += 1;
            proof {
                assert(self@.users.subrange(0, k as int) =~= self@.users.subrange(0, k - 1).push(
                    self@.users[k - 1],
                ));
            }
        }
        out
    }

    /// Update a user's email address; rejected when no user has the id.
    pub fn update_user(self, user_id: u64, email: Option<String>, now: i64) -> (r: Result<
        LedgerState,
        AdminError,
    >)
        ensures
            ({
                let idx = crate::ledger::user_id_index(self@.users, user_id);
                match r {
                    Err(er) => idx == -1 && er == AdminError::UserNotFound,
                    Ok(s2) => {
                        &&& idx >= 0
                        &&& s2@.subs == self@.subs
                        &&& s2@.ents == self@.ents
                        &&& s2@.next_id == self@.next_id
                        &&& s2@.users == self@.users.update(
                            idx,
                            UserRec { email, updated_at: now, ..self@.users[idx] },
                        )
                    },
                }
            }),
    {
        let found = self.find_user_by_id(user_id);
        match found {
            Option::None => Err(AdminError::UserNotFound),
            Option::Some(i) => {
                let mut row = self.users[i].duplicate();
                row.email = email;
                row.updated_at = now;
                let n = self.users.len();
                let ghost target = self@.users.update(i as int, row);
                let mut users: Vec<UserRec> = Vec::new();
                let mut k: usize = 0;
                while k < n
                    invariant
                        n == self.users.len(),
                        i < n,
                        0 <= k <= n,
                        target == self@.users.update(i as int, row),
                        row == (UserRec {
                            email: email,
                            updated_at: now,
                            ..self@.users[i as int]
                        }),
                        users@ == target.subrange(0, k as int),
                    decreases n - k,
                {
                    if k == i {
                        users.push(row.duplicate());
                    } else {
                        users.push(self.users[k].duplicate());
                    }
                    k += 1;
                    proof {
                        assert(target.subrange(0, k as int) =~= target.subrange(0, k - 1).push(
                            target[k - 1],
                        ));
                    }
                }
                proof {
                    assert(target.subrange(0, n as int) =~= target);
                }
                let LedgerState { users: _, subscriptions, entitlements, next_id } = self;
                Ok(LedgerState { users, subscriptions, entitlements, next_id })
            },
        }
    }

    /// Create a user with the given external account id; rejected when
    /// one already exists.
    pub fn create_user(self, app_user_id: String, email: Option<String>, now: i64) -> (r: Result<
        (LedgerState, u64),
        AdminError,
    >)
        requires
            self@.next_id + 1 <= u64::MAX as int,
        ensures
            ({
                let idx = user_index(self@.users, app_user_id@);
                match r {
                    Err(er) => idx >= 0 && er == AdminError::DuplicateAppUserId,
                    Ok((s2, uid)) => {
                        &&& idx == -1
                        &&& uid as int == self@.next_id
                        &&& s2@.subs == self@.subs
                        &&& s2@.ents == self@.ents
                        &&& s2@.next_id == self@.next_id + 1
                        &&& s2@.users == self@.users.push(
                            UserRec {
                                id: uid,
                                app_user_id,
                                email,
                                created_at: now,
                                updated_at: now,
                            },
                        )
                    },
                }
            }),
    {
        let found = self.find_user_by_app_user_id(app_user_id.as_str());
        match found {
            Option::Some(_) => Err(AdminError::DuplicateAppUserId),
            Option::None => {
                let LedgerState { users, subscriptions, entitlements, next_id } = self;
                let uid = next_id;
                let mut users1 = users;
                users1.push(
                    UserRec { id: uid, app_user_id, email, created_at: now, updated_at: now },
                );
                Ok(
                    (
                        LedgerState {
                            users: users1,
                            subscriptions,
                            entitlements,
                            next_id: next_id + 1,
                        },
                        uid,
                    ),
                )
            },
        }
    }
}

} // verus!
