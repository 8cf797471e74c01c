//! The ledger: the in-memory snapshot of the subscription store and the
//! entitlement ledger, with its mathematical model and well-formedness
//! invariant.  The reconciliation engine takes a snapshot and returns the
//! next one; nothing here performs storage I/O.

use vstd::prelude::*;

use crate::records::EntitlementGrant;
use crate::records::SubscriptionRec;
use crate::records::UserRec;
use crate::types::Store;
use crate::types::str_eq;

verus! {

/// One consistent snapshot of all persisted reconciliation state.
/// `next_id` is the allocation counter for internal identifiers: every
/// identifier in the snapshot is below it, so fresh rows can never collide.
#[derive(Debug)]
pub struct LedgerState {
    pub users: Vec<UserRec>,
    pub subscriptions: Vec<SubscriptionRec>,
    pub entitlements: Vec<EntitlementGrant>,
    pub next_id: u64,
}

/// The mathematical model of a ledger snapshot.
#[verifier::ext_equal]
pub struct LedgerModel {
    pub users: Seq<UserRec>,
    pub subs: Seq<SubscriptionRec>,
    pub ents: Seq<EntitlementGrant>,
    pub next_id: int,
}

impl View for LedgerState {
    type V = LedgerModel;

    open spec fn view(&self) -> LedgerModel {
        LedgerModel {
            users: self.users@,
            subs: self.subscriptions@,
            ents: self.entitlements@,
            next_id: self.next_id as int,
        }
    }
}

/// Whether a subscription row carries the stable external key
/// `(store, original_transaction_id)`.
pub open spec fn sub_matches(s: SubscriptionRec, store: Store, otid: Seq<char>) -> bool {
    s.store == store && s.original_transaction_id@ == otid
}

/// Index of the first subscription with the given external key, or -1.
pub open spec fn sub_index(subs: Seq<SubscriptionRec>, store: Store, otid: Seq<char>) -> int
    decreases subs.len(),
{
    if subs.len() == 0 {
        -1
    } else if sub_matches(subs[0], store, otid) {
        0
    } else {
        let r = sub_index(subs.drop_first(), store, otid);
        if r < 0 {
            -1
        } else {
            r + 1
        }
    }
}

/// `sub_index` returns -1 exactly when no row matches, and otherwise the
/// least matching index.
pub proof fn lemma_sub_index(subs: Seq<SubscriptionRec>, store: Store, otid: Seq<char>)
    ensures
        ({
            let r = sub_index(subs, store, otid);
            &&& -1 <= r < subs.len()
            &&& r == -1 ==> forall|i: int| 0 <= i < subs.len() ==> !sub_matches(subs[i], store, otid)
            &&& r >= 0 ==> sub_matches(subs[r], store, otid) && (forall|i: int|
                0 <= i < r ==> !sub_matches(subs[i], store, otid))
        }),
    decreases subs.len(),
{
    if subs.len() == 0 {
    } else if sub_matches(subs[0], store, otid) {
    } else {
        let tail = subs.drop_first();
        lemma_sub_index(tail, store, otid);
        let rt = sub_index(tail, store, otid);
        if rt == -1 {
            assert forall|i: int| 0 <= i < subs.len() implies !sub_matches(
                subs[i],
                store,
                otid,
            ) by {
                if i > 0 {
                    assert(subs[i] == tail[i - 1]);
                }
            }
        } else {
            assert(subs[rt + 1] == tail[rt]);
            assert forall|i: int| 0 <= i < rt + 1 implies !sub_matches(subs[i], store, otid) by {
                if i > 0 {
                    assert(subs[i] == tail[i - 1]);
                }
            }
        }
    }
}

/// Replacing a row with one that keeps the external key leaves the key's
/// index unchanged.
pub proof fn lemma_sub_index_update_same_key(
    subs: Seq<SubscriptionRec>,
    i: int,
    sub1: SubscriptionRec,
    store: Store,
    otid: Seq<char>,
)
    requires
        0 <= i < subs.len(),
        sub_index(subs, store, otid) == i,
        sub1.store == subs[i].store,
        sub1.original_transaction_id@ == subs[i].original_transaction_id@,
    ensures
        sub_index(subs.update(i, sub1), store, otid) == i,
{
    lemma_sub_index(subs, store, otid);
    let upd = subs.update(i, sub1);
    lemma_sub_index(upd, store, otid);
    let r2 = sub_index(upd, store, otid);
    assert(sub_matches(upd[i], store, otid));
    assert(r2 >= 0);
    if r2 < i {
        assert(upd[r2] == subs[r2]);
        assert(false);
    }
    if r2 > i {
        assert(!sub_matches(upd[i], store, otid));
    }
}

/// Appending a row that carries a key absent from the ledger makes the
/// appended position the key's index.
pub proof fn lemma_sub_index_push_match(
    subs: Seq<SubscriptionRec>,
    x: SubscriptionRec,
    store: Store,
    otid: Seq<char>,
)
    requires
        sub_index(subs, store, otid) == -1,
        sub_matches(x, store, otid),
    ensures
        sub_index(subs.push(x), store, otid) == subs.len(),
{
    lemma_sub_index(subs, store, otid);
    let pushed = subs.push(x);
    lemma_sub_index(pushed, store, otid);
    let r2 = sub_index(pushed, store, otid);
    assert(pushed[subs.len() as int] == x);
    assert(r2 >= 0);
    if r2 < subs.len() {
        assert(pushed[r2] == subs[r2]);
        assert(false);
    }
}

/// Index of the first subscription with the given internal id, or -1.
pub open spec fn sub_id_index(subs: Seq<SubscriptionRec>, id: u64) -> int
    decreases subs.len(),
{
    if subs.len() == 0 {
        -1
    } else if subs[0].id == id {
        0
    } else {
        let r = sub_id_index(subs.drop_first(), id);
        if r < 0 {
            -1
        } else {
            r + 1
        }
    }
}

/// `sub_id_index` returns -1 exactly when no row matches, and otherwise the
/// least matching index.
pub proof fn lemma_sub_id_index(subs: Seq<SubscriptionRec>, id: u64)
    ensures
        ({
            let r = sub_id_index(subs, id);
            &&& -1 <= r < subs.len()
            &&& r == -1 ==> forall|i: int| 0 <= i < subs.len() ==> subs[i].id != id
            &&& r >= 0 ==> subs[r].id == id && (forall|i: int| 0 <= i < r ==> subs[i].id != id)
        }),
    decreases subs.len(),
{
    if subs.len() == 0 {
    } else if subs[0].id == id {
    } else {
        let tail = subs.drop_first();
        lemma_sub_id_index(tail, id);
        let rt = sub_id_index(tail, id);
        if rt == -1 {
            assert forall|i: int| 0 <= i < subs.len() implies subs[i].id != id by {
                if i > 0 {
                    assert(subs[i] == tail[i - 1]);
                }
            }
        } else {
            assert(subs[rt + 1] == tail[rt]);
            assert forall|i: int| 0 <= i < rt + 1 implies subs[i].id != id by {
                if i > 0 {
                    assert(subs[i] == tail[i - 1]);
                }
            }
        }
    }
}

/// Whether a subscription row carries the transaction id either as its
/// latest store transaction or as its stable original transaction.
pub open spec fn sub_tx_matches(s: SubscriptionRec, store: Store, tid: Seq<char>) -> bool {
    s.store == store && (s.store_transaction_id@ == tid || s.original_transaction_id@ == tid)
}

/// Index of the first subscription matching the transaction id under
/// either key, or -1.
pub open spec fn sub_tx_index(subs: Seq<SubscriptionRec>, store: Store, tid: Seq<char>) -> int
    decreases subs.len(),
{
    if subs.len() == 0 {
        -1
    } else if sub_tx_matches(subs[0], store, tid) {
        0
    } else {
        let r = sub_tx_index(subs.drop_first(), store, tid);
        if r < 0 {
            -1
        } else {
            r + 1
        }
    }
}

/// `sub_tx_index` returns -1 exactly when no row matches, and otherwise
/// the least matching index.
pub proof fn lemma_sub_tx_index(subs: Seq<SubscriptionRec>, store: Store, tid: Seq<char>)
    ensures
        ({
            let r = sub_tx_index(subs, store, tid);
            &&& -1 <= r < subs.len()
            &&& r == -1 ==> forall|i: int|
                0 <= i < subs.len() ==> !sub_tx_matches(subs[i], store, tid)
            &&& r >= 0 ==> sub_tx_matches(subs[r], store, tid) && (forall|i: int|
                0 <= i < r ==> !sub_tx_matches(subs[i], store, tid))
        }),
    decreases subs.len(),
{
    if subs.len() == 0 {
    } else if sub_tx_matches(subs[0], store, tid) {
    } else {
        let tail = subs.drop_first();
        lemma_sub_tx_index(tail, store, tid);
        let rt = sub_tx_index(tail, store, tid);
        if rt == -1 {
            assert forall|i: int| 0 <= i < subs.len() implies !sub_tx_matches(
                subs[i],
                store,
                tid,
            ) by {
                if i > 0 {
                    assert(subs[i] == tail[i - 1]);
                }
            }
        } else {
            assert(subs[rt + 1] == tail[rt]);
            assert forall|i: int| 0 <= i < rt + 1 implies !sub_tx_matches(subs[i], store, tid) by {
                if i > 0 {
                    assert(subs[i] == tail[i - 1]);
                }
            }
        }
    }
}

/// Index of the first user with the given external account token, or -1.
pub open spec fn user_index(users: Seq<UserRec>, token: Seq<char>) -> int
    decreases users.len(),
{
    if users.len() == 0 {
        -1
    } else if users[0].app_user_id@ == token {
        0
    } else {
        let r = user_index(users.drop_first(), token);
        if r < 0 {
            -1
        } else {
            r + 1
        }
    }
}

/// `user_index` returns -1 exactly when no user matches, and otherwise the
/// least matching index.
pub proof fn lemma_user_index(users: Seq<UserRec>, token: Seq<char>)
    ensures
        ({
            let r = user_index(users, token);
            &&& -1 <= r < users.len()
            &&& r == -1 ==> forall|i: int| 0 <= i < users.len() ==> users[i].app_user_id@ != token
            &&& r >= 0 ==> users[r].app_user_id@ == token && (forall|i: int|
                0 <= i < r ==> users[i].app_user_id@ != token)
        }),
    decreases users.len(),
{
    if users.len() == 0 {
    } else if users[0].app_user_id@ == token {
    } else {
        let tail = users.drop_first();
        lemma_user_index(tail, token);
        let rt = user_index(tail, token);
        if rt == -1 {
            assert forall|i: int| 0 <= i < users.len() implies users[i].app_user_id@ != token by {
                if i > 0 {
                    assert(users[i] == tail[i - 1]);
                }
            }
        } else {
            assert(users[rt + 1] == tail[rt]);
            assert forall|i: int| 0 <= i < rt + 1 implies users[i].app_user_id@ != token by {
                if i > 0 {
                    assert(users[i] == tail[i - 1]);
                }
            }
        }
    }
}

/// Index of the first user with the given internal id, or -1.
pub open spec fn user_id_index(users: Seq<UserRec>, id: u64) -> int
    decreases users.len(),
{
    if users.len() == 0 {
        -1
    } else if users[0].id == id {
        0
    } else {
        let r = user_id_index(users.drop_first(), id);
        if r < 0 {
            -1
        } else {
            r + 1
        }
    }
}

/// `user_id_index` returns -1 exactly when no user matches, and otherwise
/// the least matching index.
pub proof fn lemma_user_id_index(users: Seq<UserRec>, id: u64)
    ensures
        ({
            let r = user_id_index(users, id);
            &&& -1 <= r < users.len()
            &&& r == -1 ==> forall|i: int| 0 <= i < users.len() ==> users[i].id != id
            &&& r >= 0 ==> users[r].id == id && (forall|i: int| 0 <= i < r ==> users[i].id != id)
        }),
    decreases users.len(),
{
    if users.len() == 0 {
    } else if users[0].id == id {
    } else {
        let tail = users.drop_first();
        lemma_user_id_index(tail, id);
        let rt = user_id_index(tail, id);
        if rt == -1 {
            assert forall|i: int| 0 <= i < users.len() implies users[i].id != id by {
                if i > 0 {
                    assert(users[i] == tail[i - 1]);
                }
            }
        } else {
            assert(users[rt + 1] == tail[rt]);
            assert forall|i: int| 0 <= i < rt + 1 implies users[i].id != id by {
                if i > 0 {
                    assert(users[i] == tail[i - 1]);
                }
            }
        }
    }
}

impl LedgerModel {
    /// The ledger invariant: identifiers are unique and below the counter,
    /// the external subscription key and user token are unique, and status
    /// fields stay consistent with their date fields.
    pub open spec fn wf(self) -> bool {
        &&& 0 <= self.next_id
        &&& forall|i: int, j: int|
            0 <= i < j < self.subs.len() ==> self.subs[i].id != self.subs[j].id
        &&& forall|i: int, j: int|
            0 <= i < j < self.subs.len() ==> !(self.subs[i].store == self.subs[j].store
                && self.subs[i].original_transaction_id@
                == self.subs[j].original_transaction_id@)
        &&& forall|i: int, j: int|
            0 <= i < j < self.users.len() ==> self.users[i].id != self.users[j].id
        &&& forall|i: int, j: int|
            0 <= i < j < self.users.len() ==> self.users[i].app_user_id@
                != self.users[j].app_user_id@
        &&& forall|i: int, j: int|
            0 <= i < j < self.ents.len() ==> self.ents[i].id != self.ents[j].id
        &&& forall|i: int| 0 <= i < self.subs.len() ==> self.subs[i].id < self.next_id
        &&& forall|i: int| 0 <= i < self.users.len() ==> self.users[i].id < self.next_id
        &&& forall|i: int| 0 <= i < self.ents.len() ==> self.ents[i].id < self.next_id
        &&& forall|i: int|
            0 <= i < self.ents.len() ==> ((#[trigger] self.ents[i].subscription_id) is Some
                ==> self.ents[i].subscription_id->0 < self.next_id)
        &&& forall|i: int|
            0 <= i < self.subs.len() ==> (self.subs[i].status is GracePeriod
                ==> self.subs[i].renewal_grace_period_expires_date is Some)
        &&& forall|i: int|
            0 <= i < self.subs.len() ==> (self.subs[i].status is Cancelled
                ==> self.subs[i].cancellation_date is Some)
    }
}

impl LedgerState {
    /// The ledger invariant, stated of the snapshot.
    pub open spec fn wf(self) -> bool {
        self@.wf()
    }

    /// A fresh, empty ledger.
    pub fn empty() -> (r: LedgerState)
        ensures
            r@.users == Seq::<UserRec>::empty(),
            r@.subs == Seq::<SubscriptionRec>::empty(),
            r@.ents == Seq::<EntitlementGrant>::empty(),
            r@.next_id == 1,
            r.wf(),
    {
        LedgerState { users: Vec::new(), subscriptions: Vec::new(), entitlements: Vec::new(), next_id: 1 }
    }

    /// An equal copy of the whole snapshot.
    pub fn duplicate(&self) -> (r: LedgerState)
        ensures
            r@ == self@,
    {
        let nu = self.users.len();
        let mut users: Vec<UserRec> = Vec::new();
        let mut k: usize = 0;
        while k < nu
            invariant
                nu == self.users.len(),
                0 <= k <= nu,
                users@ == self@.users.subrange(0, k as int),
            decreases nu - k,
        {
            users.push(self.users[k].duplicate());
            k += 1;
            proof {
                assert(self@.users.subrange(0, k as int) =~= self@.users.subrange(0, k - 1).push(
                    self@.users[k - 1],
                ));
            }
        }
        let ns = self.subscriptions.len();
        let mut subs: Vec<SubscriptionRec> = Vec::new();
        let mut j: usize = 0;
        while j < ns
            invariant
                ns == self.subscriptions.len(),
                0 <= j <= ns,
                subs@ == self@.subs.subrange(0, j as int),
            decreases ns - j,
        {
            subs.push(self.subscriptions[j].duplicate());
            j += 1;
            proof {
                assert(self@.subs.subrange(0, j as int) =~= self@.subs.subrange(0, j - 1).push(
                    self@.subs[j - 1],
                ));
            }
        }
        let ne = self.entitlements.len();
        let mut ents: Vec<EntitlementGrant> = Vec::new();
        let mut h: usize = 0;
        while h < ne
            invariant
                ne == self.entitlements.len(),
                0 <= h <= ne,
                ents@ == self@.ents.subrange(0, h as int),
            decreases ne - h,
        {
            ents.push(self.entitlements[h]);
            h += 1;
            proof {
                assert(self@.ents.subrange(0, h as int) =~= self@.ents.subrange(0, h - 1).push(
                    self@.ents[h - 1],
                ));
            }
        }
        proof {
            assert(self@.users.subrange(0, nu as int) =~= self@.users);
            assert(self@.subs.subrange(0, ns as int) =~= self@.subs);
            assert(self@.ents.subrange(0, ne as int) =~= self@.ents);
        }
        LedgerState { users, subscriptions: subs, entitlements: ents, next_id: self.next_id }
    }

    /// Locate a subscription by its stable external key.
    pub fn find_subscription(&self, store: Store, original_transaction_id: &str) -> (r: Option<
        usize,
    >)
        ensures
            ({
                let idx = sub_index(self@.subs, store, original_transaction_id@);
                match r {
                    Option::Some(i) => idx == i as int && i < self.subscriptions.len(),
                    Option::None => idx == -1,
                }
            }),
    {
        proof {
            lemma_sub_index(self@.subs, store, original_transaction_id@);
        }
        let n = self.subscriptions.len();
        let mut k: usize = 0;
        while k < n
            invariant
                n == self.subscriptions.len(),
                0 <= k <= n,
                forall|i: int|
                    0 <= i < k ==> !sub_matches(
                        self@.subs[i],
                        store,
                        original_transaction_id@,
                    ),
                sub_index(self@.subs, store, original_transaction_id@) >= 0
                    ==> sub_matches(
                    self@.subs[sub_index(self@.subs, store, original_transaction_id@)],
                    store,
                    original_transaction_id@,
                ),
                sub_index(self@.subs, store, original_transaction_id@) == -1 ==> forall|i: int|
                    0 <= i < self@.subs.len() ==> !sub_matches(
                        self@.subs[i],
                        store,
                        original_transaction_id@,
                    ),
                sub_index(self@.subs, store, original_transaction_id@) >= 0 ==> forall|i: int|
                    0 <= i < sub_index(self@.subs, store, original_transaction_id@)
                        ==> !sub_matches(self@.subs[i], store, original_transaction_id@),
            decreases n - k,
        {
            let s = &self.subscriptions[k];
            let same_store = match (s.store, store) {
                (Store::Apple, Store::Apple) => true,
                (Store::Google, Store::Google) => true,
                _ => false,
            };
            if same_store && str_eq(s.original_transaction_id.as_str(), original_transaction_id) {
                return Option::Some(k);
            }
            k += 1;
        }
        Option::None
    }

    /// Locate a subscription by a transaction id, matching either the
    /// latest store transaction or the stable original transaction.
    pub fn find_by_store_transaction(&self, store: Store, transaction_id: &str) -> (r: Option<
        usize,
    >)
        ensures
            ({
                let idx = sub_tx_index(self@.subs, store, transaction_id@);
                match r {
                    Option::Some(i) => idx == i as int && i < self.subscriptions.len(),
                    Option::None => idx == -1,
                }
            }),
    {
        proof {
            lemma_sub_tx_index(self@.subs, store, transaction_id@);
        }
        let n = self.subscriptions.len();
        let mut k: usize = 0;
        while k < n
            invariant
                n == self.subscriptions.len(),
                0 <= k <= n,
                forall|i: int| 0 <= i < k ==> !sub_tx_matches(self@.subs[i], store, transaction_id@),
                ({
                    let idx = sub_tx_index(self@.subs, store, transaction_id@);
                    &&& -1 <= idx < n
                    &&& idx == -1 ==> forall|i: int|
                        0 <= i < n ==> !sub_tx_matches(self@.subs[i], store, transaction_id@)
                    &&& idx >= 0 ==> sub_tx_matches(self@.subs[idx], store, transaction_id@) && (
                    forall|i: int|
                        0 <= i < idx ==> !sub_tx_matches(self@.subs[i], store, transaction_id@))
                }),
            decreases n - k,
        {
            let s = &self.subscriptions[k];
            let same_store = match (s.store, store) {
                (Store::Apple, Store::Apple) => true,
                (Store::Google, Store::Google) => true,
                _ => false,
            };
            if same_store && (str_eq(s.store_transaction_id.as_str(), transaction_id) || str_eq(
                s.original_transaction_id.as_str(),
                transaction_id,
            )) {
                return Option::Some(k);
            }
            k += 1;
        }
        Option::None
    }

    /// Locate a subscription by its internal id.
    pub fn find_subscription_by_id(&self, id: u64) -> (r: Option<usize>)
        ensures
            ({
                let idx = sub_id_index(self@.subs, id);
                match r {
                    Option::Some(i) => idx == i as int && i < self.subscriptions.len(),
                    Option::None => idx == -1,
                }
            }),
    {
        proof {
            lemma_sub_id_index(self@.subs, id);
        }
        let n = self.subscriptions.len();
        let mut k: usize = 0;
        while k < n
            invariant
                n == self.subscriptions.len(),
                0 <= k <= n,
                forall|i: int| 0 <= i < k ==> self@.subs[i].id != id,
                sub_id_index(self@.subs, id) >= 0 ==> self@.subs[sub_id_index(self@.subs, id)].id
                    == id,
                sub_id_index(self@.subs, id) == -1 ==> forall|i: int|
                    0 <= i < self@.subs.len() ==> self@.subs[i].id != id,
                sub_id_index(self@.subs, id) >= 0 ==> forall|i: int|
                    0 <= i < sub_id_index(self@.subs, id) ==> self@.subs[i].id != id,
            decreases n - k,
        {
            if self.subscriptions[k].id == id {
                return Option::Some(k);
            }
            k += 1;
        }
        Option::None
    }

    /// Locate a user by its internal id.
    pub fn find_user_by_id(&self, id: u64) -> (r: Option<usize>)
        ensures
            ({
                let idx = user_id_index(self@.users, id);
                match r {
                    Option::Some(i) => idx == i as int && i < self.users.len(),
                    Option::None => idx == -1,
                }
            }),
    {
        proof {
            lemma_user_id_index(self@.users, id);
        }
        let n = self.users.len();
        let mut k: usize = 0;
        while k < n
            invariant
                n == self.users.len(),
                0 <= k <= n,
                forall|i: int| 0 <= i < k ==> self@.users[i].id != id,
                ({
                    let idx = user_id_index(self@.users, id);
                    &&& -1 <= idx < n
                    &&& idx == -1 ==> forall|i: int| 0 <= i < n ==> self@.users[i].id != id
                    &&& idx >= 0 ==> self@.users[idx].id == id && (forall|i: int|
                        0 <= i < idx ==> self@.users[i].id != id)
                }),
            decreases n - k,
        {
            if self.users[k].id == id {
                return Option::Some(k);
            }
            k += 1;
        }
        Option::None
    }

    /// Locate a user by the external account token that materialized it.
    pub fn find_user_by_app_user_id(&self, app_user_id: &str) -> (r: Option<usize>)
        ensures
            ({
                let idx = user_index(self@.users, app_user_id@);
                match r {
                    Option::Some(i) => idx == i as int && i < self.users.len(),
                    Option::None => idx == -1,
                }
            }),
    {
        proof {
            lemma_user_index(self@.users, app_user_id@);
        }
        let n = self.users.len();
        let mut k: usize = 0;
        while k < n
            invariant
                n == self.users.len(),
                0 <= k <= n,
                forall|i: int| 0 <= i < k ==> self@.users[i].app_user_id@ != app_user_id@,
                user_index(self@.users, app_user_id@) >= 0 ==> self@.users[user_index(
                    self@.users,
                    app_user_id@,
                )].app_user_id@ == app_user_id@,
                user_index(self@.users, app_user_id@) == -1 ==> forall|i: int|
                    0 <= i < self@.users.len() ==> self@.users[i].app_user_id@ != app_user_id@,
                user_index(self@.users, app_user_id@) >= 0 ==> forall|i: int|
                    0 <= i < user_index(self@.users, app_user_id@) ==> self@.users[i].app_user_id@
                        != app_user_id@,
            decreases n - k,
        {
            if str_eq(self.users[k].app_user_id.as_str(), app_user_id) {
                return Option::Some(k);
            }
            k += 1;
        }
        Option::None
    }
}

/// Replace the row at index `i`, leaving every other row unchanged.
pub fn set_sub_at(subs: &Vec<SubscriptionRec>, i: usize, row: &SubscriptionRec) -> (r: Vec<
    SubscriptionRec,
>)
    requires
        i < subs.len(),
    ensures
        r@ == subs@.update(i as int, *row),
{
    let ghost target = subs@.update(i as int, *row);
    let n = subs.len();
    let mut out: Vec<SubscriptionRec> = Vec::new();
    let mut k: usize = 0;
    while k < n
        invariant
            n == subs.len(),
            i < n,
            0 <= k <= n,
            target == subs@.update(i as int, *row),
            out@ == target.subrange(0, k as int),
        decreases n - k,
    {
        if k == i {
            out.push(row.duplicate());
        } else {
            out.push(subs[k].duplicate());
        }
        k += 1;
        proof {
            assert(target.subrange(0, k as int) =~= target.subrange(0, k - 1).push(
                target[k - 1],
            ));
        }
    }
    proof {
        assert(target.subrange(0, n as int) =~= target);
    }
    out
}

} // verus!
