//! The read-only product catalog the engine consults: products, the
//! entitlements they grant, and lookups by store-facing product id.

use vstd::prelude::*;

use crate::records::EntitlementDef;
use crate::records::ProductRec;
use crate::types::Store;
use crate::types::str_eq;

verus! {

/// The catalog snapshot: every product, and every entitlement definition.
#[derive(Debug)]
pub struct Catalog {
    pub products: Vec<ProductRec>,
    pub entitlements: Vec<EntitlementDef>,
}

/// The mathematical model of a catalog snapshot.
#[verifier::ext_equal]
pub struct CatalogModel {
    pub products: Seq<ProductRec>,
    pub entitlements: Seq<EntitlementDef>,
}

impl View for Catalog {
    type V = CatalogModel;

    open spec fn view(&self) -> CatalogModel {
        CatalogModel { products: self.products@, entitlements: self.entitlements@ }
    }
}

impl CatalogModel {
    /// The catalog invariant: product ids and entitlement definition ids
    /// are unique.
    pub open spec fn wf(self) -> bool {
        &&& forall|i: int, j: int|
            0 <= i < j < self.products.len() ==> self.products[i].id != self.products[j].id
        &&& forall|i: int, j: int|
            0 <= i < j < self.entitlements.len() ==> self.entitlements[i].id
                != self.entitlements[j].id
    }
}

impl Catalog {
    /// The catalog invariant, stated of the snapshot.
    pub open spec fn wf(self) -> bool {
        self@.wf()
    }
}

/// Whether a product carries the given store-facing product id for the
/// given store.
pub open spec fn product_matches(p: ProductRec, store: Store, store_product_id: Seq<char>) -> bool {
    match store {
        Store::Apple => p.apple_product_id matches Some(s) && s@ == store_product_id,
        Store::Google => p.google_product_id matches Some(s) && s@ == store_product_id,
    }
}

/// Index of the first product with the given store-facing id, or -1.
pub open spec fn product_index(
    products: Seq<ProductRec>,
    store: Store,
    store_product_id: Seq<char>,
) -> int
    decreases products.len(),
{
    if products.len() == 0 {
        -1
    } else if product_matches(products[0], store, store_product_id) {
        0
    } else {
        let r = product_index(products.drop_first(), store, store_product_id);
        if r < 0 {
            -1
        } else {
            r + 1
        }
    }
}

/// `product_index` returns -1 exactly when no product matches, and
/// otherwise the least matching index.
pub proof fn lemma_product_index(products: Seq<ProductRec>, store: Store, pid: Seq<char>)
    ensures
        ({
            let r = product_index(products, store, pid);
            &&& -1 <= r < products.len()
            &&& r == -1 ==> forall|i: int|
                0 <= i < products.len() ==> !product_matches(products[i], store, pid)
            &&& r >= 0 ==> product_matches(products[r], store, pid) && (forall|i: int|
                0 <= i < r ==> !product_matches(products[i], store, pid))
        }),
    decreases products.len(),
{
    if products.len() == 0 {
    } else if product_matches(products[0], store, pid) {
    } else {
        let tail = products.drop_first();
        lemma_product_index(tail, store, pid);
        let rt = product_index(tail, store, pid);
        if rt == -1 {
            assert forall|i: int| 0 <= i < products.len() implies !product_matches(
                products[i],
                store,
                pid,
            ) by {
                if i > 0 {
                    assert(products[i] == tail[i - 1]);
                }
            }
        } else {
            assert(products[rt + 1] == tail[rt]);
            assert forall|i: int| 0 <= i < rt + 1 implies !product_matches(
                products[i],
                store,
                pid,
            ) by {
                if i > 0 {
                    assert(products[i] == tail[i - 1]);
                }
            }
        }
    }
}

/// Index of the first product with the given internal id, or -1.
pub open spec fn product_id_index(products: Seq<ProductRec>, id: u64) -> int
    decreases products.len(),
{
    if products.len() == 0 {
        -1
    } else if products[0].id == id {
        0
    } else {
        let r = product_id_index(products.drop_first(), id);
        if r < 0 {
            -1
        } else {
            r + 1
        }
    }
}

/// `product_id_index` returns -1 exactly when no product matches, and
/// otherwise the least matching index.
pub proof fn lemma_product_id_index(products: Seq<ProductRec>, id: u64)
    ensures
        ({
            let r = product_id_index(products, id);
            &&& -1 <= r < products.len()
            &&& r == -1 ==> forall|i: int| 0 <= i < products.len() ==> products[i].id != id
            &&& r >= 0 ==> products[r].id == id && (forall|i: int|
                0 <= i < r ==> products[i].id != id)
        }),
    decreases products.len(),
{
    if products.len() == 0 {
    } else if products[0].id == id {
    } else {
        let tail = products.drop_first();
        lemma_product_id_index(tail, id);
        let rt = product_id_index(tail, id);
        if rt == -1 {
            assert forall|i: int| 0 <= i < products.len() implies products[i].id != id by {
                if i > 0 {
                    assert(products[i] == tail[i - 1]);
                }
            }
        } else {
            assert(products[rt + 1] == tail[rt]);
            assert forall|i: int| 0 <= i < rt + 1 implies products[i].id != id by {
                if i > 0 {
                    assert(products[i] == tail[i - 1]);
                }
            }
        }
    }
}

/// Index of the first entitlement definition with the given id, or -1.
pub open spec fn entitlement_def_index(defs: Seq<EntitlementDef>, id: u64) -> int
    decreases defs.len(),
{
    if defs.len() == 0 {
        -1
    } else if defs[0].id == id {
        0
    } else {
        let r = entitlement_def_index(defs.drop_first(), id);
        if r < 0 {
            -1
        } else {
            r + 1
        }
    }
}

/// `entitlement_def_index` returns -1 exactly when no definition matches,
/// and otherwise the least matching index.
pub proof fn lemma_entitlement_def_index(defs: Seq<EntitlementDef>, id: u64)
    ensures
        ({
            let r = entitlement_def_index(defs, id);
            &&& -1 <= r < defs.len()
            &&& r == -1 ==> forall|i: int| 0 <= i < defs.len() ==> defs[i].id != id
            &&& r >= 0 ==> defs[r].id == id && (forall|i: int| 0 <= i < r ==> defs[i].id != id)
        }),
    decreases defs.len(),
{
    if defs.len() == 0 {
    } else if defs[0].id == id {
    } else {
        let tail = defs.drop_first();
        lemma_entitlement_def_index(tail, id);
        let rt = entitlement_def_index(tail, id);
        if rt == -1 {
            assert forall|i: int| 0 <= i < defs.len() implies defs[i].id != id by {
                if i > 0 {
                    assert(defs[i] == tail[i - 1]);
                }
            }
        } else {
            assert(defs[rt + 1] == tail[rt]);
            assert forall|i: int| 0 <= i < rt + 1 implies defs[i].id != id by {
                if i > 0 {
                    assert(defs[i] == tail[i - 1]);
                }
            }
        }
    }
}

impl Catalog {
    /// An empty catalog.
    pub fn empty() -> (r: Catalog)
        ensures
            r@.products == Seq::<ProductRec>::empty(),
            r@.entitlements == Seq::<EntitlementDef>::empty(),
    {
        Catalog { products: Vec::new(), entitlements: Vec::new() }
    }

    /// Locate a product by its store-facing product id.
    pub fn find_product_by_store_id(&self, store: Store, store_product_id: &str) -> (r: Option<
        usize,
    >)
        ensures
            ({
                let idx = product_index(self@.products, store, store_product_id@);
                match r {
                    Option::Some(i) => idx == i as int && i < self.products.len(),
                    Option::None => idx == -1,
                }
            }),
    {
        proof {
            lemma_product_index(self@.products, store, store_product_id@);
        }
        let n = self.products.len();
        let mut k: usize = 0;
        while k < n
            invariant
                n == self.products.len(),
                0 <= k <= n,
                forall|i: int|
                    0 <= i < k ==> !product_matches(self@.products[i], store, store_product_id@),
                ({
                    let idx = product_index(self@.products, store, store_product_id@);
                    &&& -1 <= idx < n
                    &&& idx == -1 ==> forall|i: int|
                        0 <= i < n ==> !product_matches(self@.products[i], store, store_product_id@)
                    &&& idx >= 0 ==> product_matches(
                        self@.products[idx],
                        store,
                        store_product_id@,
                    ) && (forall|i: int|
                        0 <= i < idx ==> !product_matches(
                            self@.products[i],
                            store,
                            store_product_id@,
                        ))
                }),
            decreases n - k,
        {
            let p = &self.products[k];
            let hit = match store {
                Store::Apple => match &p.apple_product_id {
                    Option::Some(s) => str_eq(s.as_str(), store_product_id),
                    Option::None => false,
                },
                Store::Google => match &p.google_product_id {
                    Option::Some(s) => str_eq(s.as_str(), store_product_id),
                    Option::None => false,
                },
            };
            if hit {
                return Option::Some(k);
            }
            k += 1;
        }
        Option::None
    }

    /// Locate a product by its internal id.
    pub fn find_product_by_id(&self, id: u64) -> (r: Option<usize>)
        ensures
            ({
                let idx = product_id_index(self@.products, id);
                match r {
                    Option::Some(i) => idx == i as int && i < self.products.len(),
                    Option::None => idx == -1,
                }
            }),
    {
        proof {
            lemma_product_id_index(self@.products, id);
        }
        let n = self.products.len();
        let mut k: usize = 0;
        while k < n
            invariant
                n == self.products.len(),
                0 <= k <= n,
                forall|i: int| 0 <= i < k ==> self@.products[i].id != id,
                ({
                    let idx = product_id_index(self@.products, id);
                    &&& -1 <= idx < n
                    &&& idx == -1 ==> forall|i: int| 0 <= i < n ==> self@.products[i].id != id
                    &&& idx >= 0 ==> self@.products[idx].id == id && (forall|i: int|
                        0 <= i < idx ==> self@.products[i].id != id)
                }),
            decreases n - k,
        {
            if self.products[k].id == id {
                return Option::Some(k);
            }
            k += 1;
        }
        Option::None
    }

    /// Locate an entitlement definition by its id.
    pub fn find_entitlement(&self, id: u64) -> (r: Option<usize>)
        ensures
            ({
                let idx = entitlement_def_index(self@.entitlements, id);
                match r {
                    Option::Some(i) => idx == i as int && i < self.entitlements.len(),
                    Option::None => idx == -1,
                }
            }),
    {
        proof {
            lemma_entitlement_def_index(self@.entitlements, id);
        }
        let n = self.entitlements.len();
        let mut k: usize = 0;
        while k < n
            invariant
                n == self.entitlements.len(),
                0 <= k <= n,
                forall|i: int| 0 <= i < k ==> self@.entitlements[i].id != id,
                ({
                    let idx = entitlement_def_index(self@.entitlements, id);
                    &&& -1 <= idx < n
                    &&& idx == -1 ==> forall|i: int| 0 <= i < n ==> self@.entitlements[i].id != id
                    &&& idx >= 0 ==> self@.entitlements[idx].id == id && (forall|i: int|
                        0 <= i < idx ==> self@.entitlements[i].id != id)
                }),
            decreases n - k,
        {
            if self.entitlements[k].id == id {
                return Option::Some(k);
            }
            k += 1;
        }
        Option::None
    }
}

} // verus!
