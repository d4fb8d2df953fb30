//! Collections: named, colored, ordered groupings of items, with
//! many-to-many membership rows.

use vstd::prelude::*;

use crate::db::{
    coll_idx_of, coll_in, coll_ids_unique, config_eq, favorites_eq, history_eq, id_in, idx_of,
    items_eq, pair_in, pairs_unique, popular_eq, tags_eq, AppDatabase,
};
use crate::error::StorageError;
use crate::records::{Collection, ItemRecord, Membership};
use crate::seqs::{keys_distinct, lemma_filter_elem, lemma_filter_keeps_distinct};

verus! {

/// `c` with its name replaced.
pub open spec fn with_name(c: Collection, name: String) -> Collection {
    Collection { id: c.id, name, color: c.color, created_at: c.created_at }
}

/// `c` with its color replaced.
pub open spec fn with_color(c: Collection, color: String) -> Collection {
    Collection { id: c.id, name: c.name, color, created_at: c.created_at }
}

/// The collection table without the collection keyed `id` (meaningful under
/// [`coll_ids_unique`] when [`coll_in`] holds).
pub open spec fn remove_coll(colls: Seq<Collection>, id: u64) -> Seq<Collection> {
    colls.remove(coll_idx_of(colls, id))
}

/// The membership rows without every row of collection `cid`.
pub open spec fn drop_coll_memberships(mems: Seq<Membership>, cid: u64) -> Seq<Membership> {
    mems.filter(|m: Membership| m.collection_id != cid)
}

/// The position of the membership row `(cid, iid)` (meaningful under
/// [`pairs_unique`] when [`pair_in`] holds).
pub open spec fn pair_idx_of(mems: Seq<Membership>, cid: u64, iid: u64) -> int {
    choose|i: int| 0 <= i < mems.len() && mems[i].collection_id == cid && mems[i].item_id == iid
}

/// Adding a membership row: a no-op when the pair is already present.
pub open spec fn add_pair(mems: Seq<Membership>, cid: u64, iid: u64) -> Seq<Membership> {
    if pair_in(mems, cid, iid) {
        mems
    } else {
        mems.push(Membership { collection_id: cid, item_id: iid })
    }
}

/// Removing a membership row: drops the pair if present, a no-op otherwise.
pub open spec fn remove_pair(mems: Seq<Membership>, cid: u64, iid: u64) -> Seq<Membership> {
    if pair_in(mems, cid, iid) {
        mems.remove(pair_idx_of(mems, cid, iid))
    } else {
        mems
    }
}

/// The collections containing item `iid`, in collection-creation order.
pub open spec fn colls_of_item(colls: Seq<Collection>, mems: Seq<Membership>, iid: u64) -> Seq<
    Collection,
> {
    colls.filter(|c: Collection| pair_in(mems, c.id, iid))
}

/// Deleting a collection cascades: afterwards the collection is gone and no
/// membership row of it remains, for any item; the items themselves are
/// untouched (the item table is not part of this transition at all).
pub proof fn lemma_delete_collection_cascades(
    colls: Seq<Collection>,
    mems: Seq<Membership>,
    cid: u64,
)
    requires
        coll_ids_unique(colls),
        coll_in(colls, cid),
    ensures
        !coll_in(remove_coll(colls, cid), cid),
        forall|iid: u64| !pair_in(drop_coll_memberships(mems, cid), cid, iid),
        forall|iid: u64|
            !colls_of_item(
                remove_coll(colls, cid),
                drop_coll_memberships(mems, cid),
                iid,
            ).contains(colls[coll_idx_of(colls, cid)]),
{
    broadcast use vstd::seq_lib::group_filter_ensures;

    let j = coll_idx_of(colls, cid);
    assert(0 <= j < colls.len() && colls[j].id == cid);
    let out = remove_coll(colls, cid);
    assert forall|k: int| 0 <= k < out.len() implies out[k].id != cid by {
        let pk: int = if k < j {
            k
        } else {
            k + 1
        };
        assert(out[k] == colls[pk]);
    }
    let dm = drop_coll_memberships(mems, cid);
    assert forall|iid: u64| !pair_in(dm, cid, iid) by {
        assert(forall|k: int|
            0 <= k < dm.len() ==> (#[trigger] dm[k]).collection_id != cid);
    }
    assert forall|iid: u64|
        !colls_of_item(out, dm, iid).contains(colls[j]) by {
        let f = colls_of_item(out, dm, iid);
        assert forall|k: int| 0 <= k < f.len() implies f[k] != colls[j] by {
            assert(pair_in(dm, f[k].id, iid));
        }
    }
}

impl AppDatabase {
    /// The position of the collection with id `id`, if any.
    pub(crate) fn coll_index(&self, id: u64) -> (r: Option<usize>)
        requires
            coll_ids_unique(self.collections@),
        ensures
            match r {
                Some(i) => i < self.collections@.len() && self.collections@[i as int].id == id
                    && coll_in(self.collections@, id) && coll_idx_of(self.collections@, id)
                    == i as int,
                None => !coll_in(self.collections@, id),
            },
    {
        let n = self.collections.len();
        let mut i: usize = 0;
        while i < n
            invariant
                i <= n,
                n == self.collections@.len(),
                coll_ids_unique(self.collections@),
                forall|k: int| 0 <= k < i ==> self.collections@[k].id != id,
            decreases n - i,
        {
            if self.collections[i].id == id {
                proof {
                    assert(coll_in(self.collections@, id));
                    let j = coll_idx_of(self.collections@, id);
                    assert(0 <= j < self.collections@.len() && self.collections@[j].id == id);
                    assert(j == i as int);
                }
                return Some(i);
            }
            i += 1;
        }
        None
    }

    /// The position of the membership row `(cid, iid)`, if any.
    fn membership_index(&self, cid: u64, iid: u64) -> (r: Option<usize>)
        requires
            pairs_unique(self.memberships@),
        ensures
            match r {
                Some(i) => i < self.memberships@.len()
                    && self.memberships@[i as int].collection_id == cid
                    && self.memberships@[i as int].item_id == iid
                    && pair_in(self.memberships@, cid, iid)
                    && pair_idx_of(self.memberships@, cid, iid) == i as int,
                None => !pair_in(self.memberships@, cid, iid),
            },
    {
        let n = self.memberships.len();
        let mut i: usize = 0;
        while i < n
            invariant
                i <= n,
                n == self.memberships@.len(),
                pairs_unique(self.memberships@),
                forall|k: int|
                    0 <= k < i ==> !((#[trigger] self.memberships@[k]).collection_id == cid
                        && self.memberships@[k].item_id == iid),
            decreases n - i,
        {
            let m = self.memberships[i];
            if m.collection_id == cid && m.item_id == iid {
                proof {
                    assert(pair_in(self.memberships@, cid, iid));
                    let j = pair_idx_of(self.memberships@, cid, iid);
                    assert(0 <= j < self.memberships@.len());
                    assert(j == i as int);
                }
                return Some(i);
            }
            i += 1;
        }
        None
    }

    /// Creates a new collection with a fresh identifier and returns it.
    /// Fails only when the identifier space is exhausted.
    pub fn create_collection(&mut self, name: String, color: String, now: u64) -> (r: Result<
        Collection,
        StorageError,
    >)
        requires
            old(self).wf(),
        ensures
            final(self).wf(),
            old(self).next_collection_id == u64::MAX ==> r == Err::<Collection, StorageError>(
                StorageError::Constraint,
            ) && *final(self) == *old(self),
            old(self).next_collection_id < u64::MAX ==> (r matches Ok(c)
                && c == (Collection {
                id: old(self).next_collection_id,
                name,
                color,
                created_at: now,
            }) && final(self).collections@ == old(self).collections@.push(c)
                && final(self).next_collection_id == old(self).next_collection_id + 1
                && final(self).memberships@ == old(self).memberships@),
            items_eq(*old(self), *final(self)),
            favorites_eq(*old(self), *final(self)),
            tags_eq(*old(self), *final(self)),
            history_eq(*old(self), *final(self)),
            popular_eq(*old(self), *final(self)),
            config_eq(*old(self), *final(self)),
    {
        if self.next_collection_id == u64::MAX {
            return Err(StorageError::Constraint);
        }
        let c = Collection { id: self.next_collection_id, name, color, created_at: now };
        let out = c.clone();
        self.collections.push(c);
        self.next_collection_id = self.next_collection_id + 1;
        proof {
            let colls = self.collections@;
            assert forall|a: int, b: int| 0 <= a < b < colls.len() implies colls[a].id
                != colls[b].id by {
                if b == colls.len() - 1 {
                    assert(colls[a] == old(self).collections@[a]);
                }
            }
            assert forall|k: int| 0 <= k < self.memberships@.len() implies coll_in(
                colls,
                self.memberships@[k].collection_id,
            ) by {
                let w = choose|w: int|
                    0 <= w < old(self).collections@.len() && old(self).collections@[w].id
                        == self.memberships@[k].collection_id;
                assert(colls[w].id == self.memberships@[k].collection_id);
            }
        }
        Ok(out)
    }

    /// Renames a collection; fails when the id is unknown.
    pub fn rename_collection(&mut self, id: u64, new_name: String) -> (r: Result<
        (),
        StorageError,
    >)
        requires
            old(self).wf(),
        ensures
            final(self).wf(),
            !coll_in(old(self).collections@, id) ==> r == Err::<(), StorageError>(
                StorageError::NotFound,
            ) && *final(self) == *old(self),
            coll_in(old(self).collections@, id) ==> r == Ok::<(), StorageError>(())
                && final(self).collections@ == old(self).collections@.update(
                coll_idx_of(old(self).collections@, id),
                with_name(
                    old(self).collections@[coll_idx_of(old(self).collections@, id)],
                    new_name,
                ),
            ) && final(self).memberships@ == old(self).memberships@
                && final(self).next_collection_id == old(self).next_collection_id,
            items_eq(*old(self), *final(self)),
            favorites_eq(*old(self), *final(self)),
            tags_eq(*old(self), *final(self)),
            history_eq(*old(self), *final(self)),
            popular_eq(*old(self), *final(self)),
            config_eq(*old(self), *final(self)),
    {
        match self.coll_index(id) {
            None => Err(StorageError::NotFound),
            Some(j) => {
                let c = self.collections[j].clone();
                self.collections[j] = Collection {
                    id: c.id,
                    name: new_name,
                    color: c.color,
                    created_at: c.created_at,
                };
                proof {
                    let colls = self.collections@;
                    let pre = old(self).collections@;
                    assert(forall|k: int| 0 <= k < colls.len() ==> colls[k].id == pre[k].id);
                    assert forall|k: int| 0 <= k < self.memberships@.len() implies coll_in(
                        colls,
                        self.memberships@[k].collection_id,
                    ) by {
                        let w = choose|w: int|
                            0 <= w < pre.len() && pre[w].id == self.memberships@[k].collection_id;
                        assert(colls[w].id == self.memberships@[k].collection_id);
                    }
                }
                Ok(())
            }
        }
    }

    /// Recolors a collection; fails when the id is unknown.
    pub fn update_collection_color(&mut self, id: u64, new_color: String) -> (r: Result<
        (),
        StorageError,
    >)
        requires
            old(self).wf(),
        ensures
            final(self).wf(),
            !coll_in(old(self).collections@, id) ==> r == Err::<(), StorageError>(
                StorageError::NotFound,
            ) && *final(self) == *old(self),
            coll_in(old(self).collections@, id) ==> r == Ok::<(), StorageError>(())
                && final(self).collections@ == old(self).collections@.update(
                coll_idx_of(old(self).collections@, id),
                with_color(
                    old(self).collections@[coll_idx_of(old(self).collections@, id)],
                    new_color,
                ),
            ) && final(self).memberships@ == old(self).memberships@
                && final(self).next_collection_id == old(self).next_collection_id,
            items_eq(*old(self), *final(self)),
            favorites_eq(*old(self), *final(self)),
            tags_eq(*old(self), *final(self)),
            history_eq(*old(self), *final(self)),
            popular_eq(*old(self), *final(self)),
            config_eq(*old(self), *final(self)),
    {
        match self.coll_index(id) {
            None => Err(StorageError::NotFound),
            Some(j) => {
                let c = self.collections[j].clone();
                self.collections[j] = Collection {
                    id: c.id,
                    name: c.name,
                    color: new_color,
                    created_at: c.created_at,
                };
                proof {
                    let colls = self.collections@;
                    let pre = old(self).collections@;
                    assert(forall|k: int| 0 <= k < colls.len() ==> colls[k].id == pre[k].id);
                    assert forall|k: int| 0 <= k < self.memberships@.len() implies coll_in(
                        colls,
                        self.memberships@[k].collection_id,
                    ) by {
                        let w = choose|w: int|
                            0 <= w < pre.len() && pre[w].id == self.memberships@[k].collection_id;
                        assert(colls[w].id == self.memberships@[k].collection_id);
                    }
                }
                Ok(())
            }
        }
    }

    /// Deletes a collection and cascades to its membership rows; the items
    /// themselves stay cached.  Fails when the id is unknown.
    pub fn delete_collection(&mut self, id: u64) -> (r: Result<(), StorageError>)
        requires
            old(self).wf(),
        ensures
            final(self).wf(),
            !coll_in(old(self).collections@, id) ==> r == Err::<(), StorageError>(
                StorageError::NotFound,
            ) && *final(self) == *old(self),
            coll_in(old(self).collections@, id) ==> r == Ok::<(), StorageError>(())
                && final(self).collections@ == remove_coll(old(self).collections@, id)
                && final(self).memberships@ == drop_coll_memberships(old(self).memberships@, id)
                && final(self).next_collection_id == old(self).next_collection_id,
            items_eq(*old(self), *final(self)),
            favorites_eq(*old(self), *final(self)),
            tags_eq(*old(self), *final(self)),
            history_eq(*old(self), *final(self)),
            popular_eq(*old(self), *final(self)),
            config_eq(*old(self), *final(self)),
    {
        match self.coll_index(id) {
            None => Err(StorageError::NotFound),
            Some(j) => {
                self.collections.remove(j);
                let ghost pred = |m: Membership| m.collection_id != id;
                let mut kept: Vec<Membership> = Vec::new();
                let n = self.memberships.len();
                let mut i: usize = 0;
                while i < n
                    invariant
                        i <= n,
                        n == self.memberships@.len(),
                        kept@ == self.memberships@.take(i as int).filter(pred),
                        pred == (|m: Membership| m.collection_id != id),
                    decreases n - i,
                {
                    let m = self.memberships[i];
                    proof {
                        reveal(Seq::filter);
                        assert(self.memberships@.take(i + 1).drop_last() =~= self.memberships@.take(
                            i as int,
                        ));
                        assert(self.memberships@.take(i + 1).last() == m);
                    }
                    if m.collection_id != id {
                        kept.push(m);
                    }
                    i += 1;
                }
                proof {
                    assert(self.memberships@.take(n as int) =~= self.memberships@);
                }
                self.memberships = kept;
                proof {
                    broadcast use vstd::seq_lib::group_filter_ensures;

                    let pre = old(self).collections@;
                    let colls = self.collections@;
                    let prem = old(self).memberships@;
                    let mems = self.memberships@;
                    assert(mems == drop_coll_memberships(prem, id));
                    assert forall|a: int, b: int| 0 <= a < b < colls.len() implies colls[a].id
                        != colls[b].id by {
                        let pa: int = if a < j as int {
                            a
                        } else {
                            a + 1
                        };
                        let pb: int = if b < j as int {
                            b
                        } else {
                            b + 1
                        };
                        assert(colls[a] == pre[pa] && colls[b] == pre[pb]);
                    }
                    assert forall|k: int| 0 <= k < colls.len() implies colls[k].id
                        < self.next_collection_id by {
                        let pk: int = if k < j as int {
                            k
                        } else {
                            k + 1
                        };
                        assert(colls[k] == pre[pk]);
                    }
                    let key = |m: Membership| (m.collection_id, m.item_id);
                    assert(keys_distinct(prem, key));
                    lemma_filter_keeps_distinct(prem, pred, key);
                    assert(pairs_unique(mems));
                    assert forall|k: int| 0 <= k < mems.len() implies coll_in(
                        colls,
                        mems[k].collection_id,
                    ) && id_in(self.items@, mems[k].item_id) by {
                        lemma_filter_elem(prem, pred, k);
                        let w = choose|w: int| 0 <= w < prem.len() && prem[w] == mems[k];
                        assert(coll_in(pre, prem[w].collection_id));
                        assert(id_in(self.items@, prem[w].item_id));
                        assert(pred(mems[k]));
                        let cw = choose|cw: int|
                            0 <= cw < pre.len() && pre[cw].id == mems[k].collection_id;
                        assert(pre[cw].id != id);
                        assert(cw != j as int);
                        let cw2: int = if cw < j as int {
                            cw
                        } else {
                            cw - 1
                        };
                        assert(colls[cw2] == pre[cw]);
                    }
                }
                Ok(())
            }
        }
    }

    /// Adds an item to a collection; idempotent on repeats, and fails when
    /// either id is unknown.
    pub fn add_to_collection(&mut self, collection_id: u64, item_id: u64) -> (r: Result<
        (),
        StorageError,
    >)
        requires
            old(self).wf(),
        ensures
            final(self).wf(),
            (!coll_in(old(self).collections@, collection_id) || !id_in(
                old(self).items@,
                item_id,
            )) ==> r == Err::<(), StorageError>(StorageError::NotFound) && *final(self) == *old(self),
            (coll_in(old(self).collections@, collection_id) && id_in(old(self).items@, item_id))
                ==> r == Ok::<(), StorageError>(()) && final(self).memberships@ == add_pair(
                old(self).memberships@,
                collection_id,
                item_id,
            ) && final(self).collections@ == old(self).collections@
                && final(self).next_collection_id == old(self).next_collection_id,
            items_eq(*old(self), *final(self)),
            favorites_eq(*old(self), *final(self)),
            tags_eq(*old(self), *final(self)),
            history_eq(*old(self), *final(self)),
            popular_eq(*old(self), *final(self)),
            config_eq(*old(self), *final(self)),
    {
        if self.coll_index(collection_id).is_none() {
            return Err(StorageError::NotFound);
        }
        if self.item_index(item_id).is_none() {
            return Err(StorageError::NotFound);
        }
        match self.membership_index(collection_id, item_id) {
            Some(_) => Ok(()),
            None => {
                self.memberships.push(Membership { collection_id, item_id });
                proof {
                    let mems = self.memberships@;
                    assert forall|a: int, b: int| 0 <= a < b < mems.len() implies !(mems[a].collection_id
                        == mems[b].collection_id && mems[a].item_id == mems[b].item_id) by {
                        if b == mems.len() - 1 {
                            assert(mems[a] == old(self).memberships@[a]);
                        }
                    }
                }
                Ok(())
            }
        }
    }

    /// Removes an item from a collection; removing an absent membership is
    /// a no-op, and an unknown id fails.
    pub fn remove_from_collection(&mut self, collection_id: u64, item_id: u64) -> (r: Result<
        (),
        StorageError,
    >)
        requires
            old(self).wf(),
        ensures
            final(self).wf(),
            (!coll_in(old(self).collections@, collection_id) || !id_in(
                old(self).items@,
                item_id,
            )) ==> r == Err::<(), StorageError>(StorageError::NotFound) && *final(self) == *old(self),
            (coll_in(old(self).collections@, collection_id) && id_in(old(self).items@, item_id))
                ==> r == Ok::<(), StorageError>(()) && final(self).memberships@ == remove_pair(
                old(self).memberships@,
                collection_id,
                item_id,
            ) && final(self).collections@ == old(self).collections@
                && final(self).next_collection_id == old(self).next_collection_id,
            items_eq(*old(self), *final(self)),
            favorites_eq(*old(self), *final(self)),
            tags_eq(*old(self), *final(self)),
            history_eq(*old(self), *final(self)),
            popular_eq(*old(self), *final(self)),
            config_eq(*old(self), *final(self)),
    {
        if self.coll_index(collection_id).is_none() {
            return Err(StorageError::NotFound);
        }
        if self.item_index(item_id).is_none() {
            return Err(StorageError::NotFound);
        }
        match self.membership_index(collection_id, item_id) {
            None => Ok(()),
            Some(j) => {
                self.memberships.remove(j);
                proof {
                    let pre = old(self).memberships@;
                    let mems = self.memberships@;
                    assert forall|a: int, b: int| 0 <= a < b < mems.len() implies !(mems[a].collection_id
                        == mems[b].collection_id && mems[a].item_id == mems[b].item_id) by {
                        let pa: int = if a < j as int {
                            a
                        } else {
                            a + 1
                        };
                        let pb: int = if b < j as int {
                            b
                        } else {
                            b + 1
                        };
                        assert(mems[a] == pre[pa] && mems[b] == pre[pb]);
                    }
                    assert forall|k: int| 0 <= k < mems.len() implies coll_in(
                        self.collections@,
                        mems[k].collection_id,
                    ) && id_in(self.items@, mems[k].item_id) by {
                        let pk: int = if k < j as int {
                            k
                        } else {
                            k + 1
                        };
                        assert(mems[k] == pre[pk]);
                    }
                }
                Ok(())
            }
        }
    }

    /// All collections, in creation order.
    pub fn get_collections(&self) -> (r: Vec<Collection>)
        ensures
            r@ == self.collections@,
    {
        let mut out: Vec<Collection> = Vec::new();
        let n = self.collections.len();
        let mut i: usize = 0;
        while i < n
            invariant
                i <= n,
                n == self.collections@.len(),
                out@ =~= self.collections@.take(i as int),
            decreases n - i,
        {
            out.push(self.collections[i].clone());
            proof {
                assert(out@ =~= self.collections@.take(i + 1));
            }
            i += 1;
        }
        proof {
            assert(self.collections@.take(n as int) =~= self.collections@);
        }
        out
    }

    /// The items of a collection, in membership-insertion order; fails when
    /// the collection id is unknown.
    pub fn get_collection_items(&self, collection_id: u64) -> (r: Result<
        Vec<ItemRecord>,
        StorageError,
    >)
        requires
            self.wf(),
        ensures
            !coll_in(self.collections@, collection_id) ==> r == Err::<Vec<ItemRecord>, StorageError>(
                StorageError::NotFound,
            ),
            coll_in(self.collections@, collection_id) ==> (r matches Ok(v) && {
                let sel = self.memberships@.filter(
                    (|m: Membership| m.collection_id == collection_id),
                );
                v@.len() == sel.len() && (forall|k: int|
                    0 <= k < sel.len() ==> v@[k] == self.items@[idx_of(
                        self.items@,
                        sel[k].item_id,
                    )])
            }),
    {
        if self.coll_index(collection_id).is_none() {
            return Err(StorageError::NotFound);
        }
        let ghost pred = |m: Membership| m.collection_id == collection_id;
        let mut out: Vec<ItemRecord> = Vec::new();
        let n = self.memberships.len();
        let mut i: usize = 0;
        while i < n
            invariant
                i <= n,
                n == self.memberships@.len(),
                self.wf(),
                pred == (|m: Membership| m.collection_id == collection_id),
                out@.len() == self.memberships@.take(i as int).filter(pred).len(),
                forall|k: int|
                    0 <= k < out@.len() ==> out@[k] == self.items@[idx_of(
                        self.items@,
                        self.memberships@.take(i as int).filter(pred)[k].item_id,
                    )],
            decreases n - i,
        {
            let m = self.memberships[i];
            proof {
                reveal(Seq::filter);
                assert(self.memberships@.take(i + 1).drop_last() =~= self.memberships@.take(
                    i as int,
                ));
                assert(self.memberships@.take(i + 1).last() == m);
            }
            if m.collection_id == collection_id {
                assert(id_in(self.items@, m.item_id));
                match self.item_index(m.item_id) {
                    Some(j) => {
                        out.push(self.items[j].clone());
                    }
                    None => {
                        proof {
                            assert(false);
                        }
                    }
                }
            }
            i += 1;
        }
        proof {
            assert(self.memberships@.take(n as int) =~= self.memberships@);
        }
        Ok(out)
    }

    /// The collections containing item `item_id`, in creation order; fails
    /// when the item id is unknown.
    pub fn get_item_collections(&self, item_id: u64) -> (r: Result<Vec<Collection>, StorageError>)
        requires
            self.wf(),
        ensures
            !id_in(self.items@, item_id) ==> r == Err::<Vec<Collection>, StorageError>(
                StorageError::NotFound,
            ),
            id_in(self.items@, item_id) ==> (r matches Ok(v) && v@ == colls_of_item(
                self.collections@,
                self.memberships@,
                item_id,
            )),
    {
        if self.item_index(item_id).is_none() {
            return Err(StorageError::NotFound);
        }
        let ghost pred = |c: Collection| pair_in(self.memberships@, c.id, item_id);
        let mut out: Vec<Collection> = Vec::new();
        let n = self.collections.len();
        let mut i: usize = 0;
        while i < n
            invariant
                i <= n,
                n == self.collections@.len(),
                self.wf(),
                pred == (|c: Collection| pair_in(self.memberships@, c.id, item_id)),
                out@ == self.collections@.take(i as int).filter(pred),
            decreases n - i,
        {
            let c = self.collections[i].clone();
            proof {
                reveal(Seq::filter);
                assert(self.collections@.take(i + 1).drop_last() =~= self.collections@.take(
                    i as int,
                ));
                assert(self.collections@.take(i + 1).last() == self.collections@[i as int]);
            }
            if self.membership_index(c.id, item_id).is_some() {
                out.push(c);
            }
            i += 1;
        }
        proof {
            assert(self.collections@.take(n as int) =~= self.collections@);
        }
        Ok(out)
    }

    /// The collections of each of the given items, in one bounded batch;
    /// fails when any of the item ids is unknown.
    pub fn get_all_item_collections_batch(&self, item_ids: &Vec<u64>) -> (r: Result<
        Vec<(u64, Vec<Collection>)>,
        StorageError,
    >)
        requires
            self.wf(),
        ensures
            (exists|k: int| 0 <= k < item_ids@.len() && !id_in(self.items@, item_ids@[k])) ==> r
                == Err::<Vec<(u64, Vec<Collection>)>, StorageError>(StorageError::NotFound),
            (forall|k: int| 0 <= k < item_ids@.len() ==> id_in(self.items@, item_ids@[k])) ==> (
            r matches Ok(v) && v@.len() == item_ids@.len() && (forall|k: int|
                0 <= k < v@.len() ==> (#[trigger] v@[k]).0 == item_ids@[k] && v@[k].1@
                    == colls_of_item(self.collections@, self.memberships@, item_ids@[k]))),
    {
        let mut out: Vec<(u64, Vec<Collection>)> = Vec::new();
        let n = item_ids.len();
        let mut i: usize = 0;
        while i < n
            invariant
                i <= n,
                n == item_ids@.len(),
                self.wf(),
                forall|k: int| 0 <= k < i ==> id_in(self.items@, item_ids@[k]),
                out@.len() == i,
                forall|k: int|
                    0 <= k < i ==> (#[trigger] out@[k]).0 == item_ids@[k] && out@[k].1@
                        == colls_of_item(self.collections@, self.memberships@, item_ids@[k]),
            decreases n - i,
        {
            let id = item_ids[i];
            match self.get_item_collections(id) {
                Ok(v) => {
                    out.push((id, v));
                }
                Err(e) => {
                    return Err(e);
                }
            }
            i += 1;
        }
        Ok(out)
    }
}

} // verus!
