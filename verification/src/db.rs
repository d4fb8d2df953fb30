//! The storage engine itself: one owned, transactional, in-memory store.
//!
//! The engine is constructed once at startup and handed to every operation;
//! all persisted state lives in its fields, and every mutation goes through
//! a contracted method that preserves the engine's well-formedness.

use vstd::prelude::*;

use crate::records::{Collection, FavoriteEntry, ItemRecord, Membership, SearchEntry, TagRow};
use crate::error::StorageError;
use crate::tags::lowered;

verus! {

/// Default bound on retained search-history rows.
pub const DEFAULT_HISTORY_CAP: usize = 100;

/// Default refresh interval, in seconds, for the popular-items snapshot.
pub const DEFAULT_REFRESH_INTERVAL: u64 = 86400;

/// The embedded storage engine.
///
/// Callers treat the fields as read-only and go through the engine's
/// methods; every method requires and preserves [`AppDatabase::wf`].
pub struct AppDatabase {
    /// Cached catalog items, in first-cache order; external ids are unique.
    pub items: Vec<ItemRecord>,
    /// Favorites, in insertion order; at most one row per item.
    pub favorites: Vec<FavoriteEntry>,
    /// Collections, in creation order; ids are unique.
    pub collections: Vec<Collection>,
    /// The next collection id to assign; larger than every assigned id.
    pub next_collection_id: u64,
    /// Collection membership rows, in insertion order; pairs are unique.
    pub memberships: Vec<Membership>,
    /// Tag rows; `(item, label)` pairs are unique and labels are normalized.
    pub tag_rows: Vec<TagRow>,
    /// Search-history rows, oldest first, at most `history_cap` of them.
    pub history: Vec<SearchEntry>,
    /// The current popular-items snapshot generation, in rank order.
    pub popular: Vec<ItemRecord>,
    /// When the snapshot was last replaced; `None` while absent.
    pub popular_fetched_at: Option<u64>,
    /// Retention bound for search history.
    pub history_cap: usize,
    /// Snapshot refresh interval in seconds; at least one.
    pub refresh_interval: u64,
}

/// All external ids in `items` are distinct.
pub open spec fn ids_unique(items: Seq<ItemRecord>) -> bool {
    forall|i: int, j: int|
        0 <= i < j < items.len() ==> items[i].external_id != items[j].external_id
}

/// Some item in `items` carries the external id `id`.
pub open spec fn id_in(items: Seq<ItemRecord>, id: u64) -> bool {
    exists|i: int| 0 <= i < items.len() && items[i].external_id == id
}

/// The position of the item with external id `id` (meaningful under
/// [`ids_unique`] when [`id_in`] holds).
pub open spec fn idx_of(items: Seq<ItemRecord>, id: u64) -> int {
    choose|i: int| 0 <= i < items.len() && items[i].external_id == id
}

/// All favorited item ids are distinct.
pub open spec fn fav_ids_unique(favs: Seq<FavoriteEntry>) -> bool {
    forall|i: int, j: int| 0 <= i < j < favs.len() ==> favs[i].item_id != favs[j].item_id
}

/// Some favorite row references item `id`.
pub open spec fn fav_contains(favs: Seq<FavoriteEntry>, id: u64) -> bool {
    exists|i: int| 0 <= i < favs.len() && favs[i].item_id == id
}

/// All collection ids are distinct.
pub open spec fn coll_ids_unique(colls: Seq<Collection>) -> bool {
    forall|i: int, j: int| 0 <= i < j < colls.len() ==> colls[i].id != colls[j].id
}

/// Some collection carries id `id`.
pub open spec fn coll_in(colls: Seq<Collection>, id: u64) -> bool {
    exists|i: int| 0 <= i < colls.len() && colls[i].id == id
}

/// The position of the collection with id `id`.
pub open spec fn coll_idx_of(colls: Seq<Collection>, id: u64) -> int {
    choose|i: int| 0 <= i < colls.len() && colls[i].id == id
}

/// The membership pair `(cid, iid)` is present.
pub open spec fn pair_in(mems: Seq<Membership>, cid: u64, iid: u64) -> bool {
    exists|i: int| 0 <= i < mems.len() && mems[i].collection_id == cid && mems[i].item_id == iid
}

/// All membership pairs are distinct.
pub open spec fn pairs_unique(mems: Seq<Membership>) -> bool {
    forall|i: int, j: int|
        0 <= i < j < mems.len() ==> !(mems[i].collection_id == mems[j].collection_id
            && mems[i].item_id == mems[j].item_id)
}

/// All `(item, label)` tag pairs are distinct, at the level of label views.
pub open spec fn tag_pairs_unique(rows: Seq<TagRow>) -> bool {
    forall|i: int, j: int|
        0 <= i < j < rows.len() ==> !(rows[i].item_id == rows[j].item_id
            && rows[i].tag@ == rows[j].tag@)
}

/// The curation state (favorites) is the same in `a` and `b`.
pub open spec fn favorites_eq(a: AppDatabase, b: AppDatabase) -> bool {
    a.favorites@ == b.favorites@
}

/// The item table is the same in `a` and `b`.
pub open spec fn items_eq(a: AppDatabase, b: AppDatabase) -> bool {
    a.items@ == b.items@
}

/// Collections, the id counter, and memberships are the same in `a` and `b`.
pub open spec fn collections_eq(a: AppDatabase, b: AppDatabase) -> bool {
    a.collections@ == b.collections@ && a.next_collection_id == b.next_collection_id
        && a.memberships@ == b.memberships@
}

/// The tag table is the same in `a` and `b`.
pub open spec fn tags_eq(a: AppDatabase, b: AppDatabase) -> bool {
    a.tag_rows@ == b.tag_rows@
}

/// The search history is the same in `a` and `b`.
pub open spec fn history_eq(a: AppDatabase, b: AppDatabase) -> bool {
    a.history@ == b.history@
}

/// The popular-items snapshot is the same in `a` and `b`.
pub open spec fn popular_eq(a: AppDatabase, b: AppDatabase) -> bool {
    a.popular@ == b.popular@ && a.popular_fetched_at == b.popular_fetched_at
}

/// The configured policy constants are the same in `a` and `b`.
pub open spec fn config_eq(a: AppDatabase, b: AppDatabase) -> bool {
    a.history_cap == b.history_cap && a.refresh_interval == b.refresh_interval
}

/// `rec` with its cache timestamp refreshed to `now`.
pub open spec fn refreshed(rec: ItemRecord, now: u64) -> ItemRecord {
    ItemRecord {
        external_id: rec.external_id,
        name: rec.name,
        price: rec.price,
        category: rec.category,
        shop: rec.shop,
        thumbnail_url: rec.thumbnail_url,
        last_cached_at: now,
    }
}

/// Upserting one record: overwrite the row with the same external id if one
/// exists, append a new row otherwise.
pub open spec fn cache_one(items: Seq<ItemRecord>, rec: ItemRecord, now: u64) -> Seq<ItemRecord> {
    if id_in(items, rec.external_id) {
        items.update(idx_of(items, rec.external_id), refreshed(rec, now))
    } else {
        items.push(refreshed(rec, now))
    }
}

/// Upserting a whole batch, in order; a later record with the same external
/// id overwrites an earlier one.
pub open spec fn cache_batch(items: Seq<ItemRecord>, recs: Seq<ItemRecord>, now: u64) -> Seq<
    ItemRecord,
>
    decreases recs.len(),
{
    if recs.len() == 0 {
        items
    } else {
        cache_one(cache_batch(items, recs.drop_last(), now), recs.last(), now)
    }
}

impl AppDatabase {
    /// The engine's well-formedness: uniqueness of keys, referential
    /// integrity from curation state to the item and collection tables,
    /// tag normalization, and the history bound.
    pub open spec fn wf(&self) -> bool {
        &&& ids_unique(self.items@)
        &&& fav_ids_unique(self.favorites@)
        &&& forall|i: int|
            0 <= i < self.favorites@.len() ==> id_in(self.items@, self.favorites@[i].item_id)
        &&& coll_ids_unique(self.collections@)
        &&& forall|i: int|
            0 <= i < self.collections@.len() ==> self.collections@[i].id < self.next_collection_id
        &&& pairs_unique(self.memberships@)
        &&& forall|i: int|
            0 <= i < self.memberships@.len() ==> coll_in(
                self.collections@,
                self.memberships@[i].collection_id,
            )
        &&& forall|i: int|
            0 <= i < self.memberships@.len() ==> id_in(self.items@, self.memberships@[i].item_id)
        &&& tag_pairs_unique(self.tag_rows@)
        &&& forall|i: int|
            0 <= i < self.tag_rows@.len() ==> id_in(self.items@, self.tag_rows@[i].item_id)
        &&& forall|i: int| 0 <= i < self.tag_rows@.len() ==> lowered(self.tag_rows@[i].tag@)
        &&& self.history@.len() <= self.history_cap
        &&& self.refresh_interval >= 1
    }

    /// An empty store with the default policy constants.
    pub fn new() -> (db: AppDatabase)
        ensures
            db.wf(),
            db.items@.len() == 0,
            db.favorites@.len() == 0,
            db.collections@.len() == 0,
            db.next_collection_id == 1,
            db.memberships@.len() == 0,
            db.tag_rows@.len() == 0,
            db.history@.len() == 0,
            db.popular@.len() == 0,
            db.popular_fetched_at is None,
            db.history_cap == DEFAULT_HISTORY_CAP,
            db.refresh_interval == DEFAULT_REFRESH_INTERVAL,
    {
        AppDatabase {
            items: Vec::new(),
            favorites: Vec::new(),
            collections: Vec::new(),
            next_collection_id: 1,
            memberships: Vec::new(),
            tag_rows: Vec::new(),
            history: Vec::new(),
            popular: Vec::new(),
            popular_fetched_at: None,
            history_cap: DEFAULT_HISTORY_CAP,
            refresh_interval: DEFAULT_REFRESH_INTERVAL,
        }
    }

    /// An empty store with explicit policy constants: the search-history
    /// retention bound and the snapshot refresh interval in seconds.
    pub fn with_config(history_cap: usize, refresh_interval: u64) -> (db: AppDatabase)
        requires
            refresh_interval >= 1,
        ensures
            db.wf(),
            db.items@.len() == 0,
            db.favorites@.len() == 0,
            db.collections@.len() == 0,
            db.next_collection_id == 1,
            db.memberships@.len() == 0,
            db.tag_rows@.len() == 0,
            db.history@.len() == 0,
            db.popular@.len() == 0,
            db.popular_fetched_at is None,
            db.history_cap == history_cap,
            db.refresh_interval == refresh_interval,
    {
        AppDatabase {
            items: Vec::new(),
            favorites: Vec::new(),
            collections: Vec::new(),
            next_collection_id: 1,
            memberships: Vec::new(),
            tag_rows: Vec::new(),
            history: Vec::new(),
            popular: Vec::new(),
            popular_fetched_at: None,
            history_cap,
            refresh_interval,
        }
    }

    /// The position of the item with external id `id`, if any.
    pub(crate) fn item_index(&self, id: u64) -> (r: Option<usize>)
        requires
            ids_unique(self.items@),
        ensures
            match r {
                Some(i) => i < self.items@.len() && self.items@[i as int].external_id == id
                    && id_in(self.items@, id) && idx_of(self.items@, id) == i as int,
                None => !id_in(self.items@, id),
            },
    {
        let n = self.items.len();
        let mut i: usize = 0;
        while i < n
            invariant
                i <= n,
                n == self.items@.len(),
                ids_unique(self.items@),
                forall|k: int| 0 <= k < i ==> self.items@[k].external_id != id,
            decreases n - i,
        {
            if self.items[i].external_id == id {
                proof {
                    assert(id_in(self.items@, id));
                    let j = idx_of(self.items@, id);
                    assert(0 <= j < self.items@.len() && self.items@[j].external_id == id);
                    assert(j == i as int);
                }
                return Some(i);
            }
            i += 1;
        }
        None
    }

    /// Upserts a batch of externally fetched records, in order, as one
    /// transaction: on success every record is applied and the count of
    /// applied records is returned.  A later duplicate external id in the
    /// batch wins over an earlier one.
    pub fn cache_items(&mut self, records: &Vec<ItemRecord>, now: u64) -> (r: Result<
        usize,
        StorageError,
    >)
        requires
            old(self).wf(),
        ensures
            final(self).wf(),
            r matches Ok(n) && n == records@.len(),
            final(self).items@ == cache_batch(old(self).items@, records@, now),
            favorites_eq(*old(self), *final(self)),
            collections_eq(*old(self), *final(self)),
            tags_eq(*old(self), *final(self)),
            history_eq(*old(self), *final(self)),
            popular_eq(*old(self), *final(self)),
            config_eq(*old(self), *final(self)),
    {
        let n = records.len();
        let mut i: usize = 0;
        while i < n
            invariant
                i <= n,
                n == records@.len(),
                old(self).wf(),
                self.wf(),
                self.items@ == cache_batch(old(self).items@, records@.take(i as int), now),
                forall|id: u64| id_in(old(self).items@, id) ==> id_in(self.items@, id),
                favorites_eq(*old(self), *self),
                collections_eq(*old(self), *self),
                tags_eq(*old(self), *self),
                history_eq(*old(self), *self),
                popular_eq(*old(self), *self),
                config_eq(*old(self), *self),
            decreases n - i,
        {
            let ghost pre_items = self.items@;
            let rec = records[i].clone();
            let fresh = ItemRecord {
                external_id: rec.external_id,
                name: rec.name,
                price: rec.price,
                category: rec.category,
                shop: rec.shop,
                thumbnail_url: rec.thumbnail_url,
                last_cached_at: now,
            };
            match self.item_index(fresh.external_id) {
                Some(j) => {
                    self.items[j] = fresh;
                }
                None => {
                    self.items.push(fresh);
                }
            }
            proof {
                assert(self.items@ == cache_one(pre_items, records@[i as int], now));
                lemma_cache_one_ids(pre_items, records@[i as int], now);
                assert(records@.take(i + 1).drop_last() =~= records@.take(i as int));
                assert(records@.take(i + 1).last() == records@[i as int]);
                assert(self.items@ == cache_batch(old(self).items@, records@.take(i + 1), now));
            }
            i += 1;
        }
        proof {
            assert(records@.take(n as int) =~= records@);
        }
        Ok(n)
    }

    /// Behaves like [`AppDatabase::cache_items`], but simulates the
    /// underlying transactional store failing once `fail_after` records of
    /// the batch have been applied.  A simulated mid-batch fault rolls the
    /// whole transaction back: no record of the batch becomes visible.
    pub fn cache_items_with_fault(
        &mut self,
        records: &Vec<ItemRecord>,
        now: u64,
        fail_after: usize,
    ) -> (r: Result<usize, StorageError>)
        requires
            old(self).wf(),
        ensures
            final(self).wf(),
            fail_after < records@.len() ==> (r matches Err(e) && e == StorageError::Io)
                && *final(self) == *old(self),
            fail_after >= records@.len() ==> (r matches Ok(n) && n == records@.len())
                && final(self).items@ == cache_batch(old(self).items@, records@, now),
            favorites_eq(*old(self), *final(self)),
            collections_eq(*old(self), *final(self)),
            tags_eq(*old(self), *final(self)),
            history_eq(*old(self), *final(self)),
            popular_eq(*old(self), *final(self)),
            config_eq(*old(self), *final(self)),
    {
        if fail_after < records.len() {
            Err(StorageError::Io)
        } else {
            self.cache_items(records, now)
        }
    }
}

/// Upserting one record keeps external ids unique and loses no id.
pub proof fn lemma_cache_one_ids(items: Seq<ItemRecord>, rec: ItemRecord, now: u64)
    requires
        ids_unique(items),
    ensures
        ids_unique(cache_one(items, rec, now)),
        forall|id: u64| id_in(items, id) ==> id_in(cache_one(items, rec, now), id),
        id_in(cache_one(items, rec, now), rec.external_id),
    {
    let out = cache_one(items, rec, now);
    if id_in(items, rec.external_id) {
        let j = idx_of(items, rec.external_id);
        assert(0 <= j < items.len() && items[j].external_id == rec.external_id);
        assert(forall|k: int| 0 <= k < out.len() && k != j ==> out[k] == items[k]);
        assert(out[j].external_id == items[j].external_id);
        assert(ids_unique(out)) by {
            assert(forall|a: int, b: int|
                0 <= a < b < out.len() ==> out[a].external_id != out[b].external_id) by {
                assert(forall|k: int|
                    0 <= k < out.len() ==> out[k].external_id == items[k].external_id);
            }
        }
        assert forall|id: u64| id_in(items, id) implies id_in(out, id) by {
            let w = choose|i: int| 0 <= i < items.len() && items[i].external_id == id;
            assert(out[w].external_id == id);
        }
        assert(out[j].external_id == rec.external_id);
    } else {
        assert(forall|k: int| 0 <= k < items.len() ==> out[k] == items[k]);
        assert(out.last().external_id == rec.external_id);
        assert forall|id: u64| id_in(items, id) implies id_in(out, id) by {
            let w = choose|i: int| 0 <= i < items.len() && items[i].external_id == id;
            assert(out[w].external_id == id);
        }
        assert(id_in(out, rec.external_id)) by {
            assert(out[items.len() as int].external_id == rec.external_id);
        }
    }
}

} // verus!
