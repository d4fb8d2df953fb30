//! Favorites: an item-keyed relation with insertion order and
//! idempotent add/remove.

use vstd::prelude::*;

use crate::db::{
    collections_eq, config_eq, fav_contains, fav_ids_unique, history_eq, id_in, idx_of, items_eq,
    popular_eq, tags_eq, AppDatabase,
};
use crate::error::StorageError;
use crate::records::{FavoriteEntry, ItemRecord};

verus! {

/// The position of the favorite row for item `id` (meaningful under
/// [`fav_ids_unique`] when [`fav_contains`] holds).
pub open spec fn fav_idx_of(favs: Seq<FavoriteEntry>, id: u64) -> int {
    choose|i: int| 0 <= i < favs.len() && favs[i].item_id == id
}

/// Adding a favorite: a no-op when the item is already favorited, an
/// appended row otherwise.
pub open spec fn add_fav(favs: Seq<FavoriteEntry>, id: u64, now: u64) -> Seq<FavoriteEntry> {
    if fav_contains(favs, id) {
        favs
    } else {
        favs.push(FavoriteEntry { item_id: id, created_at: now })
    }
}

/// Removing a favorite: drops the row for `id` if one exists, a no-op
/// otherwise.
pub open spec fn remove_fav(favs: Seq<FavoriteEntry>, id: u64) -> Seq<FavoriteEntry> {
    if fav_contains(favs, id) {
        favs.remove(fav_idx_of(favs, id))
    } else {
        favs
    }
}

/// Favoriting is idempotent: adding the same item twice leaves exactly the
/// favorites that one add leaves, whatever the second timestamp.
pub proof fn lemma_add_favorite_idempotent(
    favs: Seq<FavoriteEntry>,
    id: u64,
    t1: u64,
    t2: u64,
)
    ensures
        add_fav(add_fav(favs, id, t1), id, t2) == add_fav(favs, id, t1),
{
    let f1 = add_fav(favs, id, t1);
    if !fav_contains(favs, id) {
        assert(f1[favs.len() as int].item_id == id);
        assert(fav_contains(f1, id));
    }
}

/// Removing a never-favorited item is a no-op, not an error.
pub proof fn lemma_remove_favorite_absent(favs: Seq<FavoriteEntry>, id: u64)
    requires
        !fav_contains(favs, id),
    ensures
        remove_fav(favs, id) == favs,
{
}

impl AppDatabase {
    /// The position of the favorite row for item `id`, if any.
    fn favorite_index(&self, id: u64) -> (r: Option<usize>)
        requires
            fav_ids_unique(self.favorites@),
        ensures
            match r {
                Some(i) => i < self.favorites@.len() && self.favorites@[i as int].item_id == id
                    && fav_contains(self.favorites@, id) && fav_idx_of(self.favorites@, id)
                    == i as int,
                None => !fav_contains(self.favorites@, id),
            },
    {
        let n = self.favorites.len();
        let mut i: usize = 0;
        while i < n
            invariant
                i <= n,
                n == self.favorites@.len(),
                fav_ids_unique(self.favorites@),
                forall|k: int| 0 <= k < i ==> self.favorites@[k].item_id != id,
            decreases n - i,
        {
            if self.favorites[i].item_id == id {
                proof {
                    assert(fav_contains(self.favorites@, id));
                    let j = fav_idx_of(self.favorites@, id);
                    assert(0 <= j < self.favorites@.len() && self.favorites@[j].item_id == id);
                    assert(j == i as int);
                }
                return Some(i);
            }
            i += 1;
        }
        None
    }

    /// Marks a cached item as a favorite.  Favoriting an already-favorited
    /// item is an idempotent no-op; an unknown item id is rejected.
    pub fn add_favorite(&mut self, item_id: u64, now: u64) -> (r: Result<(), StorageError>)
        requires
            old(self).wf(),
        ensures
            final(self).wf(),
            !id_in(old(self).items@, item_id) ==> r == Err::<(), StorageError>(
                StorageError::NotFound,
            ) && *final(self) == *old(self),
            id_in(old(self).items@, item_id) ==> r == Ok::<(), StorageError>(())
                && final(self).favorites@ == add_fav(old(self).favorites@, item_id, now),
            items_eq(*old(self), *final(self)),
            collections_eq(*old(self), *final(self)),
            tags_eq(*old(self), *final(self)),
            history_eq(*old(self), *final(self)),
            popular_eq(*old(self), *final(self)),
            config_eq(*old(self), *final(self)),
    {
        if self.item_index(item_id).is_none() {
            return Err(StorageError::NotFound);
        }
        match self.favorite_index(item_id) {
            Some(_) => Ok(()),
            None => {
                self.favorites.push(FavoriteEntry { item_id, created_at: now });
                proof {
                    let favs = self.favorites@;
                    assert forall|a: int, b: int| 0 <= a < b < favs.len() implies favs[a].item_id
                        != favs[b].item_id by {
                        if b == favs.len() - 1 {
                            assert(favs[a] == old(self).favorites@[a]);
                        }
                    }
                }
                Ok(())
            }
        }
    }

    /// Unmarks an item as a favorite.  Removing a non-favorited (or even
    /// unknown) item succeeds as a no-op.
    pub fn remove_favorite(&mut self, item_id: u64) -> (r: Result<(), StorageError>)
        requires
            old(self).wf(),
        ensures
            final(self).wf(),
            r == Ok::<(), StorageError>(()),
            final(self).favorites@ == remove_fav(old(self).favorites@, item_id),
            items_eq(*old(self), *final(self)),
            collections_eq(*old(self), *final(self)),
            tags_eq(*old(self), *final(self)),
            history_eq(*old(self), *final(self)),
            popular_eq(*old(self), *final(self)),
            config_eq(*old(self), *final(self)),
    {
        match self.favorite_index(item_id) {
            Some(j) => {
                self.favorites.remove(j);
                proof {
                    let pre = old(self).favorites@;
                    let favs = self.favorites@;
                    assert forall|a: int, b: int| 0 <= a < b < favs.len() implies favs[a].item_id
                        != favs[b].item_id by {
                        let pa: int = if a < j { a } else { a + 1 };
                        let pb: int = if b < j { b } else { b + 1 };
                        assert(favs[a] == pre[pa] && favs[b] == pre[pb]);
                    }
                    assert forall|k: int| 0 <= k < favs.len() implies id_in(
                        self.items@,
                        favs[k].item_id,
                    ) by {
                        let pk: int = if k < j { k } else { k + 1 };
                        assert(favs[k] == pre[pk]);
                    }
                }
                Ok(())
            }
            None => Ok(()),
        }
    }

    /// The favorited items, in the order they were favorited.
    pub fn get_favorites(&self) -> (r: Vec<ItemRecord>)
        requires
            self.wf(),
        ensures
            r@.len() == self.favorites@.len(),
            forall|i: int|
                0 <= i < r@.len() ==> r@[i] == self.items@[idx_of(
                    self.items@,
                    self.favorites@[i].item_id,
                )],
    {
        let mut out: Vec<ItemRecord> = Vec::new();
        let n = self.favorites.len();
        let mut i: usize = 0;
        while i < n
            invariant
                i <= n,
                n == self.favorites@.len(),
                self.wf(),
                out@.len() == i,
                forall|k: int|
                    0 <= k < i ==> out@[k] == self.items@[idx_of(
                        self.items@,
                        self.favorites@[k].item_id,
                    )],
            decreases n - i,
        {
            let id = self.favorites[i].item_id;
            assert(id_in(self.items@, id));
            match self.item_index(id) {
                Some(j) => {
                    out.push(self.items[j].clone());
                }
                None => {
                    proof {
                        assert(false);
                    }
                }
            }
            i += 1;
        }
        out
    }
}

} // verus!
