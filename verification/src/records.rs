//! The persisted record types of the storage engine.

use vstd::prelude::*;

verus! {

/// A cached catalog item, keyed by a stable external identifier.
///
/// Items are created or refreshed by the item cache whenever fresh data
/// arrives and are never deleted explicitly.
pub struct ItemRecord {
    /// The stable external identifier; unique and immutable.
    pub external_id: u64,
    /// Display name.
    pub name: String,
    /// Price in the catalog's minor currency unit.
    pub price: u64,
    /// Category label.
    pub category: String,
    /// Shop label.
    pub shop: String,
    /// Thumbnail URL.
    pub thumbnail_url: String,
    /// When this record was last written by the cache.
    pub last_cached_at: u64,
}

impl Clone for ItemRecord {
    fn clone(&self) -> (r: Self)
        ensures
            r == *self,
    {
        ItemRecord {
            external_id: self.external_id,
            name: self.name.clone(),
            price: self.price,
            category: self.category.clone(),
            shop: self.shop.clone(),
            thumbnail_url: self.thumbnail_url.clone(),
            last_cached_at: self.last_cached_at,
        }
    }
}

/// A user-named, user-colored grouping of items.
pub struct Collection {
    /// Unique identifier, assigned by the engine.
    pub id: u64,
    /// User-chosen name; mutable and not necessarily unique.
    pub name: String,
    /// User-chosen color; mutable.
    pub color: String,
    /// When the collection was created.
    pub created_at: u64,
}

impl Clone for Collection {
    fn clone(&self) -> (r: Self)
        ensures
            r == *self,
    {
        Collection {
            id: self.id,
            name: self.name.clone(),
            color: self.color.clone(),
            created_at: self.created_at,
        }
    }
}

/// One favorites row: at most one per item.
#[derive(Clone, Copy, PartialEq, Eq, Structural)]
pub struct FavoriteEntry {
    /// The favorited item.
    pub item_id: u64,
    /// When the favorite was added.
    pub created_at: u64,
}

/// One collection-membership row; insertion order is display order.
#[derive(Clone, Copy, PartialEq, Eq, Structural)]
pub struct Membership {
    /// The containing collection.
    pub collection_id: u64,
    /// The contained item.
    pub item_id: u64,
}

/// One tag row: a normalized label attached to an item.
pub struct TagRow {
    /// The tagged item.
    pub item_id: u64,
    /// The normalized (ASCII-lowercased) tag label.
    pub tag: String,
}

impl Clone for TagRow {
    fn clone(&self) -> (r: Self)
        ensures
            r == *self,
    {
        TagRow { item_id: self.item_id, tag: self.tag.clone() }
    }
}

/// One search-history row.
pub struct SearchEntry {
    /// The query text as searched.
    pub query: String,
    /// When the search was made.
    pub searched_at: u64,
}

impl Clone for SearchEntry {
    fn clone(&self) -> (r: Self)
        ensures
            r == *self,
    {
        SearchEntry { query: self.query.clone(), searched_at: self.searched_at }
    }
}

} // verus!
