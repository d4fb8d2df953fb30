use catalog_cache::{AppDatabase, ItemRecord, StorageError};

fn item(id: u64, name: &str, price: u64, category: &str, shop: &str) -> ItemRecord {
    ItemRecord {
        external_id: id,
        name: name.to_string(),
        price,
        category: category.to_string(),
        shop: shop.to_string(),
        thumbnail_url: format!("https://example.test/{}.png", id),
        last_cached_at: 0,
    }
}

#[test]
fn cache_items_upserts_and_counts() {
    let mut db = AppDatabase::new();
    let batch = vec![
        item(1, "Alpha", 100, "avatar", "shop-a"),
        item(2, "Beta", 200, "outfit", "shop-b"),
    ];
    assert_eq!(db.cache_items(&batch, 1000), Ok(2));
    assert_eq!(db.items.len(), 2);
    assert_eq!(db.items[0].name, "Alpha");
    assert_eq!(db.items[0].last_cached_at, 1000);

    let refresh = vec![item(1, "Alpha v2", 150, "avatar", "shop-a")];
    assert_eq!(db.cache_items(&refresh, 2000), Ok(1));
    assert_eq!(db.items.len(), 2);
    assert_eq!(db.items[0].name, "Alpha v2");
    assert_eq!(db.items[0].price, 150);
    assert_eq!(db.items[0].last_cached_at, 2000);
    assert_eq!(db.items[1].name, "Beta");
}

#[test]
fn cache_items_later_duplicate_wins() {
    let mut db = AppDatabase::new();
    let batch = vec![
        item(7, "First", 10, "a", "s"),
        item(7, "Second", 20, "a", "s"),
    ];
    assert_eq!(db.cache_items(&batch, 5), Ok(2));
    assert_eq!(db.items.len(), 1);
    assert_eq!(db.items[0].name, "Second");
    assert_eq!(db.items[0].price, 20);
}

#[test]
fn cache_items_fault_rolls_back_whole_batch() {
    let mut db = AppDatabase::new();
    let first = vec![item(1, "Kept", 10, "a", "s")];
    db.cache_items(&first, 1).unwrap();

    let batch = vec![
        item(2, "New A", 10, "a", "s"),
        item(3, "New B", 10, "a", "s"),
        item(1, "Changed", 99, "a", "s"),
    ];
    let r = db.cache_items_with_fault(&batch, 2, 1);
    assert_eq!(r, Err(StorageError::Io));
    assert_eq!(db.items.len(), 1);
    assert_eq!(db.items[0].name, "Kept");
    assert_eq!(db.items[0].price, 10);

    // With no fault before the end, the whole batch is applied.
    assert_eq!(db.cache_items_with_fault(&batch, 3, 3), Ok(3));
    assert_eq!(db.items.len(), 3);
}

#[test]
fn add_favorite_twice_is_idempotent() {
    let mut db = AppDatabase::new();
    db.cache_items(&vec![item(1, "A", 1, "c", "s"), item(2, "B", 2, "c", "s")], 0)
        .unwrap();
    assert_eq!(db.add_favorite(1, 10), Ok(()));
    assert_eq!(db.add_favorite(1, 20), Ok(()));
    let favs = db.get_favorites();
    assert_eq!(favs.len(), 1);
    assert_eq!(favs[0].external_id, 1);
    // The original timestamp is kept.
    assert_eq!(db.favorites[0].created_at, 10);
}

#[test]
fn remove_favorite_on_non_favorite_is_ok() {
    let mut db = AppDatabase::new();
    db.cache_items(&vec![item(1, "A", 1, "c", "s")], 0).unwrap();
    assert_eq!(db.remove_favorite(1), Ok(()));
    assert_eq!(db.remove_favorite(999), Ok(()));
    db.add_favorite(1, 5).unwrap();
    assert_eq!(db.remove_favorite(1), Ok(()));
    assert_eq!(db.remove_favorite(1), Ok(()));
    assert_eq!(db.get_favorites().len(), 0);
}

#[test]
fn add_favorite_unknown_item_fails() {
    let mut db = AppDatabase::new();
    assert_eq!(db.add_favorite(42, 0), Err(StorageError::NotFound));
}

#[test]
fn favorites_keep_insertion_order() {
    let mut db = AppDatabase::new();
    db.cache_items(&vec![item(1, "A", 1, "c", "s"), item(2, "B", 2, "c", "s")], 0)
        .unwrap();
    db.add_favorite(2, 10).unwrap();
    db.add_favorite(1, 20).unwrap();
    let favs = db.get_favorites();
    assert_eq!(favs.len(), 2);
    assert_eq!(favs[0].external_id, 2);
    assert_eq!(favs[1].external_id, 1);
}

#[test]
fn collection_create_rename_recolor() {
    let mut db = AppDatabase::new();
    let c = db
        .create_collection("Wishlist".to_string(), "#ff0000".to_string(), 7)
        .unwrap();
    assert_eq!(c.id, 1);
    assert_eq!(c.name, "Wishlist");
    assert_eq!(c.created_at, 7);
    let c2 = db
        .create_collection("Later".to_string(), "#00ff00".to_string(), 8)
        .unwrap();
    assert_eq!(c2.id, 2);

    db.rename_collection(1, "Dream list".to_string()).unwrap();
    db.update_collection_color(1, "#0000ff".to_string()).unwrap();
    let all = db.get_collections();
    assert_eq!(all.len(), 2);
    assert_eq!(all[0].name, "Dream list");
    assert_eq!(all[0].color, "#0000ff");
    assert_eq!(all[1].name, "Later");

    assert_eq!(
        db.rename_collection(99, "x".to_string()),
        Err(StorageError::NotFound)
    );
    assert_eq!(
        db.update_collection_color(99, "x".to_string()),
        Err(StorageError::NotFound)
    );
}

#[test]
fn delete_collection_cascades_but_items_stay() {
    let mut db = AppDatabase::new();
    db.cache_items(
        &vec![item(1, "A", 1, "c", "s"), item(3, "C", 3, "c", "s")],
        0,
    )
    .unwrap();
    let c = db
        .create_collection("Box".to_string(), "#fff".to_string(), 0)
        .unwrap();
    db.add_to_collection(c.id, 1).unwrap();
    db.add_to_collection(c.id, 3).unwrap();
    assert_eq!(db.get_collection_items(c.id).unwrap().len(), 2);

    db.delete_collection(c.id).unwrap();
    assert_eq!(db.get_collections().len(), 0);
    assert_eq!(db.memberships.len(), 0);
    assert!(db.get_item_collections(1).unwrap().is_empty());
    assert!(db.get_item_collections(3).unwrap().is_empty());
    // The items themselves remain cached.
    assert_eq!(db.items.len(), 2);
    assert!(matches!(
        db.get_collection_items(c.id),
        Err(StorageError::NotFound)
    ));
    assert_eq!(db.delete_collection(c.id), Err(StorageError::NotFound));
}

#[test]
fn membership_add_and_remove_are_idempotent() {
    let mut db = AppDatabase::new();
    db.cache_items(&vec![item(1, "A", 1, "c", "s")], 0).unwrap();
    let c = db
        .create_collection("Box".to_string(), "#fff".to_string(), 0)
        .unwrap();
    db.add_to_collection(c.id, 1).unwrap();
    db.add_to_collection(c.id, 1).unwrap();
    assert_eq!(db.get_collection_items(c.id).unwrap().len(), 1);
    db.remove_from_collection(c.id, 1).unwrap();
    db.remove_from_collection(c.id, 1).unwrap();
    assert_eq!(db.get_collection_items(c.id).unwrap().len(), 0);
    assert_eq!(db.add_to_collection(c.id, 999), Err(StorageError::NotFound));
    assert_eq!(db.add_to_collection(999, 1), Err(StorageError::NotFound));
}

#[test]
fn collection_items_keep_insertion_order() {
    let mut db = AppDatabase::new();
    db.cache_items(
        &vec![
            item(1, "A", 1, "c", "s"),
            item(2, "B", 2, "c", "s"),
            item(3, "C", 3, "c", "s"),
        ],
        0,
    )
    .unwrap();
    let c = db
        .create_collection("Box".to_string(), "#fff".to_string(), 0)
        .unwrap();
    db.add_to_collection(c.id, 2).unwrap();
    db.add_to_collection(c.id, 1).unwrap();
    db.add_to_collection(c.id, 3).unwrap();
    let items = db.get_collection_items(c.id).unwrap();
    let ids: Vec<u64> = items.iter().map(|it| it.external_id).collect();
    assert_eq!(ids, vec![2, 1, 3]);
}

#[test]
fn set_item_tags_is_a_true_set_replace() {
    let mut db = AppDatabase::new();
    db.cache_items(&vec![item(1, "A", 1, "c", "s")], 0).unwrap();
    db.set_item_tags(1, &vec!["a".to_string(), "b".to_string()])
        .unwrap();
    db.set_item_tags(1, &vec!["b".to_string(), "c".to_string()])
        .unwrap();
    let tags = db.get_item_tags(1).unwrap();
    assert_eq!(tags, vec!["b".to_string(), "c".to_string()]);
}

#[test]
fn tags_are_normalized_and_deduplicated() {
    let mut db = AppDatabase::new();
    db.cache_items(&vec![item(1, "A", 1, "c", "s")], 0).unwrap();
    db.set_item_tags(
        1,
        &vec!["Blue".to_string(), "blue".to_string(), "RARE".to_string()],
    )
    .unwrap();
    let tags = db.get_item_tags(1).unwrap();
    assert_eq!(tags, vec!["blue".to_string(), "rare".to_string()]);
    assert_eq!(
        db.set_item_tags(42, &vec!["x".to_string()]),
        Err(StorageError::NotFound)
    );
}

#[test]
fn tags_of_other_items_survive_a_replace() {
    let mut db = AppDatabase::new();
    db.cache_items(&vec![item(1, "A", 1, "c", "s"), item(2, "B", 2, "c", "s")], 0)
        .unwrap();
    db.set_item_tags(1, &vec!["keep".to_string()]).unwrap();
    db.set_item_tags(2, &vec!["other".to_string()]).unwrap();
    db.set_item_tags(2, &vec!["new".to_string()]).unwrap();
    assert_eq!(db.get_item_tags(1).unwrap(), vec!["keep".to_string()]);
    assert_eq!(db.get_item_tags(2).unwrap(), vec!["new".to_string()]);
    let all = db.get_all_user_tags();
    assert_eq!(all, vec!["keep".to_string(), "new".to_string()]);
}

#[test]
fn batch_tag_and_collection_queries() {
    let mut db = AppDatabase::new();
    db.cache_items(
        &vec![
            item(1, "A", 1, "c", "s"),
            item(2, "B", 2, "c", "s"),
            item(3, "C", 3, "c", "s"),
        ],
        0,
    )
    .unwrap();
    db.set_item_tags(1, &vec!["blue".to_string(), "rare".to_string()])
        .unwrap();
    let c = db
        .create_collection("Wishlist".to_string(), "#fff".to_string(), 0)
        .unwrap();
    db.add_to_collection(c.id, 1).unwrap();

    let tags = db.get_all_item_tags_batch(&vec![1, 2, 3]).unwrap();
    assert_eq!(tags.len(), 3);
    assert_eq!(tags[0].0, 1);
    assert_eq!(tags[0].1, vec!["blue".to_string(), "rare".to_string()]);
    assert!(tags[1].1.is_empty());
    assert!(tags[2].1.is_empty());

    let colls = db.get_all_item_collections_batch(&vec![1, 2]).unwrap();
    assert_eq!(colls[0].1.len(), 1);
    assert_eq!(colls[0].1[0].name, "Wishlist");
    assert!(colls[1].1.is_empty());

    assert!(db.get_all_item_tags_batch(&vec![1, 42]).is_err());
}

#[test]
fn search_history_is_capped() {
    let mut db = AppDatabase::with_config(3, 60);
    for (i, q) in ["one", "two", "three", "four", "five"].iter().enumerate() {
        db.save_search_history(q.to_string(), i as u64).unwrap();
    }
    assert_eq!(db.history.len(), 3);
    assert_eq!(db.history[0].query, "three");
    assert_eq!(db.history[2].query, "five");
}

#[test]
fn snapshot_staleness_lifecycle() {
    let mut db = AppDatabase::with_config(100, 86400);
    // Absent: always stale.
    assert!(db.check_avatars_need_update(0));
    assert!(db.check_avatars_need_update(u64::MAX));
    db.update_popular_avatar(vec![item(1, "A", 1, "c", "s")], 1000)
        .unwrap();
    // Fresh immediately after the update, until the interval elapses.
    assert!(!db.check_avatars_need_update(1000));
    assert!(!db.check_avatars_need_update(1000 + 86399));
    assert!(db.check_avatars_need_update(1000 + 86400));
}

#[test]
fn snapshot_generations_replace_each_other_whole() {
    let mut db = AppDatabase::new();
    db.update_popular_avatar(
        vec![item(1, "A", 1, "c", "s"), item(2, "B", 2, "c", "s")],
        10,
    )
    .unwrap();
    let g1 = db.get_popular_avatars();
    assert_eq!(g1.len(), 2);
    assert_eq!(g1[0].external_id, 1);
    assert_eq!(g1[1].external_id, 2);

    db.update_popular_avatar(vec![item(3, "C", 3, "c", "s")], 20)
        .unwrap();
    let g2 = db.get_popular_avatars();
    assert_eq!(g2.len(), 1);
    assert_eq!(g2[0].external_id, 3);
}

#[test]
fn error_messages_are_stable_strings() {
    assert_eq!(StorageError::Io.message(), "storage access failed");
    assert_eq!(StorageError::Schema.message(), "schema migration failed");
    assert_eq!(StorageError::NotFound.message(), "referenced id not found");
    assert_eq!(StorageError::Constraint.message(), "constraint violated");
    assert_eq!(StorageError::Query.message(), "invalid query parameters");
}

#[test]
fn end_to_end_scenario() {
    let mut db = AppDatabase::new();
    db.cache_items(
        &vec![
            item(1, "A", 1000, "avatar", "shop-a"),
            item(2, "B", 2000, "avatar", "shop-b"),
            item(3, "C", 3000, "outfit", "shop-a"),
        ],
        100,
    )
    .unwrap();
    db.add_favorite(1, 110).unwrap();
    db.add_favorite(2, 120).unwrap();
    let c = db
        .create_collection("Wishlist".to_string(), "#abc".to_string(), 130)
        .unwrap();
    db.add_to_collection(c.id, 1).unwrap();
    db.add_to_collection(c.id, 3).unwrap();
    db.set_item_tags(1, &vec!["blue".to_string(), "rare".to_string()])
        .unwrap();

    let stats = db.get_dashboard_stats();
    assert_eq!(stats.total_items, 3);
    assert_eq!(stats.total_favorites, 2);
    assert_eq!(stats.total_collections, 1);

    let colls = db.get_item_collections(1).unwrap();
    assert_eq!(colls.len(), 1);
    assert_eq!(colls[0].name, "Wishlist");

    let tags = db.get_all_item_tags_batch(&vec![1, 2, 3]).unwrap();
    assert_eq!(tags[0].1, vec!["blue".to_string(), "rare".to_string()]);
    assert!(tags[1].1.is_empty());
    assert!(tags[2].1.is_empty());
}
