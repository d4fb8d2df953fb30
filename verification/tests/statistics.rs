use catalog_cache::{AppDatabase, ItemRecord, StorageError};

fn item(id: u64, name: &str, price: u64, category: &str, shop: &str) -> ItemRecord {
    ItemRecord {
        external_id: id,
        name: name.to_string(),
        price,
        category: category.to_string(),
        shop: shop.to_string(),
        thumbnail_url: String::new(),
        last_cached_at: 0,
    }
}

fn sample_db() -> AppDatabase {
    let mut db = AppDatabase::new();
    db.cache_items(
        &vec![
            item(1, "A", 0, "avatar", "beta"),
            item(2, "B", 999, "avatar", "alpha"),
            item(3, "C", 1000, "outfit", "beta"),
            item(4, "D", 5000, "avatar", "gamma"),
            item(5, "E", 10000, "prop", "beta"),
            item(6, "F", u64::MAX, "outfit", "alpha"),
        ],
        0,
    )
    .unwrap();
    db
}

#[test]
fn top_tags_ranks_by_frequency_then_first_appearance() {
    let mut db = sample_db();
    db.set_item_tags(1, &vec!["red".to_string(), "rare".to_string()])
        .unwrap();
    db.set_item_tags(2, &vec!["red".to_string()]).unwrap();
    db.set_item_tags(3, &vec!["red".to_string(), "rare".to_string(), "blue".to_string()])
        .unwrap();

    let top = db.get_top_tags(2);
    assert_eq!(top.len(), 2);
    assert_eq!(top[0].label, "red");
    assert_eq!(top[0].count, 3);
    assert_eq!(top[1].label, "rare");
    assert_eq!(top[1].count, 2);

    let all = db.get_top_tags(10);
    assert_eq!(all.len(), 3);
    assert_eq!(all[2].label, "blue");
    assert_eq!(all[2].count, 1);
}

#[test]
fn top_aggregations_are_deterministic_across_calls() {
    let db = sample_db();
    let a = db.get_top_shops(10);
    let b = db.get_top_shops(10);
    assert_eq!(a.len(), b.len());
    for (x, y) in a.iter().zip(b.iter()) {
        assert_eq!(x.label, y.label);
        assert_eq!(x.count, y.count);
    }
    // beta occurs three times; alpha twice; gamma once.
    assert_eq!(a[0].label, "beta");
    assert_eq!(a[0].count, 3);
    assert_eq!(a[1].label, "alpha");
    assert_eq!(a[1].count, 2);
    assert_eq!(a[2].label, "gamma");
    assert_eq!(a[2].count, 1);
}

#[test]
fn equal_counts_keep_first_appearance_order() {
    let mut db = AppDatabase::new();
    db.cache_items(
        &vec![
            item(1, "A", 1, "c", "zeta"),
            item(2, "B", 1, "c", "alpha"),
        ],
        0,
    )
    .unwrap();
    let shops = db.get_top_shops(10);
    assert_eq!(shops.len(), 2);
    assert_eq!(shops[0].label, "zeta");
    assert_eq!(shops[1].label, "alpha");
}

#[test]
fn category_distribution_counts_every_group() {
    let db = sample_db();
    let dist = db.get_category_distribution();
    assert_eq!(dist.len(), 3);
    assert_eq!(dist[0].label, "avatar");
    assert_eq!(dist[0].count, 3);
    assert_eq!(dist[1].label, "outfit");
    assert_eq!(dist[1].count, 2);
    assert_eq!(dist[2].label, "prop");
    assert_eq!(dist[2].count, 1);
}

#[test]
fn price_distribution_buckets_cover_the_range() {
    let db = sample_db();
    let prices = db.get_price_distribution();
    assert_eq!(prices.len(), 4);
    assert_eq!((prices[0].lower, prices[0].upper, prices[0].count), (0, 999, 2));
    assert_eq!((prices[1].lower, prices[1].upper, prices[1].count), (1000, 4999, 1));
    assert_eq!((prices[2].lower, prices[2].upper, prices[2].count), (5000, 9999, 1));
    assert_eq!(
        (prices[3].lower, prices[3].upper, prices[3].count),
        (10000, u64::MAX, 2)
    );
}

#[test]
fn monthly_favorites_are_contiguous_and_zero_filled() {
    let mut db = AppDatabase::new();
    db.cache_items(&vec![item(1, "A", 1, "c", "s"), item(2, "B", 2, "c", "s")], 0)
        .unwrap();
    // 2024-02-01 00:00:00 UTC and 2024-03-15 12:00:00 UTC.
    let feb = 1706745600u64;
    let mar = 1710504000u64;
    db.add_favorite(1, feb).unwrap();
    db.add_favorite(2, mar).unwrap();

    let rows = db.get_monthly_favorites(mar, 3).unwrap();
    assert_eq!(rows.len(), 3);
    assert_eq!((rows[0].year, rows[0].month, rows[0].count), (2024, 1, 0));
    assert_eq!((rows[1].year, rows[1].month, rows[1].count), (2024, 2, 1));
    assert_eq!((rows[2].year, rows[2].month, rows[2].count), (2024, 3, 1));
}

#[test]
fn monthly_favorites_window_crosses_year_boundaries() {
    let mut db = AppDatabase::new();
    db.cache_items(&vec![item(1, "A", 1, "c", "s")], 0).unwrap();
    // 2023-12-31 23:59:59 UTC.
    db.add_favorite(1, 1704067199).unwrap();
    // 2024-01-10 00:00:00 UTC.
    let rows = db.get_monthly_favorites(1704844800, 2).unwrap();
    assert_eq!(rows.len(), 2);
    assert_eq!((rows[0].year, rows[0].month, rows[0].count), (2023, 12, 1));
    assert_eq!((rows[1].year, rows[1].month, rows[1].count), (2024, 1, 0));
}

#[test]
fn monthly_favorites_rejects_malformed_windows() {
    let db = AppDatabase::new();
    assert!(matches!(
        db.get_monthly_favorites(0, 0),
        Err(StorageError::Query)
    ));
    assert!(matches!(
        db.get_monthly_favorites(0, 121),
        Err(StorageError::Query)
    ));
}

#[test]
fn search_history_stats_count_distinct_queries() {
    let mut db = AppDatabase::new();
    db.save_search_history("cat".to_string(), 1).unwrap();
    db.save_search_history("dog".to_string(), 2).unwrap();
    db.save_search_history("cat".to_string(), 3).unwrap();
    let s = db.get_search_history_stats();
    assert_eq!(s.total_searches, 3);
    assert_eq!(s.distinct_queries, 2);
}

#[test]
fn all_statistics_compose_and_fail_as_a_whole() {
    let mut db = sample_db();
    db.set_item_tags(1, &vec!["red".to_string()]).unwrap();
    db.add_favorite(1, 1710504000).unwrap();
    db.save_search_history("query".to_string(), 5).unwrap();

    let all = db.get_all_statistics(1710504000, 6, 5).unwrap();
    assert_eq!(all.dashboard.total_items, 6);
    assert_eq!(all.dashboard.total_favorites, 1);
    assert_eq!(all.dashboard.total_searches, 1);
    assert_eq!(all.categories.len(), 3);
    assert_eq!(all.prices.len(), 4);
    assert_eq!(all.top_tags.len(), 1);
    assert_eq!(all.top_tags[0].label, "red");
    assert_eq!(all.top_shops[0].label, "beta");
    assert_eq!(all.monthly_favorites.len(), 6);
    assert_eq!(all.monthly_favorites[5].count, 1);
    assert_eq!(all.search.total_searches, 1);

    // A malformed month window fails the whole composition.
    assert!(matches!(
        db.get_all_statistics(1710504000, 0, 5),
        Err(StorageError::Query)
    ));
}
