//! An embedded, in-memory storage engine for a local catalog browser.
//!
//! The engine persists externally fetched catalog items, user curation state
//! (favorites, named collections, free-form tags), a capped search-history
//! log, and a staleness-checked snapshot of popular items, and serves
//! aggregated statistics over all of it.  Every operation carries a contract
//! describing exactly how it changes or reads the store.

mod collections;
mod db;
mod error;
mod favorites;
mod history;
mod popular;
mod records;
mod seqs;
mod stats;
mod tags;
mod updater;

pub use db::AppDatabase;
pub use error::StorageError;
pub use records::{Collection, FavoriteEntry, ItemRecord, Membership, SearchEntry, TagRow};
pub use stats::{
    AllStatistics, DashboardStats, LabelCount, MonthlyFavorites, PriceBucket, SearchHistoryStats,
};
pub use updater::{PendingUpdate, UpdateError, UpdateInfo};
