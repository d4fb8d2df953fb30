//! The popular-items snapshot: a whole generation replaced atomically,
//! refreshed only when judged stale against the configured interval.

use vstd::prelude::*;

use crate::db::{
    collections_eq, config_eq, favorites_eq, history_eq, items_eq, tags_eq, AppDatabase,
};
use crate::error::StorageError;
use crate::records::ItemRecord;

verus! {

/// The staleness rule: a snapshot needs refreshing while absent, and again
/// once the refresh interval has elapsed since the last update.
pub open spec fn needs_update(fetched: Option<u64>, interval: u64, now: u64) -> bool {
    match fetched {
        None => true,
        Some(t) => now >= t + interval,
    }
}

/// The snapshot state machine driven purely by elapsed time: stale while
/// absent, fresh immediately after an update, stale again exactly when the
/// interval has elapsed.
pub proof fn lemma_snapshot_staleness(interval: u64, t: u64, now: u64)
    requires
        interval >= 1,
    ensures
        needs_update(None::<u64>, interval, now),
        !needs_update(Some(t), interval, t),
        needs_update(Some(t), interval, now) <==> now >= t + interval,
{
}

impl AppDatabase {
    /// Whether the popular-items snapshot is absent or stale under the
    /// configured refresh interval at wall-clock time `now`.
    pub fn check_avatars_need_update(&self, now: u64) -> (r: bool)
        requires
            self.wf(),
        ensures
            r == needs_update(self.popular_fetched_at, self.refresh_interval, now),
    {
        match self.popular_fetched_at {
            None => true,
            Some(t) => {
                if t > u64::MAX - self.refresh_interval {
                    false
                } else {
                    now >= t + self.refresh_interval
                }
            }
        }
    }

    /// Replaces the whole snapshot generation atomically with the given
    /// ranked records and stamps it with `now`; a reader never sees a mix
    /// of the old and the new ranking.
    pub fn update_popular_avatar(&mut self, records: Vec<ItemRecord>, now: u64) -> (r: Result<
        (),
        StorageError,
    >)
        requires
            old(self).wf(),
        ensures
            final(self).wf(),
            r == Ok::<(), StorageError>(()),
            final(self).popular@ == records@,
            final(self).popular_fetched_at == Some(now),
            items_eq(*old(self), *final(self)),
            favorites_eq(*old(self), *final(self)),
            collections_eq(*old(self), *final(self)),
            tags_eq(*old(self), *final(self)),
            history_eq(*old(self), *final(self)),
            config_eq(*old(self), *final(self)),
    {
        self.popular = records;
        self.popular_fetched_at = Some(now);
        Ok(())
    }

    /// The last committed snapshot generation, in rank order.
    pub fn get_popular_avatars(&self) -> (r: Vec<ItemRecord>)
        ensures
            r@ == self.popular@,
    {
        let mut out: Vec<ItemRecord> = Vec::new();
        let n = self.popular.len();
        let mut i: usize = 0;
        while i < n
            invariant
                i <= n,
                n == self.popular@.len(),
                out@ =~= self.popular@.take(i as int),
            decreases n - i,
        {
            out.push(self.popular[i].clone());
            proof {
                assert(out@ =~= self.popular@.take(i + 1));
            }
            i += 1;
        }
        proof {
            assert(self.popular@.take(n as int) =~= self.popular@);
        }
        out
    }
}

} // verus!
