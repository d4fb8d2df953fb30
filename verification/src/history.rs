//! The append-only, capped search-history log.

use vstd::prelude::*;

use crate::db::{
    collections_eq, config_eq, favorites_eq, items_eq, popular_eq, tags_eq, AppDatabase,
};
use crate::error::StorageError;
use crate::records::SearchEntry;

verus! {

/// `s` trimmed to its most recent `cap` rows.
pub open spec fn trim(s: Seq<SearchEntry>, cap: int) -> Seq<SearchEntry> {
    if s.len() <= cap {
        s
    } else {
        s.skip(s.len() - cap)
    }
}

impl AppDatabase {
    /// Appends a timestamped search-history row and prunes the oldest rows
    /// beyond the configured retention bound in the same write.
    pub fn save_search_history(&mut self, query: String, now: u64) -> (r: Result<
        (),
        StorageError,
    >)
        requires
            old(self).wf(),
        ensures
            final(self).wf(),
            r == Ok::<(), StorageError>(()),
            final(self).history@ == trim(
                old(self).history@.push(SearchEntry { query, searched_at: now }),
                old(self).history_cap as int,
            ),
            items_eq(*old(self), *final(self)),
            favorites_eq(*old(self), *final(self)),
            collections_eq(*old(self), *final(self)),
            tags_eq(*old(self), *final(self)),
            popular_eq(*old(self), *final(self)),
            config_eq(*old(self), *final(self)),
    {
        self.history.push(SearchEntry { query, searched_at: now });
        if self.history.len() > self.history_cap {
            self.history.remove(0);
            proof {
                let pushed = old(self).history@.push(
                    SearchEntry { query, searched_at: now },
                );
                assert(self.history@ =~= pushed.skip(1));
                assert(pushed.len() - self.history_cap as int == 1);
                assert(self.history@ == trim(pushed, old(self).history_cap as int));
            }
        }
        Ok(())
    }
}

} // verus!
