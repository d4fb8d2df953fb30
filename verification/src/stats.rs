//! Read-only statistics over the cached items, curation state and search
//! history: summary counts, group-by distributions, top-N rankings and
//! monthly favorite counts.

use vstd::prelude::*;

use crate::db::AppDatabase;
use crate::error::StorageError;
use crate::records::{FavoriteEntry, ItemRecord, SearchEntry, TagRow};
use crate::tags::{dedup_first, views_of};
use vstd::arithmetic::div_mod::{lemma_div_is_ordered, lemma_div_nonincreasing, lemma_fundamental_div_mod};

verus! {

/// Summary counts for the dashboard.
#[derive(Clone, Copy, PartialEq, Eq, Structural, Debug)]
pub struct DashboardStats {
    /// Number of cached items.
    pub total_items: usize,
    /// Number of favorites.
    pub total_favorites: usize,
    /// Number of collections.
    pub total_collections: usize,
    /// Number of retained search-history rows.
    pub total_searches: usize,
}

/// One label of a group-by aggregation, with its frequency.
pub struct LabelCount {
    /// The grouped label.
    pub label: String,
    /// How many rows carry it.
    pub count: u64,
}

impl Clone for LabelCount {
    fn clone(&self) -> (r: Self)
        ensures
            r == *self,
    {
        LabelCount { label: self.label.clone(), count: self.count }
    }
}

/// One bucket of the price histogram, with inclusive bounds.
#[derive(Clone, Copy, PartialEq, Eq, Structural, Debug)]
pub struct PriceBucket {
    /// Smallest price that falls in the bucket.
    pub lower: u64,
    /// Largest price that falls in the bucket.
    pub upper: u64,
    /// How many items fall in the bucket.
    pub count: u64,
}

/// The label-view/count pairs of a ranking, for contracts.
pub open spec fn lc_views(s: Seq<LabelCount>) -> Seq<(Seq<char>, u64)> {
    s.map_values(|l: LabelCount| (l.label@, l.count))
}

/// How often `v` occurs in `vs`.
pub open spec fn count_occ(vs: Seq<Seq<char>>, v: Seq<char>) -> int
    decreases vs.len(),
{
    if vs.len() == 0 {
        0
    } else {
        count_occ(vs.drop_last(), v) + if vs.last() == v {
            1int
        } else {
            0int
        }
    }
}

/// The distinct labels of `vs` in first-appearance order, each paired with
/// its frequency.
pub open spec fn tally(vs: Seq<Seq<char>>) -> Seq<(Seq<char>, u64)> {
    let d = dedup_first(vs);
    Seq::new(d.len(), |i: int| (d[i], count_occ(vs, d[i]) as u64))
}

/// `p` inserted into `s` after every entry whose count is at least `p`'s:
/// insertion into a descending ranking that keeps earlier entries first on
/// ties, so the ranking order is deterministic.
pub open spec fn insert_desc(s: Seq<(Seq<char>, u64)>, p: (Seq<char>, u64)) -> Seq<
    (Seq<char>, u64),
>
    decreases s.len(),
{
    if s.len() == 0 {
        seq![p]
    } else if s[0].1 >= p.1 {
        seq![s[0]] + insert_desc(s.drop_first(), p)
    } else {
        seq![p] + s
    }
}

/// `s` sorted by count, descending, by stable insertion: ties keep their
/// first-appearance order.
pub open spec fn sort_desc(s: Seq<(Seq<char>, u64)>) -> Seq<(Seq<char>, u64)>
    decreases s.len(),
{
    if s.len() == 0 {
        s
    } else {
        insert_desc(sort_desc(s.drop_last()), s.last())
    }
}

/// The full ranking of the labels of `vs`, truncated to its `n` leading
/// entries.
pub open spec fn spec_top(vs: Seq<Seq<char>>, n: int) -> Seq<(Seq<char>, u64)> {
    let sorted = sort_desc(tally(vs));
    if n < sorted.len() {
        sorted.take(n)
    } else {
        sorted
    }
}

/// Insertion keeps the length.
pub proof fn lemma_insert_desc_len(s: Seq<(Seq<char>, u64)>, p: (Seq<char>, u64))
    ensures
        insert_desc(s, p).len() == s.len() + 1,
    decreases s.len(),
{
    if s.len() > 0 && s[0].1 >= p.1 {
        lemma_insert_desc_len(s.drop_first(), p);
    }
}

/// Sorting keeps the length.
pub proof fn lemma_sort_desc_len(s: Seq<(Seq<char>, u64)>)
    ensures
        sort_desc(s).len() == s.len(),
    decreases s.len(),
{
    if s.len() > 0 {
        lemma_sort_desc_len(s.drop_last());
        lemma_insert_desc_len(sort_desc(s.drop_last()), s.last());
    }
}

/// Where the first entry with a count below `p`'s stands at `j`, insertion
/// places `p` exactly there.
pub proof fn lemma_insert_desc_at(s: Seq<(Seq<char>, u64)>, p: (Seq<char>, u64), j: int)
    requires
        0 <= j <= s.len(),
        forall|k: int| 0 <= k < j ==> (#[trigger] s[k]).1 >= p.1,
        j < s.len() ==> s[j].1 < p.1,
    ensures
        insert_desc(s, p) == s.take(j) + seq![p] + s.skip(j),
    decreases j,
{
    if j == 0 {
        if s.len() == 0 {
            assert(insert_desc(s, p) =~= s.take(0) + seq![p] + s.skip(0));
        } else {
            assert(s[0].1 < p.1);
            assert(insert_desc(s, p) =~= s.take(0) + seq![p] + s.skip(0));
        }
    } else {
        assert(s[0].1 >= p.1);
        let d = s.drop_first();
        assert(forall|k: int| 0 <= k < j - 1 ==> (#[trigger] d[k]).1 == s[k + 1].1);
        lemma_insert_desc_at(d, p, j - 1);
        assert(insert_desc(s, p) == seq![s[0]] + (d.take(j - 1) + seq![p] + d.skip(j - 1)));
        assert(seq![s[0]] + (d.take(j - 1) + seq![p] + d.skip(j - 1)) =~= s.take(j) + seq![p]
            + s.skip(j));
    }
}

/// Insertion preserves descending order.
pub proof fn lemma_insert_desc_sorted(s: Seq<(Seq<char>, u64)>, p: (Seq<char>, u64))
    requires
        forall|a: int, b: int| 0 <= a < b < s.len() ==> (#[trigger] s[a]).1 >= (#[trigger] s[b]).1,
    ensures
        forall|a: int, b: int|
            0 <= a < b < insert_desc(s, p).len() ==> (#[trigger] insert_desc(s, p)[a]).1
                >= (#[trigger] insert_desc(s, p)[b]).1,
    decreases s.len(),
{
    let out = insert_desc(s, p);
    if s.len() == 0 {
    } else if s[0].1 >= p.1 {
        let d = s.drop_first();
        assert(forall|a: int, b: int|
            0 <= a < b < d.len() ==> (#[trigger] d[a]).1 >= (#[trigger] d[b]).1);
        lemma_insert_desc_sorted(d, p);
        let rest = insert_desc(d, p);
        lemma_insert_desc_len(d, p);
        assert forall|a: int, b: int| 0 <= a < b < out.len() implies (#[trigger] out[a]).1
            >= (#[trigger] out[b]).1 by {
            if a == 0 {
                assert(out[b] == rest[b - 1]);
                if s.len() > 0 {
                    lemma_insert_desc_elem(d, p, b - 1);
                }
            } else {
                assert(out[a] == rest[a - 1] && out[b] == rest[b - 1]);
            }
        }
    } else {
    }
}

/// Every entry of an insertion result is the inserted entry or one of the
/// original entries.
pub proof fn lemma_insert_desc_elem(s: Seq<(Seq<char>, u64)>, p: (Seq<char>, u64), i: int)
    requires
        0 <= i < insert_desc(s, p).len(),
    ensures
        insert_desc(s, p)[i] == p || exists|j: int| 0 <= j < s.len() && s[j] == #[trigger] insert_desc(
            s,
            p,
        )[i],
    decreases s.len(),
{
    let out = insert_desc(s, p);
    if s.len() == 0 {
    } else if s[0].1 >= p.1 {
        if i == 0 {
            assert(s[0] == out[0]);
        } else {
            lemma_insert_desc_elem(s.drop_first(), p, i - 1);
            let rest = insert_desc(s.drop_first(), p);
            assert(out[i] == rest[i - 1]);
            if rest[i - 1] != p {
                let j = choose|j: int|
                    0 <= j < s.drop_first().len() && s.drop_first()[j] == rest[i - 1];
                assert(s[j + 1] == out[i]);
            }
        }
    } else {
        if i > 0 {
            assert(s[i - 1] == out[i]);
        }
    }
}

/// Insertion keeps exactly the entries: one new entry, none lost.
pub proof fn lemma_insert_desc_multiset(s: Seq<(Seq<char>, u64)>, p: (Seq<char>, u64))
    ensures
        insert_desc(s, p).to_multiset() =~= s.to_multiset().insert(p),
    decreases s.len(),
{
    broadcast use vstd::seq_lib::group_to_multiset_ensures;
    broadcast use vstd::multiset::group_multiset_axioms;

    let out = insert_desc(s, p);
    if s.len() == 0 {
        assert(seq![p] =~= Seq::<(Seq<char>, u64)>::empty().push(p));
        assert(s =~= Seq::<(Seq<char>, u64)>::empty());
    } else if s[0].1 >= p.1 {
        let d = s.drop_first();
        lemma_insert_desc_multiset(d, p);
        vstd::seq_lib::lemma_multiset_commutative(seq![s[0]], insert_desc(d, p));
        assert(s =~= seq![s[0]] + d);
        vstd::seq_lib::lemma_multiset_commutative(seq![s[0]], d);
        assert(out.to_multiset() =~= s.to_multiset().insert(p));
    } else {
        vstd::seq_lib::lemma_multiset_commutative(seq![p], s);
        assert(seq![p] =~= Seq::<(Seq<char>, u64)>::empty().push(p));
        assert(out.to_multiset() =~= s.to_multiset().insert(p));
    }
}

/// The ranking is a permutation of the tally: no label/count entry is lost
/// or invented by sorting.
pub proof fn lemma_sort_desc_multiset(s: Seq<(Seq<char>, u64)>)
    ensures
        sort_desc(s).to_multiset() =~= s.to_multiset(),
    decreases s.len(),
{
    broadcast use vstd::seq_lib::group_to_multiset_ensures;
    broadcast use vstd::multiset::group_multiset_axioms;

    if s.len() > 0 {
        let d = s.drop_last();
        lemma_sort_desc_multiset(d);
        lemma_insert_desc_multiset(sort_desc(d), s.last());
        assert(s =~= d.push(s.last()));
        assert(sort_desc(s).to_multiset() =~= s.to_multiset());
    }
}

/// The ranking is sorted: counts never increase along it.  Together with
/// the stable tie-break this pins one deterministic order.
pub proof fn lemma_sort_desc_sorted(s: Seq<(Seq<char>, u64)>)
    ensures
        forall|a: int, b: int|
            0 <= a < b < sort_desc(s).len() ==> (#[trigger] sort_desc(s)[a]).1
                >= (#[trigger] sort_desc(s)[b]).1,
    decreases s.len(),
{
    if s.len() > 0 {
        lemma_sort_desc_sorted(s.drop_last());
        lemma_insert_desc_sorted(sort_desc(s.drop_last()), s.last());
    }
}

/// Aggregation is deterministic: on equal underlying data, repeated
/// rankings are identical, tie-break order included.  Two results that both
/// satisfy a ranking contract over the same store are therefore the same.
pub proof fn lemma_top_deterministic(
    vs1: Seq<Seq<char>>,
    vs2: Seq<Seq<char>>,
    n: int,
    r1: Seq<(Seq<char>, u64)>,
    r2: Seq<(Seq<char>, u64)>,
)
    requires
        vs1 == vs2,
        r1 == spec_top(vs1, n),
        r2 == spec_top(vs2, n),
    ensures
        r1 == r2,
{
}

impl AppDatabase {
    /// How often a label occurs in `labels`.
    fn count_label(labels: &Vec<String>, v: &String) -> (c: u64)
        ensures
            c as int == count_occ(views_of(labels@), v@),
            c <= labels@.len(),
    {
        let n = labels.len();
        let mut c: u64 = 0;
        let mut i: usize = 0;
        while i < n
            invariant
                i <= n,
                n == labels@.len(),
                c as int == count_occ(views_of(labels@).take(i as int), v@),
                c <= i,
            decreases n - i,
        {
            proof {
                assert(views_of(labels@).take(i + 1).drop_last() =~= views_of(labels@).take(
                    i as int,
                ));
                assert(views_of(labels@).take(i + 1).last() == labels@[i as int]@);
            }
            if labels[i].eq(v) {
                c = c + 1;
            }
            i += 1;
        }
        proof {
            assert(views_of(labels@).take(n as int) =~= views_of(labels@));
        }
        c
    }

    /// The distinct labels of `labels`, in first-appearance order.
    fn distinct_labels(labels: &Vec<String>) -> (r: Vec<String>)
        ensures
            views_of(r@) == dedup_first(views_of(labels@)),
    {
        let mut out: Vec<String> = Vec::new();
        let n = labels.len();
        let mut i: usize = 0;
        while i < n
            invariant
                i <= n,
                n == labels@.len(),
                views_of(out@) == dedup_first(views_of(labels@).take(i as int)),
            decreases n - i,
        {
            proof {
                assert(views_of(labels@).take(i + 1).drop_last() =~= views_of(labels@).take(
                    i as int,
                ));
                assert(views_of(labels@).take(i + 1).last() == labels@[i as int]@);
            }
            if !Self::contains_string(&out, &labels[i]) {
                out.push(labels[i].clone());
                proof {
                    assert(views_of(out@) =~= dedup_first(views_of(labels@).take(i + 1)));
                }
            }
            i += 1;
        }
        proof {
            assert(views_of(labels@).take(n as int) =~= views_of(labels@));
        }
        out
    }

    /// The ranking of `labels` by frequency, descending, ties keeping
    /// first-appearance order, truncated to `limit` entries.
    fn top_of_labels(labels: &Vec<String>, limit: usize) -> (r: Vec<LabelCount>)
        ensures
            lc_views(r@) == spec_top(views_of(labels@), limit as int),
    {
        let distinct = Self::distinct_labels(labels);
        let mut tallied: Vec<LabelCount> = Vec::new();
        let dn = distinct.len();
        let mut i: usize = 0;
        while i < dn
            invariant
                i <= dn,
                dn == distinct@.len(),
                views_of(distinct@) == dedup_first(views_of(labels@)),
                lc_views(tallied@) =~= tally(views_of(labels@)).take(i as int),
            decreases dn - i,
        {
            let c = Self::count_label(labels, &distinct[i]);
            let ghost old_t = tallied@;
            tallied.push(LabelCount { label: distinct[i].clone(), count: c });
            proof {
                assert(lc_views(tallied@) =~= lc_views(old_t).push((distinct@[i as int]@, c)));
                assert(views_of(distinct@)[i as int] == distinct@[i as int]@);
                assert(distinct@[i as int]@ == dedup_first(views_of(labels@))[i as int]);
                assert(lc_views(tallied@) =~= tally(views_of(labels@)).take(i + 1));
            }
            i += 1;
        }
        proof {
            assert(tally(views_of(labels@)).take(dn as int) =~= tally(views_of(labels@)));
        }
        // Stable insertion sort by count, descending.
        let mut sorted: Vec<LabelCount> = Vec::new();
        let tn = tallied.len();
        let mut k: usize = 0;
        while k < tn
            invariant
                k <= tn,
                tn == tallied@.len(),
                lc_views(tallied@) == tally(views_of(labels@)),
                lc_views(sorted@) == sort_desc(lc_views(tallied@).take(k as int)),
            decreases tn - k,
        {
            let x = tallied[k].clone();
            let sn = sorted.len();
            proof {
                lemma_sort_desc_len(lc_views(tallied@).take(k as int));
                assert(lc_views(tallied@).take(k + 1).drop_last() =~= lc_views(tallied@).take(
                    k as int,
                ));
                assert(lc_views(tallied@).take(k + 1).last() == (x.label@, x.count));
            }
            let mut j: usize = 0;
            while j < sn && sorted[j].count >= x.count
                invariant
                    j <= sn,
                    sn == sorted@.len(),
                    forall|q: int| 0 <= q < j ==> (#[trigger] sorted@[q]).count >= x.count,
                decreases sn - j,
            {
                j += 1;
            }
            proof {
                let sv = lc_views(sorted@);
                assert forall|q: int| 0 <= q < j implies (#[trigger] sv[q]).1 >= x.count by {
                    assert(sv[q] == (sorted@[q].label@, sorted@[q].count));
                }
                if (j as int) < sv.len() {
                    assert(sv[j as int].1 < x.count);
                }
                lemma_insert_desc_at(sv, (x.label@, x.count), j as int);
            }
            let ghost pre_sorted = sorted@;
            sorted.insert(j, x);
            proof {
                assert(lc_views(sorted@) =~= lc_views(pre_sorted).take(j as int) + seq![
                    (x.label@, x.count),
                ] + lc_views(pre_sorted).skip(j as int));
                assert(lc_views(sorted@) == sort_desc(lc_views(tallied@).take(k + 1)));
            }
            k += 1;
        }
        proof {
            assert(lc_views(tallied@).take(tn as int) =~= lc_views(tallied@));
        }
        // Truncate to the requested number of leading entries.
        if sorted.len() > limit {
            sorted.truncate(limit);
            proof {
                assert(lc_views(sorted@) =~= spec_top(views_of(labels@), limit as int));
            }
        } else {
            proof {
                assert(lc_views(sorted@) =~= spec_top(views_of(labels@), limit as int));
            }
        }
        sorted
    }

    /// The summary counts: cached items, favorites, collections, retained
    /// searches.
    pub fn get_dashboard_stats(&self) -> (r: DashboardStats)
        ensures
            r.total_items == self.items@.len(),
            r.total_favorites == self.favorites@.len(),
            r.total_collections == self.collections@.len(),
            r.total_searches == self.history@.len(),
    {
        DashboardStats {
            total_items: self.items.len(),
            total_favorites: self.favorites.len(),
            total_collections: self.collections.len(),
            total_searches: self.history.len(),
        }
    }

    /// The most frequent tag labels, descending, ties keeping
    /// first-appearance order, at most `limit` of them.
    pub fn get_top_tags(&self, limit: usize) -> (r: Vec<LabelCount>)
        ensures
            lc_views(r@) == spec_top(self.tag_rows@.map_values(|t: TagRow| t.tag@), limit as int),
    {
        let mut labels: Vec<String> = Vec::new();
        let n = self.tag_rows.len();
        let mut i: usize = 0;
        while i < n
            invariant
                i <= n,
                n == self.tag_rows@.len(),
                views_of(labels@) =~= self.tag_rows@.map_values(|t: TagRow| t.tag@).take(i as int),
            decreases n - i,
        {
            let ghost old_labels = labels@;
            labels.push(self.tag_rows[i].tag.clone());
            proof {
                assert(views_of(labels@) =~= views_of(old_labels).push(
                    self.tag_rows@[i as int].tag@,
                ));
                assert(views_of(labels@) =~= self.tag_rows@.map_values(|t: TagRow| t.tag@).take(
                    i + 1,
                ));
            }
            i += 1;
        }
        proof {
            let allv = self.tag_rows@.map_values(|t: TagRow| t.tag@);
            assert(allv.take(n as int) =~= allv);
        }
        Self::top_of_labels(&labels, limit)
    }

    /// The most frequent shop labels over the cached items, descending,
    /// ties keeping first-appearance order, at most `limit` of them.
    pub fn get_top_shops(&self, limit: usize) -> (r: Vec<LabelCount>)
        ensures
            lc_views(r@) == spec_top(
                self.items@.map_values(|it: ItemRecord| it.shop@),
                limit as int,
            ),
    {
        let mut labels: Vec<String> = Vec::new();
        let n = self.items.len();
        let mut i: usize = 0;
        while i < n
            invariant
                i <= n,
                n == self.items@.len(),
                views_of(labels@) =~= self.items@.map_values(|it: ItemRecord| it.shop@).take(
                    i as int,
                ),
            decreases n - i,
        {
            let ghost old_labels = labels@;
            labels.push(self.items[i].shop.clone());
            proof {
                assert(views_of(labels@) =~= views_of(old_labels).push(
                    self.items@[i as int].shop@,
                ));
                assert(views_of(labels@) =~= self.items@.map_values(
                    |it: ItemRecord| it.shop@,
                ).take(i + 1));
            }
            i += 1;
        }
        proof {
            let allv = self.items@.map_values(|it: ItemRecord| it.shop@);
            assert(allv.take(n as int) =~= allv);
        }
        Self::top_of_labels(&labels, limit)
    }

    /// The full group-by-category frequency ranking over the cached items,
    /// descending, ties keeping first-appearance order.
    pub fn get_category_distribution(&self) -> (r: Vec<LabelCount>)
        ensures
            lc_views(r@) == sort_desc(tally(self.items@.map_values(|it: ItemRecord| it.category@))),
    {
        let mut labels: Vec<String> = Vec::new();
        let n = self.items.len();
        let mut i: usize = 0;
        while i < n
            invariant
                i <= n,
                n == self.items@.len(),
                views_of(labels@) =~= self.items@.map_values(|it: ItemRecord| it.category@).take(
                    i as int,
                ),
            decreases n - i,
        {
            let ghost old_labels = labels@;
            labels.push(self.items[i].category.clone());
            proof {
                assert(views_of(labels@) =~= views_of(old_labels).push(
                    self.items@[i as int].category@,
                ));
                assert(views_of(labels@) =~= self.items@.map_values(
                    |it: ItemRecord| it.category@,
                ).take(i + 1));
            }
            i += 1;
        }
        proof {
            let allv = self.items@.map_values(|it: ItemRecord| it.category@);
            assert(allv.take(n as int) =~= allv);
        }
        let out = Self::top_of_labels(&labels, labels.len());
        proof {
            let vs = views_of(labels@);
            lemma_sort_desc_len(tally(vs));
            lemma_dedup_len(vs);
            assert(lc_views(out@) == sort_desc(tally(vs)));
        }
        out
    }
}

/// Deduplication never lengthens a sequence.
pub proof fn lemma_dedup_len(vs: Seq<Seq<char>>)
    ensures
        dedup_first(vs).len() <= vs.len(),
    decreases vs.len(),
{
    if vs.len() > 0 {
        lemma_dedup_len(vs.drop_last());
    }
}

/// One row of the monthly favorites histogram.
#[derive(Clone, Copy, PartialEq, Eq, Structural, Debug)]
pub struct MonthlyFavorites {
    /// Calendar year of the bucket.
    pub year: u64,
    /// Calendar month of the bucket, one through twelve.
    pub month: u64,
    /// Favorites created in that month.
    pub count: u64,
}

/// Summary of the search-history log.
#[derive(Clone, Copy, PartialEq, Eq, Structural, Debug)]
pub struct SearchHistoryStats {
    /// Retained search rows.
    pub total_searches: usize,
    /// Distinct query texts among them.
    pub distinct_queries: usize,
}

/// Every aggregation in one payload.
pub struct AllStatistics {
    /// Summary counts.
    pub dashboard: DashboardStats,
    /// Group-by-category frequency ranking.
    pub categories: Vec<LabelCount>,
    /// Price histogram.
    pub prices: Vec<PriceBucket>,
    /// Leading tag labels by frequency.
    pub top_tags: Vec<LabelCount>,
    /// Leading shop labels by frequency.
    pub top_shops: Vec<LabelCount>,
    /// Monthly favorite counts over the trailing window.
    pub monthly_favorites: Vec<MonthlyFavorites>,
    /// Search-history summary.
    pub search: SearchHistoryStats,
}

/// How many items of `items` have a price within `lo..=hi`.
pub open spec fn count_in_range(items: Seq<ItemRecord>, lo: u64, hi: u64) -> int
    decreases items.len(),
{
    if items.len() == 0 {
        0
    } else {
        count_in_range(items.drop_last(), lo, hi) + if lo <= items.last().price
            && items.last().price <= hi {
            1int
        } else {
            0int
        }
    }
}

/// The month of a wall-clock second, counted in whole months from the
/// start of year zero of the proleptic Gregorian calendar: the civil
/// day-to-date conversion over the 146097-day cycle of 400 Gregorian
/// years, so that one month index stands for one calendar month.
pub open spec fn month_index_of(ts: u64) -> int {
    let d = ts as int / 86400;
    let z = d + 719468;
    let era = z / 146097;
    let doe = z % 146097;
    let t1 = doe / 1460;
    let t2 = doe / 36524;
    let t3 = doe / 146096;
    let acc = doe - t1 + t2;
    let num = acc - t3;
    let yoe = num / 365;
    let y = yoe + era * 400;
    let a = 365 * yoe + yoe / 4;
    let b = yoe / 100;
    let yd = a - b;
    let doy = if yd <= doe {
        doe - yd
    } else {
        0
    };
    let mp = (5 * doy + 2) / 153;
    let m = if mp < 10 {
        mp + 3
    } else {
        mp - 9
    };
    let yy = if m <= 2 {
        y + 1
    } else {
        y
    };
    yy * 12 + (m - 1)
}

/// How many favorites of `favs` were created in month `idx`.
pub open spec fn fav_month_count(favs: Seq<FavoriteEntry>, idx: int) -> int
    decreases favs.len(),
{
    if favs.len() == 0 {
        0
    } else {
        fav_month_count(favs.drop_last(), idx) + if month_index_of(favs.last().created_at)
            == idx {
            1int
        } else {
            0int
        }
    }
}

/// The month index of a wall-clock second, executable.
fn month_index(ts: u64) -> (r: u64)
    ensures
        r as int == month_index_of(ts),
{
    let d: u64 = ts / 86400;
    proof {
        lemma_div_is_ordered(ts as int, u64::MAX as int, 86400);
    }
    let z: u64 = d + 719468;
    let era: u64 = z / 146097;
    let doe: u64 = z % 146097;
    proof {
        lemma_div_nonincreasing(z as int, 146097);
        lemma_div_nonincreasing(doe as int, 1460);
        lemma_div_nonincreasing(doe as int, 36524);
        lemma_fundamental_div_mod(doe as int, 146096);
    }
    let t1: u64 = doe / 1460;
    let t2: u64 = doe / 36524;
    let t3: u64 = doe / 146096;
    assert(t1 <= doe && t3 <= 1);
    assert(doe >= 146096 * t3);
    let acc: u64 = doe - t1 + t2;
    assert(acc >= t3);
    let num: u64 = acc - t3;
    let yoe: u64 = num / 365;
    proof {
        lemma_div_nonincreasing(num as int, 365);
        lemma_div_nonincreasing(yoe as int, 4);
        lemma_div_nonincreasing(yoe as int, 100);
    }
    let y: u64 = yoe + era * 400;
    let a: u64 = 365 * yoe + yoe / 4;
    let b: u64 = yoe / 100;
    assert(b <= a);
    let yd: u64 = a - b;
    let doy: u64 = if yd <= doe {
        doe - yd
    } else {
        0
    };
    let mp: u64 = (5 * doy + 2) / 153;
    let m: u64 = if mp < 10 {
        mp + 3
    } else {
        mp - 9
    };
    let yy: u64 = if m <= 2 {
        y + 1
    } else {
        y
    };
    yy * 12 + (m - 1)
}

impl AppDatabase {
    /// How many cached items have a price within `lo..=hi`.
    fn count_prices(&self, lo: u64, hi: u64) -> (c: u64)
        ensures
            c as int == count_in_range(self.items@, lo, hi),
            c <= self.items@.len(),
    {
        let n = self.items.len();
        let mut c: u64 = 0;
        let mut i: usize = 0;
        while i < n
            invariant
                i <= n,
                n == self.items@.len(),
                c as int == count_in_range(self.items@.take(i as int), lo, hi),
                c <= i,
            decreases n - i,
        {
            proof {
                assert(self.items@.take(i + 1).drop_last() =~= self.items@.take(i as int));
                assert(self.items@.take(i + 1).last() == self.items@[i as int]);
            }
            let p = self.items[i].price;
            if lo <= p && p <= hi {
                c = c + 1;
            }
            i += 1;
        }
        proof {
            assert(self.items@.take(n as int) =~= self.items@);
        }
        c
    }

    /// The price histogram over the cached items, in four fixed buckets
    /// covering the whole price range.
    pub fn get_price_distribution(&self) -> (r: Vec<PriceBucket>)
        ensures
            r@.len() == 4,
            r@[0].lower == 0 && r@[0].upper == 999 && r@[0].count as int == count_in_range(
                self.items@,
                0,
                999,
            ),
            r@[1].lower == 1000 && r@[1].upper == 4999 && r@[1].count as int == count_in_range(
                self.items@,
                1000,
                4999,
            ),
            r@[2].lower == 5000 && r@[2].upper == 9999 && r@[2].count as int == count_in_range(
                self.items@,
                5000,
                9999,
            ),
            r@[3].lower == 10000 && r@[3].upper == u64::MAX && r@[3].count as int == count_in_range(
                self.items@,
                10000,
                u64::MAX,
            ),
    {
        let mut out: Vec<PriceBucket> = Vec::new();
        out.push(PriceBucket { lower: 0, upper: 999, count: self.count_prices(0, 999) });
        out.push(PriceBucket { lower: 1000, upper: 4999, count: self.count_prices(1000, 4999) });
        out.push(PriceBucket { lower: 5000, upper: 9999, count: self.count_prices(5000, 9999) });
        out.push(
            PriceBucket { lower: 10000, upper: u64::MAX, count: self.count_prices(10000, u64::MAX) },
        );
        out
    }

    /// How many favorites were created in month `idx`.
    fn count_favs_in_month(&self, idx: u64) -> (c: u64)
        ensures
            c as int == fav_month_count(self.favorites@, idx as int),
            c <= self.favorites@.len(),
    {
        let n = self.favorites.len();
        let mut c: u64 = 0;
        let mut i: usize = 0;
        while i < n
            invariant
                i <= n,
                n == self.favorites@.len(),
                c as int == fav_month_count(self.favorites@.take(i as int), idx as int),
                c <= i,
            decreases n - i,
        {
            proof {
                assert(self.favorites@.take(i + 1).drop_last() =~= self.favorites@.take(i as int));
                assert(self.favorites@.take(i + 1).last() == self.favorites@[i as int]);
            }
            let mi = month_index(self.favorites[i].created_at);
            if mi == idx {
                c = c + 1;
            }
            i += 1;
        }
        proof {
            assert(self.favorites@.take(n as int) =~= self.favorites@);
        }
        c
    }

    /// Favorite counts bucketed by calendar month, zero-filled and
    /// contiguous over a trailing window of `months_back` months ending in
    /// the month of `now`.  The window must cover at least one and at most
    /// one hundred and twenty months.
    pub fn get_monthly_favorites(&self, now: u64, months_back: usize) -> (r: Result<
        Vec<MonthlyFavorites>,
        StorageError,
    >)
        ensures
            (months_back == 0 || months_back > 120) ==> r == Err::<
                Vec<MonthlyFavorites>,
                StorageError,
            >(StorageError::Query),
            (1 <= months_back <= 120) ==> (r matches Ok(v) && {
                let m_now = month_index_of(now);
                let start = if m_now >= months_back - 1 {
                    m_now - (months_back - 1)
                } else {
                    0
                };
                v@.len() == m_now - start + 1 && (forall|q: int|
                    0 <= q < v@.len() ==> (#[trigger] v@[q]).year as int == (start + q) / 12
                        && v@[q].month as int == (start + q) % 12 + 1 && v@[q].count as int
                        == fav_month_count(self.favorites@, start + q))
            }),
    {
        if months_back == 0 || months_back > 120 {
            return Err(StorageError::Query);
        }
        let m_now: u64 = month_index(now);
        let mb: u64 = months_back as u64;
        let start: u64 = if m_now >= mb - 1 {
            m_now - (mb - 1)
        } else {
            0
        };
        let len: u64 = m_now - start + 1;
        let mut out: Vec<MonthlyFavorites> = Vec::new();
        let mut k: u64 = 0;
        while k < len
            invariant
                k <= len,
                len == m_now - start + 1,
                start <= m_now,
                m_now as int == month_index_of(now),
                start as int == (if month_index_of(now) >= mb - 1 {
                    month_index_of(now) - (mb - 1)
                } else {
                    0
                }),
                out@.len() == k,
                forall|q: int|
                    0 <= q < k ==> (#[trigger] out@[q]).year as int == (start + q) / 12
                        && out@[q].month as int == (start + q) % 12 + 1 && out@[q].count as int
                        == fav_month_count(self.favorites@, start + q),
            decreases len - k,
        {
            let idx: u64 = start + k;
            let c = self.count_favs_in_month(idx);
            out.push(MonthlyFavorites { year: idx / 12, month: idx % 12 + 1, count: c });
            k += 1;
        }
        Ok(out)
    }

    /// The search-history summary: retained rows and distinct query texts.
    pub fn get_search_history_stats(&self) -> (r: SearchHistoryStats)
        ensures
            r.total_searches == self.history@.len(),
            r.distinct_queries == dedup_first(
                self.history@.map_values(|e: SearchEntry| e.query@),
            ).len(),
    {
        let ghost allv = self.history@.map_values(|e: SearchEntry| e.query@);
        let mut distinct: Vec<String> = Vec::new();
        let n = self.history.len();
        let mut i: usize = 0;
        while i < n
            invariant
                i <= n,
                n == self.history@.len(),
                allv == self.history@.map_values(|e: SearchEntry| e.query@),
                views_of(distinct@) == dedup_first(allv.take(i as int)),
            decreases n - i,
        {
            let q = self.history[i].query.clone();
            proof {
                assert(allv.take(i + 1).drop_last() =~= allv.take(i as int));
                assert(allv.take(i + 1).last() == allv[i as int]);
                assert(allv[i as int] == self.history@[i as int].query@);
            }
            if !Self::contains_string(&distinct, &q) {
                let ghost old_d = distinct@;
                distinct.push(q);
                proof {
                    assert(views_of(distinct@) =~= views_of(old_d).push(
                        self.history@[i as int].query@,
                    ));
                    assert(views_of(distinct@) =~= dedup_first(allv.take(i + 1)));
                }
            }
            i += 1;
        }
        proof {
            assert(allv.take(n as int) =~= allv);
        }
        SearchHistoryStats { total_searches: self.history.len(), distinct_queries: distinct.len() }
    }

    /// Every aggregation composed into one payload.  The call fails as a
    /// whole when the month window is malformed, never returning a
    /// partially populated result.
    pub fn get_all_statistics(&self, now: u64, months_back: usize, top_limit: usize) -> (r: Result<
        AllStatistics,
        StorageError,
    >)
        requires
            self.wf(),
        ensures
            (months_back == 0 || months_back > 120) ==> r == Err::<AllStatistics, StorageError>(
                StorageError::Query,
            ),
            (1 <= months_back <= 120) ==> (r matches Ok(s) && {
                &&& s.dashboard.total_items == self.items@.len()
                &&& s.dashboard.total_favorites == self.favorites@.len()
                &&& s.dashboard.total_collections == self.collections@.len()
                &&& s.dashboard.total_searches == self.history@.len()
                &&& lc_views(s.categories@) == sort_desc(
                    tally(self.items@.map_values(|it: ItemRecord| it.category@)),
                )
                &&& s.prices@.len() == 4
                &&& (forall|q: int|
                    0 <= q < 4 ==> (#[trigger] s.prices@[q]).count as int == count_in_range(
                        self.items@,
                        s.prices@[q].lower,
                        s.prices@[q].upper,
                    ))
                &&& s.prices@[0].lower == 0 && s.prices@[0].upper == 999
                &&& s.prices@[1].lower == 1000 && s.prices@[1].upper == 4999
                &&& s.prices@[2].lower == 5000 && s.prices@[2].upper == 9999
                &&& s.prices@[3].lower == 10000 && s.prices@[3].upper == u64::MAX
                &&& lc_views(s.top_tags@) == spec_top(
                    self.tag_rows@.map_values(|t: TagRow| t.tag@),
                    top_limit as int,
                )
                &&& lc_views(s.top_shops@) == spec_top(
                    self.items@.map_values(|it: ItemRecord| it.shop@),
                    top_limit as int,
                )
                &&& {
                    let m_now = month_index_of(now);
                    let start = if m_now >= months_back - 1 {
                        m_now - (months_back - 1)
                    } else {
                        0
                    };
                    s.monthly_favorites@.len() == m_now - start + 1 && (forall|q: int|
                        0 <= q < s.monthly_favorites@.len()
                            ==> (#[trigger] s.monthly_favorites@[q]).year as int == (start + q)
                            / 12 && s.monthly_favorites@[q].month as int == (start + q) % 12 + 1
                            && s.monthly_favorites@[q].count as int == fav_month_count(
                            self.favorites@,
                            start + q,
                        ))
                }
                &&& s.search.total_searches == self.history@.len()
                &&& s.search.distinct_queries == dedup_first(
                    self.history@.map_values(|e: SearchEntry| e.query@),
                ).len()
            }),
    {
        if months_back == 0 || months_back > 120 {
            return Err(StorageError::Query);
        }
        let monthly_favorites = match self.get_monthly_favorites(now, months_back) {
            Ok(v) => v,
            Err(_) => {
                proof {
                    assert(false);
                }
                Vec::new()
            }
        };
        Ok(
            AllStatistics {
                dashboard: self.get_dashboard_stats(),
                categories: self.get_category_distribution(),
                prices: self.get_price_distribution(),
                top_tags: self.get_top_tags(top_limit),
                top_shops: self.get_top_shops(top_limit),
                monthly_favorites,
                search: self.get_search_history_stats(),
            },
        )
    }
}

} // verus!
