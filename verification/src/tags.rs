//! Tag normalization and the tag table operations.
//!
//! Tag labels are case-normalized (ASCII letters lowercased) and
//! deduplicated per item; setting an item's tags replaces the full set.

use vstd::prelude::*;

use crate::db::{
    collections_eq, config_eq, favorites_eq, history_eq, id_in, items_eq, popular_eq,
    tag_pairs_unique, AppDatabase,
};
use crate::error::StorageError;
use crate::records::TagRow;
use crate::seqs::{keys_distinct, lemma_filter_all, lemma_filter_elem, lemma_filter_keeps_distinct, lemma_filter_none};

verus! {

/// `c` with an ASCII uppercase letter mapped to its lowercase form.
pub open spec fn lower_char(c: char) -> char {
    if 65 <= c as u32 && c as u32 <= 90 {
        ((c as u32 + 32) as u32) as char
    } else {
        c
    }
}

/// `s` with every ASCII uppercase letter lowercased.
pub open spec fn lower_seq(s: Seq<char>) -> Seq<char> {
    Seq::new(s.len(), |i: int| lower_char(s[i]))
}

/// `s` contains no ASCII uppercase letter: normalization is a no-op on it.
pub open spec fn lowered(s: Seq<char>) -> bool {
    forall|i: int| 0 <= i < s.len() ==> !(65 <= #[trigger] s[i] as u32 && s[i] as u32 <= 90)
}

/// Relies on `str::to_ascii_lowercase`: the result maps every ASCII
/// uppercase letter of the input to its lowercase counterpart and keeps
/// every other character unchanged.
#[verifier::external_body]
pub(crate) fn ascii_lower(s: &str) -> (r: String)
    ensures
        r@ == lower_seq(s@),
{
    s.to_ascii_lowercase()
}

/// Normalization yields a normalized label.
pub proof fn lemma_lower_seq_lowered(s: Seq<char>)
    ensures
        lowered(lower_seq(s)),
{
    assert forall|i: int| 0 <= i < lower_seq(s).len() implies !(65 <= #[trigger] lower_seq(s)[i] as u32
        && lower_seq(s)[i] as u32 <= 90) by {
        let c = s[i];
        if 65 <= c as u32 && c as u32 <= 90 {
            assert(lower_seq(s)[i] == ((c as u32 + 32) as u32) as char);
        } else {
            assert(lower_seq(s)[i] == c);
        }
    }
}

/// The char-sequence views of a sequence of strings.
pub open spec fn views_of(ss: Seq<String>) -> Seq<Seq<char>> {
    ss.map_values(|s: String| s@)
}

/// `vs` with every repeated value dropped, keeping first occurrences in
/// their original order.
pub open spec fn dedup_first(vs: Seq<Seq<char>>) -> Seq<Seq<char>>
    decreases vs.len(),
{
    if vs.len() == 0 {
        vs
    } else {
        let d = dedup_first(vs.drop_last());
        if d.contains(vs.last()) {
            d
        } else {
            d.push(vs.last())
        }
    }
}

/// The normalized, deduplicated form of a requested tag set: labels
/// lowercased, then first occurrences kept.
pub open spec fn norm_views(vs: Seq<Seq<char>>) -> Seq<Seq<char>> {
    dedup_first(vs.map_values(|v: Seq<char>| lower_seq(v)))
}

/// The tag labels attached to item `iid`, in row order.
pub open spec fn tags_of(rows: Seq<TagRow>, iid: u64) -> Seq<Seq<char>> {
    rows.filter(|t: TagRow| t.item_id == iid).map_values(|t: TagRow| t.tag@)
}

/// The tag rows of every item but `iid`, in row order.
pub open spec fn other_rows(rows: Seq<TagRow>, iid: u64) -> Seq<TagRow> {
    rows.filter(|t: TagRow| t.item_id != iid)
}

/// Deduplication yields pairwise-distinct values.
pub proof fn lemma_dedup_first_distinct(vs: Seq<Seq<char>>)
    ensures
        forall|i: int, j: int|
            0 <= i < j < dedup_first(vs).len() ==> #[trigger] dedup_first(vs)[i]
                != #[trigger] dedup_first(vs)[j],
    decreases vs.len(),
{
    if vs.len() > 0 {
        lemma_dedup_first_distinct(vs.drop_last());
        let d = dedup_first(vs.drop_last());
        if !d.contains(vs.last()) {
            assert(forall|k: int| 0 <= k < d.len() ==> d[k] != vs.last());
        }
    }
}

/// Every deduplicated value occurs in the input.
pub proof fn lemma_dedup_first_elems(vs: Seq<Seq<char>>)
    ensures
        forall|k: int| 0 <= k < dedup_first(vs).len() ==> vs.contains(#[trigger] dedup_first(vs)[k]),
    decreases vs.len(),
{
    if vs.len() > 0 {
        lemma_dedup_first_elems(vs.drop_last());
        let d = dedup_first(vs.drop_last());
        let out = dedup_first(vs);
        assert forall|k: int| 0 <= k < out.len() implies vs.contains(#[trigger] out[k]) by {
            if k < d.len() {
                assert(vs.drop_last().contains(d[k]));
                let w = choose|w: int| 0 <= w < vs.drop_last().len() && vs.drop_last()[w] == d[k];
                assert(vs[w] == d[k]);
            } else {
                assert(out[k] == vs.last());
                assert(vs[vs.len() - 1] == vs.last());
            }
        }
    }
}

/// Setting an item's tags is a true set-replace, not a union: afterwards
/// the item carries exactly the fresh labels, whatever it carried before,
/// and every other item's rows are untouched.
pub proof fn lemma_set_tags_replaces(rows: Seq<TagRow>, iid: u64, fresh: Seq<TagRow>)
    requires
        forall|k: int| 0 <= k < fresh.len() ==> (#[trigger] fresh[k]).item_id == iid,
    ensures
        tags_of(other_rows(rows, iid) + fresh, iid) == fresh.map_values(|t: TagRow| t.tag@),
        other_rows(other_rows(rows, iid) + fresh, iid) == other_rows(rows, iid),
{
    broadcast use vstd::seq_lib::group_filter_ensures;

    let keep = |t: TagRow| t.item_id != iid;
    let mine = |t: TagRow| t.item_id == iid;
    let others = other_rows(rows, iid);
    Seq::<TagRow>::filter_distributes_over_add(others, fresh, mine);
    Seq::<TagRow>::filter_distributes_over_add(others, fresh, keep);
    assert(forall|k: int| 0 <= k < others.len() ==> !mine(#[trigger] others[k]));
    lemma_filter_none(others, mine);
    lemma_filter_all(fresh, mine);
    lemma_filter_all(others, keep);
    assert(forall|k: int| 0 <= k < fresh.len() ==> !keep(#[trigger] fresh[k]));
    lemma_filter_none(fresh, keep);
    assert((others + fresh).filter(mine) =~= fresh);
    assert((others + fresh).filter(keep) =~= others);
}

impl AppDatabase {
    /// Whether some string in `v` has the same characters as `s`.
    pub(crate) fn contains_string(v: &Vec<String>, s: &String) -> (r: bool)
        ensures
            r == views_of(v@).contains(s@),
    {
        let n = v.len();
        let mut i: usize = 0;
        while i < n
            invariant
                i <= n,
                n == v@.len(),
                forall|k: int| 0 <= k < i ==> v@[k]@ != s@,
            decreases n - i,
        {
            if v[i].eq(s) {
                assert(views_of(v@)[i as int] == s@);
                return true;
            }
            i += 1;
        }
        assert forall|k: int| 0 <= k < views_of(v@).len() implies views_of(v@)[k] != s@ by {
            assert(views_of(v@)[k] == v@[k]@);
        }
        false
    }

    /// Replaces the full tag set of an item in one transaction: labels no
    /// longer present are removed, new ones are added, the stored labels
    /// are lowercased and deduplicated.  Fails when the item id is unknown.
    #[verifier::rlimit(100)]
    pub fn set_item_tags(&mut self, item_id: u64, tags: &Vec<String>) -> (r: Result<
        (),
        StorageError,
    >)
        requires
            old(self).wf(),
        ensures
            final(self).wf(),
            !id_in(old(self).items@, item_id) ==> r == Err::<(), StorageError>(
                StorageError::NotFound,
            ) && *final(self) == *old(self),
            id_in(old(self).items@, item_id) ==> r == Ok::<(), StorageError>(()) && tags_of(
                final(self).tag_rows@,
                item_id,
            ) == norm_views(views_of(tags@)) && other_rows(final(self).tag_rows@, item_id)
                == other_rows(old(self).tag_rows@, item_id),
            items_eq(*old(self), *final(self)),
            favorites_eq(*old(self), *final(self)),
            collections_eq(*old(self), *final(self)),
            history_eq(*old(self), *final(self)),
            popular_eq(*old(self), *final(self)),
            config_eq(*old(self), *final(self)),
    {
        if self.item_index(item_id).is_none() {
            return Err(StorageError::NotFound);
        }
        let ghost keep = |t: TagRow| t.item_id != item_id;
        let mut kept: Vec<TagRow> = Vec::new();
        let n = self.tag_rows.len();
        let mut i: usize = 0;
        while i < n
            invariant
                i <= n,
                n == self.tag_rows@.len(),
                keep == (|t: TagRow| t.item_id != item_id),
                kept@ == self.tag_rows@.take(i as int).filter(keep),
            decreases n - i,
        {
            let t = self.tag_rows[i].clone();
            proof {
                reveal(Seq::filter);
                assert(self.tag_rows@.take(i + 1).drop_last() =~= self.tag_rows@.take(i as int));
                assert(self.tag_rows@.take(i + 1).last() == self.tag_rows@[i as int]);
            }
            if t.item_id != item_id {
                kept.push(t);
            }
            i += 1;
        }
        proof {
            assert(self.tag_rows@.take(n as int) =~= self.tag_rows@);
        }
        let ghost lowered_all = views_of(tags@).map_values(|v: Seq<char>| lower_seq(v));
        let mut normd: Vec<String> = Vec::new();
        let m = tags.len();
        let mut j: usize = 0;
        while j < m
            invariant
                j <= m,
                m == tags@.len(),
                lowered_all == views_of(tags@).map_values(|v: Seq<char>| lower_seq(v)),
                views_of(normd@) == dedup_first(lowered_all.take(j as int)),
            decreases m - j,
        {
            let low = ascii_lower(tags[j].as_str());
            proof {
                assert(lowered_all.take(j + 1).drop_last() =~= lowered_all.take(j as int));
                assert(lowered_all.take(j + 1).last() == lowered_all[j as int]);
                assert(lowered_all[j as int] == lower_seq(tags@[j as int]@));
            }
            if !Self::contains_string(&normd, &low) {
                normd.push(low);
                proof {
                    assert(views_of(normd@) =~= dedup_first(lowered_all.take(j + 1)));
                }
            }
            j += 1;
        }
        proof {
            assert(lowered_all.take(m as int) =~= lowered_all);
        }
        let ghost others = other_rows(old(self).tag_rows@, item_id);
        let ghost fresh_views = norm_views(views_of(tags@));
        proof {
            assert(views_of(normd@) == fresh_views);
        }
        self.tag_rows = kept;
        let p = normd.len();
        let mut k: usize = 0;
        while k < p
            invariant
                k <= p,
                p == normd@.len(),
                items_eq(*old(self), *self),
                favorites_eq(*old(self), *self),
                collections_eq(*old(self), *self),
                history_eq(*old(self), *self),
                popular_eq(*old(self), *self),
                config_eq(*old(self), *self),
                old(self).wf(),
                views_of(normd@) == fresh_views,
                others == other_rows(old(self).tag_rows@, item_id),
                self.tag_rows@.len() == others.len() + k,
                self.tag_rows@.take(others.len() as int) == others,
                forall|q: int|
                    others.len() <= q < self.tag_rows@.len()
                        ==> (#[trigger] self.tag_rows@[q]).item_id == item_id
                        && self.tag_rows@[q].tag@ == fresh_views[q - others.len()],
            decreases p - k,
        {
            self.tag_rows.push(TagRow { item_id, tag: normd[k].clone() });
            proof {
                assert(self.tag_rows@.take(others.len() as int) =~= others);
                assert(self.tag_rows@[others.len() + k as int].tag@ == views_of(normd@)[k as int]);
            }
            k += 1;
        }
        proof {
            broadcast use vstd::seq_lib::group_filter_ensures;

            let rows = self.tag_rows@;
            let pre = old(self).tag_rows@;
            let fresh = rows.skip(others.len() as int);
            assert(rows =~= others + fresh);
            assert(forall|q: int| 0 <= q < fresh.len() ==> (#[trigger] fresh[q]).item_id == item_id);
            lemma_set_tags_replaces(pre, item_id, fresh);
            assert(fresh.map_values(|t: TagRow| t.tag@) =~= fresh_views);
            assert(tags_of(rows, item_id) == fresh_views);
            assert(other_rows(rows, item_id) == others);
            // Well-formedness: pairwise-distinct pairs, referential
            // integrity, and normalized labels.
            let key = |t: TagRow| (t.item_id, t.tag@);
            assert(keys_distinct(pre, key));
            lemma_filter_keeps_distinct(pre, keep, key);
            lemma_dedup_first_distinct(views_of(tags@).map_values(|v: Seq<char>| lower_seq(v)));
            lemma_dedup_first_elems(views_of(tags@).map_values(|v: Seq<char>| lower_seq(v)));
            assert forall|a: int, b: int| 0 <= a < b < rows.len() implies !((#[trigger] rows[a]).item_id
                == (#[trigger] rows[b]).item_id && rows[a].tag@ == rows[b].tag@) by {
                if b < others.len() {
                    assert(key(others[a]) != key(others[b]));
                } else if a >= others.len() {
                    assert(fresh_views[a - others.len()] != fresh_views[b - others.len()]);
                } else {
                    assert(keep(others[a]));
                }
            }
            assert forall|q: int| 0 <= q < rows.len() implies id_in(
                self.items@,
                (#[trigger] rows[q]).item_id,
            ) && lowered(rows[q].tag@) by {
                if q < others.len() {
                    lemma_filter_elem(pre, keep, q);
                    let w = choose|w: int| 0 <= w < pre.len() && pre[w] == others[q];
                    assert(id_in(self.items@, pre[w].item_id));
                    assert(lowered(pre[w].tag@));
                } else {
                    let v = fresh_views[q - others.len()];
                    let la = views_of(tags@).map_values(|x: Seq<char>| lower_seq(x));
                    assert(la.contains(v));
                    let w = choose|w: int| 0 <= w < la.len() && la[w] == v;
                    lemma_lower_seq_lowered(views_of(tags@)[w]);
                }
            }
        }
        Ok(())
    }

    /// The tag labels of an item, in the order they were stored; fails
    /// when the item id is unknown.
    pub fn get_item_tags(&self, item_id: u64) -> (r: Result<Vec<String>, StorageError>)
        requires
            self.wf(),
        ensures
            !id_in(self.items@, item_id) ==> r == Err::<Vec<String>, StorageError>(
                StorageError::NotFound,
            ),
            id_in(self.items@, item_id) ==> (r matches Ok(v) && views_of(v@) == tags_of(
                self.tag_rows@,
                item_id,
            )),
    {
        if self.item_index(item_id).is_none() {
            return Err(StorageError::NotFound);
        }
        let ghost mine = |t: TagRow| t.item_id == item_id;
        let mut out: Vec<String> = Vec::new();
        let n = self.tag_rows.len();
        let mut i: usize = 0;
        while i < n
            invariant
                i <= n,
                n == self.tag_rows@.len(),
                mine == (|t: TagRow| t.item_id == item_id),
                views_of(out@) == self.tag_rows@.take(i as int).filter(mine).map_values(
                    |t: TagRow| t.tag@,
                ),
            decreases n - i,
        {
            let t = self.tag_rows[i].clone();
            proof {
                reveal(Seq::filter);
                assert(self.tag_rows@.take(i + 1).drop_last() =~= self.tag_rows@.take(i as int));
                assert(self.tag_rows@.take(i + 1).last() == self.tag_rows@[i as int]);
            }
            if t.item_id == item_id {
                let ghost old_out = out@;
                out.push(t.tag);
                proof {
                    reveal(Seq::filter);
                    let pre = self.tag_rows@.take(i as int).filter(mine);
                    assert(t == self.tag_rows@[i as int]);
                    assert(mine(self.tag_rows@.take(i + 1).last()));
                    assert(self.tag_rows@.take(i + 1).filter(mine) == pre.push(
                        self.tag_rows@[i as int],
                    ));
                    assert(out@ == old_out.push(t.tag));
                    assert(views_of(out@) =~= views_of(old_out).push(t.tag@));
                    assert(views_of(old_out) == pre.map_values(|t: TagRow| t.tag@));
                    assert(views_of(out@) =~= self.tag_rows@.take(i + 1).filter(mine).map_values(
                        |t: TagRow| t.tag@,
                    ));
                }
            } else {
                proof {
                    reveal(Seq::filter);
                    assert(self.tag_rows@.take(i + 1).filter(mine) == self.tag_rows@.take(
                        i as int,
                    ).filter(mine));
                }
            }
            i += 1;
        }
        proof {
            assert(self.tag_rows@.take(n as int) =~= self.tag_rows@);
        }
        Ok(out)
    }

    /// Every distinct tag label in use, in first-appearance order.
    pub fn get_all_user_tags(&self) -> (r: Vec<String>)
        ensures
            views_of(r@) == dedup_first(self.tag_rows@.map_values(|t: TagRow| t.tag@)),
    {
        let ghost allv = self.tag_rows@.map_values(|t: TagRow| t.tag@);
        let mut out: Vec<String> = Vec::new();
        let n = self.tag_rows.len();
        let mut i: usize = 0;
        while i < n
            invariant
                i <= n,
                n == self.tag_rows@.len(),
                allv == self.tag_rows@.map_values(|t: TagRow| t.tag@),
                views_of(out@) == dedup_first(allv.take(i as int)),
            decreases n - i,
        {
            let t = self.tag_rows[i].clone();
            proof {
                assert(allv.take(i + 1).drop_last() =~= allv.take(i as int));
                assert(allv.take(i + 1).last() == allv[i as int]);
                assert(allv[i as int] == self.tag_rows@[i as int].tag@);
            }
            if !Self::contains_string(&out, &t.tag) {
                out.push(t.tag);
                proof {
                    assert(views_of(out@) =~= dedup_first(allv.take(i + 1)));
                }
            }
            i += 1;
        }
        proof {
            assert(allv.take(n as int) =~= allv);
        }
        out
    }

    /// The tag labels of each of the given items, in one bounded batch;
    /// fails when any of the item ids is unknown.
    pub fn get_all_item_tags_batch(&self, item_ids: &Vec<u64>) -> (r: Result<
        Vec<(u64, Vec<String>)>,
        StorageError,
    >)
        requires
            self.wf(),
        ensures
            (exists|k: int| 0 <= k < item_ids@.len() && !id_in(self.items@, item_ids@[k])) ==> r
                == Err::<Vec<(u64, Vec<String>)>, StorageError>(StorageError::NotFound),
            (forall|k: int| 0 <= k < item_ids@.len() ==> id_in(self.items@, item_ids@[k])) ==> (
            r matches Ok(v) && v@.len() == item_ids@.len() && (forall|k: int|
                0 <= k < v@.len() ==> (#[trigger] v@[k]).0 == item_ids@[k] && views_of(v@[k].1@)
                    == tags_of(self.tag_rows@, item_ids@[k]))),
    {
        let mut out: Vec<(u64, Vec<String>)> = Vec::new();
        let n = item_ids.len();
        let mut i: usize = 0;
        while i < n
            invariant
                i <= n,
                n == item_ids@.len(),
                self.wf(),
                forall|k: int| 0 <= k < i ==> id_in(self.items@, item_ids@[k]),
                out@.len() == i,
                forall|k: int|
                    0 <= k < i ==> (#[trigger] out@[k]).0 == item_ids@[k] && views_of(out@[k].1@)
                        == tags_of(self.tag_rows@, item_ids@[k]),
            decreases n - i,
        {
            let id = item_ids[i];
            match self.get_item_tags(id) {
                Ok(v) => {
                    out.push((id, v));
                }
                Err(e) => {
                    return Err(e);
                }
            }
            i += 1;
        }
        Ok(out)
    }
}

} // verus!

