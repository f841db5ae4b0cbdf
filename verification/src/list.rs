//! The aggregated list: all feeds' display entries merged newest first,
//! with a wrap-around selection cursor and a read-state filter.

use vstd::multiset::Multiset;
use vstd::prelude::*;

use crate::feed::{
    feed_views, list_entry_views, list_model_of, FeedData, ListEntry, ListEntryModel,
};
use crate::readset::ReadSet;

verus! {

broadcast use vstd::seq_lib::group_to_multiset_ensures;

/// Concatenation of the display entries of all feeds, in input order.
pub open spec fn all_list_models(feeds: Seq<crate::feed::FeedModel>) -> Seq<ListEntryModel>
    decreases feeds.len(),
{
    if feeds.len() == 0 {
        Seq::empty()
    } else {
        all_list_models(feeds.drop_last()) + list_model_of(feeds.last())
    }
}

/// Newest first: every entry is published no earlier than the one after it.
pub open spec fn sorted_desc(s: Seq<ListEntryModel>) -> bool {
    forall|i: int| 0 <= i < s.len() - 1 ==> s[i].published >= #[trigger] s[i + 1].published
}

/// The wrap-around successor of a cursor position.
pub open spec fn next_pos(i: int, len: int) -> int {
    if i + 1 >= len {
        0
    } else {
        i + 1
    }
}

/// The wrap-around predecessor of a cursor position.
pub open spec fn prev_pos(i: int, len: int) -> int {
    if i == 0 {
        len - 1
    } else {
        i - 1
    }
}

/// Whether an entry is shown: an entry whose link was marked read is
/// hidden; an entry without a link cannot be marked and is always shown.
pub open spec fn entry_visible(e: ListEntryModel, read: Set<Seq<char>>) -> bool {
    match e.link {
        Some(l) => !read.contains(l),
        None => true,
    }
}

/// The positions of the shown entries, in list order.
pub open spec fn visible_of(s: Seq<ListEntryModel>, read: Set<Seq<char>>) -> Seq<usize>
    decreases s.len(),
{
    if s.len() == 0 {
        Seq::empty()
    } else {
        visible_of(s.drop_last(), read) + (if entry_visible(s.last(), read) {
            seq![(s.len() - 1) as usize]
        } else {
            Seq::<usize>::empty()
        })
    }
}

/// The merged, newest-first entry list with its selection cursor.
/// `cursor` is `None` exactly when the list is empty; otherwise it is a
/// position in the list.
pub struct FeedList {
    pub items: Vec<ListEntry>,
    pub cursor: Option<usize>,
}

impl FeedList {
    /// Abstract contents: the display entries in list order.
    pub open spec fn entries(&self) -> Seq<ListEntryModel> {
        list_entry_views(self.items@)
    }

    /// Well-formed: no selection exactly when the list is empty; else the
    /// cursor is a position in the list.
    pub open spec fn wf(&self) -> bool {
        match self.cursor {
            None => self.items@.len() == 0,
            Some(i) => i < self.items@.len(),
        }
    }

    /// Merge all feeds' display entries into one list sorted newest
    /// first — exactly the entries of the feeds, reordered — and select
    /// the first entry when any exists.
    pub fn new(feeds: Vec<FeedData>) -> (r: FeedList)
        ensures
            r.wf(),
            sorted_desc(r.entries()),
            r.entries().to_multiset() == all_list_models(feed_views(feeds@)).to_multiset(),
            r.entries().len() == 0 ==> r.cursor is None,
            r.entries().len() > 0 ==> r.cursor == Some(0usize),
    {
        let ghost fm = feed_views(feeds@);
        let mut pool: Vec<ListEntry> = Vec::new();
        let mut fi: usize = 0;
        while fi < feeds.len()
            invariant
                fi <= feeds@.len(),
                fm == feed_views(feeds@),
                list_entry_views(pool@) == all_list_models(fm.take(fi as int)),
            decreases feeds@.len() - fi,
        {
            let mut v = feeds[fi].list_entries();
            let ghost pv = pool@;
            let ghost vv = v@;
            pool.append(&mut v);
            proof {
                assert(fm.take(fi as int + 1).drop_last() =~= fm.take(fi as int));
                assert(fm.take(fi as int + 1).last() == fm[fi as int]);
                assert(fm[fi as int] == feeds@[fi as int]@);
                assert(list_entry_views(pv + vv) =~= list_entry_views(pv) + list_entry_views(vv));
            }
            fi = fi + 1;
        }
        proof {
            assert(fm.take(feeds@.len() as int) =~= fm);
        }
        let ghost total = list_entry_views(pool@).to_multiset();

        let mut items: Vec<ListEntry> = Vec::new();
        while pool.len() > 0
            invariant
                sorted_desc(list_entry_views(items@)),
                forall|a: int, b: int|
                    0 <= a < items@.len() && 0 <= b < pool@.len()
                        ==> #[trigger] list_entry_views(items@)[a].published
                        >= #[trigger] list_entry_views(pool@)[b].published,
                list_entry_views(items@).to_multiset().add(list_entry_views(pool@).to_multiset())
                    == total,
            decreases pool@.len(),
        {
            let mut best: usize = 0;
            let mut k: usize = 1;
            while k < pool.len()
                invariant
                    pool@.len() > 0,
                    1 <= k <= pool@.len(),
                    best < k,
                    forall|j: int|
                        0 <= j < k ==> #[trigger] pool@[j].published <= pool@[
                            best as int
                        ].published,
                decreases pool@.len() - k,
            {
                if pool[k].published > pool[best].published {
                    best = k;
                }
                k = k + 1;
            }
            let ghost pv = list_entry_views(pool@);
            let ghost iv = list_entry_views(items@);
            let x = pool.remove(best);
            items.push(x);
            proof {
                assert(x@ == pv[best as int]);
                assert(list_entry_views(pool@) =~= pv.remove(best as int));
                assert(list_entry_views(items@) =~= iv.push(x@));
                assert(pv.contains(pv[best as int]));
                assert(pv.to_multiset().count(x@) > 0);
                assert(iv.push(x@).to_multiset() =~= iv.to_multiset().insert(x@));
                assert(pv.remove(best as int).to_multiset() =~= pv.to_multiset().remove(x@));
                assert(iv.to_multiset().insert(x@).add(pv.to_multiset().remove(x@))
                    =~= iv.to_multiset().add(pv.to_multiset())) by {
                    broadcast use vstd::multiset::group_multiset_axioms;

                };
                // the chosen entry is the newest of the pool
                assert(forall|b: int|
                    0 <= b < pv.len() ==> #[trigger] pv[b].published <= x@.published);
                // sortedness is kept: the last kept entry is no older than x
                assert(forall|a: int|
                    0 <= a < iv.len() ==> #[trigger] iv[a].published >= x@.published);
                assert(sorted_desc(iv.push(x@)));
            }
        }
        let cursor: Option<usize> = if items.len() == 0 {
            None
        } else {
            Some(0usize)
        };
        proof {
            assert(list_entry_views(pool@) =~= Seq::<ListEntryModel>::empty());
            assert(list_entry_views(pool@).to_multiset().len() == 0);
            assert(list_entry_views(items@).to_multiset().add(Multiset::empty())
                =~= list_entry_views(items@).to_multiset());
        }
        FeedList { items, cursor }
    }

    /// Move the selection to the next entry, wrapping past the end to the
    /// first; a no-op on an empty list.
    pub fn next(&mut self)
        requires
            old(self).wf(),
        ensures
            final(self).wf(),
            final(self).items == old(self).items,
            old(self).cursor is None ==> final(self).cursor is None,
            old(self).cursor matches Some(i) ==> final(self).cursor == Some(
                next_pos(i as int, old(self).items@.len() as int) as usize,
            ),
    {
        match self.cursor {
            Some(i) => {
                let n = self.items.len();
                let j: usize = if i + 1 >= n {
                    0
                } else {
                    i + 1
                };
                self.cursor = Some(j);
            },
            None => {},
        }
    }

    /// Move the selection to the previous entry, wrapping before the
    /// start to the last; a no-op on an empty list.
    pub fn previous(&mut self)
        requires
            old(self).wf(),
        ensures
            final(self).wf(),
            final(self).items == old(self).items,
            old(self).cursor is None ==> final(self).cursor is None,
            old(self).cursor matches Some(i) ==> final(self).cursor == Some(
                prev_pos(i as int, old(self).items@.len() as int) as usize,
            ),
    {
        match self.cursor {
            Some(i) => {
                let n = self.items.len();
                let j: usize = if i == 0 {
                    n - 1
                } else {
                    i - 1
                };
                self.cursor = Some(j);
            },
            None => {},
        }
    }

    /// The selected entry.
    pub fn get(&self) -> (r: &ListEntry)
        requires
            self.wf(),
            self.cursor is Some,
        ensures
            r@ == self.entries()[self.cursor.unwrap() as int],
    {
        let i: usize = match self.cursor {
            Some(i) => i,
            None => 0,
        };
        &self.items[i]
    }

    /// The positions of the entries still shown once read entries are
    /// filtered out, in list order.  The underlying list is unchanged by
    /// filtering.
    pub fn visible_indices(&self, read: &ReadSet) -> (r: Vec<usize>)
        ensures
            r@ == visible_of(self.entries(), read@),
    {
        let ghost m = self.entries();
        let mut r: Vec<usize> = Vec::new();
        let mut i: usize = 0;
        while i < self.items.len()
            invariant
                i <= self.items@.len(),
                m == self.entries(),
                r@ == visible_of(m.take(i as int), read@),
            decreases self.items@.len() - i,
        {
            proof {
                assert(m.take(i as int + 1).drop_last() =~= m.take(i as int));
                assert(m.take(i as int + 1).last() == m[i as int]);
                assert(m[i as int] == self.items@[i as int]@);
            }
            let shown: bool = match &self.items[i].link {
                Some(l) => !read.is_read(l),
                None => true,
            };
            if shown {
                r.push(i);
                proof {
                    assert(r@ =~= visible_of(m.take(i as int + 1), read@));
                }
            }
            i = i + 1;
        }
        proof {
            assert(m.take(self.items@.len() as int) =~= m);
        }
        r
    }
}

/// The cursor after `k` successor steps.
pub open spec fn iter_next(i: int, len: int, k: nat) -> int
    decreases k,
{
    if k == 0 {
        i
    } else {
        next_pos(iter_next(i, len, (k - 1) as nat), len)
    }
}

proof fn lemma_iter_next_formula(i: int, len: int, k: nat)
    requires
        0 <= i < len,
        k <= len,
    ensures
        iter_next(i, len, k) == if i + k < len {
            i + k
        } else {
            i + k - len
        },
    decreases k,
{
    if k > 0 {
        lemma_iter_next_formula(i, len, (k - 1) as nat);
    }
}

/// Law: on a list of length `len`, `len` successor steps from any cursor
/// position return to that position.
pub proof fn lemma_next_full_cycle(i: int, len: int)
    requires
        0 <= i < len,
    ensures
        iter_next(i, len, len as nat) == i,
{
    lemma_iter_next_formula(i, len, len as nat);
}

/// Law: from any cursor position, a predecessor step followed by a
/// successor step — and a successor step followed by a predecessor
/// step — returns to that position.
pub proof fn lemma_prev_next_inverse(i: int, len: int)
    requires
        0 <= i < len,
    ensures
        next_pos(prev_pos(i, len), len) == i,
        prev_pos(next_pos(i, len), len) == i,
{
}

} // verus!
