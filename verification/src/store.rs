//! The entry store: a flat collection of entries with store-assigned ids.
//!
//! The store owns the collection and offers the four operations of the
//! service — list, create, update-by-id, delete-by-id — each a single
//! atomic step. Ids are assigned by the store alone, exactly once, and are
//! unique; `spec_create`, `spec_update` and `spec_delete` define each
//! operation's effect on the mathematical state, and the laws at the end
//! of the module state the observable guarantees that follow.

use vstd::prelude::*;

use crate::models::Entry;
use crate::models::EntryView;
use crate::models::StoreError;
use crate::models::views_of;

verus! {

/// The entry collection, with the id counter the next creation will use.
pub struct Store {
    pub entries: Vec<Entry>,
    pub next_id: i32,
}

/// Mathematical value of a [`Store`].
pub ghost struct StoreView {
    pub entries: Seq<EntryView>,
    pub next_id: int,
}

impl View for Store {
    type V = StoreView;

    open spec fn view(&self) -> StoreView {
        StoreView { entries: views_of(self.entries@), next_id: self.next_id as int }
    }
}

/// Whether some entry of `s` carries the id `id`.
pub open spec fn has_id(s: Seq<EntryView>, id: int) -> bool {
    exists|i: int| 0 <= i < s.len() && s[i].id == id
}

/// The position of the entry of `s` that carries `id`.
pub open spec fn index_of_id(s: Seq<EntryView>, id: int) -> int {
    choose|i: int| 0 <= i < s.len() && s[i].id == id
}

/// The entry of `s` that carries `id`.
pub open spec fn entry_with_id(s: Seq<EntryView>, id: int) -> EntryView {
    s[index_of_id(s, id)]
}

impl StoreView {
    /// Well-formedness: ids are positive, below the counter, and unique.
    pub open spec fn wf(self) -> bool {
        &&& 1 <= self.next_id <= i32::MAX
        &&& forall|i: int| 0 <= i < self.entries.len() ==> 1 <= #[trigger] self.entries[i].id
            < self.next_id
        &&& forall|i: int, j: int|
            0 <= i < j < self.entries.len() ==> #[trigger] self.entries[i].id
                != #[trigger] self.entries[j].id
    }
}

/// The entry that creating with `title` and `date` in state `v` yields.
pub open spec fn created_entry(v: StoreView, title: Seq<char>, date: int) -> EntryView {
    EntryView { id: v.next_id, date, title }
}

/// Effect of a successful creation: the new entry is appended and the
/// counter moves on.
pub open spec fn spec_create(v: StoreView, title: Seq<char>, date: int) -> StoreView {
    StoreView { entries: v.entries.push(created_entry(v, title, date)), next_id: v.next_id + 1 }
}

/// Effect of an update: the title of every entry carrying `id` is
/// replaced, and nothing else changes. With unique ids that is at most
/// one entry; with no match the state is unchanged.
pub open spec fn spec_update(v: StoreView, id: int, title: Seq<char>) -> StoreView {
    StoreView {
        entries: v.entries.map_values(
            |e: EntryView|
                if e.id == id {
                    EntryView { id: e.id, date: e.date, title }
                } else {
                    e
                },
        ),
        next_id: v.next_id,
    }
}

/// The entries of `s` that do not carry `id`, in their original order.
pub open spec fn without_id(s: Seq<EntryView>, id: int) -> Seq<EntryView>
    decreases s.len(),
{
    if s.len() == 0 {
        Seq::empty()
    } else if s.last().id == id {
        without_id(s.drop_last(), id)
    } else {
        without_id(s.drop_last(), id).push(s.last())
    }
}

/// Effect of a deletion: every entry carrying `id` is removed. Deleting
/// an id no entry carries leaves the state as it was.
pub open spec fn spec_delete(v: StoreView, id: int) -> StoreView {
    StoreView { entries: without_id(v.entries, id), next_id: v.next_id }
}

/// The position of the first entry of `entries` that carries `id`.
fn find_index(entries: &Vec<Entry>, id: i32) -> (r: Option<usize>)
    ensures
        match r {
            Some(i) => i < entries@.len() && entries@[i as int].id == id,
            None => forall|j: int| 0 <= j < entries@.len() ==> entries@[j].id != id,
        },
{
    let mut i: usize = 0;
    while i < entries.len()
        invariant
            i <= entries@.len(),
            forall|j: int| 0 <= j < i ==> entries@[j].id != id,
        decreases entries@.len() - i,
    {
        if entries[i].id == id {
            return Some(i);
        }
        i = i + 1;
    }
    None
}

impl Store {
    /// An empty store; the first creation will assign id 1.
    pub fn new() -> (r: Store)
        ensures
            r@.wf(),
            r@.entries == Seq::<EntryView>::empty(),
            r@.next_id == 1,
    {
        let r = Store { entries: Vec::new(), next_id: 1 };
        assert(r@.entries =~= Seq::<EntryView>::empty());
        r
    }

    /// List: every entry, in storage order, all fields populated.
    pub fn list(&self) -> (r: Vec<Entry>)
        ensures
            views_of(r@) == self@.entries,
    {
        let mut r: Vec<Entry> = Vec::new();
        let mut i: usize = 0;
        while i < self.entries.len()
            invariant
                i <= self.entries@.len(),
                r@.len() == i,
                forall|j: int| 0 <= j < i ==> #[trigger] r@[j]@ == self.entries@[j]@,
            decreases self.entries@.len() - i,
        {
            r.push(self.entries[i].clone());
            i = i + 1;
        }
        assert(views_of(r@) =~= self@.entries);
        r
    }

    /// Create: insert a new entry built from the caller's `title` and
    /// `date` plus the store-assigned id, and return it. Fails exactly
    /// when the id space is exhausted.
    pub fn create(&mut self, title: String, date: i64) -> (r: Result<Entry, StoreError>)
        requires
            old(self)@.wf(),
        ensures
            final(self)@.wf(),
            old(self)@.next_id < i32::MAX ==> {
                &&& r is Ok
                &&& r->Ok_0@ == created_entry(old(self)@, title@, date as int)
                &&& final(self)@ == spec_create(old(self)@, title@, date as int)
            },
            old(self)@.next_id == i32::MAX ==> r is Err && final(self)@ == old(self)@,
    {
        if self.next_id == i32::MAX {
            return Err(StoreError);
        }
        let entry = Entry { id: self.next_id, date, title };
        let copy = entry.clone();
        self.entries.push(entry);
        self.next_id = self.next_id + 1;
        proof {
            assert(self@.entries =~= spec_create(old(self)@, title@, date as int).entries);
        }
        Ok(copy)
    }

    /// Update: replace the title of the entry carrying `id` and return
    /// the resulting entry. Fails exactly when no entry carries `id`,
    /// and then leaves the store unchanged.
    pub fn update(&mut self, id: i32, title: String) -> (r: Result<Entry, StoreError>)
        requires
            old(self)@.wf(),
        ensures
            final(self)@.wf(),
            final(self)@ == spec_update(old(self)@, id as int, title@),
            (r is Ok <==> has_id(old(self)@.entries, id as int)),
            r is Ok ==> r->Ok_0@ == (EntryView {
                id: id as int,
                date: entry_with_id(old(self)@.entries, id as int).date,
                title: title@,
            }),
    {
        match find_index(&self.entries, id) {
            None => {
                proof {
                    assert(self@.entries =~= spec_update(old(self)@, id as int, title@).entries);
                }
                Err(StoreError)
            },
            Some(i) => {
                let date = self.entries[i].date;
                let updated = Entry { id, date, title };
                let copy = updated.clone();
                self.entries[i] = updated;
                proof {
                    let s = old(self)@.entries;
                    assert(s[i as int].id == id as int);
                    assert(has_id(s, id as int));
                    let k = index_of_id(s, id as int);
                    assert(s[k].id == id as int);
                    assert(k == i as int);
                    assert(self@.entries =~= spec_update(old(self)@, id as int, title@).entries);
                }
                Ok(copy)
            },
        }
    }

    /// Delete: remove the entry carrying `id`, if any. Reports success
    /// either way — a missing row is not distinguished from a removed
    /// one — and returns how many entries were removed.
    pub fn delete(&mut self, id: i32) -> (r: usize)
        requires
            old(self)@.wf(),
        ensures
            final(self)@.wf(),
            final(self)@ == spec_delete(old(self)@, id as int),
            r == old(self)@.entries.len() - final(self)@.entries.len(),
    {
        let ghost s = self@.entries;
        let mut kept: Vec<Entry> = Vec::new();
        let mut i: usize = 0;
        while i < self.entries.len()
            invariant
                i <= self.entries@.len(),
                s == views_of(self.entries@),
                views_of(kept@) == without_id(s.take(i as int), id as int),
                kept@.len() <= i,
            decreases self.entries@.len() - i,
        {
            proof {
                assert(s.take(i as int + 1).drop_last() =~= s.take(i as int));
            }
            if self.entries[i].id != id {
                kept.push(self.entries[i].clone());
            }
            assert(views_of(kept@) =~= without_id(s.take(i as int + 1), id as int));
            i = i + 1;
        }
        assert(s.take(s.len() as int) =~= s);
        let removed = self.entries.len() - kept.len();
        self.entries = kept;
        proof {
            lemma_without_id_shorter(s, id as int);
            lemma_without_id_wf(old(self)@, id as int);
        }
        removed
    }
}

/// Removing entries never lengthens the collection.
proof fn lemma_without_id_shorter(s: Seq<EntryView>, id: int)
    ensures
        without_id(s, id).len() <= s.len(),
    decreases s.len(),
{
    if s.len() > 0 {
        lemma_without_id_shorter(s.drop_last(), id);
    }
}

/// Every entry the deletion keeps was already present, so deletion
/// preserves well-formedness.
proof fn lemma_without_id_keeps(s: Seq<EntryView>, id: int, k: int)
    requires
        0 <= k < without_id(s, id).len(),
    ensures
        exists|j: int|
            0 <= j < s.len() && s[j] == without_id(s, id)[k] && #[trigger] s[j].id != id,
    decreases s.len(),
{
    if s.len() > 0 {
        let w = without_id(s, id);
        if s.last().id == id {
            lemma_without_id_keeps(s.drop_last(), id, k);
            let j = choose|j: int|
                0 <= j < s.drop_last().len() && s.drop_last()[j] == without_id(
                    s.drop_last(),
                    id,
                )[k] && #[trigger] s.drop_last()[j].id != id;
            assert(s[j] == w[k] && s[j].id != id);
        } else {
            if k < w.len() - 1 {
                lemma_without_id_keeps(s.drop_last(), id, k);
                let j = choose|j: int|
                    0 <= j < s.drop_last().len() && s.drop_last()[j] == without_id(
                        s.drop_last(),
                        id,
                    )[k] && #[trigger] s.drop_last()[j].id != id;
                assert(s[j] == w[k] && s[j].id != id);
            } else {
                assert(s[s.len() - 1] == w[k] && s[s.len() - 1].id != id);
            }
        }
    }
}

/// Deletion preserves well-formedness: what it keeps is a subcollection.
proof fn lemma_without_id_wf(v: StoreView, id: int)
    requires
        v.wf(),
    ensures
        spec_delete(v, id).wf(),
{
    let w = without_id(v.entries, id);
    assert forall|k: int| 0 <= k < w.len() implies 1 <= #[trigger] w[k].id < v.next_id by {
        lemma_without_id_keeps(v.entries, id, k);
    }
    lemma_without_id_distinct(v.entries, id);
}

/// Deletion keeps the remaining ids distinct.
proof fn lemma_without_id_distinct(s: Seq<EntryView>, id: int)
    requires
        forall|i: int, j: int| 0 <= i < j < s.len() ==> #[trigger] s[i].id != #[trigger] s[j].id,
    ensures
        forall|i: int, j: int|
            0 <= i < j < without_id(s, id).len() ==> #[trigger] without_id(s, id)[i].id
                != #[trigger] without_id(s, id)[j].id,
    decreases s.len(),
{
    if s.len() > 0 {
        lemma_without_id_distinct(s.drop_last(), id);
        let w = without_id(s, id);
        if s.last().id != id {
            assert forall|i: int, j: int| 0 <= i < j < w.len() implies #[trigger] w[i].id
                != #[trigger] w[j].id by {
                let prev = without_id(s.drop_last(), id);
                if j == prev.len() {
                    lemma_without_id_keeps(s.drop_last(), id, i);
                    let j0 = choose|j0: int|
                        0 <= j0 < s.drop_last().len() && s.drop_last()[j0] == prev[i]
                            && #[trigger] s.drop_last()[j0].id != id;
                    assert(s[j0] == prev[i]);
                    assert(s[j0].id != s[s.len() - 1].id);
                    assert(w[i] == prev[i]);
                    assert(w[j] == s.last());
                } else {
                    assert(w[i] == prev[i] && w[j] == prev[j]);
                    assert(prev[i].id != prev[j].id);
                }
            }
        }
    }
}

} // verus!
