//! The observable guarantees of the store, stated and proved once over
//! the mathematical state transitions.

use vstd::prelude::*;

use crate::json::json_entries;
use crate::models::EntryView;
use crate::store::StoreView;
use crate::store::created_entry;
use crate::store::has_id;
use crate::store::spec_create;
use crate::store::spec_delete;
use crate::store::spec_update;
use crate::store::without_id;

verus! {

/// Creating and then listing shows the new entry: listing after a
/// creation holds exactly the old entries plus one that carries the
/// caller's title and date and a freshly assigned id — non-negative and
/// carried by no entry that was present before.
pub proof fn lemma_create_then_list(v: StoreView, title: Seq<char>, date: int)
    requires
        v.wf(),
        v.next_id < i32::MAX,
    ensures
        ({
            let e = created_entry(v, title, date);
            let v2 = spec_create(v, title, date);
            &&& v2.entries == v.entries.push(e)
            &&& e.title == title
            &&& e.date == date
            &&& 0 <= e.id
            &&& !has_id(v.entries, e.id)
            &&& v2.wf()
        }),
{
    let e = created_entry(v, title, date);
    let v2 = spec_create(v, title, date);
    assert forall|i: int| 0 <= i < v.entries.len() implies #[trigger] v.entries[i].id != e.id by {}
    assert forall|i: int| 0 <= i < v2.entries.len() implies 1 <= #[trigger] v2.entries[i].id
        < v2.next_id by {
        if i < v.entries.len() {
            assert(v2.entries[i] == v.entries[i]);
        } else {
            assert(v2.entries[i] == e);
        }
    }
    assert forall|i: int, j: int| 0 <= i < j < v2.entries.len() implies #[trigger] v2.entries[i].id
        != #[trigger] v2.entries[j].id by {
        if j == v.entries.len() {
            assert(v2.entries[i] == v.entries[i]);
            assert(v.entries[i].id < v.next_id);
        }
    }
}

/// Updating a freshly created entry's title and listing again shows the
/// new title under the original id and date, and every entry that was
/// present before the creation exactly as it was.
pub proof fn lemma_update_round_trip(v: StoreView, title: Seq<char>, date: int, title2: Seq<char>)
    requires
        v.wf(),
    ensures
        ({
            let e = created_entry(v, title, date);
            let v1 = spec_create(v, title, date);
            let v2 = spec_update(v1, e.id, title2);
            &&& v2.entries.len() == v1.entries.len()
            &&& v2.entries[v1.entries.len() - 1] == (EntryView { id: e.id, date, title: title2 })
            &&& forall|j: int| 0 <= j < v.entries.len() ==> #[trigger] v2.entries[j] == v.entries[j]
            &&& v2.next_id == v1.next_id
        }),
{
    let e = created_entry(v, title, date);
    let v1 = spec_create(v, title, date);
    let v2 = spec_update(v1, e.id, title2);
    assert forall|j: int| 0 <= j < v.entries.len() implies #[trigger] v2.entries[j]
        == v.entries[j] by {
        assert(v1.entries[j] == v.entries[j]);
        assert(v.entries[j].id < v.next_id);
    }
}

/// Deletion truly deletes: after a deletion no remaining entry carries
/// the deleted id.
pub proof fn lemma_delete_removes_id(v: StoreView, id: int)
    ensures
        !has_id(spec_delete(v, id).entries, id),
{
    lemma_without_id_spares_no_match(v.entries, id);
}

/// Deleting an id that no entry carries leaves the store exactly as it
/// was; together with the delete operation's unconditional success this
/// is deletion's idempotence.
pub proof fn lemma_delete_absent_id(v: StoreView, id: int)
    requires
        !has_id(v.entries, id),
    ensures
        spec_delete(v, id) == v,
{
    lemma_without_id_absent(v.entries, id);
}

/// An update of an id that no entry carries — the condition surfaced as
/// the generic storage failure — leaves the store exactly as it was.
pub proof fn lemma_update_absent_id(v: StoreView, id: int, title: Seq<char>)
    requires
        !has_id(v.entries, id),
    ensures
        spec_update(v, id, title) == v,
{
    assert forall|j: int| 0 <= j < v.entries.len() implies #[trigger] spec_update(
        v,
        id,
        title,
    ).entries[j] == v.entries[j] by {
        assert(v.entries[j].id != id);
    }
    assert(spec_update(v, id, title).entries =~= v.entries);
}

/// Listing an empty store yields the empty JSON array — two characters,
/// neither a null nor an error.
pub proof fn lemma_empty_list_json()
    ensures
        json_entries(Seq::<EntryView>::empty()) == "[]"@,
{
    reveal_strlit("[]");
    assert(json_entries(Seq::<EntryView>::empty()) =~= "[]"@);
}

proof fn lemma_without_id_spares_no_match(s: Seq<EntryView>, id: int)
    ensures
        forall|k: int| 0 <= k < without_id(s, id).len() ==> #[trigger] without_id(s, id)[k].id
            != id,
    decreases s.len(),
{
    if s.len() > 0 {
        lemma_without_id_spares_no_match(s.drop_last(), id);
        let w = without_id(s, id);
        let prev = without_id(s.drop_last(), id);
        if s.last().id != id {
            assert forall|k: int| 0 <= k < w.len() implies #[trigger] w[k].id != id by {
                if k < prev.len() {
                    assert(w[k] == prev[k]);
                }
            }
        }
    }
}

proof fn lemma_without_id_absent(s: Seq<EntryView>, id: int)
    requires
        forall|i: int| 0 <= i < s.len() ==> #[trigger] s[i].id != id,
    ensures
        without_id(s, id) == s,
    decreases s.len(),
{
    if s.len() > 0 {
        assert(s.last().id != id);
        lemma_without_id_absent(s.drop_last(), id);
        assert(without_id(s, id) =~= s);
    } else {
        assert(without_id(s, id) =~= s);
    }
}

} // verus!
