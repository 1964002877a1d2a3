//! Data shapes of the service: the persisted entry, the request bodies,
//! raw storage rows, and the single storage error kind.

use vstd::prelude::*;

verus! {

/// The sole persisted resource: a todo-list entry.
///
/// `id` is assigned by the store on creation and never changes afterwards;
/// `date` is set at creation and never modified; `title` is the only field
/// the update operation may change.
#[derive(Debug)]
pub struct Entry {
    pub id: i32,
    pub date: i64,
    pub title: String,
}

/// Mathematical value of an [`Entry`].
pub ghost struct EntryView {
    pub id: int,
    pub date: int,
    pub title: Seq<char>,
}

impl View for Entry {
    type V = EntryView;

    open spec fn view(&self) -> EntryView {
        EntryView { id: self.id as int, date: self.date as int, title: self.title@ }
    }
}

impl Clone for Entry {
    fn clone(&self) -> (r: Entry)
        ensures
            r@ == self@,
    {
        Entry { id: self.id, date: self.date, title: self.title.clone() }
    }
}

/// The views of a sequence of entries, element by element.
pub open spec fn views_of(s: Seq<Entry>) -> Seq<EntryView> {
    s.map_values(|e: Entry| e@)
}

/// Request body of the create operation: the caller supplies `title` and
/// `date`; the store assigns the id.
pub struct CreateEntryData {
    pub title: String,
    pub date: i64,
}

/// Request body of the update operation: only the title may be changed.
pub struct UpdateEntryData {
    pub title: String,
}

/// A row as it comes back from storage, before the mapping policy is
/// applied: `title` and `date` may be absent there.
pub struct RawRow {
    pub id: i32,
    pub title: Option<String>,
    pub date: Option<i64>,
}

/// The single externally observable failure kind of the store. Connectivity
/// loss, constraint violations and no-row-matched conditions are all
/// surfaced as this one undifferentiated error.
#[derive(Clone, Copy, Debug, PartialEq, Eq, Structural)]
pub struct StoreError;

impl StoreError {
    /// The generic textual description carried to the caller.
    pub fn message(&self) -> (r: String)
        ensures
            r@ == "storage error"@,
    {
        String::from_str("storage error")
    }
}

} // verus!
