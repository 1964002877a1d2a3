//! From storage outcomes to HTTP responses.
//!
//! Each service function takes the outcome of its storage statement as a
//! plain value — the surrounding process performs the statement and hands
//! the result in — and produces the response: status 200 with the JSON
//! body on success, and the one generic server-error response, status 500
//! with the error's textual description, on every storage failure. No
//! failure kind is distinguished from another.

use vstd::prelude::*;
use vstd::string::StringExecFns;

use crate::json::entries_json;
use crate::json::entry_json;
use crate::json::json_entries;
use crate::json::json_entry;
use crate::models::CreateEntryData;
use crate::models::Entry;
use crate::models::EntryView;
use crate::models::RawRow;
use crate::models::StoreError;
use crate::models::views_of;

verus! {

/// An HTTP response: the status code and the body text.
pub struct Response {
    pub status: u16,
    pub body: String,
}

/// Whether a stored row came back with every field populated.
pub open spec fn full_row(r: RawRow) -> bool {
    r.title is Some && r.date is Some
}

/// The entry a fully populated row denotes.
pub open spec fn row_view(r: RawRow) -> EntryView {
    EntryView { id: r.id as int, date: r.date->0 as int, title: r.title->0@ }
}

/// The entry a row denotes under the lenient policy of the update path:
/// an absent title becomes the empty string, an absent date becomes zero.
pub open spec fn defaulted_row_view(r: RawRow) -> EntryView {
    EntryView {
        id: r.id as int,
        date: if r.date is Some {
            r.date->0 as int
        } else {
            0
        },
        title: if r.title is Some {
            r.title->0@
        } else {
            Seq::empty()
        },
    }
}

/// The strict mapping policy of the listing path: a row with an absent
/// title or date is a fatal mapping condition, not a soft default.
pub fn rows_to_entries(rows: Vec<RawRow>) -> (r: Result<Vec<Entry>, StoreError>)
    ensures
        (r is Ok <==> forall|i: int| 0 <= i < rows@.len() ==> full_row(#[trigger] rows@[i])),
        r is Ok ==> views_of(r->Ok_0@) == rows@.map_values(|x: RawRow| row_view(x)),
{
    let mut out: Vec<Entry> = Vec::new();
    let mut i: usize = 0;
    while i < rows.len()
        invariant
            i <= rows@.len(),
            out@.len() == i,
            forall|j: int| 0 <= j < i ==> full_row(#[trigger] rows@[j]),
            forall|j: int| 0 <= j < i ==> #[trigger] out@[j]@ == row_view(rows@[j]),
        decreases rows@.len() - i,
    {
        let row = &rows[i];
        let title = match &row.title {
            Some(t) => t.clone(),
            None => {
                return Err(StoreError);
            },
        };
        let date = match row.date {
            Some(d) => d,
            None => {
                return Err(StoreError);
            },
        };
        out.push(Entry { id: row.id, date, title });
        i = i + 1;
    }
    assert(views_of(out@) =~= rows@.map_values(|x: RawRow| row_view(x)));
    Ok(out)
}

/// The liveness route: a fixed OK response, independent of storage.
pub fn index() -> (r: Response)
    ensures
        r.status == 200,
        r.body@ == "OK"@,
{
    Response { status: 200, body: String::from_str("OK") }
}

/// The listing route: the entries as a JSON array on success, the generic
/// server-error response on any storage failure.
pub fn get_entries(outcome: Result<Vec<Entry>, String>) -> (r: Response)
    ensures
        outcome is Ok ==> r.status == 200 && r.body@ == json_entries(views_of(outcome->Ok_0@)),
        outcome is Err ==> r.status == 500 && r.body@ == outcome->Err_0@,
{
    match outcome {
        Ok(entries) => Response { status: 200, body: entries_json(&entries) },
        Err(m) => Response { status: 500, body: m },
    }
}

/// The creation route: on success the stored entry is the caller's title
/// and date plus the assigned id — nothing is read back from storage —
/// and its JSON text is the body.
pub fn create_entry(data: &CreateEntryData, outcome: Result<i32, String>) -> (r: Response)
    ensures
        outcome is Ok ==> r.status == 200 && r.body@ == json_entry(
            EntryView {
                id: outcome->Ok_0 as int,
                date: data.date as int,
                title: data.title@,
            },
        ),
        outcome is Err ==> r.status == 500 && r.body@ == outcome->Err_0@,
{
    match outcome {
        Ok(id) => {
            let entry = Entry { id, date: data.date, title: data.title.clone() };
            Response { status: 200, body: entry_json(&entry) }
        },
        Err(m) => Response { status: 500, body: m },
    }
}

/// The update route: on success the row read back from the statement is
/// returned as JSON, with an absent title or date replaced by the empty
/// string or zero; every failure — a missing id included — is the same
/// generic server-error response.
pub fn update_entry(outcome: Result<RawRow, String>) -> (r: Response)
    ensures
        outcome is Ok ==> r.status == 200 && r.body@ == json_entry(
            defaulted_row_view(outcome->Ok_0),
        ),
        outcome is Err ==> r.status == 500 && r.body@ == outcome->Err_0@,
{
    match outcome {
        Ok(row) => {
            let title = match row.title {
                Some(t) => t,
                None => String::new(),
            };
            let date = match row.date {
                Some(d) => d,
                None => 0,
            };
            let entry = Entry { id: row.id, date, title };
            Response { status: 200, body: entry_json(&entry) }
        },
        Err(m) => Response { status: 500, body: m },
    }
}

/// The deletion route: success — with an empty body — however many rows
/// matched, zero included; the generic server-error response otherwise.
pub fn delete_entry(outcome: Result<u64, String>) -> (r: Response)
    ensures
        outcome is Ok ==> r.status == 200 && r.body@ == Seq::<char>::empty(),
        outcome is Err ==> r.status == 500 && r.body@ == outcome->Err_0@,
{
    match outcome {
        Ok(_) => Response { status: 200, body: String::new() },
        Err(m) => Response { status: 500, body: m },
    }
}

} // verus!
