use todolist::services::create_entry;
use todolist::services::delete_entry;
use todolist::services::get_entries;
use todolist::services::index;
use todolist::services::rows_to_entries;
use todolist::services::update_entry;
use todolist::store::Store;
use todolist::CreateEntryData;
use todolist::RawRow;
use todolist::UpdateEntryData;

#[test]
fn create_then_list_shows_new_entry() {
    let mut s = Store::new();
    let e = s.create("t".to_string(), 100).unwrap();
    assert!(e.id >= 0);
    assert_eq!(e.date, 100);
    assert_eq!(e.title, "t");
    let listed = s.list();
    assert_eq!(listed.len(), 1);
    assert_eq!(listed[0].id, e.id);
    assert_eq!(listed[0].date, 100);
    assert_eq!(listed[0].title, "t");
    let e2 = s.create("u".to_string(), 7).unwrap();
    assert_ne!(e2.id, e.id);
    assert!(e2.id >= 0);
    assert_eq!(s.list().len(), 2);
}

#[test]
fn update_round_trip_keeps_id_and_date() {
    let mut s = Store::new();
    let e = s.create("old".to_string(), 42).unwrap();
    let body = UpdateEntryData { title: "new".to_string() };
    let u = s.update(e.id, body.title).unwrap();
    assert_eq!(u.id, e.id);
    assert_eq!(u.date, 42);
    assert_eq!(u.title, "new");
    let listed = s.list();
    assert_eq!(listed.len(), 1);
    assert_eq!(listed[0].id, e.id);
    assert_eq!(listed[0].date, 42);
    assert_eq!(listed[0].title, "new");
}

#[test]
fn delete_missing_id_reports_success_like_an_existing_one() {
    let mut s = Store::new();
    let e = s.create("t".to_string(), 1).unwrap();
    let removed_missing = s.delete(-1);
    assert_eq!(removed_missing, 0);
    assert_eq!(s.list().len(), 1);
    let missing_response = delete_entry(Ok(removed_missing as u64));
    let removed_real = s.delete(e.id);
    assert_eq!(removed_real, 1);
    assert_eq!(s.list().len(), 0);
    let real_response = delete_entry(Ok(removed_real as u64));
    assert_eq!(missing_response.status, real_response.status);
    assert_eq!(missing_response.body, real_response.body);
    assert_eq!(missing_response.status, 200);
    assert_eq!(missing_response.body, "");
}

#[test]
fn delete_removes_only_the_matching_entry() {
    let mut s = Store::new();
    let a = s.create("a".to_string(), 1).unwrap();
    let b = s.create("b".to_string(), 2).unwrap();
    s.delete(a.id);
    let listed = s.list();
    assert_eq!(listed.len(), 1);
    assert_eq!(listed[0].id, b.id);
    assert_eq!(listed[0].title, "b");
}

#[test]
fn update_of_missing_id_gives_generic_server_error() {
    let mut s = Store::new();
    s.create("t".to_string(), 5).unwrap();
    let err = s.update(-1, "x".to_string());
    assert!(err.is_err());
    let msg = err.unwrap_err().message();
    assert_eq!(msg, "storage error");
    let response = update_entry(Err(msg.clone()));
    assert_eq!(response.status, 500);
    assert_eq!(response.body, msg);
    let connectivity = update_entry(Err("connection reset".to_string()));
    assert_eq!(connectivity.status, 500);
}

#[test]
fn update_of_missing_id_leaves_store_unchanged() {
    let mut s = Store::new();
    let e = s.create("t".to_string(), 5).unwrap();
    assert!(s.update(e.id + 1, "x".to_string()).is_err());
    let listed = s.list();
    assert_eq!(listed.len(), 1);
    assert_eq!(listed[0].title, "t");
}

#[test]
fn list_on_empty_store_is_empty_json_array() {
    let s = Store::new();
    let response = get_entries(Ok(s.list()));
    assert_eq!(response.status, 200);
    assert_eq!(response.body, "[]");
}

#[test]
fn list_failure_is_server_error_with_text() {
    let response = get_entries(Err("no connection".to_string()));
    assert_eq!(response.status, 500);
    assert_eq!(response.body, "no connection");
}

#[test]
fn root_returns_fixed_ok() {
    let r = index();
    assert_eq!(r.status, 200);
    assert_eq!(r.body, "OK");
}

#[test]
fn create_response_echoes_input_plus_id() {
    let data = CreateEntryData {
        title: "t".to_string(),
        date: 100,
    };
    let response = create_entry(&data, Ok(1));
    assert_eq!(response.status, 200);
    assert_eq!(response.body, "{\"id\":1,\"date\":100,\"title\":\"t\"}");
    let failure = create_entry(&data, Err("boom".to_string()));
    assert_eq!(failure.status, 500);
    assert_eq!(failure.body, "boom");
}

#[test]
fn create_fails_when_id_space_exhausted() {
    let mut s = Store {
        entries: vec![],
        next_id: i32::MAX,
    };
    assert!(s.create("t".to_string(), 0).is_err());
    assert_eq!(s.list().len(), 0);
}

#[test]
fn listing_rejects_partial_rows() {
    let rows = vec![RawRow {
        id: 1,
        title: None,
        date: Some(2),
    }];
    assert!(rows_to_entries(rows).is_err());
    let rows = vec![RawRow {
        id: 1,
        title: Some("a".to_string()),
        date: None,
    }];
    assert!(rows_to_entries(rows).is_err());
}

#[test]
fn listing_maps_full_rows() {
    let rows = vec![
        RawRow {
            id: 1,
            title: Some("a".to_string()),
            date: Some(2),
        },
        RawRow {
            id: 5,
            title: Some("b".to_string()),
            date: Some(-3),
        },
    ];
    let entries = rows_to_entries(rows).unwrap();
    assert_eq!(entries.len(), 2);
    assert_eq!(entries[0].id, 1);
    assert_eq!(entries[0].title, "a");
    assert_eq!(entries[0].date, 2);
    assert_eq!(entries[1].id, 5);
    assert_eq!(entries[1].title, "b");
    assert_eq!(entries[1].date, -3);
}

#[test]
fn update_response_defaults_missing_fields() {
    let row = RawRow {
        id: 9,
        title: None,
        date: None,
    };
    let response = update_entry(Ok(row));
    assert_eq!(response.status, 200);
    assert_eq!(response.body, "{\"id\":9,\"date\":0,\"title\":\"\"}");
}

#[test]
fn update_response_keeps_present_fields() {
    let row = RawRow {
        id: 9,
        title: Some("kept".to_string()),
        date: Some(77),
    };
    let response = update_entry(Ok(row));
    assert_eq!(response.status, 200);
    assert_eq!(response.body, "{\"id\":9,\"date\":77,\"title\":\"kept\"}");
}

#[test]
fn delete_failure_is_server_error_with_text() {
    let response = delete_entry(Err("timeout".to_string()));
    assert_eq!(response.status, 500);
    assert_eq!(response.body, "timeout");
}
