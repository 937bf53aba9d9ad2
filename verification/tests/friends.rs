use friends::handlers::{
    add_friend_to_db, choose_body, create_friend, internal_error, view_all_friends, view_friend,
};
use friends::migrate::MigrationLog;
use friends::models::{Friend, NewFriend};
use friends::paths::{dec_string, friend_path};
use friends::store::{RepoError, Store};

fn payload(name: &str, email: &str) -> NewFriend {
    NewFriend { name: name.to_string(), email: email.to_string() }
}

#[test]
fn round_trip_insert_then_get() {
    let mut store = Store::new();
    let created = store.insert(payload("Ann", "a@x.com")).unwrap();
    let id = created.id();
    let fetched = store.get_by_id(id).unwrap();
    assert_eq!(fetched.id(), id);
    assert_eq!(fetched.name().as_str(), "Ann");
    assert_eq!(fetched.email().as_str(), "a@x.com");
}

#[test]
fn empty_list_is_ok_and_empty() {
    let store = Store::new();
    assert_eq!(store.list_all().len(), 0);
    let body = view_all_friends(&store).unwrap();
    assert!(body.is_empty());
}

#[test]
fn sequential_inserts_get_distinct_ids() {
    let mut store = Store::new();
    let mut ids = Vec::new();
    for i in 0..5 {
        let f = store.insert(payload(&format!("n{i}"), &format!("e{i}"))).unwrap();
        ids.push(f.id());
    }
    for i in 0..ids.len() {
        for j in 0..ids.len() {
            if i != j {
                assert_ne!(ids[i], ids[j]);
            }
        }
    }
}

#[test]
fn get_of_never_inserted_id_is_not_found() {
    let mut store = Store::new();
    store.insert(payload("Ann", "a@x.com")).unwrap();
    let err = store.get_by_id(99).unwrap_err();
    assert_eq!(err, RepoError::NotFound);
    assert_ne!(err, RepoError::Fault);
}

#[test]
fn view_friend_maps_missing_row_to_404() {
    let store = Store::new();
    let (status, msg) = view_friend(&store, 7).unwrap_err();
    assert_eq!(status, 404);
    assert_eq!(msg, "friend not found");
}

#[test]
fn view_friend_returns_stored_record() {
    let mut store = Store::new();
    let created = store.insert(payload("Ann", "a@x.com")).unwrap();
    let f = view_friend(&store, created.id()).unwrap();
    assert_eq!(f.id(), created.id());
    assert_eq!(f.name().as_str(), "Ann");
    assert_eq!(f.email().as_str(), "a@x.com");
}

#[test]
fn json_and_form_bodies_store_the_same_fields() {
    let mut store = Store::new();
    let via_json = create_friend(&mut store, Some(payload("Ann", "a@x.com")), None).unwrap();
    let via_form = create_friend(&mut store, None, Some(payload("Ann", "a@x.com"))).unwrap();
    assert_eq!(via_json, "/friends/1");
    assert_eq!(via_form, "/friends/2");
    let rows = store.list_all();
    assert_eq!(rows.len(), 2);
    assert_eq!(rows[0].name(), rows[1].name());
    assert_eq!(rows[0].email(), rows[1].email());
    assert_ne!(rows[0].id(), rows[1].id());
}

#[test]
fn json_body_takes_precedence_over_form_body() {
    let chosen = choose_body(
        Some(payload("FromJson", "j@x.com")),
        Some(payload("FromForm", "f@x.com")),
    )
    .unwrap();
    assert_eq!(chosen.name, "FromJson");
    assert_eq!(chosen.email, "j@x.com");
}

#[test]
fn create_without_any_body_is_rejected_with_400() {
    let mut store = Store::new();
    let (status, msg) = create_friend(&mut store, None, None).unwrap_err();
    assert_eq!(status, 400);
    assert_eq!(msg, "expected a JSON or form body");
    assert_eq!(store.count(), 0);
}

#[test]
fn add_friend_returns_record_with_assigned_id() {
    let mut store = Store::new();
    let f = add_friend_to_db(&mut store, payload("Bob", "b@y.com")).unwrap();
    assert_eq!(f.id(), 1);
    assert_eq!(f.name().as_str(), "Bob");
    assert_eq!(f.email().as_str(), "b@y.com");
}

#[test]
fn internal_error_is_500_with_the_message() {
    let (status, msg) = internal_error("pool timed out".to_string());
    assert_eq!(status, 500);
    assert_eq!(msg, "pool timed out");
}

#[test]
fn end_to_end_create_then_read_back() {
    let mut store = Store::new();
    let location = create_friend(&mut store, Some(payload("Bob", "b@y.com")), None).unwrap();
    assert_eq!(location, "/friends/1");
    let f = view_friend(&store, 1).unwrap();
    assert_eq!(f.id(), 1);
    assert_eq!(f.name().as_str(), "Bob");
    assert_eq!(f.email().as_str(), "b@y.com");
    let all = view_all_friends(&store).unwrap();
    assert_eq!(all.len(), 1);
    assert_eq!(all[0].id(), 1);
    assert_eq!(all[0].name().as_str(), "Bob");
}

#[test]
fn migrations_apply_once_in_order() {
    let mut log = MigrationLog::new();
    let available = vec![20240101u64, 20240215u64, 20240309u64];
    let applied = log.run_pending(&available);
    assert_eq!(applied, available);
    assert_eq!(log.applied(), &available);
}

#[test]
fn running_migrations_twice_applies_nothing_new() {
    let mut log = MigrationLog::new();
    let available = vec![1u64, 2u64, 3u64];
    let first = log.run_pending(&available);
    assert_eq!(first, vec![1u64, 2u64, 3u64]);
    let second = log.run_pending(&available);
    assert!(second.is_empty());
    assert_eq!(log.applied(), &vec![1u64, 2u64, 3u64]);
}

#[test]
fn only_missing_migrations_are_applied() {
    let mut log = MigrationLog::new();
    let first = log.run_pending(&vec![1u64]);
    assert_eq!(first, vec![1u64]);
    let second = log.run_pending(&vec![1u64, 2u64]);
    assert_eq!(second, vec![2u64]);
    assert!(log.is_applied(1));
    assert!(log.is_applied(2));
    assert!(!log.is_applied(3));
}

#[test]
fn decimal_rendering_is_exact() {
    assert_eq!(dec_string(0), "0");
    assert_eq!(dec_string(7), "7");
    assert_eq!(dec_string(10), "10");
    assert_eq!(dec_string(1234567), "1234567");
    assert_eq!(dec_string(u32::MAX), "4294967295");
}

#[test]
fn friend_path_is_slash_friends_slash_id() {
    assert_eq!(friend_path(1), "/friends/1");
    assert_eq!(friend_path(42), "/friends/42");
    assert_eq!(friend_path(0), "/friends/0");
    assert_eq!(friend_path(i32::MAX), "/friends/2147483647");
}

#[test]
fn friend_accessors_and_duplicate() {
    let f = Friend::new(3, "Cay".to_string(), "c@z.org".to_string());
    assert_eq!(f.id(), 3);
    assert_eq!(f.name().as_str(), "Cay");
    assert_eq!(f.email().as_str(), "c@z.org");
    let d = f.duplicate();
    assert_eq!(d.id(), 3);
    assert_eq!(d.name().as_str(), "Cay");
    assert_eq!(d.email().as_str(), "c@z.org");
}

#[test]
fn list_all_keeps_insertion_order() {
    let mut store = Store::new();
    store.insert(payload("a", "1")).unwrap();
    store.insert(payload("b", "2")).unwrap();
    store.insert(payload("c", "3")).unwrap();
    let rows = store.list_all();
    let names: Vec<&str> = rows.iter().map(|f| f.name().as_str()).collect();
    assert_eq!(names, vec!["a", "b", "c"]);
    assert_eq!(store.count(), 3);
}
