use student_list::{
    check_body, delete_student_list_item, get_student_list, update_student_list, Id, Item,
    Records, Rejection, Reply, Request, Status, Store, ADDED_TEXT, MAX_BODY_BYTES, REMOVED_TEXT,
};

fn s(text: &str) -> String {
    text.to_string()
}

fn item(name: &str, branch: &str) -> Item {
    Item { name: s(name), branch: s(branch) }
}

fn sorted(records: &Records) -> Vec<(String, String)> {
    let mut v = records.to_vec();
    v.sort();
    v
}

fn listing(reply: Reply) -> Records {
    match reply {
        Reply::Listing(records) => records,
        _ => panic!("expected a listing"),
    }
}

#[test]
fn upsert_twice_keeps_last_branch() {
    let store = Store::new();
    store.put(s("alice"), s("cs"));
    store.put(s("alice"), s("ee"));
    let snap = store.snapshot();
    assert_eq!(sorted(&snap), vec![(s("alice"), s("ee"))]);
    assert_eq!(snap.get(&s("alice")), Some(s("ee")));
}

#[test]
fn upsert_replaces_only_its_name() {
    let mut r = Records::new();
    r.put(s("alice"), s("cs"));
    r.put(s("bob"), s("me"));
    r.put(s("alice"), s("ee"));
    assert_eq!(sorted(&r), vec![(s("alice"), s("ee")), (s("bob"), s("me"))]);
}

#[test]
fn delete_absent_name_is_noop() {
    let store = Store::new();
    store.put(s("alice"), s("cs"));
    let reply = delete_student_list_item(Id { name: s("carol") }, store.clone());
    assert_eq!(reply.status(), Status::Success);
    match reply {
        Reply::Message { status, text } => {
            assert_eq!(status.code(), 200);
            assert_eq!(text, REMOVED_TEXT);
        }
        _ => panic!("expected a message"),
    }
    assert_eq!(sorted(&store.snapshot()), vec![(s("alice"), s("cs"))]);
}

#[test]
fn delete_on_empty_records() {
    let mut r = Records::new();
    r.delete(&s("nobody"));
    assert!(r.to_vec().is_empty());
}

#[test]
fn snapshot_reflects_prior_put() {
    let store = Store::new();
    store.put(s("alice"), s("cs"));
    let snap = store.snapshot();
    assert_eq!(snap.get(&s("alice")), Some(s("cs")));
}

#[test]
fn snapshot_is_isolated_from_later_put() {
    let store = Store::new();
    let before = store.snapshot();
    store.put(s("alice"), s("cs"));
    assert_eq!(before.get(&s("alice")), None);
    assert!(before.to_vec().is_empty());
    assert_eq!(store.snapshot().get(&s("alice")), Some(s("cs")));
}

#[test]
fn records_snapshot_is_independent_copy() {
    let mut r = Records::new();
    r.put(s("a"), s("x"));
    let copy = r.snapshot();
    r.put(s("a"), s("y"));
    r.delete(&s("a"));
    assert_eq!(copy.get(&s("a")), Some(s("x")));
    assert_eq!(r.get(&s("a")), None);
}

#[test]
fn round_trip_bob() {
    let store = Store::new();
    let reply = update_student_list(item("bob", "ee"), store.clone());
    match reply {
        Reply::Message { status, text } => {
            assert_eq!(status, Status::Created);
            assert_eq!(status.code(), 201);
            assert_eq!(text, ADDED_TEXT);
        }
        _ => panic!("expected a message"),
    }
    let listed = listing(get_student_list(store.clone()));
    assert_eq!(listed.get(&s("bob")), Some(s("ee")));
    let reply = delete_student_list_item(Id { name: s("bob") }, store.clone());
    assert_eq!(reply.status(), Status::Success);
    let listed = listing(get_student_list(store.clone()));
    assert_eq!(listed.get(&s("bob")), None);
}

#[test]
fn list_of_empty_store_is_empty() {
    let store = Store::new();
    let reply = get_student_list(store);
    assert_eq!(reply.status(), Status::Success);
    assert!(listing(reply).to_vec().is_empty());
}

#[test]
fn clones_share_one_mapping() {
    let store = Store::new();
    let other = store.clone();
    other.put(s("dana"), s("civil"));
    assert_eq!(store.snapshot().get(&s("dana")), Some(s("civil")));
}

#[test]
fn puts_in_any_order_converge() {
    let names = ["a", "b", "c", "d", "e"];
    let forward = Store::new();
    for n in names.iter() {
        forward.put(s(n), format!("branch-{}", n));
    }
    let backward = Store::new();
    for n in names.iter().rev() {
        backward.put(s(n), format!("branch-{}", n));
    }
    let f = sorted(&forward.snapshot());
    assert_eq!(f, sorted(&backward.snapshot()));
    assert_eq!(f.len(), 5);
    for (i, n) in names.iter().enumerate() {
        assert_eq!(f[i], (s(n), format!("branch-{}", n)));
    }
}

#[test]
fn concurrent_writers_converge() {
    let store = Store::new();
    let rt = tokio::runtime::Runtime::new().unwrap();
    let mut handles = Vec::new();
    for i in 0..16 {
        let handle = store.clone();
        handles.push(rt.spawn_blocking(move || {
            handle.put(format!("student{}", i), format!("branch{}", i));
        }));
    }
    for h in handles {
        rt.block_on(h).unwrap();
    }
    let snap = store.snapshot();
    assert_eq!(snap.to_vec().len(), 16);
    for i in 0..16 {
        assert_eq!(snap.get(&format!("student{}", i)), Some(format!("branch{}", i)));
    }
}

#[test]
fn oversized_body_is_rejected_without_change() {
    let store = Store::new();
    store.put(s("alice"), s("cs"));
    let reply = store.serve(Some(MAX_BODY_BYTES + 1), Some(Request::Upsert(item("eve", "x"))));
    assert_eq!(reply.status(), Status::PayloadTooLarge);
    assert_eq!(reply.status().code(), 413);
    assert!(reply.status().is_client_error());
    assert_eq!(sorted(&store.snapshot()), vec![(s("alice"), s("cs"))]);
}

#[test]
fn malformed_body_is_rejected_without_change() {
    let store = Store::new();
    store.put(s("alice"), s("cs"));
    let reply = store.serve(Some(20), None);
    assert!(matches!(reply, Reply::Rejected(Rejection::Malformed)));
    assert_eq!(reply.status().code(), 400);
    assert!(reply.status().is_client_error());
    assert_eq!(sorted(&store.snapshot()), vec![(s("alice"), s("cs"))]);
}

#[test]
fn records_serve_refuses_without_change() {
    let mut r = Records::new();
    r.put(s("a"), s("x"));
    let reply = r.serve(Some(MAX_BODY_BYTES + 100), Some(Request::Remove(Id { name: s("a") })));
    assert!(matches!(reply, Reply::Rejected(Rejection::TooLarge)));
    assert_eq!(r.get(&s("a")), Some(s("x")));
    let reply = r.serve(Some(10), Some(Request::Remove(Id { name: s("a") })));
    assert_eq!(reply.status(), Status::Success);
    assert_eq!(r.get(&s("a")), None);
}

#[test]
fn body_limit_boundary() {
    assert_eq!(MAX_BODY_BYTES, 16384);
    assert!(check_body(Some(16384), Some(Request::List)).is_ok());
    assert!(matches!(check_body(Some(16385), Some(Request::List)), Err(Rejection::TooLarge)));
    assert!(matches!(check_body(Some(16385), None), Err(Rejection::TooLarge)));
    assert!(matches!(check_body(Some(0), None), Err(Rejection::Malformed)));
    assert!(matches!(check_body(None, Some(Request::List)), Err(Rejection::NoLength)));
}

#[test]
fn body_without_length_is_rejected_without_change() {
    let store = Store::new();
    store.put(s("alice"), s("cs"));
    let reply = store.serve(None, Some(Request::Remove(Id { name: s("alice") })));
    assert!(matches!(reply, Reply::Rejected(Rejection::NoLength)));
    assert_eq!(reply.status().code(), 411);
    assert!(reply.status().is_client_error());
    assert_eq!(sorted(&store.snapshot()), vec![(s("alice"), s("cs"))]);
}

#[test]
fn status_codes_and_classes() {
    assert_eq!(Status::Success.code(), 200);
    assert_eq!(Status::Created.code(), 201);
    assert_eq!(Status::BadRequest.code(), 400);
    assert_eq!(Status::LengthRequired.code(), 411);
    assert_eq!(Status::PayloadTooLarge.code(), 413);
    assert!(!Status::Success.is_client_error());
    assert!(!Status::Created.is_client_error());
    assert_eq!(Rejection::TooLarge.status(), Status::PayloadTooLarge);
    assert_eq!(Rejection::Malformed.status(), Status::BadRequest);
    assert_eq!(Rejection::NoLength.status(), Status::LengthRequired);
}

#[test]
fn apply_list_gives_copy() {
    let mut r = Records::new();
    r.apply(Request::Upsert(item("x", "1")));
    let reply = r.apply(Request::List);
    assert_eq!(reply.status(), Status::Success);
    let copy = listing(reply);
    r.apply(Request::Remove(Id { name: s("x") }));
    assert_eq!(copy.get(&s("x")), Some(s("1")));
    assert_eq!(r.get(&s("x")), None);
}

#[test]
fn handle_upsert_and_remove() {
    let store = Store::new();
    let reply = store.handle(Request::Upsert(item("kim", "it")));
    assert_eq!(reply.status(), Status::Created);
    assert_eq!(store.snapshot().get(&s("kim")), Some(s("it")));
    store.delete(&s("kim"));
    assert!(store.snapshot().to_vec().is_empty());
}
