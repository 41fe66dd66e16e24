use todo_store::collection::TodoList;
use todo_store::response::{create_outcome, error_response, ok_response, toggle_read_outcome, Body};
use todo_store::todo::Todo;

fn snapshot(l: &TodoList) -> Vec<(String, String, i64, bool)> {
    let mut out: Vec<(String, String, i64, bool)> = l
        .entries()
        .iter()
        .map(|t| (t.id.clone(), t.task.clone(), t.created_at, t.completed))
        .collect();
    out.sort();
    out
}

fn created_todo(body: &Body) -> &Todo {
    match body {
        Body::TodoItem(t) => t,
        _ => panic!("expected a created todo in the body"),
    }
}

fn listing(body: &Body) -> &Vec<Todo> {
    match body {
        Body::Listing(v) => v,
        _ => panic!("expected a listing in the body"),
    }
}

#[test]
fn empty_collection_lists_empty() {
    let l = TodoList::new();
    assert_eq!(l.len(), 0);
    let r = l.list();
    assert_eq!(r.status, 200);
    assert!(listing(&r.body).is_empty());
}

#[test]
fn delete_twice_is_idempotent() {
    let mut l = TodoList::new();
    l.create(String::from("id1"), String::from("water the plants"), 1);
    l.create(String::from("id2"), String::from("call the bank"), 2);
    let key = String::from("id1");
    let r1 = l.delete(&key);
    assert_eq!(r1.status, 200);
    assert!(matches!(r1.body, Body::OkStatus));
    let before = snapshot(&l);
    let r2 = l.delete(&key);
    assert_eq!(r2.status, 200);
    assert!(matches!(r2.body, Body::OkStatus));
    assert_eq!(snapshot(&l), before);
}

#[test]
fn delete_on_empty_collection_is_ok() {
    let mut l = TodoList::new();
    let r = l.delete(&String::from("anything"));
    assert_eq!(r.status, 200);
    assert_eq!(l.len(), 0);
}

#[test]
fn create_then_list_round_trip() {
    let mut l = TodoList::new();
    let r = l.create_now(String::from("buy milk"));
    assert_eq!(r.status, 201);
    let id = created_todo(&r.body).id.clone();
    let listed = l.list();
    let v = listing(&listed.body);
    assert_eq!(v.len(), 1);
    assert_eq!(v[0].task, "buy milk");
    assert!(!v[0].completed);
    assert_eq!(v[0].id, id);
}

#[test]
fn toggle_twice_restores() {
    let mut l = TodoList::new();
    l.create(String::from("t1"), String::from("sweep the floor"), 5);
    let key = String::from("t1");
    assert!(!l.get(&key).unwrap().completed);
    let r1 = l.toggle(&key);
    assert_eq!(r1.status, 200);
    assert!(l.get(&key).unwrap().completed);
    let r2 = l.toggle(&key);
    assert_eq!(r2.status, 200);
    assert!(!l.get(&key).unwrap().completed);
    assert_eq!(l.get(&key).unwrap().task, "sweep the floor");
    assert_eq!(l.get(&key).unwrap().created_at, 5);
}

#[test]
fn created_ids_are_distinct() {
    let mut l = TodoList::new();
    let mut ids: Vec<String> = Vec::new();
    for i in 0..5 {
        let r = l.create_now(format!("task {}", i));
        assert_eq!(r.status, 201);
        ids.push(created_todo(&r.body).id.clone());
    }
    assert_eq!(l.len(), 5);
    for i in 0..ids.len() {
        for j in 0..i {
            assert_ne!(ids[i], ids[j]);
        }
    }
}

#[test]
fn toggle_missing_id_fails() {
    let mut l = TodoList::new();
    l.create(String::from("present"), String::from("feed the cat"), 1);
    let r = l.toggle(&String::from("missing"));
    assert_eq!(r.status, 500);
    assert!(matches!(r.body, Body::ErrorMessage(_)));
    assert!(l.get(&String::from("present")).is_some());
    assert_eq!(l.len(), 1);
}

#[test]
fn generated_id_has_ulid_length() {
    let mut l = TodoList::new();
    let r = l.create_now(String::from("anything"));
    assert_eq!(created_todo(&r.body).id.len(), 26);
}

#[test]
fn create_same_id_overwrites() {
    let mut l = TodoList::new();
    l.create(String::from("k"), String::from("first"), 1);
    l.create(String::from("k"), String::from("second"), 2);
    assert_eq!(l.len(), 1);
    assert_eq!(l.get(&String::from("k")).unwrap().task, "second");
}

#[test]
fn scenario_create_toggle_list_delete() {
    let mut l = TodoList::new();
    let r = l.create_now(String::from("a"));
    assert_eq!(r.status, 201);
    let t = created_todo(&r.body);
    assert_eq!(t.task, "a");
    assert!(!t.completed);
    let id1 = t.id.clone();

    let r2 = l.toggle(&id1);
    assert_eq!(r2.status, 200);
    assert!(matches!(r2.body, Body::OkStatus));

    let r3 = l.list();
    assert_eq!(r3.status, 200);
    assert!(listing(&r3.body).iter().any(|t| t.id == id1 && t.completed));

    let r4 = l.delete(&id1);
    assert_eq!(r4.status, 200);

    let r5 = l.list();
    assert!(listing(&r5.body).iter().all(|t| t.id != id1));
}

#[test]
fn ok_and_error_responses() {
    let ok = ok_response();
    assert_eq!(ok.status, 200);
    assert!(matches!(ok.body, Body::OkStatus));
    let err = error_response(String::from("store is down"));
    assert_eq!(err.status, 500);
    match err.body {
        Body::ErrorMessage(m) => assert_eq!(m, "store is down"),
        _ => panic!("expected an error body"),
    }
}

#[test]
fn create_outcome_follows_store_verdict() {
    let todo = Todo {
        id: String::from("x"),
        task: String::from("write letters"),
        created_at: 3,
        completed: false,
    };
    let ok = create_outcome(todo, true, String::from("unused"));
    assert_eq!(ok.status, 201);
    assert_eq!(created_todo(&ok.body).task, "write letters");

    let todo2 = Todo {
        id: String::from("x"),
        task: String::from("write letters"),
        created_at: 3,
        completed: false,
    };
    let failed = create_outcome(todo2, false, String::from("failed to create todo"));
    assert_eq!(failed.status, 500);
    assert!(matches!(failed.body, Body::ErrorMessage(_)));
}

#[test]
fn toggle_read_outcome_flips_or_fails() {
    let todo = Todo {
        id: String::from("x"),
        task: String::from("water the plants"),
        created_at: 3,
        completed: false,
    };
    let (write, resp) = toggle_read_outcome(Some(todo), String::from("unused"));
    let w = write.unwrap();
    assert!(w.completed);
    assert_eq!(w.task, "water the plants");
    assert_eq!(resp.status, 200);

    let (write2, resp2) = toggle_read_outcome(None, String::from("failed to update todo"));
    assert!(write2.is_none());
    assert_eq!(resp2.status, 500);
    match resp2.body {
        Body::ErrorMessage(m) => assert_eq!(m, "failed to update todo"),
        _ => panic!("expected an error body"),
    }
}
