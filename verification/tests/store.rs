use svarozhits::store::{StoreError, TaskStore};
use svarozhits::task::{title_is_valid, Task};

#[test]
fn a_new_store_lists_nothing() {
    let store = TaskStore::new();
    assert_eq!(store.list(), Vec::<Task>::new());
}

#[test]
fn a_title_is_valid_when_it_is_not_empty() {
    assert!(title_is_valid("buy milk"));
    assert!(title_is_valid(" "));
    assert!(title_is_valid("ü"));
    assert!(!title_is_valid(""));
}

#[test]
fn a_created_task_is_listed_as_not_done() {
    let mut store = TaskStore::new();
    let id = store.create("buy milk").unwrap();
    assert_eq!(id, 1);
    assert_eq!(
        store.list(),
        vec![Task { id: 1, title: "buy milk".to_string(), done: false }]
    );
}

#[test]
fn tasks_are_listed_in_the_order_of_their_creation() {
    let mut store = TaskStore::new();
    assert_eq!(store.create("one"), Ok(1));
    assert_eq!(store.create("two"), Ok(2));
    assert_eq!(store.create("three"), Ok(3));
    let listed = store.list();
    let ids: Vec<i64> = listed.iter().map(|t| t.id).collect();
    let titles: Vec<&str> = listed.iter().map(|t| t.title.as_str()).collect();
    assert_eq!(ids, vec![1, 2, 3]);
    assert_eq!(titles, vec!["one", "two", "three"]);
    assert!(listed.iter().all(|t| !t.done));
}

#[test]
fn an_absent_task_is_not_found() {
    let mut store = TaskStore::new();
    store.create("only").unwrap();
    let before = store.list();
    assert!(!store.mark_done(2));
    assert!(!store.delete(2));
    assert!(!store.mark_done(0));
    assert!(!store.delete(-1));
    assert!(!store.mark_done(i64::MAX));
    assert!(!store.delete(i64::MIN));
    assert_eq!(store.list(), before);
}

#[test]
fn marking_done_twice_leaves_the_task_done() {
    let mut store = TaskStore::new();
    let first = store.create("first").unwrap();
    let second = store.create("second").unwrap();
    assert!(store.mark_done(first));
    let once = store.list();
    assert!(store.mark_done(first));
    assert_eq!(store.list(), once);
    assert_eq!(
        once,
        vec![
            Task { id: first, title: "first".to_string(), done: true },
            Task { id: second, title: "second".to_string(), done: false },
        ]
    );
}

#[test]
fn a_created_task_is_deleted_exactly_once() {
    let mut store = TaskStore::new();
    store.create("keep").unwrap();
    let before = store.list();
    let id = store.create("drop").unwrap();
    assert!(store.delete(id));
    assert_eq!(store.list(), before);
    assert!(!store.delete(id));
    assert_eq!(store.list(), before);
}

#[test]
fn deleting_keeps_the_other_tasks_in_order() {
    let mut store = TaskStore::new();
    for title in ["a", "b", "c", "d"] {
        store.create(title).unwrap();
    }
    assert!(store.mark_done(3));
    assert!(store.delete(2));
    assert_eq!(
        store.list(),
        vec![
            Task { id: 1, title: "a".to_string(), done: false },
            Task { id: 3, title: "c".to_string(), done: true },
            Task { id: 4, title: "d".to_string(), done: false },
        ]
    );
}

#[test]
fn identifiers_are_not_reused_after_deletion() {
    let mut store = TaskStore::new();
    assert_eq!(store.create("a"), Ok(1));
    assert_eq!(store.create("b"), Ok(2));
    assert!(store.delete(2));
    assert_eq!(store.create("c"), Ok(3));
    assert!(store.delete(1));
    assert!(store.delete(3));
    assert_eq!(store.create("d"), Ok(4));
    assert!(!store.mark_done(1));
    assert!(!store.mark_done(2));
    assert!(!store.mark_done(3));
    assert_eq!(store.list(), vec![Task { id: 4, title: "d".to_string(), done: false }]);
}

#[test]
fn a_done_task_stays_done_whatever_follows() {
    let mut store = TaskStore::new();
    let id = store.create("laundry").unwrap();
    assert!(store.mark_done(id));
    store.create("other").unwrap();
    assert!(store.mark_done(2));
    assert!(store.delete(2));
    assert!(store.mark_done(id));
    store.create("third").unwrap();
    let listed = store.list();
    assert_eq!(listed[0], Task { id, title: "laundry".to_string(), done: true });
}

#[test]
fn many_creations_give_as_many_distinct_rows() {
    let titles: Vec<String> = (0..200).map(|k| format!("task {}", (k * 37) % 200)).collect();
    let mut store = TaskStore::new();
    let mut ids = Vec::new();
    for title in &titles {
        ids.push(store.create(title).unwrap());
    }
    let listed = store.list();
    assert_eq!(listed.len(), 200);
    for (k, task) in listed.iter().enumerate() {
        assert_eq!(task.id, ids[k]);
        assert_eq!(task.id, k as i64 + 1);
        assert_eq!(task.title, titles[k]);
        assert!(!task.done);
    }
    let mut seen = ids.clone();
    seen.sort();
    seen.dedup();
    assert_eq!(seen.len(), 200);
    let mut listed_titles: Vec<&str> = listed.iter().map(|t| t.title.as_str()).collect();
    listed_titles.sort();
    listed_titles.dedup();
    assert_eq!(listed_titles.len(), 200);
}

#[test]
fn a_task_can_be_cloned() {
    let task = Task { id: 5, title: "copy me".to_string(), done: true };
    assert_eq!(task.clone(), task);
}

#[test]
fn a_store_can_start_at_a_later_identifier() {
    let mut store = TaskStore::starting_at(41).unwrap();
    assert_eq!(store.list(), Vec::<Task>::new());
    assert_eq!(store.create("a"), Ok(41));
    assert_eq!(store.create("b"), Ok(42));
    assert!(TaskStore::starting_at(1).is_some());
    assert!(TaskStore::starting_at(0).is_none());
    assert!(TaskStore::starting_at(-7).is_none());
}

#[test]
fn a_store_that_has_issued_every_identifier_is_full() {
    let mut store = TaskStore::starting_at(i64::MAX - 1).unwrap();
    assert_eq!(store.create("last"), Ok(i64::MAX - 1));
    let before = store.list();
    assert_eq!(store.create("one too many"), Err(StoreError::Full));
    assert_eq!(store.create("still too many"), Err(StoreError::Full));
    assert_eq!(store.list(), before);
    assert!(store.mark_done(i64::MAX - 1));
    assert!(store.delete(i64::MAX - 1));
    assert_eq!(store.create("no way back"), Err(StoreError::Full));
}
