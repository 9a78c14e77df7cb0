use svarozhits::assets::{Asset, MediaType};
use svarozhits::routes::{Method, Outcome, Query, Response};
use svarozhits::service::Service;
use svarozhits::store::TaskStore;
use svarozhits::task::Task;

fn page(service: &mut Service) -> String {
    match service.handle(Method::Get, "/", None) {
        Response::Page { html } => html,
        other => panic!("not a page: {:?}", other),
    }
}

#[test]
fn a_posted_task_is_rendered_as_not_done() {
    let mut service = Service::new(Vec::new());
    let created = service.handle(Method::Post, "/tasks", Some("buy milk"));
    assert_eq!(created, Response::SeeIndex);
    assert_eq!(created.status(), 302);
    let html = page(&mut service);
    assert!(html.contains("buy milk"));
    assert!(html.contains("<li class=\"todo\" data-id=\"1\">buy milk</li>"));
    assert!(!html.contains("class=\"done\""));
}

#[test]
fn a_patched_task_is_rendered_as_done() {
    let mut service = Service::new(Vec::new());
    service.handle(Method::Post, "/tasks", Some("buy milk"));
    assert!(page(&mut service).contains("<li class=\"todo\" data-id=\"1\">buy milk</li>"));
    let patched = service.handle(Method::Patch, "/tasks/1", None);
    assert_eq!(patched, Response::NoContent);
    assert_eq!(patched.status(), 204);
    let html = page(&mut service);
    assert!(html.contains("<li class=\"done\" data-id=\"1\">buy milk</li>"));
    assert!(!html.contains("class=\"todo\""));
    let missing = service.handle(Method::Patch, "/tasks/9999", None);
    assert_eq!(missing, Response::NotFound);
    assert_eq!(missing.status(), 404);
}

#[test]
fn patching_twice_succeeds_twice() {
    let mut service = Service::new(Vec::new());
    service.handle(Method::Post, "/tasks", Some("water plants"));
    assert_eq!(service.handle(Method::Patch, "/tasks/1", None), Response::NoContent);
    let once = page(&mut service);
    assert_eq!(service.handle(Method::Patch, "/tasks/1", None), Response::NoContent);
    assert_eq!(page(&mut service), once);
}

#[test]
fn a_task_is_deleted_once_over_http() {
    let mut service = Service::new(Vec::new());
    let empty = page(&mut service);
    service.handle(Method::Post, "/tasks", Some("short lived"));
    assert_ne!(page(&mut service), empty);
    assert_eq!(service.handle(Method::Delete, "/tasks/1", None), Response::NoContent);
    assert_eq!(page(&mut service), empty);
    assert_eq!(service.handle(Method::Delete, "/tasks/1", None), Response::NotFound);
    assert_eq!(service.handle(Method::Patch, "/tasks/1", None), Response::NotFound);
}

#[test]
fn unknown_and_malformed_task_paths_are_not_found_alike() {
    let mut service = Service::new(Vec::new());
    service.handle(Method::Post, "/tasks", Some("only"));
    let before = page(&mut service);
    for path in ["/tasks/2", "/tasks/0", "/tasks/-1", "/tasks/abc", "/tasks/", "/tasks/1x"] {
        assert_eq!(service.handle(Method::Patch, path, None), Response::NotFound);
        assert_eq!(service.handle(Method::Delete, path, None), Response::NotFound);
    }
    assert_eq!(page(&mut service), before);
}

#[test]
fn an_empty_title_creates_nothing() {
    let mut service = Service::new(Vec::new());
    let empty = page(&mut service);
    let refused = service.handle(Method::Post, "/tasks", Some(""));
    assert_eq!(refused, Response::BadRequest);
    assert_eq!(refused.status(), 400);
    assert_eq!(service.handle(Method::Post, "/tasks", None), Response::BadRequest);
    assert_eq!(page(&mut service), empty);
    assert_eq!(service.handle(Method::Post, "/tasks", Some("first")), Response::SeeIndex);
    assert!(page(&mut service).contains("data-id=\"1\">first</li>"));
}

#[test]
fn assets_are_served_from_the_table() {
    let assets = vec![
        Asset { path: "style.css".to_string(), bytes: b"body { margin: 0 }".to_vec() },
        Asset { path: "img/logo.svg".to_string(), bytes: b"<svg/>".to_vec() },
    ];
    let mut service = Service::new(assets);
    assert_eq!(
        service.handle(Method::Get, "/assets/style.css", None),
        Response::File { media: MediaType::Css, bytes: b"body { margin: 0 }".to_vec() }
    );
    assert_eq!(
        service.handle(Method::Get, "/assets/img/logo.svg", None),
        Response::File { media: MediaType::Svg, bytes: b"<svg/>".to_vec() }
    );
    assert_eq!(service.handle(Method::Get, "/assets/missing.css", None), Response::NotFound);
    assert_eq!(service.handle(Method::Get, "/assets/", None), Response::NotFound);
    assert_eq!(service.handle(Method::Delete, "/assets/style.css", None), Response::NotFound);
}

#[test]
fn unmatched_requests_fall_back_to_not_found() {
    let mut service = Service::new(Vec::new());
    assert_eq!(service.handle(Method::Get, "/nowhere", None), Response::NotFound);
    assert_eq!(service.handle(Method::Other, "/", None), Response::NotFound);
    assert_eq!(service.handle(Method::Post, "/", Some("x")), Response::NotFound);
    assert_eq!(service.handle(Method::Get, "/tasks", None), Response::NotFound);
}

#[test]
fn queries_can_be_put_to_the_stores_directly() {
    let mut service = Service::new(vec![Asset { path: "a.txt".to_string(), bytes: vec![1, 2] }]);
    assert_eq!(
        service.execute(&Query::Create { title: "one".to_string() }),
        Outcome::Created { id: 1 }
    );
    assert_eq!(
        service.execute(&Query::Create { title: "two".to_string() }),
        Outcome::Created { id: 2 }
    );
    assert_eq!(service.execute(&Query::MarkDone { id: 2 }), Outcome::Affected { rows: 1 });
    assert_eq!(service.execute(&Query::MarkDone { id: 3 }), Outcome::Affected { rows: 0 });
    assert_eq!(service.execute(&Query::Delete { id: 1 }), Outcome::Affected { rows: 1 });
    assert_eq!(service.execute(&Query::Delete { id: 1 }), Outcome::Affected { rows: 0 });
    assert_eq!(
        service.execute(&Query::List),
        Outcome::Tasks { tasks: vec![Task { id: 2, title: "two".to_string(), done: true }] }
    );
    assert_eq!(
        service.execute(&Query::Asset { path: "a.txt".to_string() }),
        Outcome::Blob { bytes: Some(vec![1, 2]) }
    );
    assert_eq!(
        service.execute(&Query::Asset { path: "b.txt".to_string() }),
        Outcome::Blob { bytes: None }
    );
}

#[test]
fn titles_with_markup_are_shown_escaped() {
    let mut service = Service::new(Vec::new());
    service.handle(Method::Post, "/tasks", Some("<script>alert(1)</script>"));
    let html = page(&mut service);
    assert!(html.contains("&lt;script&gt;alert(1)&lt;/script&gt;"));
    assert!(!html.contains("<script>alert"));
}

#[test]
fn a_failure_of_the_store_is_answered_with_a_server_error() {
    let store = TaskStore::starting_at(i64::MAX).unwrap();
    let mut service = Service::with_store(store, Vec::new());
    let empty = page(&mut service);
    let failed = service.handle(Method::Post, "/tasks", Some("too late"));
    assert_eq!(failed, Response::ServerError);
    assert_eq!(failed.status(), 500);
    assert_eq!(page(&mut service), empty);
    assert_eq!(
        service.execute(&Query::Create { title: "too late".to_string() }),
        Outcome::Failed
    );
}

#[test]
fn a_service_can_be_built_over_a_store_with_tasks() {
    let mut store = TaskStore::new();
    store.create("already there").unwrap();
    let mut service = Service::with_store(store, Vec::new());
    assert!(page(&mut service).contains("<li class=\"todo\" data-id=\"1\">already there</li>"));
    assert_eq!(service.handle(Method::Post, "/tasks", Some("next")), Response::SeeIndex);
    assert!(page(&mut service).contains("<li class=\"todo\" data-id=\"2\">next</li>"));
}
