//! The whole request path in memory: a task store and an asset table behind
//! the route handlers.

use vstd::prelude::*;
use crate::assets::{asset_views, find_asset, lookup, Asset, AssetView};
use crate::decimal::{decimal_text, lemma_parse_inverts_format, parse_i64_spec};
use crate::render::{index_html, lemma_page_shows_every_task, occurs_in, row_html};
use crate::routes::{
    assets_prefix, index_path, plan, plan_spec, respond, respond_spec, task_id_of, task_prefix,
    tasks_path, title_view, Method, Outcome, OutcomeView, Plan, PlanView, Query, QueryView,
    Response, ResponseView,
};
use crate::store::{Op, StoreView, TaskStore};
use crate::task::{valid_title, TaskView};

verus! {

/// The mathematical value of a [`Service`].
pub struct ServiceView {
    pub store: StoreView,
    pub assets: Seq<AssetView>,
}

impl ServiceView {
    /// What the stores come back with for `query`, and the service after it.
    pub open spec fn execute(self, query: QueryView) -> (ServiceView, OutcomeView) {
        match query {
            QueryView::List => (self, OutcomeView::Tasks { tasks: self.store.tasks }),
            QueryView::Create { title } => if self.store.next_id < i64::MAX {
                (
                    ServiceView { store: self.store.create(title), assets: self.assets },
                    OutcomeView::Created { id: self.store.next_id },
                )
            } else {
                (self, OutcomeView::Failed)
            },
            QueryView::MarkDone { id } => (
                ServiceView { store: self.store.mark_done(id), assets: self.assets },
                OutcomeView::Affected {
                    rows: if self.store.contains(id) {
                        1
                    } else {
                        0
                    },
                },
            ),
            QueryView::Delete { id } => (
                ServiceView { store: self.store.delete(id), assets: self.assets },
                OutcomeView::Affected {
                    rows: if self.store.contains(id) {
                        1
                    } else {
                        0
                    },
                },
            ),
            QueryView::Asset { path } => (
                self,
                OutcomeView::Blob { bytes: lookup(self.assets, path) },
            ),
        }
    }

    /// The response to a request, and the service after it.
    pub open spec fn handle(self, method: Method, path: Seq<char>, title: Option<Seq<char>>) -> (
        ServiceView,
        ResponseView,
    ) {
        match plan_spec(method, path, title) {
            PlanView::Respond { response } => (self, response),
            PlanView::Ask { query } => {
                let (after, outcome) = self.execute(query);
                (after, respond_spec(query, outcome))
            },
        }
    }
}

/// The path of the task `id`.
pub open spec fn task_path(id: i64) -> Seq<char> {
    task_prefix() + decimal_text(id as int)
}

/// The path of a task names that task.
pub proof fn lemma_task_path_names_the_task(id: i64)
    ensures
        task_id_of(task_path(id)) == Some(id),
{
    lemma_parse_inverts_format(id);
    assert(task_path(id).subrange(0, task_prefix().len() as int) == task_prefix());
    assert(task_path(id).skip(task_prefix().len() as int) == decimal_text(id as int));
}

impl ServiceView {
    /// A new task is shown: a request that creates a task with a valid title
    /// is answered, unless every identifier has been issued, by a redirect to
    /// the index; the store then holds the new task, and the index page that
    /// the next request gets shows it with that title, as not done.
    pub proof fn lemma_new_task_is_shown(self, title: Seq<char>, any: Option<Seq<char>>)
        requires
            self.store.wf(),
            valid_title(title),
            self.store.next_id < i64::MAX,
        ensures
            self.handle(Method::Post, tasks_path(), Some(title)).1 == ResponseView::SeeIndex,
            self.handle(Method::Post, tasks_path(), Some(title)).0.store == self.store.create(
                title,
            ),
            ({
                let created = self.handle(Method::Post, tasks_path(), Some(title)).0;
                let shown = created.handle(Method::Get, index_path(), any);
                let row = TaskView { id: self.store.next_id, title, done: false };
                &&& shown.0 == created
                &&& shown.1 == ResponseView::Page { html: index_html(created.store.tasks) }
                &&& occurs_in(row_html(row), index_html(created.store.tasks))
            }),
    {
        let created = self.handle(Method::Post, tasks_path(), Some(title)).0;
        self.store.lemma_created_task_is_listed(title);
        lemma_page_shows_every_task(created.store.tasks, self.store.tasks.len() as int);
    }

    /// A title that is missing or empty is refused with 400, and nothing is
    /// created.
    pub proof fn lemma_empty_title_is_refused(self, title: Option<Seq<char>>)
        requires
            title matches Some(t) ==> !valid_title(t),
        ensures
            self.handle(Method::Post, tasks_path(), title) == (self, ResponseView::BadRequest),
    {
    }

    /// A task that does not exist is not found: completing or deleting a task
    /// that the store does not hold is answered with 404, never with a server
    /// error, and changes nothing.
    pub proof fn lemma_unknown_task_is_not_found(self, id: i64, title: Option<Seq<char>>)
        requires
            !self.store.contains(id as int),
        ensures
            self.handle(Method::Patch, task_path(id), title) == (self, ResponseView::NotFound),
            self.handle(Method::Delete, task_path(id), title) == (self, ResponseView::NotFound),
    {
        lemma_task_path_names_the_task(id);
    }

    /// A path whose identifier is not a number is answered like the path of a
    /// task that does not exist: with 404, and nothing changes.
    pub proof fn lemma_malformed_task_is_not_found(
        self,
        segment: Seq<char>,
        title: Option<Seq<char>>,
    )
        requires
            parse_i64_spec(segment) is None,
        ensures
            self.handle(Method::Patch, task_prefix() + segment, title) == (
                self,
                ResponseView::NotFound,
            ),
            self.handle(Method::Delete, task_prefix() + segment, title) == (
                self,
                ResponseView::NotFound,
            ),
    {
        let path = task_prefix() + segment;
        assert(path.subrange(0, task_prefix().len() as int) == task_prefix());
        assert(path.skip(task_prefix().len() as int) == segment);
    }

    /// A completed task is shown as done: completing a task that the store
    /// holds is answered with 204, the index page that the next request gets
    /// shows the task as done, and completing it once more is answered with
    /// 204 again and changes nothing.
    pub proof fn lemma_done_task_is_shown_done(self, id: i64, any: Option<Seq<char>>)
        requires
            self.store.wf(),
            self.store.contains(id as int),
        ensures
            self.handle(Method::Patch, task_path(id), any).1 == ResponseView::NoContent,
            self.handle(Method::Patch, task_path(id), any).0.store == self.store.mark_done(
                id as int,
            ),
            ({
                let marked = self.handle(Method::Patch, task_path(id), any).0;
                let shown = marked.handle(Method::Get, index_path(), any);
                let row = TaskView { done: true, ..self.store.task(id as int) };
                &&& shown.0 == marked
                &&& shown.1 == ResponseView::Page { html: index_html(marked.store.tasks) }
                &&& occurs_in(row_html(row), index_html(marked.store.tasks))
                &&& marked.handle(Method::Patch, task_path(id), any) == (
                    marked,
                    ResponseView::NoContent,
                )
            }),
    {
        lemma_task_path_names_the_task(id);
        let marked = self.handle(Method::Patch, task_path(id), any).0;
        self.store.lemma_mark_done_sets_the_flag(id as int);
        self.store.lemma_mark_done_is_idempotent(id as int);
        lemma_page_shows_every_task(marked.store.tasks, self.store.position(id as int));
    }

    /// A task is deleted once: deleting a task that the store holds is
    /// answered with 204 and takes the task out, and deleting it again is
    /// answered with 404.
    pub proof fn lemma_deleted_task_is_gone(self, id: i64, any: Option<Seq<char>>)
        requires
            self.store.wf(),
            self.store.contains(id as int),
        ensures
            self.handle(Method::Delete, task_path(id), any).1 == ResponseView::NoContent,
            self.handle(Method::Delete, task_path(id), any).0.store == self.store.delete(
                id as int,
            ),
            ({
                let deleted = self.handle(Method::Delete, task_path(id), any).0;
                deleted.handle(Method::Delete, task_path(id), any) == (
                    deleted,
                    ResponseView::NotFound,
                )
            }),
    {
        lemma_task_path_names_the_task(id);
        self.store.lemma_delete_removes_the_row(id as int);
        let deleted = self.handle(Method::Delete, task_path(id), any).0;
        deleted.lemma_unknown_task_is_not_found(id, any);
    }

    /// Whatever the request, the store stays well formed, the assets stay as
    /// they are, and the answer is a server error only when the store failed:
    /// when a task was to be created and every identifier has been issued.
    pub proof fn lemma_requests_keep_the_service_sound(
        self,
        method: Method,
        path: Seq<char>,
        title: Option<Seq<char>>,
    )
        requires
            self.store.wf(),
        ensures
            self.handle(method, path, title).0.store.wf(),
            self.handle(method, path, title).0.store.next_id >= self.store.next_id,
            self.handle(method, path, title).0.assets == self.assets,
            self.handle(method, path, title).1 == ResponseView::ServerError ==> {
                &&& method == Method::Post
                &&& path == tasks_path()
                &&& self.store.next_id >= i64::MAX
                &&& self.handle(method, path, title).0 == self
            },
    {
        match plan_spec(method, path, title) {
            PlanView::Respond { response } => {},
            PlanView::Ask { query } => {
                match query {
                    QueryView::Create { title } => {
                        self.store.lemma_apply_keeps_wf(Op::Create { title });
                    },
                    QueryView::MarkDone { id } => {
                        self.store.lemma_apply_keeps_wf(Op::MarkDone { id });
                    },
                    QueryView::Delete { id } => {
                        self.store.lemma_apply_keeps_wf(Op::Delete { id });
                    },
                    _ => {},
                }
            },
        }
    }

    /// A request that no route takes is answered with 404 and changes
    /// nothing: any method but the four of the table, and any path but the
    /// index and the asset paths for `GET`, the task collection for `POST`,
    /// and a task path for `PATCH` and `DELETE`.
    pub proof fn lemma_unrouted_request_is_not_found(
        self,
        method: Method,
        path: Seq<char>,
        title: Option<Seq<char>>,
    )
        requires
            match method {
                Method::Get => path != index_path() && !assets_prefix().is_prefix_of(path),
                Method::Post => path != tasks_path(),
                Method::Patch | Method::Delete => !task_prefix().is_prefix_of(path),
                Method::Other => true,
            },
        ensures
            self.handle(method, path, title) == (self, ResponseView::NotFound),
    {
    }
}

/// The service with its stores in memory.
pub struct Service {
    store: TaskStore,
    assets: Vec<Asset>,
}

impl View for Service {
    type V = ServiceView;

    closed spec fn view(&self) -> ServiceView {
        ServiceView { store: self.store@, assets: asset_views(self.assets@) }
    }
}

impl Service {
    /// The invariant of the service, which every operation keeps: that of
    /// its task store.
    pub open spec fn wf(&self) -> bool {
        self@.store.wf() && self@.store.next_id <= i64::MAX
    }

    /// A service without tasks that delivers `assets`.
    pub fn new(assets: Vec<Asset>) -> (r: Service)
        ensures
            r.wf(),
            r@.store == StoreView::empty(),
            r@.assets == asset_views(assets@),
    {
        Service { store: TaskStore::new(), assets }
    }

    /// A service over `store` that delivers `assets`.
    pub fn with_store(store: TaskStore, assets: Vec<Asset>) -> (r: Service)
        requires
            store.wf(),
        ensures
            r.wf(),
            r@.store == store@,
            r@.assets == asset_views(assets@),
    {
        Service { store, assets }
    }

    /// Puts `query` to the stores.
    pub fn execute(&mut self, query: &Query) -> (r: Outcome)
        requires
            old(self).wf(),
        ensures
            final(self).wf(),
            (final(self)@, r@) == old(self)@.execute(query@),
    {
        match query {
            Query::List => Outcome::Tasks { tasks: self.store.list() },
            Query::Create { title } => match self.store.create(title.as_str()) {
                Ok(id) => Outcome::Created { id },
                Err(_) => Outcome::Failed,
            },
            Query::MarkDone { id } => {
                let matched = self.store.mark_done(*id);
                Outcome::Affected { rows: if matched { 1 } else { 0 } }
            },
            Query::Delete { id } => {
                let matched = self.store.delete(*id);
                Outcome::Affected { rows: if matched { 1 } else { 0 } }
            },
            Query::Asset { path } => Outcome::Blob { bytes: find_asset(&self.assets, path.as_str()) },
        }
    }

    /// Handles one request: a method, a path, and the `title` field of the
    /// form in its body, if it has one.
    pub fn handle(&mut self, method: Method, path: &str, title: Option<&str>) -> (r: Response)
        requires
            old(self).wf(),
        ensures
            final(self).wf(),
            (final(self)@, r@) == old(self)@.handle(method, path@, title_view(title)),
    {
        match plan(method, path, title) {
            Plan::Respond { response } => response,
            Plan::Ask { query } => {
                let outcome = self.execute(&query);
                respond(&query, outcome)
            },
        }
    }
}

} // verus!
